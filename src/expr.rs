//! Expression rules: operands, array literals and ranges, index access, and
//! operator expressions, which associate to the right.
use vstd::prelude::*;

use crate::ast::{
    Ast, AstModel, ArithmeticOperator, BinaryOperator, Datatype, Parsed, SExprModel, SExpression,
    TypeInfo, ValueModel, parsed, list_view, type_of, values_view, lemma_list_view, lemma_values_view,
};
use crate::error::LangError;
use crate::lexer::{
    literal_value_rule, literal_rule, identifier_rule, number_literal_rule, token_end,
    binary_operator_rule, unary_operator_rule, literal_value, literal, identifier, number_literal,
    token, byte_token, binary_operator, unary_operator,
};

verus! {

/// Ordered choice: the second rule is tried only when the first does not match.
/// Other failures, such as a type mismatch, are final.
pub open spec fn alt(a: Parsed, b: Parsed) -> Parsed {
    match a {
        Err(LangError::InvalidSyntax) => b,
        _ => a,
    }
}

pub open spec fn no_match(r: Result<(Ast, usize), LangError>) -> bool {
    r matches Err(LangError::InvalidSyntax)
}

/// Whether a rule merely failed to match, so that the next alternative may be tried.
pub fn is_no_match(r: &Result<(Ast, usize), LangError>) -> (b: bool)
    ensures
        b == no_match(*r),
{
    match r {
        Err(LangError::InvalidSyntax) => true,
        _ => false,
    }
}

pub open spec fn is_binary(op: ArithmeticOperator) -> bool {
    !(op is Increment || op is Decrement || op is Negate)
}

/// The node an operator builds from its operands.
pub open spec fn sexpr_model(op: ArithmeticOperator, l: AstModel, r: Option<AstModel>) -> AstModel {
    let a = Box::new(l);
    let b = Box::new(r.unwrap());
    AstModel::SExpr(
        match op {
            ArithmeticOperator::Plus => SExprModel::Add(a, b),
            ArithmeticOperator::Minus => SExprModel::Subtract(a, b),
            ArithmeticOperator::Times => SExprModel::Multiply(a, b),
            ArithmeticOperator::Divide => SExprModel::Divide(a, b),
            ArithmeticOperator::Modulo => SExprModel::Modulo(a, b),
            ArithmeticOperator::Equals => SExprModel::Equals(a, b),
            ArithmeticOperator::NotEquals => SExprModel::NotEquals(a, b),
            ArithmeticOperator::GreaterThan => SExprModel::GreaterThan(a, b),
            ArithmeticOperator::LessThan => SExprModel::LessThan(a, b),
            ArithmeticOperator::GreaterThanOrEqual => SExprModel::GreaterThanOrEqual(a, b),
            ArithmeticOperator::LessThanOrEqual => SExprModel::LessThanOrEqual(a, b),
            ArithmeticOperator::Increment => SExprModel::Increment(a),
            ArithmeticOperator::Decrement => SExprModel::Decrement(a),
            ArithmeticOperator::Negate => SExprModel::Invert(a),
        },
    )
}

pub open spec fn option_view(r: Option<Ast>) -> Option<AstModel> {
    match r {
        Some(a) => Some(a@),
        None => None,
    }
}

/// Builds the node of an operator; a binary operator needs its right operand.
pub fn create_sexpr(operator: ArithmeticOperator, lhs: Ast, rhs: Option<Ast>) -> (r: Ast)
    requires
        is_binary(operator) ==> rhs is Some,
    ensures
        r@ == sexpr_model(operator, lhs@, option_view(rhs)),
{
    proof {
        reveal_with_fuel(Ast::view, 2);
    }
    let a = Box::new(lhs);
    match operator {
        ArithmeticOperator::Increment => Ast::SExpr(SExpression::Increment(a)),
        ArithmeticOperator::Decrement => Ast::SExpr(SExpression::Decrement(a)),
        ArithmeticOperator::Negate => Ast::SExpr(SExpression::Invert(a)),
        _ => {
            let b = Box::new(rhs.unwrap());
            Ast::SExpr(
                match operator {
                    ArithmeticOperator::Plus => SExpression::Add(a, b),
                    ArithmeticOperator::Minus => SExpression::Subtract(a, b),
                    ArithmeticOperator::Times => SExpression::Multiply(a, b),
                    ArithmeticOperator::Divide => SExpression::Divide(a, b),
                    ArithmeticOperator::Modulo => SExpression::Modulo(a, b),
                    ArithmeticOperator::Equals => SExpression::Equals(a, b),
                    ArithmeticOperator::NotEquals => SExpression::NotEquals(a, b),
                    ArithmeticOperator::GreaterThan => SExpression::GreaterThan(a, b),
                    ArithmeticOperator::LessThan => SExpression::LessThan(a, b),
                    ArithmeticOperator::GreaterThanOrEqual => SExpression::GreaterThanOrEqual(a, b),
                    _ => SExpression::LessThanOrEqual(a, b),
                },
            )
        },
    }
}

/// Literals after the first, each behind a comma; stops before a comma
/// that no literal follows.
pub open spec fn more_values_rule(s: Seq<u8>, pos: int) -> (Seq<ValueModel>, int)
    decreases s.len() - pos,
{
    match token_end(s, pos, seq![44u8]) {  // ,
        Some(k1) => match literal_value_rule(s, k1) {
            Some((v, k2)) => if pos < k2 <= s.len() {
                let (rest, e) = more_values_rule(s, k2);
                (seq![v] + rest, e)
            } else {
                (seq![], pos)
            },
            None => (seq![], pos),
        },
        None => (seq![], pos),
    }
}

/// A comma-separated list of at least one literal.
pub open spec fn array_values_rule(s: Seq<u8>, pos: int) -> Option<(Seq<ValueModel>, int)> {
    match literal_value_rule(s, pos) {
        Some((v, k1)) => {
            let (rest, e) = more_values_rule(s, k1);
            Some((seq![v] + rest, e))
        },
        None => None,
    }
}

/// Index of the first value whose kind is not `t`, from `i` on; the length when none.
pub open spec fn first_mismatch(vals: Seq<ValueModel>, t: TypeInfo, i: int) -> int
    decreases vals.len() - i,
{
    if 0 <= i < vals.len() && type_of(vals[i]) == t {
        first_mismatch(vals, t, i + 1)
    } else {
        i
    }
}

/// The array a literal list makes: its kind is that of the first element,
/// and an element of another kind is a type error.
pub open spec fn homogeneous_array(vals: Seq<ValueModel>) -> Result<ValueModel, LangError> {
    let t = type_of(vals[0]);
    let m = first_mismatch(vals, t, 0);
    if m < vals.len() {
        Err(LangError::TypeError { expected: t, found: type_of(vals[m]) })
    } else {
        Ok(ValueModel::Array(vals, t))
    }
}

/// `[` literals `]`, all of one kind.
pub open spec fn array_literal_rule(s: Seq<u8>, pos: int) -> Parsed {
    match token_end(s, pos, seq![91u8]) {  // [
        Some(k1) => match array_values_rule(s, k1) {
            Some((vals, k2)) => match token_end(s, k2, seq![93u8]) {  // ]
                Some(k3) => match homogeneous_array(vals) {
                    Ok(a) => Ok((AstModel::Literal(a), k3)),
                    Err(e) => Err(e),
                },
                None => Err(LangError::InvalidSyntax),
            },
            None => Err(LangError::InvalidSyntax),
        },
        None => Err(LangError::InvalidSyntax),
    }
}

/// `(` operator expression `)`.
pub open spec fn sexpr_parens_rule(s: Seq<u8>, pos: int) -> Parsed
    decreases s.len() - pos, 0nat,
{
    match token_end(s, pos, seq![40u8]) {  // (
        Some(k1) => if pos < k1 <= s.len() {
            match sexpr_rule(s, k1) {
                Ok((a, k2)) => match token_end(s, k2, seq![41u8]) {  // )
                    Some(k3) => Ok((a, k3)),
                    None => Err(LangError::InvalidSyntax),
                },
                Err(e) => Err(e),
            }
        } else {
            Err(LangError::InvalidSyntax)
        },
        None => Err(LangError::InvalidSyntax),
    }
}

/// `[` start `..` end `]`, two expressions whose values are checked when evaluated.
pub open spec fn array_range_rule(s: Seq<u8>, pos: int) -> Parsed
    decreases s.len() - pos, 0nat,
{
    match token_end(s, pos, seq![91u8]) {  // [
        Some(k1) => if pos < k1 <= s.len() {
            match expression_rule(s, k1) {
                Ok((a, k2)) => match token_end(s, k2, seq![46u8, 46u8]) {  // ..
                    Some(k3) => if pos < k3 <= s.len() {
                        match expression_rule(s, k3) {
                            Ok((b, k4)) => match token_end(s, k4, seq![93u8]) {  // ]
                                Some(k5) => Ok(
                                    (AstModel::SExpr(SExprModel::Range(Box::new(a), Box::new(b))), k5),
                                ),
                                None => Err(LangError::InvalidSyntax),
                            },
                            Err(e) => Err(e),
                        }
                    } else {
                        Err(LangError::InvalidSyntax)
                    },
                    None => Err(LangError::InvalidSyntax),
                },
                Err(e) => Err(e),
            }
        } else {
            Err(LangError::InvalidSyntax)
        },
        None => Err(LangError::InvalidSyntax),
    }
}

/// A single operand: literal, array literal, range, identifier or parenthesised expression.
pub open spec fn base_operand_rule(s: Seq<u8>, pos: int) -> Parsed
    decreases s.len() - pos, 1nat,
{
    alt(
        literal_rule(s, pos),
        alt(
            array_literal_rule(s, pos),
            alt(
                array_range_rule(s, pos),
                alt(identifier_rule(s, pos), sexpr_parens_rule(s, pos)),
            ),
        ),
    )
}

/// An operand followed by `[` number `]`.
pub open spec fn array_access_rule(s: Seq<u8>, pos: int) -> Parsed
    decreases s.len() - pos, 2nat,
{
    match base_operand_rule(s, pos) {
        Ok((b, k1)) => match token_end(s, k1, seq![91u8]) {  // [
            Some(k2) => match number_literal_rule(s, k2) {
                Ok((i, k3)) => match token_end(s, k3, seq![93u8]) {  // ]
                    Some(k4) => Ok(
                        (AstModel::Expression(BinaryOperator::AccessArray, Box::new(b), Box::new(i)), k4),
                    ),
                    None => Err(LangError::InvalidSyntax),
                },
                Err(e) => Err(e),
            },
            None => Err(LangError::InvalidSyntax),
        },
        Err(e) => Err(e),
    }
}

pub open spec fn operand_rule(s: Seq<u8>, pos: int) -> Parsed
    decreases s.len() - pos, 3nat,
{
    alt(array_access_rule(s, pos), base_operand_rule(s, pos))
}

/// A postfix operator after an operand already read.
pub open spec fn postfix_rule(s: Seq<u8>, l: AstModel, k1: int) -> Parsed {
    match unary_operator_rule(s, k1) {
        Some((op, k2)) => Ok((sexpr_model(op, l, None), k2)),
        None => Err(LangError::InvalidSyntax),
    }
}

/// An operand and a binary operator with a whole expression on its right,
/// else an operand and a postfix operator, else `!` and an operand.
pub open spec fn sexpr_rule(s: Seq<u8>, pos: int) -> Parsed
    decreases s.len() - pos, 4nat,
{
    let infix = match operand_rule(s, pos) {
        Ok((l, k1)) => match binary_operator_rule(s, k1) {
            Some((op, k2)) => if pos < k2 <= s.len() {
                match expression_rule(s, k2) {
                    Ok((r, k3)) => Ok((sexpr_model(op, l, Some(r)), k3)),
                    Err(LangError::InvalidSyntax) => postfix_rule(s, l, k1),
                    Err(e) => Err(e),
                }
            } else {
                Err(LangError::InvalidSyntax)
            },
            None => postfix_rule(s, l, k1),
        },
        Err(e) => Err(e),
    };
    let negate = match token_end(s, pos, seq![33u8]) {  // !
        Some(k1) => if pos < k1 <= s.len() {
            match operand_rule(s, k1) {
                Ok((l, k2)) => Ok((sexpr_model(ArithmeticOperator::Negate, l, None), k2)),
                Err(e) => Err(e),
            }
        } else {
            Err(LangError::InvalidSyntax)
        },
        None => Err(LangError::InvalidSyntax),
    };
    alt(infix, negate)
}

/// An operator expression, else a lone operand.
pub open spec fn expression_rule(s: Seq<u8>, pos: int) -> Parsed
    decreases s.len() - pos, 5nat,
{
    alt(sexpr_rule(s, pos), operand_rule(s, pos))
}

pub open spec fn literal_nodes(vals: Seq<ValueModel>) -> Seq<AstModel> {
    vals.map_values(|v: ValueModel| AstModel::Literal(v))
}

pub open spec fn values_parsed(r: Option<(Vec<Ast>, usize)>) -> Option<(Seq<AstModel>, int)> {
    match r {
        Some((v, e)) => Some((list_view(v@), e as int)),
        None => None,
    }
}

fn more_values(s: &[u8], pos: usize, items: &mut Vec<Ast>) -> (e: usize)
    requires
        pos <= s@.len(),
    ensures
        list_view(final(items)@) == list_view(old(items)@) + literal_nodes(more_values_rule(s@, pos as int).0),
        e as int == more_values_rule(s@, pos as int).1,
        pos <= e <= s@.len(),
    decreases s@.len() - pos,
{
    let ghost start = list_view(items@);
    match byte_token(s, pos, 44) {  // ,
        Some(k1) => match literal_value(s, k1) {
            Some((v, k2)) => {
                items.push(Ast::Literal(v));
                let ghost mid = list_view(items@);
                assert(mid =~= start + seq![AstModel::Literal(v@)]);
                let e = more_values(s, k2, items);
                let ghost rest = more_values_rule(s@, k2 as int).0;
                assert(literal_nodes(seq![v@] + rest) =~= seq![AstModel::Literal(v@)] + literal_nodes(rest));
                assert(list_view(items@) =~= start + literal_nodes(seq![v@] + rest));
                e
            },
            None => {
                assert(literal_nodes(seq![]) =~= seq![]);
                assert(list_view(items@) =~= start + seq![]);
                pos
            },
        },
        None => {
            assert(literal_nodes(seq![]) =~= seq![]);
            assert(list_view(items@) =~= start + seq![]);
            pos
        },
    }
}

/// A comma-separated list of at least one literal, as literal nodes.
pub fn array_values(s: &[u8], pos: usize) -> (r: Option<(Vec<Ast>, usize)>)
    requires
        pos <= s@.len(),
    ensures
        values_parsed(r) == match array_values_rule(s@, pos as int) {
            Some((vals, e)) => Some((literal_nodes(vals), e)),
            None => None,
        },
        r matches Some((_, e)) ==> pos < e <= s@.len(),
{
    match literal_value(s, pos) {
        Some((v, k1)) => {
            let mut items: Vec<Ast> = Vec::new();
            items.push(Ast::Literal(v));
            assert(list_view(items@) =~= seq![AstModel::Literal(v@)]);
            let e = more_values(s, k1, &mut items);
            let ghost rest = more_values_rule(s@, k1 as int).0;
            assert(literal_nodes(seq![v@] + rest) =~= seq![AstModel::Literal(v@)] + literal_nodes(rest));
            Some((items, e))
        },
        None => None,
    }
}

/// The kind shared by all values, or the type error of the first that differs.
fn check_homogeneous(values: &Vec<Datatype>) -> (r: Result<TypeInfo, LangError>)
    requires
        values@.len() > 0,
    ensures
        match homogeneous_array(values_view(values@)) {
            Ok(a) => r == Ok::<TypeInfo, LangError>(a->Array_1),
            Err(e) => r == Err::<TypeInfo, LangError>(e),
        },
{
    let ghost vals = values_view(values@);
    let t = values[0].type_info();
    let mut i: usize = 0;
    while i < values.len()
        invariant
            0 <= i <= values@.len(),
            vals == values_view(values@),
            t == type_of(vals[0]),
            first_mismatch(vals, t, i as int) == first_mismatch(vals, t, 0),
        decreases values@.len() - i,
    {
        let k = values[i].type_info();
        if k != t {
            return Err(LangError::TypeError { expected: t, found: k });
        }
        i = i + 1;
    }
    Ok(t)
}

/// `[` literals `]`, all of one kind.
pub fn array_literal(s: &[u8], pos: usize) -> (r: Result<(Ast, usize), LangError>)
    requires
        pos <= s@.len(),
    ensures
        parsed(r) == array_literal_rule(s@, pos as int),
        r matches Ok((_, e)) ==> pos < e <= s@.len(),
{
    let k1 = match byte_token(s, pos, 91) {  // [
        Some(p) => p,
        None => return Err(LangError::InvalidSyntax),
    };
    let (mut items, k2) = match array_values(s, k1) {
        Some(x) => x,
        None => return Err(LangError::InvalidSyntax),
    };
    let k3 = match byte_token(s, k2, 93) {  // ]
        Some(p) => p,
        None => return Err(LangError::InvalidSyntax),
    };
    let ghost vals = match array_values_rule(s@, k1 as int) {
        Some((v, _)) => v,
        None => seq![],
    };
    let ghost n = items@.len();
    let mut values: Vec<Datatype> = Vec::new();
    assert(list_view(items@).len() == n);
    assert(literal_nodes(vals).len() == vals.len());
    assert(literal_nodes(vals).subrange(0, n as int) =~= literal_nodes(vals));
    assert(values_view(values@) =~= vals.subrange(0, 0));
    while items.len() > 0
        invariant
            list_view(items@) == literal_nodes(vals).subrange(values@.len() as int, n as int),
            values_view(values@) == vals.subrange(0, values@.len() as int),
            values@.len() + items@.len() == n,
            n == vals.len(),
        decreases items@.len(),
    {
        let ghost before = items@;
        let ghost k = values@.len() as int;
        let a = items.remove(0);
        assert(items@ =~= before.subrange(1, before.len() as int));
        assert(a == before[0]);
        assert(list_view(before)[0] == a@);
        assert(a@ == literal_nodes(vals)[k]);
        assert forall|j: int| 0 <= j < items@.len() implies list_view(items@)[j]
            == literal_nodes(vals).subrange(k + 1, n as int)[j] by {
            assert(items@[j] == before[j + 1]);
            assert(list_view(before)[j + 1] == before[j + 1]@);
            assert(literal_nodes(vals).subrange(k, n as int)[j + 1] == literal_nodes(vals)[k + 1 + j]);
        }
        assert(list_view(items@) =~= literal_nodes(vals).subrange(k + 1, n as int));
        match a {
            Ast::Literal(d) => {
                assert(literal_nodes(vals)[k] == AstModel::Literal(vals[k]));
                assert(d@ == vals[k]);
                values.push(d);
                assert(values_view(values@) =~= vals.subrange(0, values@.len() as int));
            },
            _ => {
                assert(literal_nodes(vals)[k] == AstModel::Literal(vals[k]));
                return Err(LangError::ParserShouldHaveRejected);
            },
        }
    }
    assert(values_view(values@) =~= vals);
    match check_homogeneous(&values) {
        Ok(t) => {
            proof {
                lemma_values_view(values, t);
                reveal_with_fuel(Ast::view, 2);
            }
            Ok((Ast::Literal(Datatype::Array { value: values, type_: t }), k3))
        },
        Err(e) => Err(e),
    }
}

/// `(` operator expression `)`.
pub fn sexpr_parens(s: &[u8], pos: usize) -> (r: Result<(Ast, usize), LangError>)
    requires
        pos <= s@.len(),
    ensures
        parsed(r) == sexpr_parens_rule(s@, pos as int),
        r matches Ok((_, e)) ==> pos < e <= s@.len(),
    decreases s@.len() - pos, 0nat,
{
    let k1 = match byte_token(s, pos, 40) {  // (
        Some(p) => p,
        None => return Err(LangError::InvalidSyntax),
    };
    let (a, k2) = match sexpr(s, k1) {
        Ok(x) => x,
        Err(e) => return Err(e),
    };
    match byte_token(s, k2, 41) {  // )
        Some(k3) => Ok((a, k3)),
        None => Err(LangError::InvalidSyntax),
    }
}

/// `[` start `..` end `]`.
pub fn array_range(s: &[u8], pos: usize) -> (r: Result<(Ast, usize), LangError>)
    requires
        pos <= s@.len(),
    ensures
        parsed(r) == array_range_rule(s@, pos as int),
        r matches Ok((_, e)) ==> pos < e <= s@.len(),
    decreases s@.len() - pos, 0nat,
{
    let k1 = match byte_token(s, pos, 91) {  // [
        Some(p) => p,
        None => return Err(LangError::InvalidSyntax),
    };
    let (a, k2) = match expression(s, k1) {
        Ok(x) => x,
        Err(e) => return Err(e),
    };
    let k3 = match token(s, k2, &[46u8, 46]) {  // ..
        Some(p) => p,
        None => return Err(LangError::InvalidSyntax),
    };
    assert(token_end(s@, k2 as int, seq![46u8, 46u8]) == Some(k3 as int));
    let (b, k4) = match expression(s, k3) {
        Ok(x) => x,
        Err(e) => return Err(e),
    };
    match byte_token(s, k4, 93) {  // ]
        Some(k5) => {
            proof {
                reveal_with_fuel(Ast::view, 2);
            }
            Ok((Ast::SExpr(SExpression::Range { start: Box::new(a), end: Box::new(b) }), k5))
        },
        None => Err(LangError::InvalidSyntax),
    }
}

/// A single operand: literal, array literal, range, identifier or parenthesised expression.
pub fn base_operand(s: &[u8], pos: usize) -> (r: Result<(Ast, usize), LangError>)
    requires
        pos <= s@.len(),
    ensures
        parsed(r) == base_operand_rule(s@, pos as int),
        r matches Ok((_, e)) ==> pos < e <= s@.len(),
    decreases s@.len() - pos, 1nat,
{
    let r = literal(s, pos);
    if !is_no_match(&r) {
        return r;
    }
    let r = array_literal(s, pos);
    if !is_no_match(&r) {
        return r;
    }
    let r = array_range(s, pos);
    if !is_no_match(&r) {
        return r;
    }
    let r = identifier(s, pos);
    if !is_no_match(&r) {
        return r;
    }
    sexpr_parens(s, pos)
}

/// An operand followed by `[` number `]`.
pub fn array_access(s: &[u8], pos: usize) -> (r: Result<(Ast, usize), LangError>)
    requires
        pos <= s@.len(),
    ensures
        parsed(r) == array_access_rule(s@, pos as int),
        r matches Ok((_, e)) ==> pos < e <= s@.len(),
    decreases s@.len() - pos, 2nat,
{
    let (b, k1) = match base_operand(s, pos) {
        Ok(x) => x,
        Err(e) => return Err(e),
    };
    let k2 = match byte_token(s, k1, 91) {  // [
        Some(p) => p,
        None => return Err(LangError::InvalidSyntax),
    };
    let (i, k3) = match number_literal(s, k2) {
        Ok(x) => x,
        Err(e) => return Err(e),
    };
    match byte_token(s, k3, 93) {  // ]
        Some(k4) => Ok(
            (
                Ast::Expression {
                    operator: BinaryOperator::AccessArray,
                    expr1: Box::new(b),
                    expr2: Box::new(i),
                },
                k4,
            ),
        ),
        None => Err(LangError::InvalidSyntax),
    }
}

/// An operand, indexed when `[` number `]` follows it.
pub fn operand(s: &[u8], pos: usize) -> (r: Result<(Ast, usize), LangError>)
    requires
        pos <= s@.len(),
    ensures
        parsed(r) == operand_rule(s@, pos as int),
        r matches Ok((_, e)) ==> pos < e <= s@.len(),
    decreases s@.len() - pos, 3nat,
{
    let r = array_access(s, pos);
    if !is_no_match(&r) {
        return r;
    }
    base_operand(s, pos)
}

fn postfix(s: &[u8], l: Ast, k1: usize) -> (r: Result<(Ast, usize), LangError>)
    requires
        k1 <= s@.len(),
    ensures
        parsed(r) == postfix_rule(s@, l@, k1 as int),
        r matches Ok((_, e)) ==> k1 < e <= s@.len(),
{
    match unary_operator(s, k1) {
        Some((op, k2)) => Ok((create_sexpr(op, l, None), k2)),
        None => Err(LangError::InvalidSyntax),
    }
}

/// An operator expression; a chain of binary operators nests to the right.
pub fn sexpr(s: &[u8], pos: usize) -> (r: Result<(Ast, usize), LangError>)
    requires
        pos <= s@.len(),
    ensures
        parsed(r) == sexpr_rule(s@, pos as int),
        r matches Ok((_, e)) ==> pos < e <= s@.len(),
    decreases s@.len() - pos, 4nat,
{
    let infix = match operand(s, pos) {
        Ok((l, k1)) => match binary_operator(s, k1) {
            Some((op, k2)) => {
                let rhs = expression(s, k2);
                match rhs {
                    Ok((r, k3)) => Ok((create_sexpr(op, l, Some(r)), k3)),
                    Err(LangError::InvalidSyntax) => postfix(s, l, k1),
                    Err(e) => Err(e),
                }
            },
            None => postfix(s, l, k1),
        },
        Err(e) => Err(e),
    };
    if !is_no_match(&infix) {
        return infix;
    }
    match byte_token(s, pos, 33) {  // !
        Some(k1) => match operand(s, k1) {
            Ok((l, k2)) => Ok((create_sexpr(ArithmeticOperator::Negate, l, None), k2)),
            Err(e) => Err(e),
        },
        None => Err(LangError::InvalidSyntax),
    }
}

/// An operator expression, else a lone operand.
pub fn expression(s: &[u8], pos: usize) -> (r: Result<(Ast, usize), LangError>)
    requires
        pos <= s@.len(),
    ensures
        parsed(r) == expression_rule(s@, pos as int),
        r matches Ok((_, e)) ==> pos < e <= s@.len(),
    decreases s@.len() - pos, 5nat,
{
    let r = sexpr(s, pos);
    if !is_no_match(&r) {
        return r;
    }
    operand(s, pos)
}

} // verus!

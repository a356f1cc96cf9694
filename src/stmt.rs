//! Statement rules: blocks, `if`, `for`, function definitions and calls,
//! `let` bindings, and whole programs.
use vstd::prelude::*;

use crate::ast::{
    Ast, AstModel, BinaryOperator, Datatype, Parsed, TypeInfo, ValueModel, parsed, list_view,
    lemma_list_view,
};
use crate::desugar::{
    for_loop_model, synthetic_name, index_kind, array_kind, create_for_loop, synthetic_identifier,
};
use crate::error::LangError;
use crate::expr::{alt, expression_rule, expression, is_no_match};
use crate::lexer::{
    identifier_rule, token_end, type_info_rule, type_signature_rule, ws_end, identifier, token,
    byte_token, type_info, type_signature, skip_whitespace,
};

verus! {

/// `name : Type`, a parameter of a function.
pub open spec fn parameter_rule(s: Seq<u8>, pos: int) -> Parsed {
    match identifier_rule(s, pos) {
        Ok((id, k1)) => match token_end(s, k1, seq![58u8]) {  // :
            Some(k2) => match type_signature_rule(s, k2) {
                Ok((t, k3)) => Ok(
                    (
                        AstModel::Expression(
                            BinaryOperator::FunctionParameterAssignment,
                            Box::new(id),
                            Box::new(t),
                        ),
                        k3,
                    ),
                ),
                Err(e) => Err(e),
            },
            None => Err(LangError::InvalidSyntax),
        },
        Err(e) => Err(e),
    }
}

/// Zero or more parameters, one after another.
pub open spec fn parameters_rule(s: Seq<u8>, pos: int) -> (Seq<AstModel>, int)
    decreases s.len() - pos,
{
    match parameter_rule(s, pos) {
        Ok((a, k1)) => if pos < k1 <= s.len() {
            let (rest, e) = parameters_rule(s, k1);
            (seq![a] + rest, e)
        } else {
            (seq![], pos)
        },
        Err(_) => (seq![], pos),
    }
}

pub type ParsedList = Result<(Seq<AstModel>, int), LangError>;

/// Zero or more call arguments, each an expression, optionally separated by commas.
pub open spec fn arguments_rule(s: Seq<u8>, pos: int) -> ParsedList
    decreases s.len() - pos,
{
    match expression_rule(s, pos) {
        Ok((a, k1)) => {
            let k2 = match token_end(s, k1, seq![44u8]) {  // ,
                Some(q) => q,
                None => k1,
            };
            if pos < k2 <= s.len() {
                match arguments_rule(s, k2) {
                    Ok((rest, e)) => Ok((seq![a] + rest, e)),
                    Err(e) => Err(e),
                }
            } else {
                Err(LangError::InvalidSyntax)
            }
        },
        Err(LangError::InvalidSyntax) => Ok((seq![], pos)),
        Err(e) => Err(e),
    }
}

/// `let name value`, or `let name := value`.
pub open spec fn declaration_rule(s: Seq<u8>, pos: int) -> Parsed {
    match token_end(s, pos, seq![108u8, 101u8, 116u8]) {  // let
        Some(k1) => match identifier_rule(s, k1) {
            Ok((id, k2)) => {
                let k3 = match token_end(s, k2, seq![58u8, 61u8]) {  // :=
                    Some(q) => q,
                    None => k2,
                };
                match expression_rule(s, k3) {
                    Ok((v, k4)) => Ok(
                        (AstModel::Expression(BinaryOperator::Assignment, Box::new(id), Box::new(v)), k4),
                    ),
                    Err(e) => Err(e),
                }
            },
            Err(e) => Err(e),
        },
        None => Err(LangError::InvalidSyntax),
    }
}

/// `name(arguments)`.
pub open spec fn function_execution_rule(s: Seq<u8>, pos: int) -> Parsed {
    match identifier_rule(s, pos) {
        Ok((f, k1)) => match token_end(s, k1, seq![40u8]) {  // (
            Some(k2) => match arguments_rule(s, k2) {
                Ok((args, k3)) => match token_end(s, k3, seq![41u8]) {  // )
                    Some(k4) => Ok(
                        (
                            AstModel::Expression(
                                BinaryOperator::ExecuteFn,
                                Box::new(f),
                                Box::new(AstModel::List(args)),
                            ),
                            k4,
                        ),
                    ),
                    None => Err(LangError::InvalidSyntax),
                },
                Err(e) => Err(e),
            },
            None => Err(LangError::InvalidSyntax),
        },
        Err(e) => Err(e),
    }
}

/// `{` statements `}`.
pub open spec fn body_rule(s: Seq<u8>, pos: int, salt: Seq<char>) -> Parsed
    decreases s.len() - pos, 0nat,
{
    match token_end(s, pos, seq![123u8]) {  // {
        Some(k1) => if pos < k1 <= s.len() {
            match statements_rule(s, k1, salt) {
                Ok((list, k2)) => match token_end(s, k2, seq![125u8]) {  // }
                    Some(k3) => Ok((AstModel::List(list), k3)),
                    None => Err(LangError::InvalidSyntax),
                },
                Err(e) => Err(e),
            }
        } else {
            Err(LangError::InvalidSyntax)
        },
        None => Err(LangError::InvalidSyntax),
    }
}

/// `if` condition body, optionally followed by `else` body.
pub open spec fn if_rule(s: Seq<u8>, pos: int, salt: Seq<char>) -> Parsed
    decreases s.len() - pos, 0nat,
{
    match token_end(s, pos, seq![105u8, 102u8]) {  // if
        Some(k1) => match expression_rule(s, k1) {
            Ok((c, k2)) => if pos < k2 <= s.len() {
                match body_rule(s, k2, salt) {
                    Ok((t, k3)) => {
                        let without_else = Ok(
                            (AstModel::Conditional(Box::new(c), Box::new(t), None), k3),
                        );
                        match token_end(s, k3, seq![101u8, 108u8, 115u8, 101u8]) {  // else
                            Some(k4) => if pos < k4 <= s.len() {
                                match body_rule(s, k4, salt) {
                                    Ok((f, k5)) => Ok(
                                        (
                                            AstModel::Conditional(
                                                Box::new(c),
                                                Box::new(t),
                                                Some(Box::new(f)),
                                            ),
                                            k5,
                                        ),
                                    ),
                                    Err(LangError::InvalidSyntax) => without_else,
                                    Err(e) => Err(e),
                                }
                            } else {
                                without_else
                            },
                            None => without_else,
                        }
                    },
                    Err(e) => Err(e),
                }
            } else {
                Err(LangError::InvalidSyntax)
            },
            Err(e) => Err(e),
        },
        None => Err(LangError::InvalidSyntax),
    }
}

/// `for` name `in` expression body, lowered; the synthetic names carry the
/// position of the loop in the text.
pub open spec fn for_rule(s: Seq<u8>, pos: int, salt: Seq<char>) -> Parsed
    decreases s.len() - pos, 0nat,
{
    let k0 = ws_end(s, pos);
    match token_end(s, pos, seq![102u8, 111u8, 114u8]) {  // for
        Some(k1) => match identifier_rule(s, k1) {
            Ok((v, k2)) => match token_end(s, k2, seq![105u8, 110u8]) {  // in
                Some(k3) => match expression_rule(s, k3) {
                    Ok((arr, k4)) => if pos < k4 <= s.len() {
                        match body_rule(s, k4, salt) {
                            Ok((b, k5)) => Ok(
                                (
                                    for_loop_model(
                                        v,
                                        arr,
                                        b,
                                        synthetic_name(index_kind(), k0, salt),
                                        synthetic_name(array_kind(), k0, salt),
                                    ),
                                    k5,
                                ),
                            ),
                            Err(e) => Err(e),
                        }
                    } else {
                        Err(LangError::InvalidSyntax)
                    },
                    Err(e) => Err(e),
                },
                None => Err(LangError::InvalidSyntax),
            },
            Err(e) => Err(e),
        },
        None => Err(LangError::InvalidSyntax),
    }
}

/// `fn` name `(` parameters `)` `->` Type body, bound to the name as a function value.
pub open spec fn function_rule(s: Seq<u8>, pos: int, salt: Seq<char>) -> Parsed
    decreases s.len() - pos, 0nat,
{
    match token_end(s, pos, seq![102u8, 110u8]) {  // fn
        Some(k1) => match identifier_rule(s, k1) {
            Ok((name, k2)) => match token_end(s, k2, seq![40u8]) {  // (
                Some(k3) => {
                    let (ps, k4) = parameters_rule(s, k3);
                    match token_end(s, k4, seq![41u8]) {  // )
                        Some(k5) => match token_end(s, k5, seq![45u8, 62u8]) {  // ->
                            Some(k6) => match type_info_rule(s, k6) {
                                Some((t, k7)) => if pos < k7 <= s.len() {
                                    match body_rule(s, k7, salt) {
                                        Ok((b, k8)) => Ok(
                                            (
                                                AstModel::Expression(
                                                    BinaryOperator::Assignment,
                                                    Box::new(name),
                                                    Box::new(
                                                        AstModel::Literal(
                                                            ValueModel::Function(
                                                                Box::new(AstModel::List(ps)),
                                                                Box::new(b),
                                                                t,
                                                            ),
                                                        ),
                                                    ),
                                                ),
                                                k8,
                                            ),
                                        ),
                                        Err(e) => Err(e),
                                    }
                                } else {
                                    Err(LangError::InvalidSyntax)
                                },
                                None => Err(LangError::InvalidSyntax),
                            },
                            None => Err(LangError::InvalidSyntax),
                        },
                        None => Err(LangError::InvalidSyntax),
                    }
                },
                None => Err(LangError::InvalidSyntax),
            },
            Err(e) => Err(e),
        },
        None => Err(LangError::InvalidSyntax),
    }
}

/// One statement; keyword forms are tried before calls and expressions.
pub open spec fn statement_rule(s: Seq<u8>, pos: int, salt: Seq<char>) -> Parsed
    decreases s.len() - pos, 1nat,
{
    alt(
        function_rule(s, pos, salt),
        alt(
            if_rule(s, pos, salt),
            alt(
                for_rule(s, pos, salt),
                alt(
                    declaration_rule(s, pos),
                    alt(function_execution_rule(s, pos), expression_rule(s, pos)),
                ),
            ),
        ),
    )
}

/// Zero or more statements, each optionally followed by a comma.
pub open spec fn statements_rule(s: Seq<u8>, pos: int, salt: Seq<char>) -> ParsedList
    decreases s.len() - pos, 2nat,
{
    match statement_rule(s, pos, salt) {
        Ok((a, k1)) => {
            let k2 = match token_end(s, k1, seq![44u8]) {  // ,
                Some(q) => q,
                None => k1,
            };
            if pos < k2 <= s.len() {
                match statements_rule(s, k2, salt) {
                    Ok((rest, e)) => Ok((seq![a] + rest, e)),
                    Err(e) => Err(e),
                }
            } else {
                Err(LangError::InvalidSyntax)
            }
        },
        Err(LangError::InvalidSyntax) => Ok((seq![], pos)),
        Err(e) => Err(e),
    }
}

/// One or more statements, as a list.
pub open spec fn program_rule(s: Seq<u8>, pos: int, salt: Seq<char>) -> Parsed {
    match statements_rule(s, pos, salt) {
        Ok((list, e)) => if list.len() > 0 {
            Ok((AstModel::List(list), e))
        } else {
            Err(LangError::InvalidSyntax)
        },
        Err(e) => Err(e),
    }
}

/// A whole text as a program: statements, then nothing but whitespace.
pub open spec fn program_result(s: Seq<u8>, salt: Seq<char>) -> Result<AstModel, LangError> {
    match program_rule(s, 0, salt) {
        Ok((a, e)) => if ws_end(s, e) == s.len() {
            Ok(a)
        } else {
            Err(LangError::InvalidSyntax)
        },
        Err(e) => Err(e),
    }
}

pub open spec fn list_parsed(
    r: Result<usize, LangError>,
    spec_r: ParsedList,
    before: Seq<Ast>,
    after: Seq<Ast>,
) -> bool {
    match spec_r {
        Ok((list, e)) => r matches Ok(q) && q as int == e && list_view(after) == list_view(before) + list,
        Err(err) => r == Err::<usize, LangError>(err),
    }
}

fn binary_node(operator: BinaryOperator, a: Ast, b: Ast) -> (r: Ast)
    ensures
        r@ == AstModel::Expression(operator, Box::new(a@), Box::new(b@)),
{
    Ast::Expression { operator, expr1: Box::new(a), expr2: Box::new(b) }
}

fn list_node(v: Vec<Ast>) -> (r: Ast)
    ensures
        r@ == AstModel::List(list_view(v@)),
{
    proof {
        lemma_list_view(v);
    }
    Ast::ExpressionList(v)
}

fn function_value(parameters: Ast, body: Ast, return_type: TypeInfo) -> (r: Ast)
    ensures
        r@ == AstModel::Literal(ValueModel::Function(Box::new(parameters@), Box::new(body@), return_type)),
{
    proof {
        reveal_with_fuel(Ast::view, 2);
    }
    Ast::Literal(Datatype::Function { parameters: Box::new(parameters), body: Box::new(body), return_type })
}

proof fn lemma_push_view(before: Seq<Ast>, a: Ast, after: Seq<Ast>)
    requires
        after == before.push(a),
    ensures
        list_view(after) == list_view(before) + seq![a@],
{
    assert(list_view(after) =~= list_view(before) + seq![a@]);
}

proof fn lemma_append_assoc(x: Seq<AstModel>, a: AstModel, rest: Seq<AstModel>)
    ensures
        x + seq![a] + rest == x + (seq![a] + rest),
{
    assert(x + seq![a] + rest =~= x + (seq![a] + rest));
}

/// `name : Type`, a parameter of a function.
pub fn function_parameter_assignment(s: &[u8], pos: usize) -> (r: Result<(Ast, usize), LangError>)
    requires
        pos <= s@.len(),
    ensures
        parsed(r) == parameter_rule(s@, pos as int),
        r matches Ok((_, e)) ==> pos < e <= s@.len(),
{
    let (id, k1) = match identifier(s, pos) {
        Ok(x) => x,
        Err(e) => return Err(e),
    };
    let k2 = match byte_token(s, k1, 58) {  // :
        Some(p) => p,
        None => return Err(LangError::InvalidSyntax),
    };
    match type_signature(s, k2) {
        Ok((t, k3)) => Ok((binary_node(BinaryOperator::FunctionParameterAssignment, id, t), k3)),
        Err(e) => Err(e),
    }
}

fn parameters(s: &[u8], pos: usize, items: &mut Vec<Ast>) -> (e: usize)
    requires
        pos <= s@.len(),
    ensures
        list_view(final(items)@) == list_view(old(items)@) + parameters_rule(s@, pos as int).0,
        e as int == parameters_rule(s@, pos as int).1,
        pos <= e <= s@.len(),
    decreases s@.len() - pos,
{
    let ghost start = list_view(items@);
    match function_parameter_assignment(s, pos) {
        Ok((a, k1)) => {
            let ghost av = a@;
            let ghost before = items@;
            items.push(a);
            proof {
                lemma_push_view(before, a, items@);
            }
            let e = parameters(s, k1, items);
            proof {
                lemma_append_assoc(start, av, parameters_rule(s@, k1 as int).0);
            }
            e
        },
        Err(_) => {
            assert(list_view(items@) =~= start + seq![]);
            pos
        },
    }
}

fn arguments(s: &[u8], pos: usize, items: &mut Vec<Ast>) -> (r: Result<usize, LangError>)
    requires
        pos <= s@.len(),
    ensures
        list_parsed(r, arguments_rule(s@, pos as int), old(items)@, final(items)@),
        r matches Ok(e) ==> pos <= e <= s@.len(),
    decreases s@.len() - pos,
{
    let ghost start = list_view(items@);
    let first = expression(s, pos);
    if is_no_match(&first) {
        assert(list_view(items@) =~= start + seq![]);
        return Ok(pos);
    }
    let (a, k1) = match first {
        Ok(x) => x,
        Err(e) => return Err(e),
    };
    let k2 = match byte_token(s, k1, 44) {  // ,
        Some(q) => q,
        None => k1,
    };
    let ghost av = a@;
    let ghost before = items@;
    items.push(a);
    proof {
        lemma_push_view(before, a, items@);
    }
    let r = arguments(s, k2, items);
    proof {
        if let Ok((rest, _)) = arguments_rule(s@, k2 as int) {
            lemma_append_assoc(start, av, rest);
        }
    }
    r
}

/// `let name value`, or `let name := value`.
pub fn declaration(s: &[u8], pos: usize) -> (r: Result<(Ast, usize), LangError>)
    requires
        pos <= s@.len(),
    ensures
        parsed(r) == declaration_rule(s@, pos as int),
        r matches Ok((_, e)) ==> pos < e <= s@.len(),
{
    let k1 = match token(s, pos, &[108u8, 101, 116]) {  // let
        Some(p) => p,
        None => return Err(LangError::InvalidSyntax),
    };
    assert(token_end(s@, pos as int, seq![108u8, 101u8, 116u8]) == Some(k1 as int));
    let (id, k2) = match identifier(s, k1) {
        Ok(x) => x,
        Err(e) => return Err(e),
    };
    let k3 = match token(s, k2, &[58u8, 61]) {  // :=
        Some(q) => {
            assert(token_end(s@, k2 as int, seq![58u8, 61u8]) == Some(q as int));
            q
        },
        None => {
            assert(token_end(s@, k2 as int, seq![58u8, 61u8]) is None);
            k2
        },
    };
    match expression(s, k3) {
        Ok((v, k4)) => Ok((binary_node(BinaryOperator::Assignment, id, v), k4)),
        Err(e) => Err(e),
    }
}

/// `name(arguments)`, a call.
pub fn function_execution(s: &[u8], pos: usize) -> (r: Result<(Ast, usize), LangError>)
    requires
        pos <= s@.len(),
    ensures
        parsed(r) == function_execution_rule(s@, pos as int),
        r matches Ok((_, e)) ==> pos < e <= s@.len(),
{
    let (f, k1) = match identifier(s, pos) {
        Ok(x) => x,
        Err(e) => return Err(e),
    };
    let k2 = match byte_token(s, k1, 40) {  // (
        Some(p) => p,
        None => return Err(LangError::InvalidSyntax),
    };
    let mut args: Vec<Ast> = Vec::new();
    assert(list_view(args@) =~= seq![]);
    let k3 = match arguments(s, k2, &mut args) {
        Ok(p) => p,
        Err(e) => return Err(e),
    };
    assert(list_view(args@) =~= seq![] + list_view(args@));
    match byte_token(s, k3, 41) {  // )
        Some(k4) => Ok((binary_node(BinaryOperator::ExecuteFn, f, list_node(args)), k4)),
        None => Err(LangError::InvalidSyntax),
    }
}

/// `{` statements `}`.
pub fn body(s: &[u8], pos: usize, salt: &str) -> (r: Result<(Ast, usize), LangError>)
    requires
        pos <= s@.len(),
    ensures
        parsed(r) == body_rule(s@, pos as int, salt@),
        r matches Ok((_, e)) ==> pos < e <= s@.len(),
    decreases s@.len() - pos, 0nat,
{
    let k1 = match byte_token(s, pos, 123) {  // {
        Some(p) => p,
        None => return Err(LangError::InvalidSyntax),
    };
    let mut list: Vec<Ast> = Vec::new();
    assert(list_view(list@) =~= seq![]);
    let k2 = match statements(s, k1, salt, &mut list) {
        Ok(p) => p,
        Err(e) => return Err(e),
    };
    assert(list_view(list@) =~= seq![] + list_view(list@));
    match byte_token(s, k2, 125) {  // }
        Some(k3) => Ok((list_node(list), k3)),
        None => Err(LangError::InvalidSyntax),
    }
}

/// `if` condition body, optionally followed by `else` body.
pub fn if_expression(s: &[u8], pos: usize, salt: &str) -> (r: Result<(Ast, usize), LangError>)
    requires
        pos <= s@.len(),
    ensures
        parsed(r) == if_rule(s@, pos as int, salt@),
        r matches Ok((_, e)) ==> pos < e <= s@.len(),
    decreases s@.len() - pos, 0nat,
{
    let k1 = match token(s, pos, &[105u8, 102]) {  // if
        Some(p) => p,
        None => return Err(LangError::InvalidSyntax),
    };
    assert(token_end(s@, pos as int, seq![105u8, 102u8]) == Some(k1 as int));
    let (c, k2) = match expression(s, k1) {
        Ok(x) => x,
        Err(e) => return Err(e),
    };
    let (t, k3) = match body(s, k2, salt) {
        Ok(x) => x,
        Err(e) => return Err(e),
    };
    match token(s, k3, &[101u8, 108, 115, 101]) {  // else
        Some(k4) => {
            assert(token_end(s@, k3 as int, seq![101u8, 108u8, 115u8, 101u8]) == Some(k4 as int));
            let f = body(s, k4, salt);
            match f {
                Ok((f, k5)) => Ok(
                    (
                        Ast::Conditional {
                            condition: Box::new(c),
                            true_expr: Box::new(t),
                            false_expr: Some(Box::new(f)),
                        },
                        k5,
                    ),
                ),
                Err(LangError::InvalidSyntax) => Ok(
                    (Ast::Conditional { condition: Box::new(c), true_expr: Box::new(t), false_expr: None }, k3),
                ),
                Err(e) => Err(e),
            }
        },
        None => {
            assert(token_end(s@, k3 as int, seq![101u8, 108u8, 115u8, 101u8]) is None);
            Ok((Ast::Conditional { condition: Box::new(c), true_expr: Box::new(t), false_expr: None }, k3))
        },
    }
}

/// `for` name `in` expression body, lowered to primitive nodes.
pub fn for_loop(s: &[u8], pos: usize, salt: &str) -> (r: Result<(Ast, usize), LangError>)
    requires
        pos <= s@.len(),
    ensures
        parsed(r) == for_rule(s@, pos as int, salt@),
        r matches Ok((_, e)) ==> pos < e <= s@.len(),
    decreases s@.len() - pos, 0nat,
{
    let k0 = skip_whitespace(s, pos);
    let k1 = match token(s, pos, &[102u8, 111, 114]) {  // for
        Some(p) => p,
        None => return Err(LangError::InvalidSyntax),
    };
    assert(token_end(s@, pos as int, seq![102u8, 111u8, 114u8]) == Some(k1 as int));
    let (v, k2) = match identifier(s, k1) {
        Ok(x) => x,
        Err(e) => return Err(e),
    };
    let k3 = match token(s, k2, &[105u8, 110]) {  // in
        Some(p) => p,
        None => return Err(LangError::InvalidSyntax),
    };
    assert(token_end(s@, k2 as int, seq![105u8, 110u8]) == Some(k3 as int));
    let (arr, k4) = match expression(s, k3) {
        Ok(x) => x,
        Err(e) => return Err(e),
    };
    let (b, k5) = match body(s, k4, salt) {
        Ok(x) => x,
        Err(e) => return Err(e),
    };
    let index_kind_text = "index";
    let array_kind_text = "array";
    proof {
        reveal_strlit("index");
        reveal_strlit("array");
        assert(index_kind_text@ =~= index_kind());
        assert(array_kind_text@ =~= array_kind());
    }
    let index_name = synthetic_identifier(index_kind_text, k0, salt);
    let array_name = synthetic_identifier(array_kind_text, k0, salt);
    Ok((create_for_loop(v, arr, b, index_name, array_name), k5))
}

/// `fn` name `(` parameters `)` `->` Type body, bound to the name as a function value.
pub fn function(s: &[u8], pos: usize, salt: &str) -> (r: Result<(Ast, usize), LangError>)
    requires
        pos <= s@.len(),
    ensures
        parsed(r) == function_rule(s@, pos as int, salt@),
        r matches Ok((_, e)) ==> pos < e <= s@.len(),
    decreases s@.len() - pos, 0nat,
{
    let k1 = match token(s, pos, &[102u8, 110]) {  // fn
        Some(p) => p,
        None => return Err(LangError::InvalidSyntax),
    };
    assert(token_end(s@, pos as int, seq![102u8, 110u8]) == Some(k1 as int));
    let (name, k2) = match identifier(s, k1) {
        Ok(x) => x,
        Err(e) => return Err(e),
    };
    let k3 = match byte_token(s, k2, 40) {  // (
        Some(p) => p,
        None => return Err(LangError::InvalidSyntax),
    };
    let mut params: Vec<Ast> = Vec::new();
    assert(list_view(params@) =~= seq![]);
    let k4 = parameters(s, k3, &mut params);
    assert(list_view(params@) =~= parameters_rule(s@, k3 as int).0);
    let k5 = match byte_token(s, k4, 41) {  // )
        Some(p) => p,
        None => return Err(LangError::InvalidSyntax),
    };
    let k6 = match token(s, k5, &[45u8, 62]) {  // ->
        Some(p) => p,
        None => return Err(LangError::InvalidSyntax),
    };
    assert(token_end(s@, k5 as int, seq![45u8, 62u8]) == Some(k6 as int));
    let (t, k7) = match type_info(s, k6) {
        Some(x) => x,
        None => return Err(LangError::InvalidSyntax),
    };
    match body(s, k7, salt) {
        Ok((b, k8)) => Ok(
            (binary_node(BinaryOperator::Assignment, name, function_value(list_node(params), b, t)), k8),
        ),
        Err(e) => Err(e),
    }
}

/// One statement; keyword forms are tried before calls and expressions.
pub fn statement(s: &[u8], pos: usize, salt: &str) -> (r: Result<(Ast, usize), LangError>)
    requires
        pos <= s@.len(),
    ensures
        parsed(r) == statement_rule(s@, pos as int, salt@),
        r matches Ok((_, e)) ==> pos < e <= s@.len(),
    decreases s@.len() - pos, 1nat,
{
    let r = function(s, pos, salt);
    if !is_no_match(&r) {
        return r;
    }
    let r = if_expression(s, pos, salt);
    if !is_no_match(&r) {
        return r;
    }
    let r = for_loop(s, pos, salt);
    if !is_no_match(&r) {
        return r;
    }
    let r = declaration(s, pos);
    if !is_no_match(&r) {
        return r;
    }
    let r = function_execution(s, pos);
    if !is_no_match(&r) {
        return r;
    }
    expression(s, pos)
}

/// Zero or more statements, each optionally followed by a comma, appended to `items`.
pub fn statements(s: &[u8], pos: usize, salt: &str, items: &mut Vec<Ast>) -> (r: Result<usize, LangError>)
    requires
        pos <= s@.len(),
    ensures
        list_parsed(r, statements_rule(s@, pos as int, salt@), old(items)@, final(items)@),
        r matches Ok(e) ==> pos <= e <= s@.len(),
    decreases s@.len() - pos, 2nat,
{
    let ghost start = list_view(items@);
    let first = statement(s, pos, salt);
    if is_no_match(&first) {
        assert(list_view(items@) =~= start + seq![]);
        return Ok(pos);
    }
    let (a, k1) = match first {
        Ok(x) => x,
        Err(e) => return Err(e),
    };
    let k2 = match byte_token(s, k1, 44) {  // ,
        Some(q) => q,
        None => k1,
    };
    let ghost av = a@;
    let ghost before = items@;
    items.push(a);
    proof {
        lemma_push_view(before, a, items@);
    }
    let r = statements(s, k2, salt, items);
    proof {
        if let Ok((rest, _)) = statements_rule(s@, k2 as int, salt@) {
            lemma_append_assoc(start, av, rest);
        }
    }
    r
}

/// One or more statements, as a list.
pub fn program(s: &[u8], pos: usize, salt: &str) -> (r: Result<(Ast, usize), LangError>)
    requires
        pos <= s@.len(),
    ensures
        parsed(r) == program_rule(s@, pos as int, salt@),
        r matches Ok((_, e)) ==> pos <= e <= s@.len(),
{
    let mut list: Vec<Ast> = Vec::new();
    assert(list_view(list@) =~= seq![]);
    let e = match statements(s, pos, salt, &mut list) {
        Ok(e) => e,
        Err(err) => return Err(err),
    };
    assert(list_view(list@) =~= seq![] + list_view(list@));
    if list.len() == 0 {
        return Err(LangError::InvalidSyntax);
    }
    Ok((list_node(list), e))
}

pub open spec fn program_parsed(r: Result<Ast, LangError>) -> Result<AstModel, LangError> {
    match r {
        Ok(a) => Ok(a@),
        Err(e) => Err(e),
    }
}

/// Parses a whole text with the given salt in synthetic names.
pub fn parse_program_with_salt(s: &[u8], salt: &str) -> (r: Result<Ast, LangError>)
    ensures
        program_parsed(r) == program_result(s@, salt@),
{
    match program(s, 0, salt) {
        Ok((a, e)) => {
            if skip_whitespace(s, e) == s.len() {
                Ok(a)
            } else {
                Err(LangError::InvalidSyntax)
            }
        },
        Err(err) => Err(err),
    }
}

/// Relies on `uuid::Uuid::new_v4` and its hyphenated text form, which is 36
/// characters long: a random salt that keeps synthetic names of separate parses apart.
#[verifier::external_body]
fn fresh_salt() -> (r: String)
    ensures
        r@.len() == 36,
{
    uuid::Uuid::new_v4().hyphenated().to_string()
}

/// Parses a whole text; synthetic names carry a fresh random salt.
pub fn parse_program(s: &[u8]) -> (r: Result<Ast, LangError>)
    ensures
        exists|salt: Seq<char>| salt.len() == 36 && program_parsed(r) == program_result(s@, salt),
{
    let salt = fresh_salt();
    parse_program_with_salt(s, salt.as_str())
}

} // verus!

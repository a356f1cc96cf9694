//! Lowering of `for` loops into assignments, a conditional loop, index
//! access, a length query and an increment.
use vstd::prelude::*;

use crate::ast::{Ast, AstModel, BinaryOperator, Datatype, SExprModel, SExpression, ValueModel, list_view};
use crate::text::{concat, decimal_text, position_text};

verus! {

pub open spec fn assign_model(id: AstModel, v: AstModel) -> AstModel {
    AstModel::SExpr(SExprModel::Assignment(Box::new(id), Box::new(v)))
}

/// The lowered loop: set the index to 0, bind the array once to its own name,
/// then loop while the index is below the array's length, binding the loop
/// variable to the element at the index, running the body and incrementing.
pub open spec fn for_loop_model(
    var: AstModel,
    array: AstModel,
    body: AstModel,
    index_name: Seq<char>,
    array_name: Seq<char>,
) -> AstModel {
    let idx = AstModel::Ident(index_name);
    let arr = AstModel::Ident(array_name);
    AstModel::List(
        seq![
            assign_model(idx, AstModel::Literal(ValueModel::Number(0))),
            assign_model(arr, array),
            AstModel::SExpr(
                SExprModel::Loop(
                    Box::new(
                        AstModel::SExpr(
                            SExprModel::LessThan(
                                Box::new(idx),
                                Box::new(AstModel::SExpr(SExprModel::GetArrayLength(Box::new(arr)))),
                            ),
                        ),
                    ),
                    Box::new(
                        AstModel::List(
                            seq![
                                assign_model(
                                    var,
                                    AstModel::SExpr(SExprModel::AccessArray(Box::new(arr), Box::new(idx))),
                                ),
                                body,
                                assign_model(idx, AstModel::SExpr(SExprModel::Increment(Box::new(idx)))),
                            ],
                        ),
                    ),
                ),
            ),
        ],
    )
}

/// A name that source text cannot spell: `#`, a kind, the position of the
/// loop in the text, `-`, and a per-parse salt.
pub open spec fn synthetic_name(kind: Seq<char>, pos: int, salt: Seq<char>) -> Seq<char> {
    seq!['#'] + kind + decimal_text(pos) + seq!['-'] + salt
}

pub open spec fn index_kind() -> Seq<char> {
    seq!['i', 'n', 'd', 'e', 'x']
}

pub open spec fn array_kind() -> Seq<char> {
    seq!['a', 'r', 'r', 'a', 'y']
}

/// Characters an identifier is made of: ASCII letters, digits, `_` and `-`.
pub open spec fn is_ident_char(c: char) -> bool {
    ('a' <= c <= 'z') || ('A' <= c <= 'Z') || ('0' <= c <= '9') || c == '_' || c == '-'
}

/// A name the identifier rule can produce.
pub open spec fn is_user_name(n: Seq<char>) -> bool {
    n.len() > 0 && forall|i: int| 0 <= i < n.len() ==> is_ident_char(#[trigger] n[i])
}

fn ident(name: String) -> (r: Ast)
    ensures
        r@ == AstModel::Ident(name@),
{
    Ast::ValueIdentifier(name)
}

fn assign(id: Ast, v: Ast) -> (r: Ast)
    ensures
        r@ == assign_model(id@, v@),
{
    proof {
        reveal_with_fuel(Ast::view, 2);
    }
    Ast::SExpr(SExpression::Assignment { identifier: Box::new(id), ast: Box::new(v) })
}

fn list3(a: Ast, b: Ast, c: Ast) -> (r: Ast)
    ensures
        r@ == AstModel::List(seq![a@, b@, c@]),
{
    let mut v: Vec<Ast> = Vec::new();
    v.push(a);
    v.push(b);
    v.push(c);
    proof {
        crate::ast::lemma_list_view(v);
        assert(list_view(v@) =~= seq![a@, b@, c@]);
    }
    Ast::ExpressionList(v)
}

fn length_of(a: Ast) -> (r: Ast)
    ensures
        r@ == AstModel::SExpr(SExprModel::GetArrayLength(Box::new(a@))),
{
    proof {
        reveal_with_fuel(Ast::view, 2);
    }
    Ast::SExpr(SExpression::GetArrayLength(Box::new(a)))
}

fn less_than(a: Ast, b: Ast) -> (r: Ast)
    ensures
        r@ == AstModel::SExpr(SExprModel::LessThan(Box::new(a@), Box::new(b@))),
{
    proof {
        reveal_with_fuel(Ast::view, 2);
    }
    Ast::SExpr(SExpression::LessThan(Box::new(a), Box::new(b)))
}

fn access(a: Ast, i: Ast) -> (r: Ast)
    ensures
        r@ == AstModel::SExpr(SExprModel::AccessArray(Box::new(a@), Box::new(i@))),
{
    proof {
        reveal_with_fuel(Ast::view, 2);
    }
    Ast::SExpr(SExpression::AccessArray { identifier: Box::new(a), index: Box::new(i) })
}

fn increment(a: Ast) -> (r: Ast)
    ensures
        r@ == AstModel::SExpr(SExprModel::Increment(Box::new(a@))),
{
    proof {
        reveal_with_fuel(Ast::view, 2);
    }
    Ast::SExpr(SExpression::Increment(Box::new(a)))
}

fn loop_node(c: Ast, b: Ast) -> (r: Ast)
    ensures
        r@ == AstModel::SExpr(SExprModel::Loop(Box::new(c@), Box::new(b@))),
{
    proof {
        reveal_with_fuel(Ast::view, 2);
    }
    Ast::SExpr(SExpression::Loop { conditional: Box::new(c), body: Box::new(b) })
}

fn zero() -> (r: Ast)
    ensures
        r@ == AstModel::Literal(ValueModel::Number(0)),
{
    proof {
        reveal_with_fuel(Ast::view, 2);
    }
    Ast::Literal(Datatype::Number(0))
}

/// Rewrites `for identifier in array { for_body }` with the two given names
/// for the index and for the array.
pub fn create_for_loop(
    identifier: Ast,
    array: Ast,
    for_body: Ast,
    index_name: String,
    array_name: String,
) -> (r: Ast)
    ensures
        r@ == for_loop_model(identifier@, array@, for_body@, index_name@, array_name@),
{
    let start = assign(ident(index_name.clone()), zero());
    let snapshot = assign(ident(array_name.clone()), array);
    let condition = less_than(ident(index_name.clone()), length_of(ident(array_name.clone())));
    let bind = assign(identifier, access(ident(array_name), ident(index_name.clone())));
    let step = assign(ident(index_name.clone()), increment(ident(index_name)));
    let looped = loop_node(condition, list3(bind, for_body, step));
    list3(start, snapshot, looped)
}

/// The name of a synthetic identifier for the loop at `pos`.
pub fn synthetic_identifier(kind: &str, pos: usize, salt: &str) -> (r: String)
    ensures
        r@ == synthetic_name(kind@, pos as int, salt@),
{
    let hash = "#".to_owned();
    let dash = "-";
    proof {
        reveal_strlit("#");
        reveal_strlit("-");
    }
    let named = concat(hash, kind);
    let numbered = concat(named, position_text(pos).as_str());
    let dashed = concat(numbered, dash);
    concat(dashed, salt)
}

/// How many assignment nodes, of either form, bind the identifier `name`.
/// Array elements are plain values and hold none.
pub open spec fn assignments_to(t: AstModel, name: Seq<char>) -> nat
    decreases t,
{
    match t {
        AstModel::Literal(v) => match v {
            ValueModel::Function(p, b, _) => assignments_to(*p, name) + assignments_to(*b, name),
            _ => 0,
        },
        AstModel::Ident(_) => 0,
        AstModel::Type(_) => 0,
        AstModel::Expression(op, a, b) => (if op == BinaryOperator::Assignment && *a == AstModel::Ident(
            name,
        ) {
            1nat
        } else {
            0nat
        }) + assignments_to(*a, name) + assignments_to(*b, name),
        AstModel::SExpr(e) => sexpr_assignments_to(e, name),
        AstModel::List(items) => list_assignments_to(items, name),
        AstModel::Conditional(c, x, y) => assignments_to(*c, name) + assignments_to(*x, name) + match y {
            Some(z) => assignments_to(*z, name),
            None => 0,
        },
    }
}

pub open spec fn sexpr_assignments_to(e: SExprModel, name: Seq<char>) -> nat
    decreases e,
{
    match e {
        SExprModel::Assignment(id, v) => (if *id == AstModel::Ident(name) {
            1nat
        } else {
            0nat
        }) + assignments_to(*id, name) + assignments_to(*v, name),
        SExprModel::Add(a, b) => assignments_to(*a, name) + assignments_to(*b, name),
        SExprModel::Subtract(a, b) => assignments_to(*a, name) + assignments_to(*b, name),
        SExprModel::Multiply(a, b) => assignments_to(*a, name) + assignments_to(*b, name),
        SExprModel::Divide(a, b) => assignments_to(*a, name) + assignments_to(*b, name),
        SExprModel::Modulo(a, b) => assignments_to(*a, name) + assignments_to(*b, name),
        SExprModel::Equals(a, b) => assignments_to(*a, name) + assignments_to(*b, name),
        SExprModel::NotEquals(a, b) => assignments_to(*a, name) + assignments_to(*b, name),
        SExprModel::GreaterThan(a, b) => assignments_to(*a, name) + assignments_to(*b, name),
        SExprModel::LessThan(a, b) => assignments_to(*a, name) + assignments_to(*b, name),
        SExprModel::GreaterThanOrEqual(a, b) => assignments_to(*a, name) + assignments_to(*b, name),
        SExprModel::LessThanOrEqual(a, b) => assignments_to(*a, name) + assignments_to(*b, name),
        SExprModel::Increment(a) => assignments_to(*a, name),
        SExprModel::Decrement(a) => assignments_to(*a, name),
        SExprModel::Invert(a) => assignments_to(*a, name),
        SExprModel::Range(a, b) => assignments_to(*a, name) + assignments_to(*b, name),
        SExprModel::Loop(a, b) => assignments_to(*a, name) + assignments_to(*b, name),
        SExprModel::AccessArray(a, b) => assignments_to(*a, name) + assignments_to(*b, name),
        SExprModel::GetArrayLength(a) => assignments_to(*a, name),
    }
}

pub open spec fn list_assignments_to(items: Seq<AstModel>, name: Seq<char>) -> nat
    decreases items,
{
    if items.len() == 0 {
        0
    } else {
        assignments_to(items[0], name) + list_assignments_to(items.drop_first(), name)
    }
}

} // verus!

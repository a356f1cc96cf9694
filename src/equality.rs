//! Structural equality of values and trees, as the `==` and `!=` operators
//! of the language use it.
use vstd::prelude::*;

use crate::ast::{Ast, Datatype, SExpression, list_view, values_view, lemma_list_view, lemma_values_view};

verus! {

/// Whether two trees are equal: same node kinds and equal parts throughout.
pub fn ast_equal(a: &Ast, b: &Ast) -> (r: bool)
    ensures
        r == (a@ == b@),
    decreases a, 1nat,
{
    match (a, b) {
        (Ast::Literal(x), Ast::Literal(y)) => value_equal(x, y),
        (Ast::ValueIdentifier(x), Ast::ValueIdentifier(y)) => *x == *y,
        (Ast::Type(x), Ast::Type(y)) => *x == *y,
        (
            Ast::Expression { operator: o1, expr1: a1, expr2: b1 },
            Ast::Expression { operator: o2, expr1: a2, expr2: b2 },
        ) => *o1 == *o2 && ast_equal(a1, a2) && ast_equal(b1, b2),
        (Ast::SExpr(x), Ast::SExpr(y)) => sexpr_equal(x, y),
        (Ast::ExpressionList(x), Ast::ExpressionList(y)) => {
            proof {
                lemma_list_view(*x);
                lemma_list_view(*y);
            }
            list_equal(x, y)
        },
        (
            Ast::Conditional { condition: c1, true_expr: t1, false_expr: f1 },
            Ast::Conditional { condition: c2, true_expr: t2, false_expr: f2 },
        ) => {
            if !ast_equal(c1, c2) || !ast_equal(t1, t2) {
                false
            } else {
                match (f1, f2) {
                    (Some(x), Some(y)) => ast_equal(x, y),
                    (None, None) => true,
                    _ => false,
                }
            }
        },
        _ => false,
    }
}

fn sexpr_equal(a: &SExpression, b: &SExpression) -> (r: bool)
    ensures
        r == (a@ == b@),
    decreases a, 0nat,
{
    match (a, b) {
        (SExpression::Add(a1, b1), SExpression::Add(a2, b2)) => ast_equal(a1, a2) && ast_equal(b1, b2),
        (SExpression::Subtract(a1, b1), SExpression::Subtract(a2, b2)) => ast_equal(a1, a2) && ast_equal(b1, b2),
        (SExpression::Multiply(a1, b1), SExpression::Multiply(a2, b2)) => ast_equal(a1, a2) && ast_equal(b1, b2),
        (SExpression::Divide(a1, b1), SExpression::Divide(a2, b2)) => ast_equal(a1, a2) && ast_equal(b1, b2),
        (SExpression::Modulo(a1, b1), SExpression::Modulo(a2, b2)) => ast_equal(a1, a2) && ast_equal(b1, b2),
        (SExpression::Equals(a1, b1), SExpression::Equals(a2, b2)) => ast_equal(a1, a2) && ast_equal(b1, b2),
        (SExpression::NotEquals(a1, b1), SExpression::NotEquals(a2, b2)) => ast_equal(a1, a2) && ast_equal(b1, b2),
        (SExpression::GreaterThan(a1, b1), SExpression::GreaterThan(a2, b2)) => ast_equal(a1, a2) && ast_equal(b1, b2),
        (SExpression::LessThan(a1, b1), SExpression::LessThan(a2, b2)) => ast_equal(a1, a2) && ast_equal(b1, b2),
        (SExpression::GreaterThanOrEqual(a1, b1), SExpression::GreaterThanOrEqual(a2, b2)) => ast_equal(a1, a2) && ast_equal(b1, b2),
        (SExpression::LessThanOrEqual(a1, b1), SExpression::LessThanOrEqual(a2, b2)) => ast_equal(a1, a2) && ast_equal(b1, b2),
        (SExpression::Increment(a1), SExpression::Increment(a2)) => ast_equal(a1, a2),
        (SExpression::Decrement(a1), SExpression::Decrement(a2)) => ast_equal(a1, a2),
        (SExpression::Invert(a1), SExpression::Invert(a2)) => ast_equal(a1, a2),
        (SExpression::GetArrayLength(a1), SExpression::GetArrayLength(a2)) => ast_equal(a1, a2),
        (SExpression::Range { start: a1, end: b1 }, SExpression::Range { start: a2, end: b2 }) => ast_equal(a1, a2)
            && ast_equal(b1, b2),
        (SExpression::Loop { conditional: a1, body: b1 }, SExpression::Loop { conditional: a2, body: b2 }) => ast_equal(a1, a2)
            && ast_equal(b1, b2),
        (SExpression::Assignment { identifier: a1, ast: b1 }, SExpression::Assignment { identifier: a2, ast: b2 }) => ast_equal(a1, a2)
            && ast_equal(b1, b2),
        (SExpression::AccessArray { identifier: a1, index: b1 }, SExpression::AccessArray { identifier: a2, index: b2 }) => ast_equal(a1, a2)
            && ast_equal(b1, b2),
        _ => false,
    }
}

fn list_equal(a: &Vec<Ast>, b: &Vec<Ast>) -> (r: bool)
    ensures
        r == (list_view(a@) == list_view(b@)),
    decreases a, 0nat,
{
    if a.len() != b.len() {
        assert(list_view(a@).len() != list_view(b@).len());
        return false;
    }
    let mut i: usize = 0;
    while i < a.len()
        invariant
            0 <= i <= a@.len(),
            a@.len() == b@.len(),
            forall|j: int| 0 <= j < i ==> a@[j]@ == b@[j]@,
        decreases a@.len() - i,
    {
        assert(decreases_to!(a => a@[i as int]));
        if !ast_equal(&a[i], &b[i]) {
            assert(list_view(a@)[i as int] != list_view(b@)[i as int]);
            return false;
        }
        i = i + 1;
    }
    assert(list_view(a@) =~= list_view(b@));
    true
}

/// Whether two values are equal: same kind and equal contents throughout.
pub fn value_equal(a: &Datatype, b: &Datatype) -> (r: bool)
    ensures
        r == (a@ == b@),
    decreases a, 2nat,
{
    match (a, b) {
        (Datatype::Number(x), Datatype::Number(y)) => *x == *y,
        (Datatype::String(x), Datatype::String(y)) => *x == *y,
        (Datatype::Bool(x), Datatype::Bool(y)) => *x == *y,
        (Datatype::Nil, Datatype::Nil) => true,
        (Datatype::Array { value: x, type_: s }, Datatype::Array { value: y, type_: t }) => {
            proof {
                lemma_values_view(*x, *s);
                lemma_values_view(*y, *t);
            }
            *s == *t && values_equal(x, y)
        },
        (
            Datatype::Function { parameters: k1, body: b1, return_type: t1 },
            Datatype::Function { parameters: k2, body: b2, return_type: t2 },
        ) => *t1 == *t2 && ast_equal(k1, k2) && ast_equal(b1, b2),
        _ => false,
    }
}

fn values_equal(a: &Vec<Datatype>, b: &Vec<Datatype>) -> (r: bool)
    ensures
        r == (values_view(a@) == values_view(b@)),
    decreases a, 0nat,
{
    if a.len() != b.len() {
        assert(values_view(a@).len() != values_view(b@).len());
        return false;
    }
    let mut i: usize = 0;
    while i < a.len()
        invariant
            0 <= i <= a@.len(),
            a@.len() == b@.len(),
            forall|j: int| 0 <= j < i ==> a@[j]@ == b@[j]@,
        decreases a@.len() - i,
    {
        assert(decreases_to!(a => a@[i as int]));
        if !value_equal(&a[i], &b[i]) {
            assert(values_view(a@)[i as int] != values_view(b@)[i as int]);
            return false;
        }
        i = i + 1;
    }
    assert(values_view(a@) =~= values_view(b@));
    true
}

impl Datatype {
    /// `==`: defined on values of every kind.
    pub fn equals(&self, other: &Datatype) -> (r: Datatype)
        ensures
            r@ == crate::ast::ValueModel::Bool(self@ == other@),
    {
        Datatype::Bool(value_equal(self, other))
    }

    /// `!=`: defined on values of every kind.
    pub fn not_equals(&self, other: &Datatype) -> (r: Datatype)
        ensures
            r@ == crate::ast::ValueModel::Bool(self@ != other@),
    {
        Datatype::Bool(!value_equal(self, other))
    }
}

} // verus!

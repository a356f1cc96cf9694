//! Properties that relate the rules to one another and to plain arithmetic.
use vstd::prelude::*;
use vstd::arithmetic::div_mod::lemma_div_is_ordered_by_denominator;
use vstd::utf8::{decode_utf8, valid_utf8, encode_utf8, is_ascii_chars, is_ascii_chars_encode_utf8, encode_utf8_decode_utf8};

use crate::arith::{numeric_spec, trunc_div, NumericOp};
use crate::ast::{AstModel, TypeInfo, ValueModel, type_name_text, type_of, homogeneous};
use crate::expr::{array_literal_rule, array_values_rule, first_mismatch};
use crate::error::LangError;
use crate::desugar::{
    assign_model, assignments_to, for_loop_model, index_kind, array_kind, is_user_name,
    list_assignments_to, sexpr_assignments_to, synthetic_name, is_ident_char,
};
use crate::ast::SExprModel;
use crate::lexer::{token_end, type_info_rule, identifier_rule, ident_end, is_ident_byte, is_space, 
    digits_end, digits_value, is_digit_byte, number_literal_rule, quote_index, string_literal_rule,
    ws_end, QUOTE,
};

verus! {

proof fn lemma_digits_end_all(s: Seq<u8>, p: int)
    requires
        0 <= p <= s.len(),
        forall|i: int| 0 <= i < s.len() ==> is_digit_byte(#[trigger] s[i]),
    ensures
        digits_end(s, p) == s.len(),
    decreases s.len() - p,
{
    if p < s.len() {
        lemma_digits_end_all(s, p + 1);
    }
}

proof fn lemma_quote_index_after(s: Seq<u8>, p: int, q: int)
    requires
        0 <= p <= q < s.len(),
        s[q] == QUOTE,
        forall|i: int| p <= i < q ==> #[trigger] s[i] != QUOTE,
    ensures
        quote_index(s, p) == q,
    decreases q - p,
{
    if p < q {
        lemma_quote_index_after(s, p + 1, q);
    }
}

/// A run of decimal digits whose value fits in 32 bits is read as a number
/// literal of exactly that value, and the whole run is consumed.
pub proof fn lemma_number_literal_reads_digits(s: Seq<u8>)
    requires
        s.len() > 0,
        forall|i: int| 0 <= i < s.len() ==> is_digit_byte(#[trigger] s[i]),
        digits_value(s) <= i32::MAX,
    ensures
        number_literal_rule(s, 0) == Ok::<(AstModel, int), LangError>(
            (AstModel::Literal(ValueModel::Number(digits_value(s) as i32)), s.len() as int),
        ),
{
    assert(is_digit_byte(s[0]));
    assert(ws_end(s, 0) == 0);
    lemma_digits_end_all(s, 0);
    assert(s.subrange(0, s.len() as int) =~= s);
}

/// A double-quoted text with no quote inside, in valid UTF-8, is read as a
/// string literal of the text between the quotes, consuming both quotes.
pub proof fn lemma_string_literal_strips_quotes(t: Seq<u8>)
    requires
        forall|i: int| 0 <= i < t.len() ==> #[trigger] t[i] != QUOTE,
        valid_utf8(t),
    ensures
        string_literal_rule(seq![QUOTE] + t + seq![QUOTE], 0) == Ok::<(AstModel, int), LangError>(
            (AstModel::Literal(ValueModel::Str(decode_utf8(t))), t.len() as int + 2),
        ),
{
    let s = seq![QUOTE] + t + seq![QUOTE];
    let n = t.len() as int;
    assert(s[0] == QUOTE);
    assert(ws_end(s, 0) == 0);
    assert forall|i: int| 1 <= i < n + 1 implies #[trigger] s[i] != QUOTE by {
        assert(s[i] == t[i - 1]);
    }
    assert(s[n + 1] == QUOTE);
    lemma_quote_index_after(s, 1, n + 1);
    assert(s.subrange(1, n + 1) =~= t);
}

/// Division of numbers: by zero it fails with a divide-by-zero error, else it
/// yields the quotient rounded toward zero. The one quotient that does not
/// fit in 32 bits, the least number divided by minus one, is left out.
pub proof fn lemma_division_truncates(a: i32, b: i32)
    requires
        !(a == i32::MIN && b == -1),
    ensures
        b == 0 ==> numeric_spec(NumericOp::Divide, ValueModel::Number(a), ValueModel::Number(b))
            == Err::<ValueModel, LangError>(LangError::DivideByZero),
        b != 0 ==> numeric_spec(NumericOp::Divide, ValueModel::Number(a), ValueModel::Number(b))
            == Ok::<ValueModel, LangError>(ValueModel::Number(trunc_div(a as int, b as int) as i32)),
        b != 0 ==> i32::MIN <= trunc_div(a as int, b as int) <= i32::MAX,
{
    if b != 0 {
        let x: int = if a < 0 { -(a as int) } else { a as int };
        let y: int = if b < 0 { -(b as int) } else { b as int };
        lemma_div_is_ordered_by_denominator(x, 1, y);
        assert(x / 1 == x);
        if y >= 2 {
            lemma_div_is_ordered_by_denominator(x, 2, y);
        }
    }
}

proof fn lemma_list3_assignments(a: AstModel, b: AstModel, c: AstModel, name: Seq<char>)
    ensures
        list_assignments_to(seq![a, b, c], name) == assignments_to(a, name) + assignments_to(b, name)
            + assignments_to(c, name),
{
    let l = seq![a, b, c];
    assert(l.drop_first() =~= seq![b, c]);
    assert(seq![b, c].drop_first() =~= seq![c]);
    assert(seq![c].drop_first() =~= Seq::<AstModel>::empty());
    reveal_with_fuel(list_assignments_to, 4);
}

proof fn lemma_loop_counts(
    var_name: Seq<char>,
    array: AstModel,
    body: AstModel,
    index_name: Seq<char>,
    array_name: Seq<char>,
    n: Seq<char>,
)
    requires
        n != index_name,
    ensures
        assignments_to(for_loop_model(AstModel::Ident(var_name), array, body, index_name, array_name), n)
            == (if array_name == n { 1nat } else { 0nat }) + (if var_name == n { 1nat } else { 0nat })
            + assignments_to(array, n) + assignments_to(body, n),
{
    let idx = AstModel::Ident(index_name);
    let arr = AstModel::Ident(array_name);
    let var = AstModel::Ident(var_name);
    let zero = AstModel::Literal(ValueModel::Number(0));
    let len = AstModel::SExpr(SExprModel::GetArrayLength(Box::new(arr)));
    let cond = AstModel::SExpr(SExprModel::LessThan(Box::new(idx), Box::new(len)));
    let elem = AstModel::SExpr(SExprModel::AccessArray(Box::new(arr), Box::new(idx)));
    let inc = AstModel::SExpr(SExprModel::Increment(Box::new(idx)));
    let step = assign_model(idx, inc);
    let inner = seq![assign_model(var, elem), body, step];
    let lp = AstModel::SExpr(SExprModel::Loop(Box::new(cond), Box::new(AstModel::List(inner))));
    let outer = seq![assign_model(idx, zero), assign_model(arr, array), lp];
    assert(for_loop_model(var, array, body, index_name, array_name) == AstModel::List(outer));
    assert(assignments_to(idx, n) == 0);
    assert(assignments_to(arr, n) == 0);
    assert(assignments_to(var, n) == 0);
    assert(assignments_to(zero, n) == 0);
    assert(sexpr_assignments_to(SExprModel::GetArrayLength(Box::new(arr)), n) == 0);
    assert(assignments_to(len, n) == 0);
    assert(sexpr_assignments_to(SExprModel::LessThan(Box::new(idx), Box::new(len)), n) == 0);
    assert(assignments_to(cond, n) == 0);
    assert(sexpr_assignments_to(SExprModel::AccessArray(Box::new(arr), Box::new(idx)), n) == 0);
    assert(assignments_to(elem, n) == 0);
    assert(sexpr_assignments_to(SExprModel::Increment(Box::new(idx)), n) == 0);
    assert(assignments_to(inc, n) == 0);
    assert(sexpr_assignments_to(SExprModel::Assignment(Box::new(idx), Box::new(inc)), n) == 0);
    assert(assignments_to(step, n) == 0);
    assert(sexpr_assignments_to(SExprModel::Assignment(Box::new(idx), Box::new(zero)), n) == 0);
    assert(assignments_to(assign_model(idx, zero), n) == 0);
    assert(sexpr_assignments_to(SExprModel::Assignment(Box::new(var), Box::new(elem)), n) == (if var_name
        == n { 1nat } else { 0nat }));
    assert(assignments_to(assign_model(var, elem), n) == (if var_name == n { 1nat } else { 0nat }));
    assert(sexpr_assignments_to(SExprModel::Assignment(Box::new(arr), Box::new(array)), n) == (if array_name
        == n { 1nat } else { 0nat }) + assignments_to(array, n));
    assert(assignments_to(assign_model(arr, array), n) == (if array_name == n { 1nat } else { 0nat })
        + assignments_to(array, n));
    lemma_list3_assignments(inner[0], inner[1], inner[2], n);
    assert(assignments_to(AstModel::List(inner), n) == (if var_name == n { 1nat } else { 0nat })
        + assignments_to(body, n));
    assert(sexpr_assignments_to(SExprModel::Loop(Box::new(cond), Box::new(AstModel::List(inner))), n)
        == assignments_to(AstModel::List(inner), n));
    assert(assignments_to(lp, n) == assignments_to(AstModel::List(inner), n));
    lemma_list3_assignments(outer[0], outer[1], outer[2], n);
}

/// Lowering `for name in array { body }` with the synthetic names of a loop
/// at `pos`: the two synthetic names differ from each other and from every
/// name source text can spell, the loop variable, names in the body and in
/// the array included; the loop variable is bound once more than in the
/// array and the body, by the element at the index; and the array is bound
/// to its own name once, outside the loop.
pub proof fn lemma_for_loop_hygiene(
    var_name: Seq<char>,
    array: AstModel,
    body: AstModel,
    pos: int,
    salt: Seq<char>,
)
    requires
        is_user_name(var_name),
    ensures
        ({
            let index_name = synthetic_name(index_kind(), pos, salt);
            let array_name = synthetic_name(array_kind(), pos, salt);
            let t = for_loop_model(AstModel::Ident(var_name), array, body, index_name, array_name);
            &&& index_name != array_name
            &&& forall|x: Seq<char>| is_user_name(x) ==> x != index_name && x != array_name
            &&& index_name != var_name && array_name != var_name
            &&& assignments_to(t, var_name) == 1 + assignments_to(array, var_name)
                + assignments_to(body, var_name)
            &&& assignments_to(t, array_name) == 1 + assignments_to(array, array_name)
                + assignments_to(body, array_name)
            &&& t->List_0[1] == assign_model(AstModel::Ident(array_name), array)
            &&& t->List_0[2]->SExpr_0->Loop_1->List_0[0] == assign_model(
                AstModel::Ident(var_name),
                AstModel::SExpr(
                    SExprModel::AccessArray(
                        Box::new(AstModel::Ident(array_name)),
                        Box::new(AstModel::Ident(index_name)),
                    ),
                ),
            )
        }),
{
    let index_name = synthetic_name(index_kind(), pos, salt);
    let array_name = synthetic_name(array_kind(), pos, salt);
    assert(index_name[0] == '#');
    assert(array_name[0] == '#');
    assert(index_name[1] == 'i');
    assert(array_name[1] == 'a');
    assert forall|x: Seq<char>| is_user_name(x) implies x != index_name && x != array_name by {
        assert(is_ident_char(x[0]));
    }
    lemma_loop_counts(var_name, array, body, index_name, array_name, var_name);
    lemma_loop_counts(var_name, array, body, index_name, array_name, array_name);
}

proof fn lemma_ident_run(s: Seq<u8>, p: int)
    requires
        0 <= p <= s.len(),
    ensures
        p <= ident_end(s, p) <= s.len(),
        forall|j: int| p <= j < ident_end(s, p) ==> is_ident_byte(#[trigger] s[j]),
    decreases s.len() - p,
{
    if p < s.len() && is_ident_byte(s[p]) {
        lemma_ident_run(s, p + 1);
    }
}

proof fn lemma_decode_ascii(b: Seq<u8>)
    requires
        forall|i: int| 0 <= i < b.len() ==> #[trigger] b[i] < 0x80,
    ensures
        decode_utf8(b) == Seq::new(b.len(), |i: int| b[i] as char),
{
    let c = Seq::new(b.len(), |i: int| b[i] as char);
    assert(is_ascii_chars(c));
    is_ascii_chars_encode_utf8(c);
    assert(encode_utf8(c) =~= b);
    encode_utf8_decode_utf8(c);
}

/// Every name the identifier rule produces is a user name: it cannot be
/// mistaken for a synthetic name of a lowered loop.
pub proof fn lemma_identifiers_are_user_names(s: Seq<u8>, pos: int)
    requires
        0 <= pos <= s.len(),
        identifier_rule(s, pos) is Ok,
    ensures
        identifier_rule(s, pos) matches Ok((AstModel::Ident(n), _)) && is_user_name(n),
{
    let k = ws_end(s, pos);
    lemma_ws_bounds(s, pos);
    lemma_ident_run(s, k);
    let run = s.subrange(k, ident_end(s, k));
    assert forall|i: int| 0 <= i < run.len() implies #[trigger] run[i] < 0x80 by {
        assert(is_ident_byte(s[k + i]));
    }
    lemma_decode_ascii(run);
    let n = decode_utf8(run);
    assert forall|i: int| 0 <= i < n.len() implies is_ident_char(#[trigger] n[i]) by {
        assert(is_ident_byte(s[k + i]));
        assert(n[i] == run[i] as char);
    }
}

proof fn lemma_ws_bounds(s: Seq<u8>, p: int)
    requires
        0 <= p <= s.len(),
    ensures
        p <= ws_end(s, p) <= s.len(),
    decreases s.len() - p,
{
    if p < s.len() && is_space(s[p]) {
        lemma_ws_bounds(s, p + 1);
    }
}

/// Reading back the name of a kind, as written in a diagnostic, gives the same
/// kind and consumes the whole name. Arrays and functions have no keyword in
/// signatures and are left out.
pub proof fn lemma_type_name_round_trip(t: TypeInfo)
    requires
        t != TypeInfo::Array,
        t != TypeInfo::Function,
    ensures
        type_info_rule(encode_utf8(type_name_text(t)), 0) == Some((t, type_name_text(t).len() as int)),
{
    let c = type_name_text(t);
    assert(is_ascii_chars(c));
    is_ascii_chars_encode_utf8(c);
    let b = encode_utf8(c);
    assert(!is_space(b[0]));
    assert(ws_end(b, 0) == 0);
    let number = seq![78u8, 117u8, 109u8, 98u8, 101u8, 114u8];
    let string = seq![83u8, 116u8, 114u8, 105u8, 110u8, 103u8];
    let boolean = seq![66u8, 111u8, 111u8, 108u8];
    let none = seq![78u8, 111u8, 110u8, 101u8];
    if t == TypeInfo::Number {
        assert(b.subrange(0, 6) =~= number);
    } else if t == TypeInfo::String {
        assert(b.subrange(0, 6) =~= string);
        assert(b.subrange(0, 6)[0] != number[0]);
    } else if t == TypeInfo::Bool {
        assert(b.subrange(0, 4) =~= boolean);
    } else {
        assert(b.subrange(0, 4) =~= none);
        assert(b.subrange(0, 4)[0] != boolean[0]);
    }
}

proof fn lemma_first_mismatch(vals: Seq<ValueModel>, t: TypeInfo, i: int)
    requires
        0 <= i <= vals.len(),
    ensures
        i <= first_mismatch(vals, t, i) <= vals.len(),
        forall|j: int| i <= j < first_mismatch(vals, t, i) ==> type_of(#[trigger] vals[j]) == t,
    decreases vals.len() - i,
{
    if i < vals.len() && type_of(vals[i]) == t {
        lemma_first_mismatch(vals, t, i + 1);
    }
}

/// An array literal that parses is a homogeneous array value.
pub proof fn lemma_array_literals_are_homogeneous(s: Seq<u8>, pos: int)
    requires
        array_literal_rule(s, pos) is Ok,
    ensures
        array_literal_rule(s, pos) matches Ok((AstModel::Literal(ValueModel::Array(vals, t)), _))
            && homogeneous(vals, t),
{
    let k1 = token_end(s, pos, seq![91u8])->Some_0;
    let vals = array_values_rule(s, k1)->Some_0.0;
    lemma_first_mismatch(vals, type_of(vals[0]), 0);
}

} // verus!

//! Token rules: whitespace, literals, identifiers, type names and operators.
//! Every rule skips the whitespace in front of its token.
use vstd::prelude::*;
use vstd::utf8::{decode_utf8, valid_utf8, partial_valid_utf8, partial_valid_utf8_extend_ascii_block};

use crate::ast::{Ast, AstModel, ArithmeticOperator, Datatype, Parsed, TypeInfo, ValueModel, parsed};
use crate::error::LangError;
use crate::text::text_of;

verus! {

pub const SPACE: u8 = 32;
pub const TAB: u8 = 9;
pub const NEWLINE: u8 = 10;
pub const RETURN: u8 = 13;
pub const QUOTE: u8 = 34;
pub const UNDERSCORE: u8 = 95;
pub const DASH: u8 = 45;
pub const DIGIT_ZERO: u8 = 48;
pub const DIGIT_NINE: u8 = 57;
pub const LOWER_A: u8 = 97;
pub const LOWER_Z: u8 = 122;
pub const UPPER_A: u8 = 65;
pub const UPPER_Z: u8 = 90;

pub open spec fn is_space(b: u8) -> bool {
    b == SPACE || b == TAB || b == NEWLINE || b == RETURN
}

pub open spec fn is_digit_byte(b: u8) -> bool {
    DIGIT_ZERO <= b <= DIGIT_NINE
}

pub open spec fn is_alphabetic_byte(b: u8) -> bool {
    (LOWER_A <= b <= LOWER_Z) || (UPPER_A <= b <= UPPER_Z)
}

/// Bytes an identifier is made of: letters, digits, `_` and `-`.
pub open spec fn is_ident_byte(b: u8) -> bool {
    is_alphabetic_byte(b) || is_digit_byte(b) || b == UNDERSCORE || b == DASH
}

/// Position of the first non-whitespace byte at or after `pos`.
pub open spec fn ws_end(s: Seq<u8>, pos: int) -> int
    decreases s.len() - pos,
{
    if 0 <= pos < s.len() && is_space(s[pos]) {
        ws_end(s, pos + 1)
    } else {
        pos
    }
}

/// End of the run of digits that starts at `pos`.
pub open spec fn digits_end(s: Seq<u8>, pos: int) -> int
    decreases s.len() - pos,
{
    if 0 <= pos < s.len() && is_digit_byte(s[pos]) {
        digits_end(s, pos + 1)
    } else {
        pos
    }
}

/// End of the run of identifier bytes that starts at `pos`.
pub open spec fn ident_end(s: Seq<u8>, pos: int) -> int
    decreases s.len() - pos,
{
    if 0 <= pos < s.len() && is_ident_byte(s[pos]) {
        ident_end(s, pos + 1)
    } else {
        pos
    }
}

/// Position of the first `"` at or after `pos`, or the length when there is none.
pub open spec fn quote_index(s: Seq<u8>, pos: int) -> int
    decreases s.len() - pos,
{
    if 0 <= pos < s.len() && s[pos] != QUOTE {
        quote_index(s, pos + 1)
    } else {
        pos
    }
}

/// The value of a run of decimal digits.
pub open spec fn digits_value(d: Seq<u8>) -> int
    decreases d.len(),
{
    if d.len() == 0 {
        0
    } else {
        digits_value(d.drop_last()) * 10 + (d.last() - DIGIT_ZERO)
    }
}

pub open spec fn opt_pos(r: Option<usize>) -> Option<int> {
    match r {
        Some(e) => Some(e as int),
        None => None,
    }
}

/// Whether `t` stands at `pos`.
pub open spec fn tag_at(s: Seq<u8>, pos: int, t: Seq<u8>) -> bool {
    0 <= pos && pos + t.len() <= s.len() && s.subrange(pos, pos + t.len()) == t
}

/// After whitespace, the token `t`: the position after it.
pub open spec fn token_end(s: Seq<u8>, pos: int, t: Seq<u8>) -> Option<int> {
    let p = ws_end(s, pos);
    if tag_at(s, p, t) {
        Some(p + t.len())
    } else {
        None
    }
}

/// A number right at `pos`: a maximal run of digits whose value fits in 32 bits.
pub open spec fn number_rule(s: Seq<u8>, pos: int) -> Option<(i32, int)> {
    let e = digits_end(s, pos);
    if pos < e && digits_value(s.subrange(pos, e)) <= i32::MAX {
        Some((digits_value(s.subrange(pos, e)) as i32, e))
    } else {
        None
    }
}

/// A double-quoted text after whitespace, quotes stripped, no escapes.
pub open spec fn string_rule(s: Seq<u8>, pos: int) -> Option<(Seq<char>, int)> {
    let p = ws_end(s, pos);
    let q = quote_index(s, p + 1);
    if 0 <= p < s.len() && s[p] == QUOTE && q < s.len() && valid_utf8(s.subrange(p + 1, q)) {
        Some((decode_utf8(s.subrange(p + 1, q)), q + 1))
    } else {
        None
    }
}

pub open spec fn bool_rule(s: Seq<u8>, pos: int) -> Option<(bool, int)> {
    match token_end(s, pos, seq![116u8, 114u8, 117u8, 101u8]) {  // true
        Some(e) => Some((true, e)),
        None => match token_end(s, pos, seq![102u8, 97u8, 108u8, 115u8, 101u8]) {  // false
            Some(e) => Some((false, e)),
            None => None,
        },
    }
}

/// A literal value: a number, then a string, then a boolean.
pub open spec fn literal_value_rule(s: Seq<u8>, pos: int) -> Option<(ValueModel, int)> {
    match number_rule(s, ws_end(s, pos)) {
        Some((n, e)) => Some((ValueModel::Number(n), e)),
        None => match string_rule(s, pos) {
            Some((t, e)) => Some((ValueModel::Str(t), e)),
            None => match bool_rule(s, pos) {
                Some((b, e)) => Some((ValueModel::Bool(b), e)),
                None => None,
            },
        },
    }
}

pub open spec fn literal_rule(s: Seq<u8>, pos: int) -> Parsed {
    match literal_value_rule(s, pos) {
        Some((v, e)) => Ok((AstModel::Literal(v), e)),
        None => Err(LangError::InvalidSyntax),
    }
}

/// An identifier after whitespace: a non-empty maximal run of identifier bytes.
pub open spec fn identifier_rule(s: Seq<u8>, pos: int) -> Parsed {
    let p = ws_end(s, pos);
    let e = ident_end(s, p);
    if p < e {
        Ok((AstModel::Ident(decode_utf8(s.subrange(p, e))), e))
    } else {
        Err(LangError::InvalidSyntax)
    }
}

pub open spec fn number_literal_rule(s: Seq<u8>, pos: int) -> Parsed {
    match number_rule(s, ws_end(s, pos)) {
        Some((n, e)) => Ok((AstModel::Literal(ValueModel::Number(n)), e)),
        None => Err(LangError::InvalidSyntax),
    }
}

pub open spec fn string_literal_rule(s: Seq<u8>, pos: int) -> Parsed {
    match string_rule(s, pos) {
        Some((t, e)) => Ok((AstModel::Literal(ValueModel::Str(t)), e)),
        None => Err(LangError::InvalidSyntax),
    }
}

pub open spec fn bool_literal_rule(s: Seq<u8>, pos: int) -> Parsed {
    match bool_rule(s, pos) {
        Some((b, e)) => Ok((AstModel::Literal(ValueModel::Bool(b)), e)),
        None => Err(LangError::InvalidSyntax),
    }
}

pub open spec fn type_info_rule(s: Seq<u8>, pos: int) -> Option<(TypeInfo, int)> {
    match token_end(s, pos, seq![78u8, 117u8, 109u8, 98u8, 101u8, 114u8]) {  // Number
        Some(e) => Some((TypeInfo::Number, e)),
        None => match token_end(s, pos, seq![83u8, 116u8, 114u8, 105u8, 110u8, 103u8]) {  // String
            Some(e) => Some((TypeInfo::String, e)),
            None => match token_end(s, pos, seq![66u8, 111u8, 111u8, 108u8]) {  // Bool
                Some(e) => Some((TypeInfo::Bool, e)),
                None => match token_end(s, pos, seq![78u8, 111u8, 110u8, 101u8]) {  // None
                    Some(e) => Some((TypeInfo::Nil, e)),
                    None => None,
                },
            },
        },
    }
}

pub open spec fn type_signature_rule(s: Seq<u8>, pos: int) -> Parsed {
    match type_info_rule(s, pos) {
        Some((t, e)) => Ok((AstModel::Type(t), e)),
        None => Err(LangError::InvalidSyntax),
    }
}

/// The binary operators, two-byte ones before their one-byte prefixes.
pub open spec fn binary_operator_rule(s: Seq<u8>, pos: int) -> Option<(ArithmeticOperator, int)> {
    if let Some(e) = token_end(s, pos, seq![61u8, 61u8]) {  // ==
        Some((ArithmeticOperator::Equals, e))
    } else if let Some(e) = token_end(s, pos, seq![33u8, 61u8]) {  // !=
        Some((ArithmeticOperator::NotEquals, e))
    } else if let Some(e) = token_end(s, pos, seq![62u8, 61u8]) {  // >=
        Some((ArithmeticOperator::GreaterThanOrEqual, e))
    } else if let Some(e) = token_end(s, pos, seq![60u8, 61u8]) {  // <=
        Some((ArithmeticOperator::LessThanOrEqual, e))
    } else if let Some(e) = token_end(s, pos, seq![62u8]) {  // >
        Some((ArithmeticOperator::GreaterThan, e))
    } else if let Some(e) = token_end(s, pos, seq![60u8]) {  // <
        Some((ArithmeticOperator::LessThan, e))
    } else if let Some(e) = token_end(s, pos, seq![43u8]) {  // +
        Some((ArithmeticOperator::Plus, e))
    } else if let Some(e) = token_end(s, pos, seq![45u8]) {  // -
        Some((ArithmeticOperator::Minus, e))
    } else if let Some(e) = token_end(s, pos, seq![42u8]) {  // *
        Some((ArithmeticOperator::Times, e))
    } else if let Some(e) = token_end(s, pos, seq![47u8]) {  // /
        Some((ArithmeticOperator::Divide, e))
    } else if let Some(e) = token_end(s, pos, seq![37u8]) {  // %
        Some((ArithmeticOperator::Modulo, e))
    } else {
        None
    }
}

/// The postfix operators `++` and `--`.
pub open spec fn unary_operator_rule(s: Seq<u8>, pos: int) -> Option<(ArithmeticOperator, int)> {
    if let Some(e) = token_end(s, pos, seq![43u8, 43u8]) {  // ++
        Some((ArithmeticOperator::Increment, e))
    } else if let Some(e) = token_end(s, pos, seq![45u8, 45u8]) {  // --
        Some((ArithmeticOperator::Decrement, e))
    } else {
        None
    }
}

/// Whether the byte is `_` or `-`.
pub fn is_underscore_or_dash(chr: u8) -> (r: bool)
    ensures
        r == (chr == UNDERSCORE || chr == DASH),
{
    chr == UNDERSCORE || chr == DASH
}

/// Whether the byte may stand in an identifier.
pub fn is_valid(chr: u8) -> (r: bool)
    ensures
        r == is_ident_byte(chr),
{
    (LOWER_A <= chr && chr <= LOWER_Z) || (UPPER_A <= chr && chr <= UPPER_Z) || (DIGIT_ZERO <= chr && chr <= DIGIT_NINE)
        || is_underscore_or_dash(chr)
}

fn is_space_byte(b: u8) -> (r: bool)
    ensures
        r == is_space(b),
{
    b == SPACE || b == TAB || b == NEWLINE || b == RETURN
}

/// The position of the first non-whitespace byte at or after `pos`.
pub fn skip_whitespace(s: &[u8], pos: usize) -> (r: usize)
    requires
        pos <= s@.len(),
    ensures
        r as int == ws_end(s@, pos as int),
        pos <= r <= s@.len(),
{
    let mut i = pos;
    while i < s.len() && is_space_byte(s[i])
        invariant
            pos <= i <= s@.len(),
            ws_end(s@, i as int) == ws_end(s@, pos as int),
        decreases s@.len() - i,
    {
        i = i + 1;
    }
    i
}

/// Whether the bytes `t` stand in `s` at `pos`.
pub fn tag_at_exec(s: &[u8], pos: usize, t: &[u8]) -> (r: bool)
    requires
        pos <= s@.len(),
    ensures
        r == tag_at(s@, pos as int, t@),
{
    let n = s.len();
    if t.len() > n - pos {
        return false;
    }
    let mut i: usize = 0;
    while i < t.len()
        invariant
            pos + t@.len() <= s@.len(),
            s@.len() == n,
            0 <= i <= t@.len(),
            forall|j: int| 0 <= j < i ==> s@[pos + j] == t@[j],
        decreases t@.len() - i,
    {
        if s[pos + i] != t[i] {
            assert(s@.subrange(pos as int, pos + t@.len())[i as int] != t@[i as int]);
            return false;
        }
        i = i + 1;
    }
    assert(s@.subrange(pos as int, pos + t@.len()) =~= t@);
    true
}

/// After whitespace, the token `t`: the position after it.
pub fn token(s: &[u8], pos: usize, t: &[u8]) -> (r: Option<usize>)
    requires
        pos <= s@.len(),
    ensures
        opt_pos(r) == token_end(s@, pos as int, t@),
        r matches Some(e) ==> pos < e <= s@.len() || (t@.len() == 0 && pos <= e <= s@.len()),
{
    let p = skip_whitespace(s, pos);
    let n = s.len();
    if tag_at_exec(s, p, t) {
        assert(p + t@.len() <= n);
        Some(p + t.len())
    } else {
        None
    }
}

/// After whitespace, the single byte `b`: the position after it.
pub fn byte_token(s: &[u8], pos: usize, b: u8) -> (r: Option<usize>)
    requires
        pos <= s@.len(),
    ensures
        opt_pos(r) == token_end(s@, pos as int, seq![b]),
        r matches Some(e) ==> pos < e <= s@.len(),
{
    let p = skip_whitespace(s, pos);
    if p < s.len() && s[p] == b {
        assert(s@.subrange(p as int, p + 1) =~= seq![b]);
        Some(p + 1)
    } else {
        proof {
            if p < s@.len() {
                assert(s@.subrange(p as int, p + 1)[0] == s@[p as int]);
            }
        }
        None
    }
}

/// The end of the identifier bytes that start right at `pos`, when there is at least one.
pub fn valid_identifier_characters(s: &[u8], pos: usize) -> (r: Option<usize>)
    requires
        pos <= s@.len(),
    ensures
        opt_pos(r) == if pos < ident_end(s@, pos as int) {
            Some(ident_end(s@, pos as int))
        } else {
            None
        },
        r matches Some(e) ==> pos < e <= s@.len(),
        r matches Some(e) ==> forall|j: int| pos <= j < e ==> is_ident_byte(#[trigger] s@[j]),
{
    let mut i = pos;
    while i < s.len() && is_valid(s[i])
        invariant
            pos <= i <= s@.len(),
            ident_end(s@, i as int) == ident_end(s@, pos as int),
            forall|j: int| pos <= j < i ==> is_ident_byte(#[trigger] s@[j]),
        decreases s@.len() - i,
    {
        i = i + 1;
    }
    if i == pos {
        None
    } else {
        Some(i)
    }
}

proof fn lemma_ascii_valid_utf8(b: Seq<u8>)
    requires
        forall|i: int| 0 <= i < b.len() ==> b[i] < 0x80,
    ensures
        valid_utf8(b),
{
    assert(b.subrange(0, 0) =~= Seq::<u8>::empty());
    assert(valid_utf8(b.subrange(0, 0)));
    assert(partial_valid_utf8(b, 0));
    partial_valid_utf8_extend_ascii_block(b, 0, b.len() as int);
    assert(b.subrange(0, b.len() as int) =~= b);
}

pub fn identifier(s: &[u8], pos: usize) -> (r: Result<(Ast, usize), LangError>)
    requires
        pos <= s@.len(),
    ensures
        parsed(r) == identifier_rule(s@, pos as int),
        r matches Ok((_, e)) ==> pos < e <= s@.len(),
{
    let p = skip_whitespace(s, pos);
    match valid_identifier_characters(s, p) {
        None => Err(LangError::InvalidSyntax),
        Some(e) => {
            proof {
                let run = s@.subrange(p as int, e as int);
                assert forall|i: int| 0 <= i < run.len() implies run[i] < 0x80 by {
                    assert(is_ident_byte(s@[p + i]));
                }
                lemma_ascii_valid_utf8(run);
            }
            let run = &s[p..e];
            assert(run@ == s@.subrange(p as int, e as int));
            match text_of(run) {
                Some(name) => Ok((Ast::ValueIdentifier(name), e)),
                None => Err(LangError::InvalidSyntax),
            }
        },
    }
}

pub open spec fn opt_number(r: Option<(i32, usize)>) -> Option<(i32, int)> {
    match r {
        Some((n, e)) => Some((n, e as int)),
        None => None,
    }
}

pub open spec fn opt_text(r: Option<(String, usize)>) -> Option<(Seq<char>, int)> {
    match r {
        Some((t, e)) => Some((t@, e as int)),
        None => None,
    }
}

pub open spec fn opt_value(r: Option<(Datatype, usize)>) -> Option<(ValueModel, int)> {
    match r {
        Some((d, e)) => Some((d@, e as int)),
        None => None,
    }
}

pub open spec fn opt_at<T>(r: Option<(T, usize)>) -> Option<(T, int)> {
    match r {
        Some((x, e)) => Some((x, e as int)),
        None => None,
    }
}

proof fn lemma_digits_run(s: Seq<u8>, p: int)
    requires
        0 <= p <= s.len(),
    ensures
        p <= digits_end(s, p) <= s.len(),
        forall|j: int| p <= j < digits_end(s, p) ==> is_digit_byte(#[trigger] s[j]),
    decreases s.len() - p,
{
    if p < s.len() && is_digit_byte(s[p]) {
        lemma_digits_run(s, p + 1);
    }
}

proof fn lemma_digits_value_mono(d: Seq<u8>, k: int)
    requires
        0 <= k <= d.len(),
        forall|j: int| 0 <= j < d.len() ==> is_digit_byte(#[trigger] d[j]),
    ensures
        0 <= digits_value(d.subrange(0, k)) <= digits_value(d),
    decreases d.len(),
{
    if d.len() > 0 {
        let rest = d.drop_last();
        assert forall|j: int| 0 <= j < rest.len() implies is_digit_byte(#[trigger] rest[j]) by {
            assert(rest[j] == d[j]);
        }
        if k < d.len() {
            lemma_digits_value_mono(rest, k);
            assert(rest.subrange(0, k) =~= d.subrange(0, k));
        } else {
            lemma_digits_value_mono(rest, 0);
            assert(d.subrange(0, k) =~= d);
        }
    } else {
        assert(d.subrange(0, k) =~= d);
    }
}

/// Digits right at `pos`, read as a 32-bit number.
pub fn number(s: &[u8], pos: usize) -> (r: Option<(i32, usize)>)
    requires
        pos <= s@.len(),
    ensures
        opt_number(r) == number_rule(s@, pos as int),
        r matches Some((_, e)) ==> pos < e <= s@.len(),
{
    let n = s.len();
    let mut i = pos;
    let mut acc: i64 = 0;
    proof {
        lemma_digits_run(s@, pos as int);
        assert(s@.subrange(pos as int, pos as int) =~= Seq::<u8>::empty());
    }
    while i < n && DIGIT_ZERO <= s[i] && s[i] <= DIGIT_NINE
        invariant
            pos <= i <= n,
            n == s@.len(),
            digits_end(s@, i as int) == digits_end(s@, pos as int),
            pos <= digits_end(s@, pos as int) <= n,
            forall|j: int| pos <= j < digits_end(s@, pos as int) ==> is_digit_byte(#[trigger] s@[j]),
            acc == digits_value(s@.subrange(pos as int, i as int)),
            0 <= acc <= i32::MAX,
        decreases n - i,
    {
        let d = (s[i] - DIGIT_ZERO) as i64;
        let ghost prefix = s@.subrange(pos as int, i + 1);
        assert(prefix.drop_last() =~= s@.subrange(pos as int, i as int));
        let next = acc * 10 + d;
        if next > i32::MAX as i64 {
            proof {
                lemma_digits_run(s@, i + 1);
                assert(digits_end(s@, i as int) == digits_end(s@, i + 1));
                let e = digits_end(s@, pos as int);
                let run = s@.subrange(pos as int, e);
                assert(run.subrange(0, i + 1 - pos) =~= prefix);
                assert forall|j: int| 0 <= j < run.len() implies is_digit_byte(#[trigger] run[j]) by {
                    assert(run[j] == s@[pos + j]);
                }
                lemma_digits_value_mono(run, i + 1 - pos);
            }
            return None;
        }
        acc = next;
        i = i + 1;
    }
    if i == pos {
        None
    } else {
        Some((acc as i32, i))
    }
}

/// A number literal after whitespace.
pub fn number_literal(s: &[u8], pos: usize) -> (r: Result<(Ast, usize), LangError>)
    requires
        pos <= s@.len(),
    ensures
        parsed(r) == number_literal_rule(s@, pos as int),
        r matches Ok((_, e)) ==> pos < e <= s@.len(),
{
    proof {
        reveal_with_fuel(Ast::view, 2);
    }
    let p = skip_whitespace(s, pos);
    match number(s, p) {
        Some((v, e)) => Ok((Ast::Literal(Datatype::Number(v)), e)),
        None => Err(LangError::InvalidSyntax),
    }
}

/// A double-quoted text after whitespace, without its quotes.
pub fn string(s: &[u8], pos: usize) -> (r: Option<(String, usize)>)
    requires
        pos <= s@.len(),
    ensures
        opt_text(r) == string_rule(s@, pos as int),
        r matches Some((_, e)) ==> pos < e <= s@.len(),
{
    let n = s.len();
    let p = skip_whitespace(s, pos);
    if p >= n || s[p] != QUOTE {
        return None;
    }
    let mut q = p + 1;
    while q < n && s[q] != QUOTE
        invariant
            p + 1 <= q <= n,
            n == s@.len(),
            quote_index(s@, q as int) == quote_index(s@, p + 1),
        decreases n - q,
    {
        q = q + 1;
    }
    if q >= n {
        return None;
    }
    let inner = &s[p + 1..q];
    assert(inner@ == s@.subrange(p + 1, q as int));
    match text_of(inner) {
        Some(t) => Some((t, q + 1)),
        None => None,
    }
}

/// A string literal after whitespace.
pub fn string_literal(s: &[u8], pos: usize) -> (r: Result<(Ast, usize), LangError>)
    requires
        pos <= s@.len(),
    ensures
        parsed(r) == string_literal_rule(s@, pos as int),
        r matches Ok((_, e)) ==> pos < e <= s@.len(),
{
    proof {
        reveal_with_fuel(Ast::view, 2);
    }
    match string(s, pos) {
        Some((t, e)) => Ok((Ast::Literal(Datatype::String(t)), e)),
        None => Err(LangError::InvalidSyntax),
    }
}

fn boolean(s: &[u8], pos: usize) -> (r: Option<(bool, usize)>)
    requires
        pos <= s@.len(),
    ensures
        opt_at(r) == bool_rule(s@, pos as int),
        r matches Some((_, e)) ==> pos < e <= s@.len(),
{
    if let Some(e) = token(s, pos, &[116u8, 114, 117, 101]) {  // true
        assert(token_end(s@, pos as int, seq![116u8, 114u8, 117u8, 101u8]) == Some(e as int));
        Some((true, e))
    } else if let Some(e) = token(s, pos, &[102u8, 97, 108, 115, 101]) {  // false
        assert(token_end(s@, pos as int, seq![102u8, 97u8, 108u8, 115u8, 101u8]) == Some(e as int));
        Some((false, e))
    } else {
        None
    }
}

/// A boolean literal after whitespace.
pub fn bool_literal(s: &[u8], pos: usize) -> (r: Result<(Ast, usize), LangError>)
    requires
        pos <= s@.len(),
    ensures
        parsed(r) == bool_literal_rule(s@, pos as int),
        r matches Ok((_, e)) ==> pos < e <= s@.len(),
{
    proof {
        reveal_with_fuel(Ast::view, 2);
    }
    match boolean(s, pos) {
        Some((b, e)) => Ok((Ast::Literal(Datatype::Bool(b)), e)),
        None => Err(LangError::InvalidSyntax),
    }
}

/// A literal value: a number, then a string, then a boolean.
pub fn literal_value(s: &[u8], pos: usize) -> (r: Option<(Datatype, usize)>)
    requires
        pos <= s@.len(),
    ensures
        opt_value(r) == literal_value_rule(s@, pos as int),
        r matches Some((_, e)) ==> pos < e <= s@.len(),
{
    let p = skip_whitespace(s, pos);
    if let Some((n, e)) = number(s, p) {
        Some((Datatype::Number(n), e))
    } else if let Some((t, e)) = string(s, pos) {
        Some((Datatype::String(t), e))
    } else if let Some((b, e)) = boolean(s, pos) {
        Some((Datatype::Bool(b), e))
    } else {
        None
    }
}

/// A literal node.
pub fn literal(s: &[u8], pos: usize) -> (r: Result<(Ast, usize), LangError>)
    requires
        pos <= s@.len(),
    ensures
        parsed(r) == literal_rule(s@, pos as int),
        r matches Ok((_, e)) ==> pos < e <= s@.len(),
{
    match literal_value(s, pos) {
        Some((v, e)) => Ok((Ast::Literal(v), e)),
        None => Err(LangError::InvalidSyntax),
    }
}

/// A type name in a signature, as a kind.
pub fn type_info(s: &[u8], pos: usize) -> (r: Option<(TypeInfo, usize)>)
    requires
        pos <= s@.len(),
    ensures
        opt_at(r) == type_info_rule(s@, pos as int),
        r matches Some((_, e)) ==> pos < e <= s@.len(),
{
    if let Some(e) = token(s, pos, &[78u8, 117, 109, 98, 101, 114]) {  // Number
        assert(token_end(s@, pos as int, seq![78u8, 117u8, 109u8, 98u8, 101u8, 114u8]) == Some(e as int));
        Some((TypeInfo::Number, e))
    } else if let Some(e) = token(s, pos, &[83u8, 116, 114, 105, 110, 103]) {  // String
        assert(token_end(s@, pos as int, seq![83u8, 116u8, 114u8, 105u8, 110u8, 103u8]) == Some(e as int));
        Some((TypeInfo::String, e))
    } else if let Some(e) = token(s, pos, &[66u8, 111, 111, 108]) {  // Bool
        assert(token_end(s@, pos as int, seq![66u8, 111u8, 111u8, 108u8]) == Some(e as int));
        Some((TypeInfo::Bool, e))
    } else if let Some(e) = token(s, pos, &[78u8, 111, 110, 101]) {  // None
        assert(token_end(s@, pos as int, seq![78u8, 111u8, 110u8, 101u8]) == Some(e as int));
        Some((TypeInfo::Nil, e))
    } else {
        None
    }
}

/// A type name in a signature.
pub fn type_signature(s: &[u8], pos: usize) -> (r: Result<(Ast, usize), LangError>)
    requires
        pos <= s@.len(),
    ensures
        parsed(r) == type_signature_rule(s@, pos as int),
        r matches Ok((_, e)) ==> pos < e <= s@.len(),
{
    match type_info(s, pos) {
        Some((t, e)) => Ok((Ast::Type(t), e)),
        None => Err(LangError::InvalidSyntax),
    }
}

/// A binary operator after whitespace; two-byte operators first.
pub fn binary_operator(s: &[u8], pos: usize) -> (r: Option<(ArithmeticOperator, usize)>)
    requires
        pos <= s@.len(),
    ensures
        opt_at(r) == binary_operator_rule(s@, pos as int),
        r matches Some((_, e)) ==> pos < e <= s@.len(),
{
    if let Some(e) = token(s, pos, &[61u8, 61]) {  // ==
        assert(token_end(s@, pos as int, seq![61u8, 61u8]) == Some(e as int));
        Some((ArithmeticOperator::Equals, e))
    } else if let Some(e) = token(s, pos, &[33u8, 61]) {  // !=
        assert(token_end(s@, pos as int, seq![33u8, 61u8]) == Some(e as int));
        Some((ArithmeticOperator::NotEquals, e))
    } else if let Some(e) = token(s, pos, &[62u8, 61]) {  // >=
        assert(token_end(s@, pos as int, seq![62u8, 61u8]) == Some(e as int));
        Some((ArithmeticOperator::GreaterThanOrEqual, e))
    } else if let Some(e) = token(s, pos, &[60u8, 61]) {  // <=
        assert(token_end(s@, pos as int, seq![60u8, 61u8]) == Some(e as int));
        Some((ArithmeticOperator::LessThanOrEqual, e))
    } else if let Some(e) = byte_token(s, pos, 62) {  // >
        assert(token_end(s@, pos as int, seq![62u8]) == Some(e as int));
        Some((ArithmeticOperator::GreaterThan, e))
    } else if let Some(e) = byte_token(s, pos, 60) {  // <
        assert(token_end(s@, pos as int, seq![60u8]) == Some(e as int));
        Some((ArithmeticOperator::LessThan, e))
    } else if let Some(e) = byte_token(s, pos, 43) {  // +
        assert(token_end(s@, pos as int, seq![43u8]) == Some(e as int));
        Some((ArithmeticOperator::Plus, e))
    } else if let Some(e) = byte_token(s, pos, 45) {  // -
        assert(token_end(s@, pos as int, seq![45u8]) == Some(e as int));
        Some((ArithmeticOperator::Minus, e))
    } else if let Some(e) = byte_token(s, pos, 42) {  // *
        assert(token_end(s@, pos as int, seq![42u8]) == Some(e as int));
        Some((ArithmeticOperator::Times, e))
    } else if let Some(e) = byte_token(s, pos, 47) {  // /
        assert(token_end(s@, pos as int, seq![47u8]) == Some(e as int));
        Some((ArithmeticOperator::Divide, e))
    } else if let Some(e) = byte_token(s, pos, 37) {  // %
        assert(token_end(s@, pos as int, seq![37u8]) == Some(e as int));
        Some((ArithmeticOperator::Modulo, e))
    } else {
        None
    }
}

/// A postfix operator, `++` or `--`, after whitespace.
pub fn unary_operator(s: &[u8], pos: usize) -> (r: Option<(ArithmeticOperator, usize)>)
    requires
        pos <= s@.len(),
    ensures
        opt_at(r) == unary_operator_rule(s@, pos as int),
        r matches Some((_, e)) ==> pos < e <= s@.len(),
{
    if let Some(e) = token(s, pos, &[43u8, 43]) {  // ++
        assert(token_end(s@, pos as int, seq![43u8, 43u8]) == Some(e as int));
        Some((ArithmeticOperator::Increment, e))
    } else if let Some(e) = token(s, pos, &[45u8, 45]) {  // --
        assert(token_end(s@, pos as int, seq![45u8, 45u8]) == Some(e as int));
        Some((ArithmeticOperator::Decrement, e))
    } else {
        None
    }
}

} // verus!

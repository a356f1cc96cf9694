use lang_front::ast::{Ast, Datatype, TypeInfo};
use lang_front::equality::{ast_equal, value_equal};
use lang_front::error::LangError;

fn n(x: i32) -> Datatype {
    Datatype::Number(x)
}

fn s(x: &str) -> Datatype {
    Datatype::String(x.to_string())
}

#[test]
fn number_and_string_concatenate() {
    assert_eq!(n(3).add(s("x")), Ok(s("3x")));
    assert_eq!(s("x").add(n(3)), Ok(s("x3")));
    assert_eq!(s("x").add(n(-12)), Ok(s("x-12")));
    assert_eq!(s("ab").add(s("cd")), Ok(s("abcd")));
    assert_eq!(n(3).sub(s("x")), Err(LangError::UnsupportedArithimaticOperation));
}

#[test]
fn numbers_add_and_overflow() {
    assert_eq!(n(3).add(n(4)), Ok(n(7)));
    assert_eq!(n(i32::MAX).add(n(1)), Err(LangError::ArithmeticOverflow));
    assert_eq!(Datatype::Bool(true).add(n(1)), Err(LangError::UnsupportedArithimaticOperation));
}

#[test]
fn division_truncates_and_rejects_zero() {
    assert_eq!(n(7).div(n(2)), Ok(n(3)));
    assert_eq!(n(-7).div(n(2)), Ok(n(-3)));
    assert_eq!(n(7).div(n(-2)), Ok(n(-3)));
    assert_eq!(n(-7).div(n(-2)), Ok(n(3)));
    assert_eq!(n(5).div(n(0)), Err(LangError::DivideByZero));
    assert_eq!(n(i32::MIN).div(n(-1)), Err(LangError::ArithmeticOverflow));
}

#[test]
fn remainder_takes_sign_of_dividend() {
    assert_eq!(n(7).rem(n(3)), Ok(n(1)));
    assert_eq!(n(-7).rem(n(3)), Ok(n(-1)));
    assert_eq!(n(7).rem(n(-3)), Ok(n(1)));
    assert_eq!(n(i32::MIN).rem(n(-1)), Ok(n(0)));
    assert_eq!(n(1).rem(n(0)), Err(LangError::DivideByZero));
}

#[test]
fn subtract_and_multiply() {
    assert_eq!(n(3).sub(n(10)), Ok(n(-7)));
    assert_eq!(n(6).mul(n(-7)), Ok(n(-42)));
    assert_eq!(n(65536).mul(n(65536)), Err(LangError::ArithmeticOverflow));
    assert_eq!(s("a").mul(n(2)), Err(LangError::UnsupportedArithimaticOperation));
}

#[test]
fn unary_operators() {
    assert_eq!(n(1).increment(), Ok(n(2)));
    assert_eq!(n(1).decrement(), Ok(n(0)));
    assert_eq!(s("a").increment(), Err(LangError::IncrementNonNumber));
    assert_eq!(s("a").decrement(), Err(LangError::DecrementNonNumber));
    assert_eq!(Datatype::Bool(true).invert(), Ok(Datatype::Bool(false)));
    assert_eq!(n(1).invert(), Err(LangError::InvertNonBoolean));
    assert_eq!(n(5).negate(), Ok(n(-5)));
    assert_eq!(Datatype::Nil.negate(), Err(LangError::NegateNotNumber));
}

#[test]
fn ordering_comparisons_on_numbers_only() {
    assert_eq!(n(2).greater_than(&n(1)), Ok(Datatype::Bool(true)));
    assert_eq!(n(2).less_than(&n(1)), Ok(Datatype::Bool(false)));
    assert_eq!(n(2).greater_than_or_equal(&n(2)), Ok(Datatype::Bool(true)));
    assert_eq!(n(3).less_than_or_equal(&n(2)), Ok(Datatype::Bool(false)));
    assert_eq!(s("a").less_than(&s("b")), Err(LangError::UnsupportedArithimaticOperation));
}

#[test]
fn type_of_each_value() {
    assert_eq!(TypeInfo::from(n(1)), TypeInfo::Number);
    assert_eq!(TypeInfo::from(s("a")), TypeInfo::String);
    assert_eq!(TypeInfo::from(Datatype::Bool(false)), TypeInfo::Bool);
    assert_eq!(TypeInfo::from(Datatype::Nil), TypeInfo::Nil);
    assert_eq!(
        TypeInfo::from(Datatype::Array { value: vec![], type_: TypeInfo::Number }),
        TypeInfo::Array
    );
}

#[test]
fn structural_equality_across_kinds() {
    let arr = |v: Vec<i32>| Datatype::Array { value: v.into_iter().map(n).collect(), type_: TypeInfo::Number };
    assert_eq!(n(1).equals(&n(1)), Datatype::Bool(true));
    assert_eq!(n(1).equals(&s("1")), Datatype::Bool(false));
    assert_eq!(s("a").not_equals(&s("b")), Datatype::Bool(true));
    assert!(value_equal(&arr(vec![1, 2]), &arr(vec![1, 2])));
    assert!(!value_equal(&arr(vec![1, 2]), &arr(vec![1, 3])));
    assert!(!value_equal(&arr(vec![1]), &arr(vec![1, 1])));
    assert!(value_equal(&Datatype::Nil, &Datatype::Nil));
    let f = |x: &str| Datatype::Function {
        parameters: Box::new(Ast::ExpressionList(vec![])),
        body: Box::new(Ast::ExpressionList(vec![Ast::ValueIdentifier(x.to_string())])),
        return_type: TypeInfo::Number,
    };
    assert!(value_equal(&f("a"), &f("a")));
    assert!(!value_equal(&f("a"), &f("b")));
    assert!(!ast_equal(&Ast::Type(TypeInfo::Bool), &Ast::Type(TypeInfo::Number)));
}

use lang_front::ast::{ArithmeticOperator, Ast, BinaryOperator, Datatype, SExpression, TypeInfo};
use lang_front::desugar::{create_for_loop, synthetic_identifier};
use lang_front::error::LangError;
use lang_front::expr::{array_access, array_literal, array_range, array_values, sexpr, sexpr_parens};
use lang_front::lexer::{
    binary_operator, bool_literal, identifier, number, number_literal, string, string_literal, type_signature,
    valid_identifier_characters,
};
use lang_front::stmt::{
    body, declaration, for_loop, function, function_parameter_assignment, if_expression,
    parse_program, parse_program_with_salt, program,
};

fn ok(r: Result<(Ast, usize), LangError>) -> Ast {
    match r {
        Ok((a, _)) => a,
        Err(e) => panic!("{:?}", e),
    }
}

fn num(n: i32) -> Ast {
    Ast::Literal(Datatype::Number(n))
}

fn id(name: &str) -> Ast {
    Ast::ValueIdentifier(name.to_string())
}

fn add(a: Ast, b: Ast) -> Ast {
    Ast::SExpr(SExpression::Add(Box::new(a), Box::new(b)))
}

#[test]
fn parse_plus_test() {
    let value = binary_operator(b"+", 0).unwrap().0;
    assert_eq!(ArithmeticOperator::Plus, value)
}

#[test]
fn parse_operator_test() {
    let value = binary_operator(b"%", 0).unwrap().0;
    assert_eq!(ArithmeticOperator::Modulo, value)
}

#[test]
fn parse_identifier_alphanumeric_test() {
    let value = ok(identifier(b"variableName", 0));
    assert_eq!(Ast::ValueIdentifier("variableName".to_string()), value)
}

#[test]
fn parse_identifier_underscore_test() {
    let value = ok(identifier(b"variable_name", 0));
    assert_eq!(Ast::ValueIdentifier("variable_name".to_string()), value)
}

#[test]
fn parse_number_test() {
    let (value, _) = number(b"42", 0).unwrap();
    assert_eq!(42, value)
}

#[test]
fn parse_number_literal_test() {
    let value = ok(number_literal(b"42", 0));
    assert_eq!(Ast::Literal(Datatype::Number(42)), value)
}

#[test]
fn parse_bool_literal_test() {
    let value = ok(bool_literal(b"true", 0));
    assert_eq!(Ast::Literal(Datatype::Bool(true)), value)
}

#[test]
fn parse_string_test() {
    let input_string = "\"Hello World\"";
    let (value, _) = string(input_string.as_bytes(), 0).unwrap();
    assert_eq!("Hello World".to_string(), value)
}

#[test]
fn parse_string_literal_test() {
    let input_string = " \"Hello World\"  ";
    let value = ok(string_literal(input_string.as_bytes(), 0));
    assert_eq!(Ast::Literal(Datatype::String("Hello World".to_string())), value)
}

#[test]
fn parse_assignment_of_literal_test() {
    let input_string = "let b 8";
    let value = ok(declaration(input_string.as_bytes(), 0));
    assert_eq!(
        Ast::Expression {
            operator: BinaryOperator::Assignment,
            expr1: Box::new(id("b")),
            expr2: Box::new(num(8)),
        },
        value
    )
}

#[test]
fn parse_function_parameter_assignment_of_type_number_test() {
    let input_string = "b : Number";
    let value = ok(function_parameter_assignment(input_string.as_bytes(), 0));
    assert_eq!(
        Ast::Expression {
            operator: BinaryOperator::FunctionParameterAssignment,
            expr1: Box::new(id("b")),
            expr2: Box::new(Ast::Type(TypeInfo::Number)),
        },
        value
    )
}

fn expected_test_function() -> Ast {
    Ast::Expression {
        operator: BinaryOperator::Assignment,
        expr1: Box::new(id("test_function")),
        expr2: Box::new(Ast::Literal(Datatype::Function {
            parameters: Box::new(Ast::ExpressionList(vec![Ast::Expression {
                operator: BinaryOperator::FunctionParameterAssignment,
                expr1: Box::new(id("a")),
                expr2: Box::new(Ast::Type(TypeInfo::Number)),
            }])),
            body: Box::new(Ast::ExpressionList(vec![add(id("a"), num(8))])),
            return_type: TypeInfo::Number,
        })),
    }
}

#[test]
fn function_parse_whole_function_number_input_returns_number_test() {
    let input_string = "fn test_function ( a : Number ) -> Number { ( a + 8 ) }";
    let value = ok(function(input_string.as_bytes(), 0, "s"));
    assert_eq!(expected_test_function(), value)
}

#[test]
fn parse_program_and_validate_ast_test() {
    let input_string = "
     let x 7
     fn test_function ( a : Number ) -> Number { ( a + 8 ) }
     test_function(x)";
    let value = ok(program(input_string.as_bytes(), 0, "s"));

    let expected_assignment = Ast::Expression {
        operator: BinaryOperator::Assignment,
        expr1: Box::new(id("x")),
        expr2: Box::new(num(7)),
    };
    let expected_fn_call = Ast::Expression {
        operator: BinaryOperator::ExecuteFn,
        expr1: Box::new(id("test_function")),
        expr2: Box::new(Ast::ExpressionList(vec![id("x")])),
    };
    let expected_program_ast =
        Ast::ExpressionList(vec![expected_assignment, expected_test_function(), expected_fn_call]);
    assert_eq!(expected_program_ast, value)
}

#[test]
fn parse_array_access_test() {
    let input_string = r##"
        array_identifier[0]
        "##;
    let value = ok(array_access(input_string.as_bytes(), 0));
    assert_eq!(
        Ast::Expression {
            operator: BinaryOperator::AccessArray,
            expr1: Box::new(id("array_identifier")),
            expr2: Box::new(num(0)),
        },
        value
    )
}

#[test]
fn parse_array_access_on_new_array_test() {
    let input_string = r##"
        [12, 13, 14][0]
        "##;
    let value = ok(array_access(input_string.as_bytes(), 0));
    assert_eq!(
        Ast::Expression {
            operator: BinaryOperator::AccessArray,
            expr1: Box::new(Ast::Literal(Datatype::Array {
                value: vec![Datatype::Number(12), Datatype::Number(13), Datatype::Number(14)],
                type_: TypeInfo::Number,
            })),
            expr2: Box::new(num(0)),
        },
        value
    )
}

#[test]
fn parse_body_nocheck_test() {
    let input_string = "{ a + 8 }";
    assert!(body(input_string.as_bytes(), 0, "s").is_ok());
}

#[test]
fn parse_simple_body_test() {
    let input_string = "{ true }";
    assert!(body(input_string.as_bytes(), 0, "s").is_ok());
}

#[test]
fn parse_simple_body_assignment_test() {
    let input_string = "{ let a := 8 }";
    assert!(body(input_string.as_bytes(), 0, "s").is_ok());
}

#[test]
fn for_loop_parse() {
    let input_string = r#"
        for i in [0,2] {
            3
        }
         "#;
    let ast = ok(for_loop(input_string.as_bytes(), 0, "salt"));
    let expected_ast = create_for_loop(
        id("i"),
        Ast::Literal(Datatype::Array {
            value: vec![Datatype::Number(0), Datatype::Number(2)],
            type_: TypeInfo::Number,
        }),
        Ast::ExpressionList(vec![num(3)]),
        synthetic_identifier("index", 9, "salt"),
        synthetic_identifier("array", 9, "salt"),
    );
    assert_eq!(expected_ast, ast);
}

#[test]
fn parse_if_statement_test() {
    let value = ok(if_expression(b"if true { true }", 0, "s"));
    assert_eq!(
        Ast::Conditional {
            condition: Box::new(Ast::Literal(Datatype::Bool(true))),
            true_expr: Box::new(Ast::ExpressionList(vec![Ast::Literal(Datatype::Bool(true))])),
            false_expr: None,
        },
        value
    )
}

#[test]
fn parse_if_statement_with_expression_test() {
    let value = ok(if_expression(b"if 1 == 1 { true }", 0, "s"));
    assert_eq!(
        Ast::Conditional {
            condition: Box::new(Ast::SExpr(SExpression::Equals(Box::new(num(1)), Box::new(num(1))))),
            true_expr: Box::new(Ast::ExpressionList(vec![Ast::Literal(Datatype::Bool(true))])),
            false_expr: None,
        },
        value
    )
}

#[test]
fn parse_if_else_statement_test() {
    let value = ok(if_expression(b"if true { true } else { true }", 0, "s"));
    assert_eq!(
        Ast::Conditional {
            condition: Box::new(Ast::Literal(Datatype::Bool(true))),
            true_expr: Box::new(Ast::ExpressionList(vec![Ast::Literal(Datatype::Bool(true))])),
            false_expr: Some(Box::new(Ast::ExpressionList(vec![Ast::Literal(Datatype::Bool(true))]))),
        },
        value
    )
}

#[test]
fn sexpr_parse_addition() {
    let value = ok(sexpr(b"3 + 4", 0));
    assert_eq!(add(num(3), num(4)), value);
}

#[test]
fn sexpr_parse_increment() {
    let value = ok(sexpr(b"3++", 0));
    assert_eq!(Ast::SExpr(SExpression::Increment(Box::new(num(3)))), value);
}

#[test]
fn sexpr_parse_negate() {
    let value = ok(sexpr(b"!true", 0));
    assert_eq!(Ast::SExpr(SExpression::Invert(Box::new(Ast::Literal(Datatype::Bool(true))))), value);
}

#[test]
fn sexpr_parse_addition_multiple() {
    let value = ok(sexpr(b"3 + 4 + 5", 0));
    assert_eq!(add(num(3), add(num(4), num(5))), value);
}

#[test]
fn sexpr_parens_parse() {
    let value = ok(sexpr(b"(3 + 4) + 5", 0));
    assert_eq!(add(add(num(3), num(4)), num(5)), value);
}

#[test]
fn sexpr_parens_rhs_parse() {
    let value = ok(sexpr(b"3 + (4 + 5)", 0));
    assert_eq!(add(num(3), add(num(4), num(5))), value);
}

#[test]
fn sexpr_parens_triple_parse() {
    let value = ok(sexpr(b"3 + (4 + 5 + 6)", 0));
    assert_eq!(add(num(3), add(num(4), add(num(5), num(6)))), value);
}

#[test]
fn sexpr_parens_negate_parse() {
    let value = ok(sexpr_parens(b"(!true)", 0));
    assert_eq!(Ast::SExpr(SExpression::Invert(Box::new(Ast::Literal(Datatype::Bool(true))))), value);
}

#[test]
fn parse_array_bool_literal_test() {
    let value = ok(array_literal(b"[true]", 0));
    assert_eq!(
        Ast::Literal(Datatype::Array { value: vec![Datatype::Bool(true)], type_: TypeInfo::Bool }),
        value
    )
}

#[test]
fn parse_array_multiple_bool_literal_test() {
    let value = ok(array_literal(b"[true, true, false]", 0));
    assert_eq!(
        Ast::Literal(Datatype::Array {
            value: vec![Datatype::Bool(true), Datatype::Bool(true), Datatype::Bool(false)],
            type_: TypeInfo::Bool,
        }),
        value
    )
}

#[test]
fn parse_array_bool_test() {
    let (value, _) = array_values(b"true, true", 0).unwrap();
    assert_eq!(
        vec![Ast::Literal(Datatype::Bool(true)), Ast::Literal(Datatype::Bool(true))],
        value
    )
}

#[test]
fn fail_parse_array_mismatched_literal_test() {
    let error = array_literal(b"[true, 8]", 0);
    assert_eq!(Err(LangError::TypeError { expected: TypeInfo::Bool, found: TypeInfo::Number }), error);
}

#[test]
fn parse_array_multiple_number_literal_test() {
    let value = ok(array_literal(b"[12, 13, 14]", 0));
    assert_eq!(
        Ast::Literal(Datatype::Array {
            value: vec![Datatype::Number(12), Datatype::Number(13), Datatype::Number(14)],
            type_: TypeInfo::Number,
        }),
        value
    )
}

#[test]
fn parse_array_range() {
    let value = ok(array_range(b"[10..20]", 0));
    let expected = Ast::SExpr(SExpression::Range { start: Box::new(num(10)), end: Box::new(num(20)) });
    assert_eq!(expected, value)
}

#[test]
fn number_literal_consumes_exactly_its_digits() {
    assert_eq!(number_literal(b"2147483647", 0), Ok((num(2147483647), 10)));
    assert_eq!(number_literal(b"0", 0), Ok((num(0), 1)));
    assert_eq!(number_literal(b"2147483648", 0), Err(LangError::InvalidSyntax));
    assert_eq!(number_literal(b"12ab", 0), Ok((num(12), 2)));
}

#[test]
fn string_literal_strips_quotes() {
    assert_eq!(
        string_literal(b"\"a b-c\"", 0),
        Ok((Ast::Literal(Datatype::String("a b-c".to_string())), 7))
    );
    assert_eq!(string_literal(b"\"\"", 0), Ok((Ast::Literal(Datatype::String(String::new())), 2)));
    assert_eq!(string_literal(b"\"open", 0), Err(LangError::InvalidSyntax));
}

#[test]
fn identifier_run_stops_at_other_bytes() {
    assert_eq!(valid_identifier_characters(b"ab_c-9 x", 0), Some(6));
    assert_eq!(valid_identifier_characters(b" x", 0), None);
    assert_eq!(identifier(b"(x", 0), Err(LangError::InvalidSyntax));
}

#[test]
fn empty_array_literal_is_rejected() {
    assert_eq!(array_literal(b"[]", 0), Err(LangError::InvalidSyntax));
}

#[test]
fn mismatch_reports_first_differing_element() {
    assert_eq!(
        array_literal(b"[1, 2, \"x\", true]", 0),
        Err(LangError::TypeError { expected: TypeInfo::Number, found: TypeInfo::String })
    );
}

#[test]
fn whole_program_end_to_end() {
    let text = b"let x 7\nfn f ( a : Number ) -> Number { ( a + 8 ) }\nf(x)\n";
    let ast = parse_program(text).unwrap();
    match ast {
        Ast::ExpressionList(items) => {
            assert_eq!(items.len(), 3);
            assert_eq!(
                items[2],
                Ast::Expression {
                    operator: BinaryOperator::ExecuteFn,
                    expr1: Box::new(id("f")),
                    expr2: Box::new(Ast::ExpressionList(vec![id("x")])),
                }
            );
        }
        other => panic!("{:?}", other),
    }
}

#[test]
fn program_with_trailing_garbage_fails() {
    assert_eq!(parse_program_with_salt(b"let x 7 )", "s"), Err(LangError::InvalidSyntax));
    assert_eq!(parse_program_with_salt(b"   ", "s"), Err(LangError::InvalidSyntax));
}

#[test]
fn type_mismatch_surfaces_from_program() {
    assert_eq!(
        parse_program_with_salt(b"let a [true, 8]", "s"),
        Err(LangError::TypeError { expected: TypeInfo::Bool, found: TypeInfo::Number })
    );
}

#[test]
fn synthetic_names_use_position_and_salt() {
    assert_eq!(synthetic_identifier("index", 12, "abc"), "#index12-abc".to_string());
}

#[test]
fn lowered_loop_shape() {
    let ast = ok(for_loop(b"for i in [0,2] { 3 }", 0, "k"));
    let index = id("#index0-k");
    let array = id("#array0-k");
    let assign = |a: Ast, b: Ast| Ast::SExpr(SExpression::Assignment { identifier: Box::new(a), ast: Box::new(b) });
    let expected = Ast::ExpressionList(vec![
        assign(id("#index0-k"), num(0)),
        assign(
            id("#array0-k"),
            Ast::Literal(Datatype::Array { value: vec![Datatype::Number(0), Datatype::Number(2)], type_: TypeInfo::Number }),
        ),
        Ast::SExpr(SExpression::Loop {
            conditional: Box::new(Ast::SExpr(SExpression::LessThan(
                Box::new(id("#index0-k")),
                Box::new(Ast::SExpr(SExpression::GetArrayLength(Box::new(id("#array0-k"))))),
            ))),
            body: Box::new(Ast::ExpressionList(vec![
                assign(
                    id("i"),
                    Ast::SExpr(SExpression::AccessArray { identifier: Box::new(array), index: Box::new(index) }),
                ),
                Ast::ExpressionList(vec![num(3)]),
                assign(id("#index0-k"), Ast::SExpr(SExpression::Increment(Box::new(id("#index0-k"))))),
            ])),
        }),
    ]);
    assert_eq!(expected, ast);
}

#[test]
fn comparison_and_postfix_operators() {
    assert_eq!(
        ok(sexpr(b"a >= 2", 0)),
        Ast::SExpr(SExpression::GreaterThanOrEqual(Box::new(id("a")), Box::new(num(2))))
    );
    assert_eq!(ok(sexpr(b"x ++", 0)), Ast::SExpr(SExpression::Increment(Box::new(id("x")))));
    assert_eq!(sexpr(b"7", 0), Err(LangError::InvalidSyntax));
}

#[test]
fn synthetic_names_differ_from_loop_variable_and_each_other() {
    let ast = ok(for_loop(b"  for item in xs { item }", 0, "salt"));
    let names = match &ast {
        Ast::ExpressionList(items) => match (&items[0], &items[1]) {
            (
                Ast::SExpr(SExpression::Assignment { identifier: a, .. }),
                Ast::SExpr(SExpression::Assignment { identifier: b, .. }),
            ) => (format!("{:?}", a), format!("{:?}", b)),
            _ => panic!(),
        },
        _ => panic!(),
    };
    assert_eq!(names.0, format!("{:?}", id("#index2-salt")));
    assert_eq!(names.1, format!("{:?}", id("#array2-salt")));
    assert_ne!(names.0, names.1);
}

#[test]
fn nested_loops_get_their_own_names() {
    let ast = ok(for_loop(b"for a in xs { for b in ys { b } }", 0, "s"));
    let text = format!("{:?}", ast);
    assert!(text.contains("#index0-s"));
    assert!(text.contains("#index14-s"));
    assert!(text.contains("#array14-s"));
}

#[test]
fn if_without_else_keeps_following_text() {
    assert_eq!(
        if_expression(b"if x { 1 } y", 0, "s").map(|(_, e)| e),
        Ok(10)
    );
}

#[test]
fn random_salt_is_a_hyphenated_uuid() {
    let text = b"for i in xs { i }";
    let a = format!("{:?}", parse_program(text).unwrap());
    let b = format!("{:?}", parse_program(text).unwrap());
    assert_ne!(a, b);
    assert!(a.contains("#index0-"));
}

#[test]
fn type_names_read_back_as_their_kinds() {

    for t in [TypeInfo::Number, TypeInfo::String, TypeInfo::Bool, TypeInfo::Nil] {
        let text = t.name();
        assert_eq!(type_signature(text.as_bytes(), 0), Ok((Ast::Type(t), text.len())));
    }
    assert_eq!(TypeInfo::Function.name(), "Function");
    assert_eq!(TypeInfo::Array.name(), "Array");
}

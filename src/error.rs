use vstd::prelude::*;

use crate::ast::{Datatype, TypeInfo};

verus! {

/// Every failure the parser and the arithmetic engine can report.
#[allow(inconsistent_fields)]
#[derive(PartialEq, Debug)]
pub enum LangError {
    DivideByZero,
    ArithmeticOverflow,
    IdentifierDoesntExist,
    ParserShouldHaveRejected,
    UnsupportedArithimaticOperation,
    ConditionOnNonBoolean,
    InvertNonBoolean,
    NegateNotNumber,
    DecrementNonNumber,
    IncrementNonNumber,
    ExecuteNonFunction,
    ReturnTypeDoesNotMatchReturnValue,
    FunctionParametersShouldBeExpressionList,
    ParameterLengthMismatch,
    InvalidFunctionPrototypeFormatting,
    TypeError { expected: TypeInfo, found: TypeInfo },
    ExpectedDataTypeInfo,
    InvalidSyntax,
    InvalidSyntaxFailedToParse,
    VariableDoesntExist(String),
    TriedToEvaluateTypeInfo(TypeInfo),
    ConditionalNotBoolean(TypeInfo),
    ArrayAccessOnNonArray(TypeInfo),
    InvalidIndexType(Datatype),
    NegativeIndex(i32),
    OutOfBoundsArrayAccess,
    FieldTypeNotSupplied,
    FieldIdentifierNotSupplied,
    NonAssignmentInStructDeclaration,
    StructBodyNotSupplied,
    StructNameNotSupplied,
    StructFieldDoesntExist,
    TriedToAccessNonStruct,
    NonAssignmentInStructInit,
    ExpectedIdentifier,
    ExpectedExpression,
    ExpectedIdentifierToBeStructType { found: String },
    InitState,
    CouldNotReadFile { filename: String, reason: String },
    CouldNotParseFile { filename: String, reason: String },
    TriedToGetLengthOfNonArray,
    RangeValueIsntNumber,
    MutabilityRulesViolated,
}

/// The outcome of an operation on values.
pub type LangResult = Result<Datatype, LangError>;

} // verus!

//! The syntax tree, the runtime values it carries, and their mathematical models.
use vstd::prelude::*;

use crate::error::LangError;

verus! {

/// The kind of a runtime value, as it appears in signatures and checks.
#[derive(Clone, Copy, Debug, PartialEq, Eq, Structural)]
pub enum TypeInfo {
    Number,
    String,
    Array,
    Bool,
    Nil,
    Function,
}

/// Operator of the generic binary node used for bindings, parameter
/// declarations, calls and index access.
#[derive(Clone, Copy, Debug, PartialEq, Eq, Structural)]
pub enum BinaryOperator {
    Assignment,
    FunctionParameterAssignment,
    ExecuteFn,
    AccessArray,
}

/// A runtime value.
#[derive(Debug, PartialEq)]
pub enum Datatype {
    Number(i32),
    String(String),
    Array { value: Vec<Datatype>, type_: TypeInfo },
    Bool(bool),
    Nil,
    Function { parameters: Box<Ast>, body: Box<Ast>, return_type: TypeInfo },
}

/// A node of the syntax tree.
#[derive(Debug, PartialEq)]
pub enum Ast {
    Literal(Datatype),
    ValueIdentifier(String),
    Type(TypeInfo),
    Expression { operator: BinaryOperator, expr1: Box<Ast>, expr2: Box<Ast> },
    SExpr(SExpression),
    ExpressionList(Vec<Ast>),
    Conditional { condition: Box<Ast>, true_expr: Box<Ast>, false_expr: Option<Box<Ast>> },
}

/// An operator-specific node: one variant per primitive operation.
#[derive(Debug, PartialEq)]
pub enum SExpression {
    Add(Box<Ast>, Box<Ast>),
    Subtract(Box<Ast>, Box<Ast>),
    Multiply(Box<Ast>, Box<Ast>),
    Divide(Box<Ast>, Box<Ast>),
    Modulo(Box<Ast>, Box<Ast>),
    Equals(Box<Ast>, Box<Ast>),
    NotEquals(Box<Ast>, Box<Ast>),
    GreaterThan(Box<Ast>, Box<Ast>),
    LessThan(Box<Ast>, Box<Ast>),
    GreaterThanOrEqual(Box<Ast>, Box<Ast>),
    LessThanOrEqual(Box<Ast>, Box<Ast>),
    Increment(Box<Ast>),
    Decrement(Box<Ast>),
    Invert(Box<Ast>),
    Range { start: Box<Ast>, end: Box<Ast> },
    Loop { conditional: Box<Ast>, body: Box<Ast> },
    Assignment { identifier: Box<Ast>, ast: Box<Ast> },
    AccessArray { identifier: Box<Ast>, index: Box<Ast> },
    GetArrayLength(Box<Ast>),
}

/// Model of a runtime value: text as characters, arrays as sequences.
pub enum ValueModel {
    Number(i32),
    Str(Seq<char>),
    Array(Seq<ValueModel>, TypeInfo),
    Bool(bool),
    Nothing,
    Function(Box<AstModel>, Box<AstModel>, TypeInfo),
}

/// Model of a syntax tree node.
pub enum AstModel {
    Literal(ValueModel),
    Ident(Seq<char>),
    Type(TypeInfo),
    Expression(BinaryOperator, Box<AstModel>, Box<AstModel>),
    SExpr(SExprModel),
    List(Seq<AstModel>),
    Conditional(Box<AstModel>, Box<AstModel>, Option<Box<AstModel>>),
}

/// Model of an operator-specific node.
pub enum SExprModel {
    Add(Box<AstModel>, Box<AstModel>),
    Subtract(Box<AstModel>, Box<AstModel>),
    Multiply(Box<AstModel>, Box<AstModel>),
    Divide(Box<AstModel>, Box<AstModel>),
    Modulo(Box<AstModel>, Box<AstModel>),
    Equals(Box<AstModel>, Box<AstModel>),
    NotEquals(Box<AstModel>, Box<AstModel>),
    GreaterThan(Box<AstModel>, Box<AstModel>),
    LessThan(Box<AstModel>, Box<AstModel>),
    GreaterThanOrEqual(Box<AstModel>, Box<AstModel>),
    LessThanOrEqual(Box<AstModel>, Box<AstModel>),
    Increment(Box<AstModel>),
    Decrement(Box<AstModel>),
    Invert(Box<AstModel>),
    Range(Box<AstModel>, Box<AstModel>),
    Loop(Box<AstModel>, Box<AstModel>),
    Assignment(Box<AstModel>, Box<AstModel>),
    AccessArray(Box<AstModel>, Box<AstModel>),
    GetArrayLength(Box<AstModel>),
}

/// The kind of a modelled value.
pub open spec fn type_of(v: ValueModel) -> TypeInfo {
    match v {
        ValueModel::Number(_) => TypeInfo::Number,
        ValueModel::Str(_) => TypeInfo::String,
        ValueModel::Array(_, _) => TypeInfo::Array,
        ValueModel::Bool(_) => TypeInfo::Bool,
        ValueModel::Nothing => TypeInfo::Nil,
        ValueModel::Function(_, _, _) => TypeInfo::Function,
    }
}

/// The name of a kind, as signatures and diagnostics write it.
pub open spec fn type_name_text(t: TypeInfo) -> Seq<char> {
    match t {
        TypeInfo::Number => seq!['N', 'u', 'm', 'b', 'e', 'r'],
        TypeInfo::String => seq!['S', 't', 'r', 'i', 'n', 'g'],
        TypeInfo::Array => seq!['A', 'r', 'r', 'a', 'y'],
        TypeInfo::Bool => seq!['B', 'o', 'o', 'l'],
        TypeInfo::Nil => seq!['N', 'o', 'n', 'e'],
        TypeInfo::Function => seq!['F', 'u', 'n', 'c', 't', 'i', 'o', 'n'],
    }
}

impl TypeInfo {
    /// The name of this kind, as signatures and diagnostics write it.
    pub fn name(&self) -> (r: &'static str)
        ensures
            r@ == type_name_text(*self),
    {
        proof {
            reveal_strlit("Number");
            reveal_strlit("String");
            reveal_strlit("Array");
            reveal_strlit("Bool");
            reveal_strlit("None");
            reveal_strlit("Function");
        }
        match self {
            TypeInfo::Number => "Number",
            TypeInfo::String => "String",
            TypeInfo::Array => "Array",
            TypeInfo::Bool => "Bool",
            TypeInfo::Nil => "None",
            TypeInfo::Function => "Function",
        }
    }
}

/// The invariant of an array value: every element is of the array's kind.
pub open spec fn homogeneous(vals: Seq<ValueModel>, t: TypeInfo) -> bool {
    forall|i: int| 0 <= i < vals.len() ==> type_of(#[trigger] vals[i]) == t
}

impl Datatype {
    pub open spec fn view(&self) -> ValueModel
        decreases self,
    {
        match self {
            Datatype::Number(n) => ValueModel::Number(*n),
            Datatype::String(s) => ValueModel::Str(s@),
            Datatype::Array { value, type_ } => ValueModel::Array(
                Seq::new(
                    value.len() as nat,
                    |i: int|
                        if 0 <= i < value.len() {
                            value[i].view()
                        } else {
                            ValueModel::Nothing
                        },
                ),
                *type_,
            ),
            Datatype::Bool(b) => ValueModel::Bool(*b),
            Datatype::Nil => ValueModel::Nothing,
            Datatype::Function { parameters, body, return_type } => ValueModel::Function(
                Box::new(parameters.view()),
                Box::new(body.view()),
                *return_type,
            ),
        }
    }

    /// The kind of this value.
    pub fn type_info(&self) -> (r: TypeInfo)
        ensures
            r == type_of(self@),
    {
        match self {
            Datatype::Number(_) => TypeInfo::Number,
            Datatype::String(_) => TypeInfo::String,
            Datatype::Array { .. } => TypeInfo::Array,
            Datatype::Bool(_) => TypeInfo::Bool,
            Datatype::Nil => TypeInfo::Nil,
            Datatype::Function { .. } => TypeInfo::Function,
        }
    }
}

impl From<Datatype> for TypeInfo {
    fn from(dt: Datatype) -> (r: TypeInfo) {
        dt.type_info()
    }
}

impl vstd::std_specs::convert::FromSpecImpl<Datatype> for TypeInfo {
    open spec fn obeys_from_spec() -> bool {
        true
    }

    open spec fn from_spec(dt: Datatype) -> TypeInfo {
        type_of(dt@)
    }
}

impl Ast {
    pub open spec fn view(&self) -> AstModel
        decreases self,
    {
        match self {
            Ast::Literal(d) => AstModel::Literal(d.view()),
            Ast::ValueIdentifier(s) => AstModel::Ident(s@),
            Ast::Type(t) => AstModel::Type(*t),
            Ast::Expression { operator, expr1, expr2 } => AstModel::Expression(
                *operator,
                Box::new(expr1.view()),
                Box::new(expr2.view()),
            ),
            Ast::SExpr(e) => AstModel::SExpr(e.view()),
            Ast::ExpressionList(v) => AstModel::List(
                Seq::new(
                    v.len() as nat,
                    |i: int|
                        if 0 <= i < v.len() {
                            v[i].view()
                        } else {
                            AstModel::Type(TypeInfo::Nil)
                        },
                ),
            ),
            Ast::Conditional { condition, true_expr, false_expr } => AstModel::Conditional(
                Box::new(condition.view()),
                Box::new(true_expr.view()),
                match false_expr {
                    Some(f) => Some(Box::new(f.view())),
                    None => None,
                },
            ),
        }
    }
}

impl SExpression {
    pub open spec fn view(&self) -> SExprModel
        decreases self,
    {
        match self {
            SExpression::Add(a, b) => SExprModel::Add(Box::new(a.view()), Box::new(b.view())),
            SExpression::Subtract(a, b) => SExprModel::Subtract(
                Box::new(a.view()),
                Box::new(b.view()),
            ),
            SExpression::Multiply(a, b) => SExprModel::Multiply(
                Box::new(a.view()),
                Box::new(b.view()),
            ),
            SExpression::Divide(a, b) => SExprModel::Divide(Box::new(a.view()), Box::new(b.view())),
            SExpression::Modulo(a, b) => SExprModel::Modulo(Box::new(a.view()), Box::new(b.view())),
            SExpression::Equals(a, b) => SExprModel::Equals(Box::new(a.view()), Box::new(b.view())),
            SExpression::NotEquals(a, b) => SExprModel::NotEquals(
                Box::new(a.view()),
                Box::new(b.view()),
            ),
            SExpression::GreaterThan(a, b) => SExprModel::GreaterThan(
                Box::new(a.view()),
                Box::new(b.view()),
            ),
            SExpression::LessThan(a, b) => SExprModel::LessThan(
                Box::new(a.view()),
                Box::new(b.view()),
            ),
            SExpression::GreaterThanOrEqual(a, b) => SExprModel::GreaterThanOrEqual(
                Box::new(a.view()),
                Box::new(b.view()),
            ),
            SExpression::LessThanOrEqual(a, b) => SExprModel::LessThanOrEqual(
                Box::new(a.view()),
                Box::new(b.view()),
            ),
            SExpression::Increment(a) => SExprModel::Increment(Box::new(a.view())),
            SExpression::Decrement(a) => SExprModel::Decrement(Box::new(a.view())),
            SExpression::Invert(a) => SExprModel::Invert(Box::new(a.view())),
            SExpression::Range { start, end } => SExprModel::Range(
                Box::new(start.view()),
                Box::new(end.view()),
            ),
            SExpression::Loop { conditional, body } => SExprModel::Loop(
                Box::new(conditional.view()),
                Box::new(body.view()),
            ),
            SExpression::Assignment { identifier, ast } => SExprModel::Assignment(
                Box::new(identifier.view()),
                Box::new(ast.view()),
            ),
            SExpression::AccessArray { identifier, index } => SExprModel::AccessArray(
                Box::new(identifier.view()),
                Box::new(index.view()),
            ),
            SExpression::GetArrayLength(a) => SExprModel::GetArrayLength(Box::new(a.view())),
        }
    }
}

/// Views of a vector of nodes, element by element.
pub open spec fn list_view(v: Seq<Ast>) -> Seq<AstModel> {
    v.map_values(|a: Ast| a@)
}

/// Views of a vector of values, element by element.
pub open spec fn values_view(v: Seq<Datatype>) -> Seq<ValueModel> {
    v.map_values(|d: Datatype| d@)
}

pub proof fn lemma_list_view(v: Vec<Ast>)
    ensures
        Ast::ExpressionList(v)@ == AstModel::List(list_view(v@)),
{
    assert(list_view(v@) =~= (Ast::ExpressionList(v)@)->List_0);
}

pub proof fn lemma_values_view(v: Vec<Datatype>, t: TypeInfo)
    ensures
        (Datatype::Array { value: v, type_: t })@ == ValueModel::Array(values_view(v@), t),
{
    assert(values_view(v@) =~= ((Datatype::Array { value: v, type_: t })@)->Array_0);
}

/// Model of a value-or-error result.
pub open spec fn value_result(r: Result<Datatype, LangError>) -> Result<ValueModel, LangError> {
    match r {
        Ok(d) => Ok(d@),
        Err(e) => Err(e),
    }
}

/// Operators as they are recognised in source text.
#[derive(Clone, Copy, Debug, PartialEq, Eq, Structural)]
pub enum ArithmeticOperator {
    Plus,
    Minus,
    Times,
    Divide,
    Modulo,
    Equals,
    NotEquals,
    GreaterThan,
    LessThan,
    GreaterThanOrEqual,
    LessThanOrEqual,
    Increment,
    Decrement,
    Negate,
}

/// What a grammar rule yields: a node and the position after it, or a failure.
pub type Parsed = Result<(AstModel, int), LangError>;

pub open spec fn parsed(r: Result<(Ast, usize), LangError>) -> Parsed {
    match r {
        Ok((a, p)) => Ok((a@, p as int)),
        Err(e) => Err(e),
    }
}

} // verus!

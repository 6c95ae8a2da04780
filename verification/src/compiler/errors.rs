//! What compiling a rule set can report: errors, which end the compilation,
//! and warnings, which are collected.

use crate::parser::span::Span;
use crate::types::Type;
use vstd::prelude::*;

verus! {

/// The types that a place in an expression accepts.
#[derive(Clone, Copy, Debug, PartialEq, Eq, Structural)]
pub enum Expected {
    /// Boolean, integer, float or string: what can stand for a truth value.
    Scalar,
    /// Integer or float.
    Numeric,
    /// Integer, float or string: what can be compared.
    Comparable,
    Integer,
    String,
    Struct,
    Func,
}

impl Expected {
    /// The type is one of those expected.
    pub open spec fn admits(self, ty: Type) -> bool {
        match self {
            Expected::Scalar => ty == Type::Bool || ty == Type::Integer || ty == Type::Float
                || ty == Type::String,
            Expected::Numeric => ty == Type::Integer || ty == Type::Float,
            Expected::Comparable => ty == Type::Integer || ty == Type::Float || ty
                == Type::String,
            Expected::Integer => ty == Type::Integer,
            Expected::String => ty == Type::String,
            Expected::Struct => ty == Type::Struct,
            Expected::Func => ty == Type::Func,
        }
    }

    /// Tells whether the type is one of those expected.
    pub fn accepts(&self, ty: Type) -> (b: bool)
        ensures
            b == self.admits(ty),
    {
        match self {
            Expected::Scalar => match ty {
                Type::Bool | Type::Integer | Type::Float | Type::String => true,
                _ => false,
            },
            Expected::Numeric => match ty {
                Type::Integer | Type::Float => true,
                _ => false,
            },
            Expected::Comparable => match ty {
                Type::Integer | Type::Float | Type::String => true,
                _ => false,
            },
            Expected::Integer => match ty {
                Type::Integer => true,
                _ => false,
            },
            Expected::String => match ty {
                Type::String => true,
                _ => false,
            },
            Expected::Struct => match ty {
                Type::Struct => true,
                _ => false,
            },
            Expected::Func => match ty {
                Type::Func => true,
                _ => false,
            },
        }
    }
}

/// An error in the meaning of a rule set.
#[derive(Debug)]
pub enum CompileError {
    /// An `import` names a module that does not exist.
    UnknownModule { name: String, span: Span },
    /// An identifier, a field or a pattern that nothing declares.
    UnknownIdentifier { name: String, span: Span },
    /// An expression has a type that its place does not accept.
    WrongType { expected: Expected, got: Type, span: Span },
    /// A percentage outside `1..=100`.
    InvalidPercentage { value: i64, span: Span },
    /// `them` in a rule without patterns.
    EmptyPatternSet { span: Span },
    /// Loops nested deeper than the stack of loop variables allows.
    TooManyNestedLoops { span: Span },
    /// A call with a number of arguments that no overload of the function
    /// takes.
    WrongNumberOfArguments { span: Span },
    /// A call with arguments of types that no overload of the function
    /// takes.
    NoMatchingOverload { span: Span },
}

/// A `CompileError` as plain values.
pub enum Failure {
    UnknownModule { name: Seq<char>, span: Span },
    UnknownIdentifier { name: Seq<char>, span: Span },
    WrongType { expected: Expected, got: Type, span: Span },
    InvalidPercentage { value: i64, span: Span },
    EmptyPatternSet { span: Span },
    TooManyNestedLoops { span: Span },
    WrongNumberOfArguments { span: Span },
    NoMatchingOverload { span: Span },
}

impl View for CompileError {
    type V = Failure;

    open spec fn view(&self) -> Failure {
        match *self {
            CompileError::UnknownModule { name, span } => Failure::UnknownModule {
                name: name@,
                span,
            },
            CompileError::UnknownIdentifier { name, span } => Failure::UnknownIdentifier {
                name: name@,
                span,
            },
            CompileError::WrongType { expected, got, span } => Failure::WrongType {
                expected,
                got,
                span,
            },
            CompileError::InvalidPercentage { value, span } => Failure::InvalidPercentage {
                value,
                span,
            },
            CompileError::EmptyPatternSet { span } => Failure::EmptyPatternSet { span },
            CompileError::TooManyNestedLoops { span } => Failure::TooManyNestedLoops { span },
            CompileError::WrongNumberOfArguments { span } => Failure::WrongNumberOfArguments {
                span,
            },
            CompileError::NoMatchingOverload { span } => Failure::NoMatchingOverload { span },
        }
    }
}

impl Failure {
    /// The place in the source that the error points at.
    pub open spec fn span(self) -> Span {
        match self {
            Failure::UnknownModule { span, .. }
            | Failure::UnknownIdentifier { span, .. }
            | Failure::WrongType { span, .. }
            | Failure::InvalidPercentage { span, .. }
            | Failure::EmptyPatternSet { span }
            | Failure::TooManyNestedLoops { span }
            | Failure::WrongNumberOfArguments { span }
            | Failure::NoMatchingOverload { span } => span,
        }
    }
}

impl CompileError {
    /// The place in the source that the error points at.
    pub fn span(&self) -> (span: Span)
        ensures
            span == self@.span(),
    {
        match self {
            CompileError::UnknownModule { span, .. }
            | CompileError::UnknownIdentifier { span, .. }
            | CompileError::WrongType { span, .. }
            | CompileError::InvalidPercentage { span, .. }
            | CompileError::EmptyPatternSet { span }
            | CompileError::TooManyNestedLoops { span }
            | CompileError::WrongNumberOfArguments { span }
            | CompileError::NoMatchingOverload { span } => *span,
        }
    }

    /// What went wrong, in one sentence.
    pub fn title(&self) -> (text: String)
        ensures
            text@ == match self@ {
                Failure::UnknownModule { name, .. } => "unknown module `"@ + name + "`"@,
                Failure::UnknownIdentifier { name, .. } => "unknown identifier `"@ + name + "`"@,
                Failure::WrongType { .. } => "wrong type"@,
                Failure::InvalidPercentage { .. } => "invalid percentage"@,
                Failure::EmptyPatternSet { .. } => "no patterns to choose from"@,
                Failure::TooManyNestedLoops { .. } => "too many nested loops"@,
                Failure::WrongNumberOfArguments { .. } => "wrong number of arguments"@,
                Failure::NoMatchingOverload { .. } => "no matching overload"@,
            },
    {
        match self {
            CompileError::UnknownModule { name, .. } => {
                let mut text = String::from_str("unknown module `");
                text.append(name.as_str());
                text.append("`");
                text
            },
            CompileError::UnknownIdentifier { name, .. } => {
                let mut text = String::from_str("unknown identifier `");
                text.append(name.as_str());
                text.append("`");
                text
            },
            CompileError::WrongType { .. } => String::from_str("wrong type"),
            CompileError::InvalidPercentage { .. } => String::from_str("invalid percentage"),
            CompileError::EmptyPatternSet { .. } => String::from_str("no patterns to choose from"),
            CompileError::TooManyNestedLoops { .. } => String::from_str("too many nested loops"),
            CompileError::WrongNumberOfArguments { .. } => String::from_str(
                "wrong number of arguments",
            ),
            CompileError::NoMatchingOverload { .. } => String::from_str("no matching overload"),
        }
    }
}

/// Something in a rule set that compiles but is likely a mistake.
#[derive(Debug)]
pub enum Warning {
    /// A value that is not boolean stands where a truth value is needed,
    /// and is cast to one.
    NonBooleanCondition { got: Type, span: Span },
    /// A pattern that the condition never refers to.
    UnusedString { ident: String, span: Span },
    /// A module imported a second time in one namespace.
    DuplicateImport { module: String, new_span: Span, existing_span: Span },
}

/// A `Warning` as plain values.
pub enum Notice {
    NonBooleanCondition { got: Type, span: Span },
    UnusedString { ident: Seq<char>, span: Span },
    DuplicateImport { module: Seq<char>, new_span: Span, existing_span: Span },
}

impl View for Warning {
    type V = Notice;

    open spec fn view(&self) -> Notice {
        match *self {
            Warning::NonBooleanCondition { got, span } => Notice::NonBooleanCondition { got, span },
            Warning::UnusedString { ident, span } => Notice::UnusedString { ident: ident@, span },
            Warning::DuplicateImport {
                module,
                new_span,
                existing_span,
            } => Notice::DuplicateImport { module: module@, new_span, existing_span },
        }
    }
}

/// The warnings of a list, as plain values.
pub open spec fn notices(warnings: Seq<Warning>) -> Seq<Notice> {
    Seq::new(warnings.len(), |i: int| warnings[i]@)
}

/// An error found while compiling: in the syntax, or in the meaning.
#[derive(Debug)]
pub enum Error {
    ParseError(crate::parser::errors::Error),
    CompileError(CompileError),
}

impl View for Error {
    type V = Rejection;

    open spec fn view(&self) -> Rejection {
        match *self {
            Error::ParseError(
                crate::parser::errors::Error::DuplicateRule {
                    rule_ident,
                    new_rule_name_span,
                    existing_rule_name_span,
                    ..
                },
            ) => Rejection::Duplicate {
                what: Declared::Rule,
                name: rule_ident@,
                new_span: new_rule_name_span,
                existing_span: existing_rule_name_span,
            },
            Error::ParseError(
                crate::parser::errors::Error::DuplicateTag { tag, tag_span, existing_tag_span, .. },
            ) => Rejection::Duplicate {
                what: Declared::Tag,
                name: tag@,
                new_span: tag_span,
                existing_span: existing_tag_span,
            },
            Error::ParseError(
                crate::parser::errors::Error::DuplicateString {
                    string_ident,
                    new_string_span,
                    existing_string_span,
                    ..
                },
            ) => Rejection::Duplicate {
                what: Declared::Pattern,
                name: string_ident@,
                new_span: new_string_span,
                existing_span: existing_string_span,
            },
            Error::ParseError(e) => Rejection::Syntax(e.span()),
            Error::CompileError(e) => Rejection::Failure(e@),
        }
    }
}

/// What was declared twice.
pub enum Declared {
    Rule,
    Tag,
    Pattern,
}

/// Why a source does not compile.
pub enum Rejection {
    /// Something is declared a second time: `new_span` is the second
    /// declaration, `existing_span` the first.
    Duplicate { what: Declared, name: Seq<char>, new_span: Span, existing_span: Span },
    /// An error in the meaning of the source.
    Failure(Failure),
    /// An error in the syntax of the source, and where it is.
    Syntax(Span),
}

impl Rejection {
    /// The place in the source that the error points at first.
    pub open spec fn span(self) -> Option<Span> {
        match self {
            Rejection::Duplicate { new_span, .. } => Some(new_span),
            Rejection::Failure(f) => Some(f.span()),
            Rejection::Syntax(span) => Some(span),
        }
    }
}

} // verus!

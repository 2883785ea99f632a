use vstd::prelude::*;

verus! {

/// The first failure encountered while checking a module. Each variant is a
/// distinct kind; rendering a diagnostic from it is the caller's concern.
#[derive(Debug, PartialEq, Eq)]
pub enum TypeError {
    /// A primitive or cast declaration stood outside the core module.
    SyntaxOnlyValidInCoreModule,
    /// A referenced type name has no binding in any visible scope.
    TypeNotFound(String),
    /// A cast between this source and target was already declared.
    CastAlreadyDeclared(String, String),
    /// A referenced value name has no binding in any visible scope.
    VariableNotFound(String),
    /// A value symbol exists but carries no resolved type.
    CannotInfer(String),
    /// A value name was declared twice in the same scope.
    DuplicateSymbol(String),
    /// A type name was declared twice in the same scope.
    DuplicateType(String),
}

/// The mathematical shape of a `TypeError`: the same variants over character
/// sequences instead of heap strings.
pub enum ErrorModel {
    SyntaxOnlyValidInCoreModule,
    TypeNotFound(Seq<char>),
    CastAlreadyDeclared(Seq<char>, Seq<char>),
    VariableNotFound(Seq<char>),
    CannotInfer(Seq<char>),
    DuplicateSymbol(Seq<char>),
    DuplicateType(Seq<char>),
}

impl View for TypeError {
    type V = ErrorModel;

    open spec fn view(&self) -> ErrorModel {
        match self {
            TypeError::SyntaxOnlyValidInCoreModule => ErrorModel::SyntaxOnlyValidInCoreModule,
            TypeError::TypeNotFound(n) => ErrorModel::TypeNotFound(n@),
            TypeError::CastAlreadyDeclared(s, t) => ErrorModel::CastAlreadyDeclared(s@, t@),
            TypeError::VariableNotFound(n) => ErrorModel::VariableNotFound(n@),
            TypeError::CannotInfer(n) => ErrorModel::CannotInfer(n@),
            TypeError::DuplicateSymbol(n) => ErrorModel::DuplicateSymbol(n@),
            TypeError::DuplicateType(n) => ErrorModel::DuplicateType(n@),
        }
    }
}

/// Every checking function returns this: success, or the first error.
pub type TypeCheckResult<T> = Result<T, TypeError>;

/// The error half of a checking result, as a model value.
pub open spec fn err_of<T>(r: TypeCheckResult<T>) -> Option<ErrorModel> {
    match r {
        Ok(_) => None,
        Err(e) => Some(e@),
    }
}

} // verus!

//! The closed taxonomy of checking failures.
//!
//! Every failure the checker can report is a structured value carrying the
//! offending names, types or counts, so a caller can render a precise
//! diagnostic or branch on the kind without re-deriving context.

use vstd::prelude::*;
use crate::types::{TypeSignature, TupleTypeSignature, TypeV, ts_view, fields_view, types_view};

verus! {

/// Everything a check can fail with.
pub enum CheckErrors {
    /// Wrong argument count for a fixed-arity form: expected, given.
    IncorrectArgumentCount(usize, usize),
    /// Too few arguments for a variadic form: required, given.
    RequiresAtLeastArguments(usize, usize),
    /// A value's type is not admitted where another was declared:
    /// expected, actual.
    TypeError(TypeSignature, TypeSignature),
    /// The two branches of a conditional have no common admissive type.
    IfArmsMustMatch(TypeSignature, TypeSignature),
    /// The elements of a constructed list have no common admissive type.
    ListTypesMustMatch,
    /// A constructed list type is too large or too deeply nested.
    ConstructedListTooLarge,
    /// A list construction failed for no classified reason.
    UnknownListConstructionFailure,
    /// A node was annotated twice; signals a checker defect.
    TypeAlreadyAnnotatedFailure,
    /// An already-validated non-empty construct was found empty; signals a
    /// checker defect.
    CheckerImplementationFailure,
    /// The field position of a tuple access is not a name atom.
    BadTupleFieldName,
    /// A tuple or an optional tuple was required; the actual type is
    /// carried.
    ExpectedTuple(TypeSignature),
    /// No field of the given name in the given tuple type.
    NoSuchTupleField(String, TupleTypeSignature),
    /// A tuple constructor argument is not a (name, expression) pair.
    TupleExpectsPairs,
    /// The tuple's field names are not distinct.
    BadTupleConstruction,
    /// The binding position of a `let` is not a list of pairs.
    BadLetSyntax,
    /// A binding is not a (name, expression) pair.
    BadSyntaxBinding,
    /// A local binding would shadow a contract-level or sibling name.
    NameAlreadyUsed(String),
    /// The name position of a storage access is not a name atom.
    BadMapName,
    /// No persisted variable of the given name.
    NoSuchVariable(String),
    /// No visible binding of the given name.
    UndefinedVariable(String),
    /// A cross-contract call names its target with something that is not
    /// an atom.
    ContractCallExpectName,
    /// No contract of the given name.
    NoSuchContract(String),
    /// No public or read-only function of the given name on the given
    /// contract: contract, function.
    NoSuchPublicFunction(String, String),
    /// The property position of a block-metadata lookup is not a name atom.
    GetBlockInfoExpectPropertyName,
    /// No block-metadata property of the given name.
    NoSuchBlockInfoProperty(String),
    /// The argument's type is admitted by none of the signature's
    /// alternatives.
    UnionTypeError(Vec<TypeSignature>, TypeSignature),
    /// The operator position of a call form is not an atom.
    NonFunctionApplication,
    /// The operator names no known native function.
    UnknownFunction(String),
    /// A literal value exceeds the maximum value size.
    ValueTooLarge,
}

/// The mathematical model of a checking failure.
pub enum CheckErrV {
    IncorrectArgumentCount(int, int),
    RequiresAtLeastArguments(int, int),
    TypeError(TypeV, TypeV),
    IfArmsMustMatch(TypeV, TypeV),
    ListTypesMustMatch,
    ConstructedListTooLarge,
    UnknownListConstructionFailure,
    TypeAlreadyAnnotatedFailure,
    CheckerImplementationFailure,
    BadTupleFieldName,
    ExpectedTuple(TypeV),
    NoSuchTupleField(Seq<char>, Seq<(Seq<char>, TypeV)>),
    TupleExpectsPairs,
    BadTupleConstruction,
    BadLetSyntax,
    BadSyntaxBinding,
    NameAlreadyUsed(Seq<char>),
    BadMapName,
    NoSuchVariable(Seq<char>),
    UndefinedVariable(Seq<char>),
    ContractCallExpectName,
    NoSuchContract(Seq<char>),
    NoSuchPublicFunction(Seq<char>, Seq<char>),
    GetBlockInfoExpectPropertyName,
    NoSuchBlockInfoProperty(Seq<char>),
    UnionTypeError(Seq<TypeV>, TypeV),
    NonFunctionApplication,
    UnknownFunction(Seq<char>),
    ValueTooLarge,
}

/// Model of a checking failure.
pub open spec fn ce_view(e: CheckErrors) -> CheckErrV {
    match e {
        CheckErrors::IncorrectArgumentCount(x, g) => CheckErrV::IncorrectArgumentCount(
            x as int,
            g as int,
        ),
        CheckErrors::RequiresAtLeastArguments(x, g) => CheckErrV::RequiresAtLeastArguments(
            x as int,
            g as int,
        ),
        CheckErrors::TypeError(x, a) => CheckErrV::TypeError(ts_view(x), ts_view(a)),
        CheckErrors::IfArmsMustMatch(x, a) => CheckErrV::IfArmsMustMatch(ts_view(x), ts_view(a)),
        CheckErrors::ListTypesMustMatch => CheckErrV::ListTypesMustMatch,
        CheckErrors::ConstructedListTooLarge => CheckErrV::ConstructedListTooLarge,
        CheckErrors::UnknownListConstructionFailure => CheckErrV::UnknownListConstructionFailure,
        CheckErrors::TypeAlreadyAnnotatedFailure => CheckErrV::TypeAlreadyAnnotatedFailure,
        CheckErrors::CheckerImplementationFailure => CheckErrV::CheckerImplementationFailure,
        CheckErrors::BadTupleFieldName => CheckErrV::BadTupleFieldName,
        CheckErrors::ExpectedTuple(t) => CheckErrV::ExpectedTuple(ts_view(t)),
        CheckErrors::NoSuchTupleField(n, tt) => CheckErrV::NoSuchTupleField(
            n@,
            fields_view(tt.fields@),
        ),
        CheckErrors::TupleExpectsPairs => CheckErrV::TupleExpectsPairs,
        CheckErrors::BadTupleConstruction => CheckErrV::BadTupleConstruction,
        CheckErrors::BadLetSyntax => CheckErrV::BadLetSyntax,
        CheckErrors::BadSyntaxBinding => CheckErrV::BadSyntaxBinding,
        CheckErrors::NameAlreadyUsed(n) => CheckErrV::NameAlreadyUsed(n@),
        CheckErrors::BadMapName => CheckErrV::BadMapName,
        CheckErrors::NoSuchVariable(n) => CheckErrV::NoSuchVariable(n@),
        CheckErrors::UndefinedVariable(n) => CheckErrV::UndefinedVariable(n@),
        CheckErrors::ContractCallExpectName => CheckErrV::ContractCallExpectName,
        CheckErrors::NoSuchContract(c) => CheckErrV::NoSuchContract(c@),
        CheckErrors::NoSuchPublicFunction(c, f) => CheckErrV::NoSuchPublicFunction(c@, f@),
        CheckErrors::GetBlockInfoExpectPropertyName => CheckErrV::GetBlockInfoExpectPropertyName,
        CheckErrors::NoSuchBlockInfoProperty(n) => CheckErrV::NoSuchBlockInfoProperty(n@),
        CheckErrors::UnionTypeError(ts, a) => CheckErrV::UnionTypeError(
            types_view(ts@),
            ts_view(a),
        ),
        CheckErrors::NonFunctionApplication => CheckErrV::NonFunctionApplication,
        CheckErrors::UnknownFunction(n) => CheckErrV::UnknownFunction(n@),
        CheckErrors::ValueTooLarge => CheckErrV::ValueTooLarge,
    }
}

/// A checking failure as the checker returns it.
pub struct CheckError {
    pub err: CheckErrors,
}

impl CheckError {
    /// Wraps a failure.
    pub fn new(err: CheckErrors) -> (r: CheckError)
        ensures
            r.err == err,
    {
        CheckError { err }
    }
}

/// Model of a wrapped checking failure.
pub open spec fn cerr_view(e: CheckError) -> CheckErrV {
    ce_view(e.err)
}

/// What a check of one expression yields: its type, or the first failure.
pub type TypeResult = Result<TypeSignature, CheckError>;

/// Model of a check's outcome.
pub open spec fn tr_view(r: TypeResult) -> Result<TypeV, CheckErrV> {
    match r {
        Ok(t) => Ok(ts_view(t)),
        Err(e) => Err(cerr_view(e)),
    }
}

} // verus!

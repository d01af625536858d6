//! The native operators: the closed set of built-in functions and special
//! forms, the registry that routes each operator to a checking strategy,
//! and the checkers themselves.
//!
//! A simple operator's typing depends only on its arguments' resolved
//! types and is validated against a declared function signature; a special
//! form needs structural access to raw sub-forms (field names, binding
//! lists) and custom control over scoping, and gets a dedicated checker.

use vstd::prelude::*;
use vstd::string::StringExecFns;
use vstd::slice::{slice_index_get, slice_subrange};
use crate::representation::{
    SymbolicExpression, SymbolicExpressionType, LiteralValue, name_matches, expr_ids, exprs_ids,
    ids_distinct, exprs_distinct, lemma_expr_ids_contains_root,
};
use crate::types::{
    TypeSignature, TupleTypeSignature, TypeV, ts_view, types_view, lemma_types_view, fields_view,
    lemma_fields_view, tfield_type, MAX_VALUE_SIZE, ListConstructionError,
};
use crate::errors::{CheckErrors, CheckError, CheckErrV, cerr_view, TypeResult, tr_view};
use crate::signatures::{
    FunctionType, FunctionArg, FixedFunction, FunctionTypeV, ft_view, fargs_view,
    lemma_fargs_view, BlockInfoProperty,
};
use crate::semantics::{
    spec_type_check, spec_check_all, spec_check_expects, spec_apply, spec_type_literal,
    spec_check_let_bindings, spec_check_tuple_pairs, spec_equals_fold, lemma_spec_check_all_len,
    spec_check_if, spec_check_begin, spec_check_passthrough, spec_check_let, spec_check_fetch_var,
    spec_check_set_var, spec_check_equals, spec_check_list_cons, spec_check_tuple_cons,
    spec_check_tuple_get, spec_check_contract_call, spec_check_get_block_info,
};
use crate::contexts::{
    TypeMap, TypeAnnotation, TypeAnnV, tm_view, tm_contains, no_type, TypingContext, ctx_view,
    ContractContext, cc_view, AnalysisDatabase, db_view,
};


verus! {

/// The closed set of native operators.
pub enum NativeFunctions {
    Add,
    Subtract,
    Multiply,
    Divide,
    CmpGeq,
    CmpLeq,
    CmpLess,
    CmpGreater,
    Modulo,
    Power,
    BitwiseXOR,
    And,
    Or,
    Not,
    Hash160,
    Sha256,
    Keccak256,
    Equals,
    If,
    Let,
    FetchVar,
    SetVar,
    ListCons,
    TupleCons,
    TupleGet,
    Begin,
    Print,
    AsContract,
    ContractCall,
    GetBlockInfo,
}

/// The special forms: operators whose typing needs raw sub-forms or
/// custom scoping.
pub enum SpecialForm {
    Equals,
    If,
    Let,
    FetchVar,
    SetVar,
    ListCons,
    TupleCons,
    TupleGet,
    Begin,
    Print,
    AsContract,
    ContractCall,
    GetBlockInfo,
}

/// A special form's checking strategy: its dedicated checker.
pub struct SpecialNativeFunction(pub SpecialForm);

/// A simple operator's checking strategy: its declared signature.
pub struct SimpleNativeFunction(pub FunctionType);

/// What the registry yields for an operator.
pub enum TypedNativeFunction {
    Special(SpecialNativeFunction),
    Simple(SimpleNativeFunction),
}

/// Model of a checking strategy.
pub enum TypedNativeFunctionV {
    Special(SpecialForm),
    Simple(FunctionTypeV),
}

/// Model of a registry entry.
pub open spec fn tnf_view(t: TypedNativeFunction) -> TypedNativeFunctionV {
    match t {
        TypedNativeFunction::Special(SpecialNativeFunction(form)) => TypedNativeFunctionV::Special(
            form,
        ),
        TypedNativeFunction::Simple(SimpleNativeFunction(ft)) => TypedNativeFunctionV::Simple(
            ft_view(ft),
        ),
    }
}

/// Model of the operator-name lookup.
pub open spec fn spec_lookup_native(name: Seq<char>) -> Option<NativeFunctions> {
    if name == "+"@ {
        Some(NativeFunctions::Add)
    } else if name == "-"@ {
        Some(NativeFunctions::Subtract)
    } else if name == "*"@ {
        Some(NativeFunctions::Multiply)
    } else if name == "/"@ {
        Some(NativeFunctions::Divide)
    } else if name == ">="@ {
        Some(NativeFunctions::CmpGeq)
    } else if name == "<="@ {
        Some(NativeFunctions::CmpLeq)
    } else if name == "<"@ {
        Some(NativeFunctions::CmpLess)
    } else if name == ">"@ {
        Some(NativeFunctions::CmpGreater)
    } else if name == "mod"@ {
        Some(NativeFunctions::Modulo)
    } else if name == "pow"@ {
        Some(NativeFunctions::Power)
    } else if name == "xor"@ {
        Some(NativeFunctions::BitwiseXOR)
    } else if name == "and"@ {
        Some(NativeFunctions::And)
    } else if name == "or"@ {
        Some(NativeFunctions::Or)
    } else if name == "not"@ {
        Some(NativeFunctions::Not)
    } else if name == "hash160"@ {
        Some(NativeFunctions::Hash160)
    } else if name == "sha256"@ {
        Some(NativeFunctions::Sha256)
    } else if name == "keccak256"@ {
        Some(NativeFunctions::Keccak256)
    } else if name == "eq?"@ {
        Some(NativeFunctions::Equals)
    } else if name == "if"@ {
        Some(NativeFunctions::If)
    } else if name == "let"@ {
        Some(NativeFunctions::Let)
    } else if name == "fetch-var!"@ {
        Some(NativeFunctions::FetchVar)
    } else if name == "set-var!"@ {
        Some(NativeFunctions::SetVar)
    } else if name == "list"@ {
        Some(NativeFunctions::ListCons)
    } else if name == "tuple"@ {
        Some(NativeFunctions::TupleCons)
    } else if name == "get"@ {
        Some(NativeFunctions::TupleGet)
    } else if name == "begin"@ {
        Some(NativeFunctions::Begin)
    } else if name == "print"@ {
        Some(NativeFunctions::Print)
    } else if name == "as-contract"@ {
        Some(NativeFunctions::AsContract)
    } else if name == "contract-call!"@ {
        Some(NativeFunctions::ContractCall)
    } else if name == "get-block-info"@ {
        Some(NativeFunctions::GetBlockInfo)
    } else {
        None
    }
}

impl NativeFunctions {
    /// Resolves an operator name against the closed operator set.
    pub fn lookup_by_name(name: &String) -> (r: Option<NativeFunctions>)
        ensures
            r == spec_lookup_native(name@),
    {
        if name_matches(name, "+") {
            Some(NativeFunctions::Add)
        } else if name_matches(name, "-") {
            Some(NativeFunctions::Subtract)
        } else if name_matches(name, "*") {
            Some(NativeFunctions::Multiply)
        } else if name_matches(name, "/") {
            Some(NativeFunctions::Divide)
        } else if name_matches(name, ">=") {
            Some(NativeFunctions::CmpGeq)
        } else if name_matches(name, "<=") {
            Some(NativeFunctions::CmpLeq)
        } else if name_matches(name, "<") {
            Some(NativeFunctions::CmpLess)
        } else if name_matches(name, ">") {
            Some(NativeFunctions::CmpGreater)
        } else if name_matches(name, "mod") {
            Some(NativeFunctions::Modulo)
        } else if name_matches(name, "pow") {
            Some(NativeFunctions::Power)
        } else if name_matches(name, "xor") {
            Some(NativeFunctions::BitwiseXOR)
        } else if name_matches(name, "and") {
            Some(NativeFunctions::And)
        } else if name_matches(name, "or") {
            Some(NativeFunctions::Or)
        } else if name_matches(name, "not") {
            Some(NativeFunctions::Not)
        } else if name_matches(name, "hash160") {
            Some(NativeFunctions::Hash160)
        } else if name_matches(name, "sha256") {
            Some(NativeFunctions::Sha256)
        } else if name_matches(name, "keccak256") {
            Some(NativeFunctions::Keccak256)
        } else if name_matches(name, "eq?") {
            Some(NativeFunctions::Equals)
        } else if name_matches(name, "if") {
            Some(NativeFunctions::If)
        } else if name_matches(name, "let") {
            Some(NativeFunctions::Let)
        } else if name_matches(name, "fetch-var!") {
            Some(NativeFunctions::FetchVar)
        } else if name_matches(name, "set-var!") {
            Some(NativeFunctions::SetVar)
        } else if name_matches(name, "list") {
            Some(NativeFunctions::ListCons)
        } else if name_matches(name, "tuple") {
            Some(NativeFunctions::TupleCons)
        } else if name_matches(name, "get") {
            Some(NativeFunctions::TupleGet)
        } else if name_matches(name, "begin") {
            Some(NativeFunctions::Begin)
        } else if name_matches(name, "print") {
            Some(NativeFunctions::Print)
        } else if name_matches(name, "as-contract") {
            Some(NativeFunctions::AsContract)
        } else if name_matches(name, "contract-call!") {
            Some(NativeFunctions::ContractCall)
        } else if name_matches(name, "get-block-info") {
            Some(NativeFunctions::GetBlockInfo)
        } else {
            None
        }
    }
}

/// Model of the registry: which strategy each operator gets.
pub open spec fn spec_type_native_function(function: NativeFunctions) -> TypedNativeFunctionV {
    match function {
        NativeFunctions::Add => TypedNativeFunctionV::Simple(FunctionTypeV::ArithmeticVariadic),
        NativeFunctions::Subtract => TypedNativeFunctionV::Simple(
            FunctionTypeV::ArithmeticVariadic,
        ),
        NativeFunctions::Multiply => TypedNativeFunctionV::Simple(
            FunctionTypeV::ArithmeticVariadic,
        ),
        NativeFunctions::Divide => TypedNativeFunctionV::Simple(FunctionTypeV::ArithmeticVariadic),
        NativeFunctions::CmpGeq => TypedNativeFunctionV::Simple(
            FunctionTypeV::ArithmeticComparison,
        ),
        NativeFunctions::CmpLeq => TypedNativeFunctionV::Simple(
            FunctionTypeV::ArithmeticComparison,
        ),
        NativeFunctions::CmpLess => TypedNativeFunctionV::Simple(
            FunctionTypeV::ArithmeticComparison,
        ),
        NativeFunctions::CmpGreater => TypedNativeFunctionV::Simple(
            FunctionTypeV::ArithmeticComparison,
        ),
        NativeFunctions::Modulo => TypedNativeFunctionV::Simple(FunctionTypeV::ArithmeticBinary),
        NativeFunctions::Power => TypedNativeFunctionV::Simple(FunctionTypeV::ArithmeticBinary),
        NativeFunctions::BitwiseXOR => TypedNativeFunctionV::Simple(
            FunctionTypeV::ArithmeticBinary,
        ),
        NativeFunctions::And => TypedNativeFunctionV::Simple(
            FunctionTypeV::Variadic(TypeV::Bool, TypeV::Bool),
        ),
        NativeFunctions::Or => TypedNativeFunctionV::Simple(
            FunctionTypeV::Variadic(TypeV::Bool, TypeV::Bool),
        ),
        NativeFunctions::Not => TypedNativeFunctionV::Simple(
            FunctionTypeV::Fixed(seq![(TypeV::Bool, "value"@)], TypeV::Bool),
        ),
        NativeFunctions::Hash160 => TypedNativeFunctionV::Simple(
            FunctionTypeV::UnionArgs(
                seq![TypeV::Buffer(MAX_VALUE_SIZE as u32), TypeV::Int],
                TypeV::Buffer(20),
            ),
        ),
        NativeFunctions::Sha256 => TypedNativeFunctionV::Simple(
            FunctionTypeV::UnionArgs(
                seq![TypeV::Buffer(MAX_VALUE_SIZE as u32), TypeV::Int],
                TypeV::Buffer(32),
            ),
        ),
        NativeFunctions::Keccak256 => TypedNativeFunctionV::Simple(
            FunctionTypeV::UnionArgs(
                seq![TypeV::Buffer(MAX_VALUE_SIZE as u32), TypeV::Int],
                TypeV::Buffer(32),
            ),
        ),
        NativeFunctions::Equals => TypedNativeFunctionV::Special(SpecialForm::Equals),
        NativeFunctions::If => TypedNativeFunctionV::Special(SpecialForm::If),
        NativeFunctions::Let => TypedNativeFunctionV::Special(SpecialForm::Let),
        NativeFunctions::FetchVar => TypedNativeFunctionV::Special(SpecialForm::FetchVar),
        NativeFunctions::SetVar => TypedNativeFunctionV::Special(SpecialForm::SetVar),
        NativeFunctions::ListCons => TypedNativeFunctionV::Special(SpecialForm::ListCons),
        NativeFunctions::TupleCons => TypedNativeFunctionV::Special(SpecialForm::TupleCons),
        NativeFunctions::TupleGet => TypedNativeFunctionV::Special(SpecialForm::TupleGet),
        NativeFunctions::Begin => TypedNativeFunctionV::Special(SpecialForm::Begin),
        NativeFunctions::Print => TypedNativeFunctionV::Special(SpecialForm::Print),
        NativeFunctions::AsContract => TypedNativeFunctionV::Special(SpecialForm::AsContract),
        NativeFunctions::ContractCall => TypedNativeFunctionV::Special(SpecialForm::ContractCall),
        NativeFunctions::GetBlockInfo => TypedNativeFunctionV::Special(SpecialForm::GetBlockInfo),
    }
}

impl TypedNativeFunction {
    /// The registry: routes an operator to its checking strategy.
    pub fn type_native_function(function: &NativeFunctions) -> (r: TypedNativeFunction)
        ensures
            tnf_view(r) == spec_type_native_function(*function),
    {
        broadcast use lemma_fargs_view, lemma_types_view;

        match function {
            NativeFunctions::Add | NativeFunctions::Subtract | NativeFunctions::Multiply
                | NativeFunctions::Divide => TypedNativeFunction::Simple(
                SimpleNativeFunction(FunctionType::ArithmeticVariadic),
            ),
            NativeFunctions::CmpGeq | NativeFunctions::CmpLeq | NativeFunctions::CmpLess
                | NativeFunctions::CmpGreater => TypedNativeFunction::Simple(
                SimpleNativeFunction(FunctionType::ArithmeticComparison),
            ),
            NativeFunctions::Modulo | NativeFunctions::Power | NativeFunctions::BitwiseXOR =>
                TypedNativeFunction::Simple(SimpleNativeFunction(FunctionType::ArithmeticBinary)),
            NativeFunctions::And | NativeFunctions::Or => TypedNativeFunction::Simple(
                SimpleNativeFunction(
                    FunctionType::Variadic(TypeSignature::BoolType, TypeSignature::BoolType),
                ),
            ),
            NativeFunctions::Not => {
                let mut args: Vec<FunctionArg> = Vec::new();
                args.push(
                    FunctionArg {
                        signature: TypeSignature::BoolType,
                        name: String::from_str("value"),
                    },
                );
                let r = TypedNativeFunction::Simple(
                    SimpleNativeFunction(
                        FunctionType::Fixed(
                            FixedFunction { args, returns: TypeSignature::BoolType },
                        ),
                    ),
                );
                proof {
                    match r {
                        TypedNativeFunction::Simple(SimpleNativeFunction(FunctionType::Fixed(ref ff)))
                            => {
                            assert(fargs_view(ff.args@) =~= seq![(TypeV::Bool, "value"@)]);
                        },
                        _ => {},
                    }
                }
                r
            },
            NativeFunctions::Hash160 => TypedNativeFunction::Simple(
                SimpleNativeFunction(hash_signature(20)),
            ),
            NativeFunctions::Sha256 => TypedNativeFunction::Simple(
                SimpleNativeFunction(hash_signature(32)),
            ),
            NativeFunctions::Keccak256 => TypedNativeFunction::Simple(
                SimpleNativeFunction(hash_signature(32)),
            ),
            NativeFunctions::Equals => TypedNativeFunction::Special(
                SpecialNativeFunction(SpecialForm::Equals),
            ),
            NativeFunctions::If => TypedNativeFunction::Special(
                SpecialNativeFunction(SpecialForm::If),
            ),
            NativeFunctions::Let => TypedNativeFunction::Special(
                SpecialNativeFunction(SpecialForm::Let),
            ),
            NativeFunctions::FetchVar => TypedNativeFunction::Special(
                SpecialNativeFunction(SpecialForm::FetchVar),
            ),
            NativeFunctions::SetVar => TypedNativeFunction::Special(
                SpecialNativeFunction(SpecialForm::SetVar),
            ),
            NativeFunctions::ListCons => TypedNativeFunction::Special(
                SpecialNativeFunction(SpecialForm::ListCons),
            ),
            NativeFunctions::TupleCons => TypedNativeFunction::Special(
                SpecialNativeFunction(SpecialForm::TupleCons),
            ),
            NativeFunctions::TupleGet => TypedNativeFunction::Special(
                SpecialNativeFunction(SpecialForm::TupleGet),
            ),
            NativeFunctions::Begin => TypedNativeFunction::Special(
                SpecialNativeFunction(SpecialForm::Begin),
            ),
            NativeFunctions::Print => TypedNativeFunction::Special(
                SpecialNativeFunction(SpecialForm::Print),
            ),
            NativeFunctions::AsContract => TypedNativeFunction::Special(
                SpecialNativeFunction(SpecialForm::AsContract),
            ),
            NativeFunctions::ContractCall => TypedNativeFunction::Special(
                SpecialNativeFunction(SpecialForm::ContractCall),
            ),
            NativeFunctions::GetBlockInfo => TypedNativeFunction::Special(
                SpecialNativeFunction(SpecialForm::GetBlockInfo),
            ),
        }
    }
}

/// The shared shape of the three hashing operators: one buffer or integer
/// argument, a fixed-length buffer result.
fn hash_signature(result_len: u32) -> (r: FunctionType)
    ensures
        ft_view(r) == FunctionTypeV::UnionArgs(
            seq![TypeV::Buffer(MAX_VALUE_SIZE as u32), TypeV::Int],
            TypeV::Buffer(result_len),
        ),
{
    broadcast use lemma_types_view;

    let mut options: Vec<TypeSignature> = Vec::new();
    options.push(TypeSignature::BufferType(1024 * 1024));
    options.push(TypeSignature::IntType);
    let r = FunctionType::UnionArgs(options, TypeSignature::BufferType(result_len));
    proof {
        match r {
            FunctionType::UnionArgs(ref opts, _) => {
                assert(types_view(opts@) =~= seq![
                    TypeV::Buffer(MAX_VALUE_SIZE as u32),
                    TypeV::Int,
                ]);
            },
            _ => {},
        }
    }
    r
}


/// The map grew only by entries for the given node identities, keeping
/// every earlier entry in place.
pub open spec fn map_extended_within(
    pre: Seq<(u64, TypeAnnV)>,
    post: Seq<(u64, TypeAnnV)>,
    ids: Set<u64>,
) -> bool {
    &&& pre.is_prefix_of(post)
    &&& forall|k: int| pre.len() <= k < post.len() ==> ids.contains(#[trigger] post[k].0)
}

/// The map holds no entry for any of the given node identities.
pub open spec fn map_fresh_for(tm: Seq<(u64, TypeAnnV)>, ids: Set<u64>) -> bool {
    forall|k: int| 0 <= k < tm.len() ==> !ids.contains(#[trigger] tm[k].0)
}

/// Checking one subtree leaves the schema and the store untouched and
/// grows the map only within the subtree's identities.
pub open spec fn checker_frame(pre: TypeChecker, post: TypeChecker, ids: Set<u64>) -> bool {
    &&& post.contract_context == pre.contract_context
    &&& post.db == pre.db
    &&& map_extended_within(tm_view(pre.type_map), tm_view(post.type_map), ids)
}

/// Freshness carries down to a subset of identities.
pub proof fn lemma_fresh_subset(tm: Seq<(u64, TypeAnnV)>, big: Set<u64>, small: Set<u64>)
    requires
        map_fresh_for(tm, big),
        small.subset_of(big),
    ensures
        map_fresh_for(tm, small),
{
    assert forall|k: int| 0 <= k < tm.len() implies !small.contains(tm[k].0) by {
        if small.contains(tm[k].0) {
            assert(big.contains(tm[k].0));
        }
    }
}

/// A map extended within already-visited identities stays fresh for any
/// disjoint set of identities.
pub proof fn lemma_fresh_after(
    pre: Seq<(u64, TypeAnnV)>,
    post: Seq<(u64, TypeAnnV)>,
    done: Set<u64>,
    next: Set<u64>,
)
    requires
        map_extended_within(pre, post, done),
        map_fresh_for(pre, next),
        done.disjoint(next),
    ensures
        map_fresh_for(post, next),
{
    assert forall|k: int| 0 <= k < post.len() implies !next.contains(post[k].0) by {
        if k < pre.len() {
            assert(pre =~= post.subrange(0, pre.len() as int));
            assert(post[k] == pre[k]);
        } else {
            assert(done.contains(post[k].0));
        }
    }
}

/// Nothing was added: the trivial extension.
pub proof fn lemma_extend_refl(pre: Seq<(u64, TypeAnnV)>, ids: Set<u64>)
    ensures
        map_extended_within(pre, pre, ids),
{
    assert(pre =~= pre.subrange(0, pre.len() as int));
}

/// Two successive extensions compose into one within a common identity
/// set.
pub proof fn lemma_extend_twice(
    a: Seq<(u64, TypeAnnV)>,
    b: Seq<(u64, TypeAnnV)>,
    c: Seq<(u64, TypeAnnV)>,
    ids1: Set<u64>,
    ids2: Set<u64>,
    ids: Set<u64>,
)
    requires
        map_extended_within(a, b, ids1),
        map_extended_within(b, c, ids2),
        ids1.subset_of(ids),
        ids2.subset_of(ids),
    ensures
        map_extended_within(a, c, ids),
{
    assert(a =~= b.subrange(0, a.len() as int));
    assert(b =~= c.subrange(0, b.len() as int));
    assert forall|k: int| 0 <= k < a.len() implies c[k] == a[k] by {
        assert(a[k] == b[k]);
        assert(b[k] == c[k]);
    }
    assert(a =~= c.subrange(0, a.len() as int));
    assert forall|k: int| a.len() <= k < c.len() implies ids.contains(c[k].0) by {
        if k < b.len() {
            assert(c[k] == b[k]);
            assert(ids1.contains(b[k].0));
        } else {
            assert(ids2.contains(c[k].0));
        }
    }
}

/// A fresh identity stays absent from a map extended without it.
pub proof fn lemma_root_not_contained(
    pre: Seq<(u64, TypeAnnV)>,
    post: Seq<(u64, TypeAnnV)>,
    sub: Set<u64>,
    id: u64,
)
    requires
        map_extended_within(pre, post, sub),
        !sub.contains(id),
        map_fresh_for(pre, Set::<u64>::empty().insert(id)),
    ensures
        !tm_contains(post, id),
{
    assert forall|k: int| 0 <= k < post.len() implies post[k].0 != id by {
        if k < pre.len() {
            assert(pre =~= post.subrange(0, pre.len() as int));
            assert(post[k] == pre[k]);
            assert(!Set::<u64>::empty().insert(id).contains(pre[k].0));
        } else {
            assert(sub.contains(post[k].0));
        }
    }
}

/// An extension within a smaller identity set is one within a larger.
pub proof fn lemma_extend_weaken(
    pre: Seq<(u64, TypeAnnV)>,
    post: Seq<(u64, TypeAnnV)>,
    small: Set<u64>,
    big: Set<u64>,
)
    requires
        map_extended_within(pre, post, small),
        small.subset_of(big),
    ensures
        map_extended_within(pre, post, big),
{
    assert forall|k: int| pre.len() <= k < post.len() implies big.contains(post[k].0) by {
        assert(small.contains(post[k].0));
    }
}

/// A map fresh for a set of identities holds none of them.
pub proof fn lemma_fresh_root(tm: Seq<(u64, TypeAnnV)>, ids: Set<u64>, id: u64)
    requires
        map_fresh_for(tm, ids),
        ids.contains(id),
    ensures
        !tm_contains(tm, id),
        map_fresh_for(tm, Set::<u64>::empty().insert(id)),
{
    assert forall|k: int| 0 <= k < tm.len() implies tm[k].0 != id by {
        assert(!ids.contains(tm[k].0));
    }
    assert forall|k: int|
        0 <= k < tm.len() implies !Set::<u64>::empty().insert(id).contains(tm[k].0) by {
        assert(tm[k].0 != id);
    }
}

/// Fails unless the form got exactly the expected number of arguments.
pub fn check_argument_count(expected: usize, args: &[SymbolicExpression]) -> (r: Result<
    (),
    CheckError,
>)
    ensures
        match r {
            Ok(_) => args@.len() == expected,
            Err(e) => args@.len() != expected && cerr_view(e) == CheckErrV::IncorrectArgumentCount(
                expected as int,
                args@.len() as int,
            ),
        },
{
    if args.len() == expected {
        Ok(())
    } else {
        Err(CheckError::new(CheckErrors::IncorrectArgumentCount(expected, args.len())))
    }
}

/// Fails unless the form got at least the expected number of arguments.
pub fn check_arguments_at_least(expected: usize, args: &[SymbolicExpression]) -> (r: Result<
    (),
    CheckError,
>)
    ensures
        match r {
            Ok(_) => args@.len() >= expected,
            Err(e) => args@.len() < expected && cerr_view(e)
                == CheckErrV::RequiresAtLeastArguments(expected as int, args@.len() as int),
        },
{
    if args.len() >= expected {
        Ok(())
    } else {
        Err(CheckError::new(CheckErrors::RequiresAtLeastArguments(expected, args.len())))
    }
}

/// The type of a literal value.
fn type_of_literal(v: &LiteralValue) -> (r: TypeResult)
    ensures
        tr_view(r) == spec_type_literal(*v),
{
    match v {
        LiteralValue::IntLiteral(_) => Ok(TypeSignature::IntType),
        LiteralValue::BoolLiteral(_) => Ok(TypeSignature::BoolType),
        LiteralValue::BufferLiteral(bytes) => {
            if bytes.len() as u64 <= MAX_VALUE_SIZE {
                Ok(TypeSignature::BufferType(bytes.len() as u32))
            } else {
                Err(CheckError::new(CheckErrors::ValueTooLarge))
            }
        },
    }
}

/// One checking pass over one contract: the type map being filled, the
/// contract's schema and the store of other contracts' analyses.
pub struct TypeChecker {
    pub contract_context: ContractContext,
    pub db: AnalysisDatabase,
    pub type_map: TypeMap,
}

impl TypeChecker {
    /// A checker over the given schema and store, with an empty type map.
    pub fn new(contract_context: ContractContext, db: AnalysisDatabase) -> (r: TypeChecker)
        ensures
            r.contract_context == contract_context,
            r.db == db,
            tm_view(r.type_map) == Seq::<(u64, TypeAnnV)>::empty(),
    {
        TypeChecker { contract_context, db, type_map: TypeMap::new() }
    }
}


/// One suffix step: the head is well-formed, its identities are disjoint
/// from the rest's, and both sides sit inside the suffix's identities.
pub proof fn lemma_suffix_step(es: Seq<SymbolicExpression>, i: int)
    requires
        0 <= i < es.len(),
        exprs_distinct(es.subrange(i, es.len() as int)),
    ensures
        exprs_distinct(es.subrange(i + 1, es.len() as int)),
        ids_distinct(es[i]),
        expr_ids(es[i]).disjoint(exprs_ids(es.subrange(i + 1, es.len() as int))),
        expr_ids(es[i]).subset_of(exprs_ids(es.subrange(i, es.len() as int))),
        exprs_ids(es.subrange(i + 1, es.len() as int)).subset_of(
            exprs_ids(es.subrange(i, es.len() as int)),
        ),
{
    let suf = es.subrange(i, es.len() as int);
    assert(suf[0] == es[i]);
    assert(suf.subrange(1, suf.len() as int) =~= es.subrange(i + 1, es.len() as int));
    assert(exprs_ids(suf) == expr_ids(suf[0]).union(exprs_ids(suf.subrange(1, suf.len() as int))));
}

impl TypeChecker {
    /// Checks one expression against the scope and annotates its node with
    /// the resolved type; yields that type or the first failure.
    pub fn type_check(&mut self, expr: &SymbolicExpression, context: &TypingContext) -> (r:
        TypeResult)
        requires
            ids_distinct(*expr),
            map_fresh_for(tm_view(old(self).type_map), expr_ids(*expr)),
        ensures
            checker_frame(*old(self), *final(self), expr_ids(*expr)),
            tr_view(r) == spec_type_check(
                *expr,
                ctx_view(*context),
                cc_view(old(self).contract_context),
                db_view(old(self).db),
            ),
        decreases *expr, 3int, 0int,
    {
        let ghost pre = tm_view(self.type_map);
        let ghost ids = expr_ids(*expr);
        proof {
            lemma_expr_ids_contains_root(*expr);
            lemma_fresh_root(pre, ids, expr.id);
        }
        let checked: TypeResult = match &expr.expr {
            SymbolicExpressionType::AtomValue(v) => {
                proof {
                    lemma_extend_refl(pre, ids);
                }
                type_of_literal(v)
            },
            SymbolicExpressionType::Atom(name) => {
                proof {
                    lemma_extend_refl(pre, ids);
                }
                match context.lookup_variable_type(name) {
                    Some(t) => Ok(t.clone()),
                    None => Err(CheckError::new(CheckErrors::UndefinedVariable(name.clone()))),
                }
            },
            SymbolicExpressionType::List(children) => {
                if children.len() == 0 {
                    proof {
                        lemma_extend_refl(pre, ids);
                    }
                    Err(CheckError::new(CheckErrors::NonFunctionApplication))
                } else {
                    match &children[0].expr {
                        SymbolicExpressionType::Atom(op_name) => {
                            match NativeFunctions::lookup_by_name(op_name) {
                                None => {
                                    proof {
                                        lemma_extend_refl(pre, ids);
                                    }
                                    Err(CheckError::new(CheckErrors::UnknownFunction(
                                        op_name.clone(),
                                    )))
                                },
                                Some(native) => {
                                    let tnf = TypedNativeFunction::type_native_function(&native);
                                    let args = slice_subrange(
                                        children.as_slice(),
                                        1,
                                        children.len(),
                                    );
                                    proof {
                                        assert(args@ == children@.subrange(
                                            1,
                                            children@.len() as int,
                                        ));
                                        assert(exprs_distinct(children@));
                                        assert(exprs_ids(children@) == expr_ids(
                                            children@[0],
                                        ).union(exprs_ids(args@)));
                                        assert(exprs_ids(args@).subset_of(ids));
                                        lemma_fresh_subset(pre, ids, exprs_ids(args@));
                                    }
                                    let app = tnf.type_check_appliction(self, args, context);
                                    proof {
                                        lemma_extend_weaken(
                                            pre,
                                            tm_view(self.type_map),
                                            exprs_ids(args@),
                                            ids,
                                        );
                                        assert(!exprs_ids(args@).contains(expr.id));
                                    }
                                    app
                                },
                            }
                        },
                        _ => {
                            proof {
                                lemma_extend_refl(pre, ids);
                            }
                            Err(CheckError::new(CheckErrors::NonFunctionApplication))
                        },
                    }
                }
            },
        };
        let ghost mid = tm_view(self.type_map);
        match checked {
            Err(e) => Err(e),
            Ok(t) => {
                proof {
                    lemma_root_not_contained(pre, mid, ids.remove(expr.id), expr.id);
                }
                let annotation = TypeAnnotation::ValueType(t.clone());
                match self.type_map.set_type(expr, annotation) {
                    Ok(_) => {
                        proof {
                            let post = tm_view(self.type_map);
                            assert(mid =~= post.subrange(0, mid.len() as int));
                            assert(map_extended_within(
                                mid,
                                post,
                                Set::<u64>::empty().insert(expr.id),
                            ));
                            lemma_extend_twice(
                                pre,
                                mid,
                                post,
                                ids,
                                Set::<u64>::empty().insert(expr.id),
                                ids,
                            );
                        }
                        Ok(t)
                    },
                    Err(e) => {
                        proof {
                            assert(false);
                        }
                        Err(e)
                    },
                }
            },
        }
    }

    /// Checks each expression in order and yields all their types; used
    /// where a form needs every argument's type.
    pub fn type_check_all(&mut self, args: &[SymbolicExpression], context: &TypingContext) -> (r:
        Result<Vec<TypeSignature>, CheckError>)
        requires
            exprs_distinct(args@),
            map_fresh_for(tm_view(old(self).type_map), exprs_ids(args@)),
        ensures
            checker_frame(*old(self), *final(self), exprs_ids(args@)),
            match r {
                Ok(v) => spec_check_all(
                    args@,
                    0,
                    ctx_view(*context),
                    cc_view(old(self).contract_context),
                    db_view(old(self).db),
                ) == Ok::<Seq<TypeV>, CheckErrV>(types_view(v@)),
                Err(e) => spec_check_all(
                    args@,
                    0,
                    ctx_view(*context),
                    cc_view(old(self).contract_context),
                    db_view(old(self).db),
                ) == Err::<Seq<TypeV>, CheckErrV>(cerr_view(e)),
            },
        decreases args@, 0int, args@.len() + 1,
    {
        proof {
            assert(args@.subrange(0, args@.len() as int) =~= args@);
        }
        self.type_check_all_from(args, 0, context)
    }

    /// Checks the expressions from position `i` on, in order.
    fn type_check_all_from(
        &mut self,
        args: &[SymbolicExpression],
        i: usize,
        context: &TypingContext,
    ) -> (r: Result<Vec<TypeSignature>, CheckError>)
        requires
            i <= args@.len(),
            exprs_distinct(args@.subrange(i as int, args@.len() as int)),
            map_fresh_for(
                tm_view(old(self).type_map),
                exprs_ids(args@.subrange(i as int, args@.len() as int)),
            ),
        ensures
            checker_frame(
                *old(self),
                *final(self),
                exprs_ids(args@.subrange(i as int, args@.len() as int)),
            ),
            match r {
                Ok(v) => spec_check_all(
                    args@,
                    i as int,
                    ctx_view(*context),
                    cc_view(old(self).contract_context),
                    db_view(old(self).db),
                ) == Ok::<Seq<TypeV>, CheckErrV>(types_view(v@)),
                Err(e) => spec_check_all(
                    args@,
                    i as int,
                    ctx_view(*context),
                    cc_view(old(self).contract_context),
                    db_view(old(self).db),
                ) == Err::<Seq<TypeV>, CheckErrV>(cerr_view(e)),
            },
        decreases args@, 0int, args@.len() - i,
    {
        broadcast use lemma_types_view;

        let ghost pre = tm_view(self.type_map);
        let ghost suffix = args@.subrange(i as int, args@.len() as int);
        if i >= args.len() {
            proof {
                lemma_extend_refl(pre, exprs_ids(suffix));
                assert(types_view(Seq::<TypeSignature>::empty()) =~= Seq::<TypeV>::empty());
            }
            let empty_vec: Vec<TypeSignature> = Vec::new();
            proof {
                assert(types_view(empty_vec@) =~= Seq::<TypeV>::empty());
            }
            return Ok(empty_vec);
        }
        proof {
            lemma_suffix_step(args@, i as int);
            lemma_fresh_subset(pre, exprs_ids(suffix), expr_ids(args@[i as int]));
        }
        let head = match self.type_check(slice_index_get(args, i), context) {
            Ok(t) => t,
            Err(e) => {
                proof {
                    lemma_extend_weaken(
                        pre,
                        tm_view(self.type_map),
                        expr_ids(args@[i as int]),
                        exprs_ids(suffix),
                    );
                }
                return Err(e);
            },
        };
        let ghost mid = tm_view(self.type_map);
        proof {
            lemma_fresh_after(
                pre,
                mid,
                expr_ids(args@[i as int]),
                exprs_ids(args@.subrange(i as int + 1, args@.len() as int)),
            );
        }
        let rest = match self.type_check_all_from(args, i + 1, context) {
            Ok(v) => v,
            Err(e) => {
                proof {
                    lemma_extend_twice(
                        pre,
                        mid,
                        tm_view(self.type_map),
                        expr_ids(args@[i as int]),
                        exprs_ids(args@.subrange(i as int + 1, args@.len() as int)),
                        exprs_ids(suffix),
                    );
                }
                return Err(e);
            },
        };
        proof {
            lemma_extend_twice(
                pre,
                mid,
                tm_view(self.type_map),
                expr_ids(args@[i as int]),
                exprs_ids(args@.subrange(i as int + 1, args@.len() as int)),
                exprs_ids(suffix),
            );
        }
        let ghost rest_snapshot = rest@;
        let mut out = rest;
        out.insert(0, head);
        proof {
            assert(out@ =~= seq![head].add(rest_snapshot));
            assert(types_view(out@) =~= seq![ts_view(head)] + types_view(rest_snapshot));
        }
        Ok(out)
    }

    /// Checks one expression whose type must moreover be admitted by the
    /// expected type.
    pub fn type_check_expects(
        &mut self,
        expr: &SymbolicExpression,
        context: &TypingContext,
        expected_type: &TypeSignature,
    ) -> (r: TypeResult)
        requires
            ids_distinct(*expr),
            map_fresh_for(tm_view(old(self).type_map), expr_ids(*expr)),
        ensures
            checker_frame(*old(self), *final(self), expr_ids(*expr)),
            tr_view(r) == spec_check_expects(
                *expr,
                ctx_view(*context),
                cc_view(old(self).contract_context),
                db_view(old(self).db),
                ts_view(*expected_type),
            ),
        decreases *expr, 4int, 0int,
    {
        match self.type_check(expr, context) {
            Err(e) => Err(e),
            Ok(t) => {
                if !expected_type.admits_type(&t) {
                    Err(CheckError::new(CheckErrors::TypeError(expected_type.clone(), t)))
                } else {
                    Ok(t)
                }
            },
        }
    }

    /// Checks every argument, then validates the argument types against
    /// the declared signature; used for every simple operator.
    pub fn type_check_function_type(
        &mut self,
        func_type: &FunctionType,
        args: &[SymbolicExpression],
        context: &TypingContext,
    ) -> (r: TypeResult)
        requires
            exprs_distinct(args@),
            map_fresh_for(tm_view(old(self).type_map), exprs_ids(args@)),
        ensures
            checker_frame(*old(self), *final(self), exprs_ids(args@)),
            tr_view(r) == spec_apply(
                TypedNativeFunctionV::Simple(ft_view(*func_type)),
                args@,
                ctx_view(*context),
                cc_view(old(self).contract_context),
                db_view(old(self).db),
            ),
        decreases args@, 1int, 0int,
    {
        match self.type_check_all(args, context) {
            Err(e) => Err(e),
            Ok(typed_args) => func_type.check_args(&typed_args),
        }
    }
}

impl TypedNativeFunction {
    /// Applies this strategy to the raw arguments: a simple signature
    /// check, or the special form's dedicated checker.
    pub fn type_check_appliction(
        &self,
        checker: &mut TypeChecker,
        args: &[SymbolicExpression],
        context: &TypingContext,
    ) -> (r: TypeResult)
        requires
            exprs_distinct(args@),
            map_fresh_for(tm_view(old(checker).type_map), exprs_ids(args@)),
        ensures
            checker_frame(*old(checker), *final(checker), exprs_ids(args@)),
            tr_view(r) == spec_apply(
                tnf_view(*self),
                args@,
                ctx_view(*context),
                cc_view(old(checker).contract_context),
                db_view(old(checker).db),
            ),
        decreases args@, 2int, 0int,
    {
        match self {
            TypedNativeFunction::Simple(SimpleNativeFunction(function_type)) =>
                checker.type_check_function_type(function_type, args, context),
            TypedNativeFunction::Special(SpecialNativeFunction(form)) => match form {
                SpecialForm::Equals => check_special_equals(checker, args, context),
                SpecialForm::If => check_special_if(checker, args, context),
                SpecialForm::Let => check_special_let(checker, args, context),
                SpecialForm::FetchVar => check_special_fetch_var(checker, args, context),
                SpecialForm::SetVar => check_special_set_var(checker, args, context),
                SpecialForm::ListCons => check_special_list_cons(checker, args, context),
                SpecialForm::TupleCons => check_special_tuple_cons(checker, args, context),
                SpecialForm::TupleGet => check_special_get(checker, args, context),
                SpecialForm::Begin => check_special_begin(checker, args, context),
                SpecialForm::Print => check_special_print(checker, args, context),
                SpecialForm::AsContract => check_special_as_contract(checker, args, context),
                SpecialForm::ContractCall => check_contract_call(checker, args, context),
                SpecialForm::GetBlockInfo => check_get_block_info(checker, args, context),
            },
        }
    }
}


/// `print`: one argument, whose type passes through unchanged.
fn check_special_print(
    checker: &mut TypeChecker,
    args: &[SymbolicExpression],
    context: &TypingContext,
) -> (r: TypeResult)
    requires
        exprs_distinct(args@),
        map_fresh_for(tm_view(old(checker).type_map), exprs_ids(args@)),
    ensures
        checker_frame(*old(checker), *final(checker), exprs_ids(args@)),
        tr_view(r) == spec_check_passthrough(
            args@,
            ctx_view(*context),
            cc_view(old(checker).contract_context),
            db_view(old(checker).db),
        ),
    decreases args@, 1int, 0int,
{
    let ghost pre = tm_view(checker.type_map);
    match check_argument_count(1, args) {
        Err(e) => {
            proof {
                lemma_extend_refl(pre, exprs_ids(args@));
            }
            return Err(e);
        },
        Ok(_) => {},
    }
    proof {
        assert(args@.subrange(0, args@.len() as int) =~= args@);
        lemma_suffix_step(args@, 0);
        lemma_fresh_subset(pre, exprs_ids(args@), expr_ids(args@[0]));
    }
    let r = checker.type_check(slice_index_get(args, 0), context);
    proof {
        lemma_extend_weaken(pre, tm_view(checker.type_map), expr_ids(args@[0]), exprs_ids(args@));
    }
    r
}

/// `as-contract`: one argument, whose type passes through unchanged.
fn check_special_as_contract(
    checker: &mut TypeChecker,
    args: &[SymbolicExpression],
    context: &TypingContext,
) -> (r: TypeResult)
    requires
        exprs_distinct(args@),
        map_fresh_for(tm_view(old(checker).type_map), exprs_ids(args@)),
    ensures
        checker_frame(*old(checker), *final(checker), exprs_ids(args@)),
        tr_view(r) == spec_check_passthrough(
            args@,
            ctx_view(*context),
            cc_view(old(checker).contract_context),
            db_view(old(checker).db),
        ),
    decreases args@, 1int, 0int,
{
    let ghost pre = tm_view(checker.type_map);
    match check_argument_count(1, args) {
        Err(e) => {
            proof {
                lemma_extend_refl(pre, exprs_ids(args@));
            }
            return Err(e);
        },
        Ok(_) => {},
    }
    proof {
        assert(args@.subrange(0, args@.len() as int) =~= args@);
        lemma_suffix_step(args@, 0);
        lemma_fresh_subset(pre, exprs_ids(args@), expr_ids(args@[0]));
    }
    let r = checker.type_check(slice_index_get(args, 0), context);
    proof {
        lemma_extend_weaken(pre, tm_view(checker.type_map), expr_ids(args@[0]), exprs_ids(args@));
    }
    r
}

/// `begin`: at least one argument; all checked, the last one's type wins.
fn check_special_begin(
    checker: &mut TypeChecker,
    args: &[SymbolicExpression],
    context: &TypingContext,
) -> (r: TypeResult)
    requires
        exprs_distinct(args@),
        map_fresh_for(tm_view(old(checker).type_map), exprs_ids(args@)),
    ensures
        checker_frame(*old(checker), *final(checker), exprs_ids(args@)),
        tr_view(r) == spec_check_begin(
            args@,
            ctx_view(*context),
            cc_view(old(checker).contract_context),
            db_view(old(checker).db),
        ),
    decreases args@, 1int, 0int,
{
    broadcast use lemma_types_view;

    let ghost pre = tm_view(checker.type_map);
    let ghost ctxv = ctx_view(*context);
    let ghost ccv = cc_view(checker.contract_context);
    let ghost dbv = db_view(checker.db);
    match check_arguments_at_least(1, args) {
        Err(e) => {
            proof {
                lemma_extend_refl(pre, exprs_ids(args@));
            }
            return Err(e);
        },
        Ok(_) => {},
    }
    let mut typed_args = match checker.type_check_all(args, context) {
        Err(e) => {
            return Err(e);
        },
        Ok(v) => v,
    };
    proof {
        lemma_spec_check_all_len(args@, 0, ctxv, ccv, dbv);
    }
    let ghost snapshot = typed_args@;
    match typed_args.pop() {
        Some(last_return) => {
            proof {
                assert(ts_view(last_return) == types_view(snapshot)[snapshot.len() - 1]);
            }
            Ok(last_return)
        },
        None => {
            proof {
                assert(false);
            }
            Err(CheckError::new(CheckErrors::CheckerImplementationFailure))
        },
    }
}

/// `if`: a boolean condition and two branches whose types must unify.
fn check_special_if(
    checker: &mut TypeChecker,
    args: &[SymbolicExpression],
    context: &TypingContext,
) -> (r: TypeResult)
    requires
        exprs_distinct(args@),
        map_fresh_for(tm_view(old(checker).type_map), exprs_ids(args@)),
    ensures
        checker_frame(*old(checker), *final(checker), exprs_ids(args@)),
        tr_view(r) == spec_check_if(
            args@,
            ctx_view(*context),
            cc_view(old(checker).contract_context),
            db_view(old(checker).db),
        ),
    decreases args@, 1int, 0int,
{
    broadcast use lemma_types_view;

    let ghost pre = tm_view(checker.type_map);
    let ghost ctxv = ctx_view(*context);
    let ghost ccv = cc_view(checker.contract_context);
    let ghost dbv = db_view(checker.db);
    match check_argument_count(3, args) {
        Err(e) => {
            proof {
                lemma_extend_refl(pre, exprs_ids(args@));
            }
            return Err(e);
        },
        Ok(_) => {},
    }
    proof {
        assert(args@.subrange(0, args@.len() as int) =~= args@);
        lemma_suffix_step(args@, 0);
        lemma_fresh_subset(pre, exprs_ids(args@), expr_ids(args@[0]));
    }
    match checker.type_check_expects(slice_index_get(args, 0), context, &TypeSignature::BoolType) {
        Err(e) => {
            proof {
                lemma_extend_weaken(
                    pre,
                    tm_view(checker.type_map),
                    expr_ids(args@[0]),
                    exprs_ids(args@),
                );
            }
            return Err(e);
        },
        Ok(_) => {},
    }
    let ghost mid = tm_view(checker.type_map);
    proof {
        lemma_fresh_after(
            pre,
            mid,
            expr_ids(args@[0]),
            exprs_ids(args@.subrange(1, args@.len() as int)),
        );
    }
    let arg_types = match checker.type_check_all_from(args, 1, context) {
        Err(e) => {
            proof {
                lemma_extend_twice(
                    pre,
                    mid,
                    tm_view(checker.type_map),
                    expr_ids(args@[0]),
                    exprs_ids(args@.subrange(1, args@.len() as int)),
                    exprs_ids(args@),
                );
            }
            return Err(e);
        },
        Ok(v) => v,
    };
    proof {
        lemma_extend_twice(
            pre,
            mid,
            tm_view(checker.type_map),
            expr_ids(args@[0]),
            exprs_ids(args@.subrange(1, args@.len() as int)),
            exprs_ids(args@),
        );
        lemma_spec_check_all_len(args@, 1, ctxv, ccv, dbv);
    }
    let expr1 = arg_types[0].clone();
    let expr2 = arg_types[1].clone();
    match TypeSignature::most_admissive(expr1, expr2) {
        Ok(t) => Ok(t),
        Err((a, b)) => Err(CheckError::new(CheckErrors::IfArmsMustMatch(a, b))),
    }
}

/// `eq?`: all arguments checked; their types must pairwise unify through
/// the running join; the result is boolean.
fn check_special_equals(
    checker: &mut TypeChecker,
    args: &[SymbolicExpression],
    context: &TypingContext,
) -> (r: TypeResult)
    requires
        exprs_distinct(args@),
        map_fresh_for(tm_view(old(checker).type_map), exprs_ids(args@)),
    ensures
        checker_frame(*old(checker), *final(checker), exprs_ids(args@)),
        tr_view(r) == spec_check_equals(
            args@,
            ctx_view(*context),
            cc_view(old(checker).contract_context),
            db_view(old(checker).db),
        ),
    decreases args@, 1int, 0int,
{
    broadcast use lemma_types_view;

    let ghost pre = tm_view(checker.type_map);
    let ghost ctxv = ctx_view(*context);
    let ghost ccv = cc_view(checker.contract_context);
    let ghost dbv = db_view(checker.db);
    match check_arguments_at_least(1, args) {
        Err(e) => {
            proof {
                lemma_extend_refl(pre, exprs_ids(args@));
            }
            return Err(e);
        },
        Ok(_) => {},
    }
    let arg_types = match checker.type_check_all(args, context) {
        Err(e) => {
            return Err(e);
        },
        Ok(v) => v,
    };
    proof {
        lemma_spec_check_all_len(args@, 0, ctxv, ccv, dbv);
    }
    let ghost tsv = types_view(arg_types@);
    let mut arg_type = arg_types[0].clone();
    let mut i: usize = 0;
    #[verifier::loop_isolation(false)]
    while i < arg_types.len()
        invariant
            0 <= i <= arg_types.len(),
            spec_equals_fold(tsv, ts_view(arg_type), i as int) == spec_equals_fold(
                tsv,
                tsv[0],
                0,
            ),
        decreases arg_types.len() - i,
    {
        match TypeSignature::most_admissive(arg_types[i].clone(), arg_type) {
            Ok(t) => {
                arg_type = t;
            },
            Err((a, b)) => {
                return Err(CheckError::new(CheckErrors::TypeError(a, b)));
            },
        }
        i += 1;
    }
    Ok(TypeSignature::BoolType)
}

/// `list`: all arguments checked; the minimal common list type.
fn check_special_list_cons(
    checker: &mut TypeChecker,
    args: &[SymbolicExpression],
    context: &TypingContext,
) -> (r: TypeResult)
    requires
        exprs_distinct(args@),
        map_fresh_for(tm_view(old(checker).type_map), exprs_ids(args@)),
    ensures
        checker_frame(*old(checker), *final(checker), exprs_ids(args@)),
        tr_view(r) == spec_check_list_cons(
            args@,
            ctx_view(*context),
            cc_view(old(checker).contract_context),
            db_view(old(checker).db),
        ),
    decreases args@, 1int, 0int,
{
    let typed_args = match checker.type_check_all(args, context) {
        Err(e) => {
            return Err(e);
        },
        Ok(v) => v,
    };
    match TypeSignature::parent_list_type(&typed_args) {
        Ok(t) => Ok(t),
        Err(construction_error) => {
            let error_type = match construction_error {
                ListConstructionError::BadTypeConstruction => CheckErrors::ListTypesMustMatch,
                ListConstructionError::ListTooLarge => CheckErrors::ConstructedListTooLarge,
                ListConstructionError::ListDimensionTooHigh =>
                    CheckErrors::ConstructedListTooLarge,
                ListConstructionError::EmptyConstruction =>
                    CheckErrors::UnknownListConstructionFailure,
            };
            Err(CheckError::new(error_type))
        },
    }
}

/// `fetch-var`: a variable-name atom resolved against the persisted
/// declarations.
fn check_special_fetch_var(
    checker: &mut TypeChecker,
    args: &[SymbolicExpression],
    context: &TypingContext,
) -> (r: TypeResult)
    requires
        exprs_distinct(args@),
        map_fresh_for(tm_view(old(checker).type_map), exprs_ids(args@)),
    ensures
        checker_frame(*old(checker), *final(checker), exprs_ids(args@)),
        tr_view(r) == spec_check_fetch_var(args@, cc_view(old(checker).contract_context)),
    decreases args@, 1int, 0int,
{
    let ghost pre = tm_view(checker.type_map);
    let ghost ids = exprs_ids(args@);
    match check_argument_count(1, args) {
        Err(e) => {
            proof {
                lemma_extend_refl(pre, ids);
            }
            return Err(e);
        },
        Ok(_) => {},
    }
    proof {
        assert(args@.subrange(0, args@.len() as int) =~= args@);
        lemma_suffix_step(args@, 0);
        lemma_expr_ids_contains_root(args@[0]);
        lemma_fresh_subset(pre, ids, expr_ids(args@[0]));
        lemma_fresh_root(pre, expr_ids(args@[0]), args@[0].id);
    }
    let head = slice_index_get(args, 0);
    let var_name = match head.match_atom() {
        None => {
            proof {
                lemma_extend_refl(pre, ids);
            }
            return Err(CheckError::new(CheckErrors::BadMapName));
        },
        Some(name) => name,
    };
    match checker.type_map.set_type(head, no_type()) {
        Ok(_) => {
            proof {
                let post = tm_view(checker.type_map);
                assert(pre =~= post.subrange(0, pre.len() as int));
                assert(map_extended_within(pre, post, ids));
            }
        },
        Err(e) => {
            proof {
                assert(false);
            }
            return Err(e);
        },
    }
    match checker.contract_context.get_persisted_variable_type(var_name) {
        Some(value_type) => Ok(value_type.clone()),
        None => Err(CheckError::new(CheckErrors::NoSuchVariable(var_name.clone()))),
    }
}

/// `set-var`: a variable-name atom and a value; the declared type must
/// admit the value's type, and the result is boolean.
fn check_special_set_var(
    checker: &mut TypeChecker,
    args: &[SymbolicExpression],
    context: &TypingContext,
) -> (r: TypeResult)
    requires
        exprs_distinct(args@),
        map_fresh_for(tm_view(old(checker).type_map), exprs_ids(args@)),
    ensures
        checker_frame(*old(checker), *final(checker), exprs_ids(args@)),
        tr_view(r) == spec_check_set_var(
            args@,
            ctx_view(*context),
            cc_view(old(checker).contract_context),
            db_view(old(checker).db),
        ),
    decreases args@, 1int, 0int,
{
    let ghost pre = tm_view(checker.type_map);
    let ghost ids = exprs_ids(args@);
    match check_arguments_at_least(2, args) {
        Err(e) => {
            proof {
                lemma_extend_refl(pre, ids);
            }
            return Err(e);
        },
        Ok(_) => {},
    }
    proof {
        assert(args@.subrange(0, args@.len() as int) =~= args@);
        lemma_suffix_step(args@, 0);
        lemma_expr_ids_contains_root(args@[0]);
        lemma_fresh_subset(pre, ids, expr_ids(args@[0]));
        lemma_fresh_root(pre, expr_ids(args@[0]), args@[0].id);
    }
    let head = slice_index_get(args, 0);
    let var_name = match head.match_atom() {
        None => {
            proof {
                lemma_extend_refl(pre, ids);
            }
            return Err(CheckError::new(CheckErrors::BadMapName));
        },
        Some(name) => name.clone(),
    };
    match checker.type_map.set_type(head, no_type()) {
        Ok(_) => {
            proof {
                let post = tm_view(checker.type_map);
                assert(pre =~= post.subrange(0, pre.len() as int));
                assert(map_extended_within(
                    pre,
                    post,
                    Set::<u64>::empty().insert(args@[0].id),
                ));
                assert(Set::<u64>::empty().insert(args@[0].id).subset_of(expr_ids(args@[0])));
                lemma_extend_weaken(
                    pre,
                    post,
                    Set::<u64>::empty().insert(args@[0].id),
                    expr_ids(args@[0]),
                );
            }
        },
        Err(e) => {
            proof {
                assert(false);
            }
            return Err(e);
        },
    }
    let ghost mid = tm_view(checker.type_map);
    proof {
        lemma_suffix_step(args@, 1);
        assert(exprs_ids(args@.subrange(1, args@.len() as int)).subset_of(ids));
        lemma_fresh_after(
            pre,
            mid,
            expr_ids(args@[0]),
            exprs_ids(args@.subrange(1, args@.len() as int)),
        );
        lemma_fresh_subset(
            mid,
            exprs_ids(args@.subrange(1, args@.len() as int)),
            expr_ids(args@[1]),
        );
        assert(args@.subrange(1, args@.len() as int).subrange(
            0,
            args@.len() as int - 1,
        ) =~= args@.subrange(1, args@.len() as int));
        lemma_suffix_step(args@.subrange(1, args@.len() as int), 0);
        assert(args@.subrange(1, args@.len() as int)[0] == args@[1]);
    }
    let value_type = match checker.type_check(slice_index_get(args, 1), context) {
        Err(e) => {
            proof {
                lemma_extend_twice(
                    pre,
                    mid,
                    tm_view(checker.type_map),
                    expr_ids(args@[0]),
                    expr_ids(args@[1]),
                    ids,
                );
            }
            return Err(e);
        },
        Ok(t) => t,
    };
    proof {
        lemma_extend_twice(
            pre,
            mid,
            tm_view(checker.type_map),
            expr_ids(args@[0]),
            expr_ids(args@[1]),
            ids,
        );
    }
    match checker.contract_context.get_persisted_variable_type(&var_name) {
        None => Err(CheckError::new(CheckErrors::NoSuchVariable(var_name))),
        Some(expected_value_type) => {
            if !expected_value_type.admits_type(&value_type) {
                Err(CheckError::new(CheckErrors::TypeError(
                    expected_value_type.clone(),
                    value_type,
                )))
            } else {
                Ok(TypeSignature::BoolType)
            }
        },
    }
}


/// The named field's declared type out of a tuple type, or the
/// field-not-found error carrying the field and the full signature.
fn inner_handle_tuple_get(tuple_type_sig: &TupleTypeSignature, field_to_get: &String) -> (r:
    TypeResult)
    ensures
        tr_view(r) == match tfield_type(fields_view(tuple_type_sig.fields@), field_to_get@) {
            Some(t) => Ok::<TypeV, CheckErrV>(t),
            None => Err(CheckErrV::NoSuchTupleField(
                field_to_get@,
                fields_view(tuple_type_sig.fields@),
            )),
        },
{
    match tuple_type_sig.field_type(field_to_get) {
        Some(return_type) => Ok(return_type.clone()),
        None => Err(CheckError::new(CheckErrors::NoSuchTupleField(
            field_to_get.clone(),
            tuple_type_sig.clone(),
        ))),
    }
}

/// `get`: a field-name atom and an argument that must check to a tuple or
/// an optional tuple.
fn check_special_get(
    checker: &mut TypeChecker,
    args: &[SymbolicExpression],
    context: &TypingContext,
) -> (r: TypeResult)
    requires
        exprs_distinct(args@),
        map_fresh_for(tm_view(old(checker).type_map), exprs_ids(args@)),
    ensures
        checker_frame(*old(checker), *final(checker), exprs_ids(args@)),
        tr_view(r) == spec_check_tuple_get(
            args@,
            ctx_view(*context),
            cc_view(old(checker).contract_context),
            db_view(old(checker).db),
        ),
    decreases args@, 1int, 0int,
{
    let ghost pre = tm_view(checker.type_map);
    let ghost ids = exprs_ids(args@);
    match check_argument_count(2, args) {
        Err(e) => {
            proof {
                lemma_extend_refl(pre, ids);
            }
            return Err(e);
        },
        Ok(_) => {},
    }
    proof {
        assert(args@.subrange(0, args@.len() as int) =~= args@);
        lemma_suffix_step(args@, 0);
        lemma_expr_ids_contains_root(args@[0]);
        lemma_fresh_subset(pre, ids, expr_ids(args@[0]));
        lemma_fresh_root(pre, expr_ids(args@[0]), args@[0].id);
    }
    let head = slice_index_get(args, 0);
    let field_to_get = match head.match_atom() {
        None => {
            proof {
                lemma_extend_refl(pre, ids);
            }
            return Err(CheckError::new(CheckErrors::BadTupleFieldName));
        },
        Some(name) => name.clone(),
    };
    match checker.type_map.set_type(head, no_type()) {
        Ok(_) => {
            proof {
                let post = tm_view(checker.type_map);
                assert(pre =~= post.subrange(0, pre.len() as int));
                assert(map_extended_within(
                    pre,
                    post,
                    Set::<u64>::empty().insert(args@[0].id),
                ));
                lemma_extend_weaken(
                    pre,
                    post,
                    Set::<u64>::empty().insert(args@[0].id),
                    expr_ids(args@[0]),
                );
            }
        },
        Err(e) => {
            proof {
                assert(false);
            }
            return Err(e);
        },
    }
    let ghost mid = tm_view(checker.type_map);
    proof {
        lemma_suffix_step(args@, 1);
        lemma_fresh_after(
            pre,
            mid,
            expr_ids(args@[0]),
            exprs_ids(args@.subrange(1, args@.len() as int)),
        );
        lemma_fresh_subset(
            mid,
            exprs_ids(args@.subrange(1, args@.len() as int)),
            expr_ids(args@[1]),
        );
        assert(args@.subrange(1, args@.len() as int).subrange(
            0,
            args@.len() as int - 1,
        ) =~= args@.subrange(1, args@.len() as int));
        lemma_suffix_step(args@.subrange(1, args@.len() as int), 0);
        assert(args@.subrange(1, args@.len() as int)[0] == args@[1]);
    }
    let argument_type = match checker.type_check(slice_index_get(args, 1), context) {
        Err(e) => {
            proof {
                lemma_extend_twice(
                    pre,
                    mid,
                    tm_view(checker.type_map),
                    expr_ids(args@[0]),
                    expr_ids(args@[1]),
                    ids,
                );
            }
            return Err(e);
        },
        Ok(t) => t,
    };
    proof {
        lemma_extend_twice(
            pre,
            mid,
            tm_view(checker.type_map),
            expr_ids(args@[0]),
            expr_ids(args@[1]),
            ids,
        );
    }
    let ghost argument_type_v = ts_view(argument_type);
    match argument_type {
        TypeSignature::TupleType(tuple_type_sig) => {
            proof {
                assert(argument_type_v == TypeV::Tuple(fields_view(tuple_type_sig.fields@)));
            }
            inner_handle_tuple_get(&tuple_type_sig, &field_to_get)
        },
        TypeSignature::OptionalType(value_type_sig) => {
            proof {
                assert(argument_type_v == TypeV::Optional(Box::new(ts_view(*value_type_sig))));
            }
            match *value_type_sig {
                TypeSignature::TupleType(tuple_type_sig) => {
                    proof {
                        assert(argument_type_v == TypeV::Optional(
                            Box::new(TypeV::Tuple(fields_view(tuple_type_sig.fields@))),
                        ));
                    }
                    match inner_handle_tuple_get(&tuple_type_sig, &field_to_get) {
                        Ok(inner_type) => Ok(TypeSignature::OptionalType(Box::new(inner_type))),
                        Err(e) => Err(e),
                    }
                },
                other => {
                    proof {
                        assert(argument_type_v == TypeV::Optional(Box::new(ts_view(other))));
                    }
                    Err(CheckError::new(CheckErrors::ExpectedTuple(other)))
                },
            }
        },
        other => Err(CheckError::new(CheckErrors::ExpectedTuple(other))),
    }
}

impl TypeChecker {
    /// Checks the tuple constructor's (name, expression) pairs from
    /// position `i` on, in order, collecting the field list.
    fn check_tuple_pairs(
        &mut self,
        args: &[SymbolicExpression],
        i: usize,
        context: &TypingContext,
    ) -> (r: Result<Vec<(String, TypeSignature)>, CheckError>)
        requires
            i <= args@.len(),
            exprs_distinct(args@.subrange(i as int, args@.len() as int)),
            map_fresh_for(
                tm_view(old(self).type_map),
                exprs_ids(args@.subrange(i as int, args@.len() as int)),
            ),
        ensures
            checker_frame(
                *old(self),
                *final(self),
                exprs_ids(args@.subrange(i as int, args@.len() as int)),
            ),
            match r {
                Ok(v) => spec_check_tuple_pairs(
                    args@,
                    i as int,
                    ctx_view(*context),
                    cc_view(old(self).contract_context),
                    db_view(old(self).db),
                ) == Ok::<Seq<(Seq<char>, TypeV)>, CheckErrV>(fields_view(v@)),
                Err(e) => spec_check_tuple_pairs(
                    args@,
                    i as int,
                    ctx_view(*context),
                    cc_view(old(self).contract_context),
                    db_view(old(self).db),
                ) == Err::<Seq<(Seq<char>, TypeV)>, CheckErrV>(cerr_view(e)),
            },
        decreases args@, 0int, args@.len() - i,
    {
        broadcast use lemma_fields_view;

        let ghost pre = tm_view(self.type_map);
        let ghost suffix = args@.subrange(i as int, args@.len() as int);
        if i >= args.len() {
            proof {
                lemma_extend_refl(pre, exprs_ids(suffix));
            }
            let empty_vec: Vec<(String, TypeSignature)> = Vec::new();
            proof {
                assert(fields_view(empty_vec@) =~= Seq::<(Seq<char>, TypeV)>::empty());
            }
            return Ok(empty_vec);
        }
        proof {
            lemma_suffix_step(args@, i as int);
            lemma_fresh_subset(pre, exprs_ids(suffix), expr_ids(args@[i as int]));
        }
        let pair = slice_index_get(args, i);
        let pair_expression = match pair.match_list() {
            None => {
                proof {
                    lemma_extend_refl(pre, exprs_ids(suffix));
                }
                return Err(CheckError::new(CheckErrors::TupleExpectsPairs));
            },
            Some(l) => l,
        };
        if pair_expression.len() != 2 {
            proof {
                lemma_extend_refl(pre, exprs_ids(suffix));
            }
            return Err(CheckError::new(CheckErrors::TupleExpectsPairs));
        }
        let var_name = match pair_expression[0].match_atom() {
            None => {
                proof {
                    lemma_extend_refl(pre, exprs_ids(suffix));
                }
                return Err(CheckError::new(CheckErrors::TupleExpectsPairs));
            },
            Some(name) => name.clone(),
        };
        proof {
            assert(exprs_distinct(pair_expression@));
            assert(pair_expression@.subrange(0, pair_expression@.len() as int) =~= pair_expression@);
            lemma_suffix_step(pair_expression@, 0);
            assert(exprs_ids(pair_expression@).subset_of(expr_ids(args@[i as int])));
            lemma_fresh_subset(pre, expr_ids(args@[i as int]), exprs_ids(pair_expression@));
            lemma_fresh_subset(pre, exprs_ids(pair_expression@), expr_ids(pair_expression@[0]));
            lemma_expr_ids_contains_root(pair_expression@[0]);
            lemma_fresh_root(pre, expr_ids(pair_expression@[0]), pair_expression@[0].id);
        }
        match self.type_map.set_type(&pair_expression[0], no_type()) {
            Ok(_) => {
                proof {
                    let post = tm_view(self.type_map);
                    assert(pre =~= post.subrange(0, pre.len() as int));
                    assert(map_extended_within(
                        pre,
                        post,
                        Set::<u64>::empty().insert(pair_expression@[0].id),
                    ));
                    lemma_extend_weaken(
                        pre,
                        post,
                        Set::<u64>::empty().insert(pair_expression@[0].id),
                        expr_ids(pair_expression@[0]),
                    );
                }
            },
            Err(e) => {
                proof {
                    assert(false);
                }
                return Err(e);
            },
        }
        let ghost mid = tm_view(self.type_map);
        proof {
            lemma_suffix_step(pair_expression@, 1);
            assert(pair_expression@.subrange(1, pair_expression@.len() as int)[0]
                == pair_expression@[1]);
            lemma_fresh_after(
                pre,
                mid,
                expr_ids(pair_expression@[0]),
                exprs_ids(pair_expression@.subrange(1, pair_expression@.len() as int)),
            );
            lemma_fresh_subset(
                mid,
                exprs_ids(pair_expression@.subrange(1, pair_expression@.len() as int)),
                expr_ids(pair_expression@[1]),
            );
        }
        let var_type = match self.type_check(&pair_expression[1], context) {
            Err(e) => {
                proof {
                    lemma_extend_twice(
                        pre,
                        mid,
                        tm_view(self.type_map),
                        expr_ids(pair_expression@[0]),
                        expr_ids(pair_expression@[1]),
                        expr_ids(args@[i as int]),
                    );
                    lemma_extend_weaken(
                        pre,
                        tm_view(self.type_map),
                        expr_ids(args@[i as int]),
                        exprs_ids(suffix),
                    );
                }
                return Err(e);
            },
            Ok(t) => t,
        };
        let ghost mid2 = tm_view(self.type_map);
        proof {
            lemma_extend_twice(
                pre,
                mid,
                mid2,
                expr_ids(pair_expression@[0]),
                expr_ids(pair_expression@[1]),
                expr_ids(args@[i as int]),
            );
            lemma_fresh_after(
                pre,
                mid2,
                expr_ids(args@[i as int]),
                exprs_ids(args@.subrange(i as int + 1, args@.len() as int)),
            );
        }
        let rest = match self.check_tuple_pairs(args, i + 1, context) {
            Err(e) => {
                proof {
                    lemma_extend_twice(
                        pre,
                        mid2,
                        tm_view(self.type_map),
                        expr_ids(args@[i as int]),
                        exprs_ids(args@.subrange(i as int + 1, args@.len() as int)),
                        exprs_ids(suffix),
                    );
                }
                return Err(e);
            },
            Ok(v) => v,
        };
        proof {
            lemma_extend_twice(
                pre,
                mid2,
                tm_view(self.type_map),
                expr_ids(args@[i as int]),
                exprs_ids(args@.subrange(i as int + 1, args@.len() as int)),
                exprs_ids(suffix),
            );
        }
        let ghost rest_snapshot = rest@;
        let mut out = rest;
        out.insert(0, (var_name, var_type));
        proof {
            assert(out@ =~= seq![(var_name, var_type)].add(rest_snapshot));
            assert(fields_view(out@) =~= seq![(var_name@, ts_view(var_type))] + fields_view(
                rest_snapshot,
            ));
        }
        Ok(out)
    }
}

/// `tuple`: at least one (name, expression) pair; the tuple type of the
/// pairs, whose names must be distinct.
pub fn check_special_tuple_cons(
    checker: &mut TypeChecker,
    args: &[SymbolicExpression],
    context: &TypingContext,
) -> (r: TypeResult)
    requires
        exprs_distinct(args@),
        map_fresh_for(tm_view(old(checker).type_map), exprs_ids(args@)),
    ensures
        checker_frame(*old(checker), *final(checker), exprs_ids(args@)),
        tr_view(r) == spec_check_tuple_cons(
            args@,
            ctx_view(*context),
            cc_view(old(checker).contract_context),
            db_view(old(checker).db),
        ),
    decreases args@, 1int, 0int,
{
    let ghost pre = tm_view(checker.type_map);
    match check_arguments_at_least(1, args) {
        Err(e) => {
            proof {
                lemma_extend_refl(pre, exprs_ids(args@));
            }
            return Err(e);
        },
        Ok(_) => {},
    }
    proof {
        assert(args@.subrange(0, args@.len() as int) =~= args@);
    }
    let tuple_type_data = match checker.check_tuple_pairs(args, 0, context) {
        Err(e) => {
            return Err(e);
        },
        Ok(v) => v,
    };
    match TupleTypeSignature::new(tuple_type_data) {
        Ok(tuple_signature) => Ok(TypeSignature::TupleType(tuple_signature)),
        Err(_) => Err(CheckError::new(CheckErrors::BadTupleConstruction)),
    }
}


impl TypeChecker {
    /// Processes a `let`'s bindings from position `i` on: checks each
    /// name against contract-level and sibling names, checks its
    /// expression in the outer scope, and grows the child frame.
    fn check_let_bindings(
        &mut self,
        bindings: &Vec<SymbolicExpression>,
        i: usize,
        outer_context: &TypingContext,
        out_context: &mut TypingContext,
    ) -> (r: Result<(), CheckError>)
        requires
            i <= bindings@.len(),
            exprs_distinct(bindings@.subrange(i as int, bindings@.len() as int)),
            map_fresh_for(
                tm_view(old(self).type_map),
                exprs_ids(bindings@.subrange(i as int, bindings@.len() as int)),
            ),
            ctx_view(*old(out_context)).len() > 0,
        ensures
            checker_frame(
                *old(self),
                *final(self),
                exprs_ids(bindings@.subrange(i as int, bindings@.len() as int)),
            ),
            match r {
                Ok(_) => {
                    &&& ctx_view(*final(out_context)).len() == ctx_view(*old(out_context)).len()
                    &&& ctx_view(*final(out_context)).drop_last() == ctx_view(
                        *old(out_context),
                    ).drop_last()
                    &&& spec_check_let_bindings(
                        bindings@,
                        i as int,
                        ctx_view(*outer_context),
                        ctx_view(*old(out_context)).last(),
                        cc_view(old(self).contract_context),
                        db_view(old(self).db),
                    ) == Ok::<Seq<(Seq<char>, TypeV)>, CheckErrV>(
                        ctx_view(*final(out_context)).last(),
                    )
                },
                Err(e) => spec_check_let_bindings(
                    bindings@,
                    i as int,
                    ctx_view(*outer_context),
                    ctx_view(*old(out_context)).last(),
                    cc_view(old(self).contract_context),
                    db_view(old(self).db),
                ) == Err::<Seq<(Seq<char>, TypeV)>, CheckErrV>(cerr_view(e)),
            },
        decreases bindings@, 1int, bindings@.len() - i,
    {
        let ghost pre = tm_view(self.type_map);
        let ghost suffix = bindings@.subrange(i as int, bindings@.len() as int);
        if i >= bindings.len() {
            proof {
                lemma_extend_refl(pre, exprs_ids(suffix));
            }
            return Ok(());
        }
        proof {
            lemma_suffix_step(bindings@, i as int);
            lemma_fresh_subset(pre, exprs_ids(suffix), expr_ids(bindings@[i as int]));
        }
        let binding = &bindings[i];
        let binding_exps = match binding.match_list() {
            None => {
                proof {
                    lemma_extend_refl(pre, exprs_ids(suffix));
                }
                return Err(CheckError::new(CheckErrors::BadSyntaxBinding));
            },
            Some(l) => l,
        };
        if binding_exps.len() != 2 {
            proof {
                lemma_extend_refl(pre, exprs_ids(suffix));
            }
            return Err(CheckError::new(CheckErrors::BadSyntaxBinding));
        }
        let var_name = match binding_exps[0].match_atom() {
            None => {
                proof {
                    lemma_extend_refl(pre, exprs_ids(suffix));
                }
                return Err(CheckError::new(CheckErrors::BadSyntaxBinding));
            },
            Some(name) => name.clone(),
        };
        match self.contract_context.check_name_used(&var_name) {
            Err(e) => {
                proof {
                    lemma_extend_refl(pre, exprs_ids(suffix));
                }
                return Err(e);
            },
            Ok(_) => {},
        }
        if out_context.binds_in_innermost(&var_name) {
            proof {
                lemma_extend_refl(pre, exprs_ids(suffix));
            }
            return Err(CheckError::new(CheckErrors::NameAlreadyUsed(var_name)));
        }
        proof {
            assert(exprs_distinct(binding_exps@));
            assert(binding_exps@.subrange(0, binding_exps@.len() as int) =~= binding_exps@);
            lemma_suffix_step(binding_exps@, 0);
            assert(exprs_ids(binding_exps@).subset_of(expr_ids(bindings@[i as int])));
            lemma_fresh_subset(pre, expr_ids(bindings@[i as int]), exprs_ids(binding_exps@));
            lemma_fresh_subset(pre, exprs_ids(binding_exps@), expr_ids(binding_exps@[0]));
            lemma_expr_ids_contains_root(binding_exps@[0]);
            lemma_fresh_root(pre, expr_ids(binding_exps@[0]), binding_exps@[0].id);
        }
        match self.type_map.set_type(&binding_exps[0], no_type()) {
            Ok(_) => {
                proof {
                    let post = tm_view(self.type_map);
                    assert(pre =~= post.subrange(0, pre.len() as int));
                    assert(map_extended_within(
                        pre,
                        post,
                        Set::<u64>::empty().insert(binding_exps@[0].id),
                    ));
                    lemma_extend_weaken(
                        pre,
                        post,
                        Set::<u64>::empty().insert(binding_exps@[0].id),
                        expr_ids(binding_exps@[0]),
                    );
                }
            },
            Err(e) => {
                proof {
                    assert(false);
                }
                return Err(e);
            },
        }
        let ghost mid = tm_view(self.type_map);
        proof {
            lemma_suffix_step(binding_exps@, 1);
            assert(binding_exps@.subrange(1, binding_exps@.len() as int)[0] == binding_exps@[1]);
            lemma_fresh_after(
                pre,
                mid,
                expr_ids(binding_exps@[0]),
                exprs_ids(binding_exps@.subrange(1, binding_exps@.len() as int)),
            );
            lemma_fresh_subset(
                mid,
                exprs_ids(binding_exps@.subrange(1, binding_exps@.len() as int)),
                expr_ids(binding_exps@[1]),
            );
        }
        let typed_result = match self.type_check(&binding_exps[1], outer_context) {
            Err(e) => {
                proof {
                    lemma_extend_twice(
                        pre,
                        mid,
                        tm_view(self.type_map),
                        expr_ids(binding_exps@[0]),
                        expr_ids(binding_exps@[1]),
                        expr_ids(bindings@[i as int]),
                    );
                    lemma_extend_weaken(
                        pre,
                        tm_view(self.type_map),
                        expr_ids(bindings@[i as int]),
                        exprs_ids(suffix),
                    );
                }
                return Err(e);
            },
            Ok(t) => t,
        };
        let ghost mid2 = tm_view(self.type_map);
        proof {
            lemma_extend_twice(
                pre,
                mid,
                mid2,
                expr_ids(binding_exps@[0]),
                expr_ids(binding_exps@[1]),
                expr_ids(bindings@[i as int]),
            );
            lemma_fresh_after(
                pre,
                mid2,
                expr_ids(bindings@[i as int]),
                exprs_ids(bindings@.subrange(i as int + 1, bindings@.len() as int)),
            );
        }
        let ghost frame_before = ctx_view(*out_context).last();
        out_context.add_binding(var_name, typed_result);
        proof {
            assert(ctx_view(*out_context).last() == frame_before.push(
                (var_name@, ts_view(typed_result)),
            ));
            assert(ctx_view(*out_context).len() > 0);
        }
        let rec = self.check_let_bindings(bindings, i + 1, outer_context, out_context);
        proof {
            lemma_extend_twice(
                pre,
                mid2,
                tm_view(self.type_map),
                expr_ids(bindings@[i as int]),
                exprs_ids(bindings@.subrange(i as int + 1, bindings@.len() as int)),
                exprs_ids(suffix),
            );
        }
        rec
    }
}

/// `let`: at least a binding list and one body expression; bindings are
/// checked in the outer scope and collected into one child scope, the
/// body is checked there, and the last body expression's type wins.
fn check_special_let(
    checker: &mut TypeChecker,
    args: &[SymbolicExpression],
    context: &TypingContext,
) -> (r: TypeResult)
    requires
        exprs_distinct(args@),
        map_fresh_for(tm_view(old(checker).type_map), exprs_ids(args@)),
    ensures
        checker_frame(*old(checker), *final(checker), exprs_ids(args@)),
        tr_view(r) == spec_check_let(
            args@,
            ctx_view(*context),
            cc_view(old(checker).contract_context),
            db_view(old(checker).db),
        ),
    decreases args@, 1int, 0int,
{
    broadcast use lemma_types_view;

    let ghost pre = tm_view(checker.type_map);
    let ghost ids = exprs_ids(args@);
    let ghost ctxv = ctx_view(*context);
    let ghost ccv = cc_view(checker.contract_context);
    let ghost dbv = db_view(checker.db);
    match check_arguments_at_least(2, args) {
        Err(e) => {
            proof {
                lemma_extend_refl(pre, ids);
            }
            return Err(e);
        },
        Ok(_) => {},
    }
    proof {
        assert(args@.subrange(0, args@.len() as int) =~= args@);
        lemma_suffix_step(args@, 0);
        lemma_expr_ids_contains_root(args@[0]);
        lemma_fresh_subset(pre, ids, expr_ids(args@[0]));
        lemma_fresh_root(pre, expr_ids(args@[0]), args@[0].id);
    }
    let head = slice_index_get(args, 0);
    match checker.type_map.set_type(head, no_type()) {
        Ok(_) => {
            proof {
                let post = tm_view(checker.type_map);
                assert(pre =~= post.subrange(0, pre.len() as int));
                assert(map_extended_within(
                    pre,
                    post,
                    Set::<u64>::empty().insert(args@[0].id),
                ));
                lemma_extend_weaken(
                    pre,
                    post,
                    Set::<u64>::empty().insert(args@[0].id),
                    expr_ids(args@[0]),
                );
            }
        },
        Err(e) => {
            proof {
                assert(false);
            }
            return Err(e);
        },
    }
    let ghost mid = tm_view(checker.type_map);
    let binding_list = match head.match_list() {
        None => {
            proof {
                lemma_extend_weaken(pre, mid, expr_ids(args@[0]), ids);
            }
            return Err(CheckError::new(CheckErrors::BadLetSyntax));
        },
        Some(l) => l,
    };
    let mut out_context = context.extend();
    proof {
        assert(ctx_view(out_context) == ctxv.push(Seq::<(Seq<char>, TypeV)>::empty()));
        assert(ctx_view(out_context).last() =~= Seq::<(Seq<char>, TypeV)>::empty());
        assert(exprs_distinct(binding_list@));
        assert(binding_list@.subrange(0, binding_list@.len() as int) =~= binding_list@);
        assert(exprs_ids(binding_list@).subset_of(expr_ids(args@[0])));
        assert(!exprs_ids(binding_list@).contains(args@[0].id));
        lemma_fresh_subset(pre, expr_ids(args@[0]), exprs_ids(binding_list@));
        lemma_fresh_after(
            pre,
            mid,
            Set::<u64>::empty().insert(args@[0].id),
            exprs_ids(binding_list@),
        );
    }
    match checker.check_let_bindings(binding_list, 0, context, &mut out_context) {
        Err(e) => {
            proof {
                lemma_extend_twice(
                    pre,
                    mid,
                    tm_view(checker.type_map),
                    expr_ids(args@[0]),
                    exprs_ids(binding_list@),
                    ids,
                );
            }
            return Err(e);
        },
        Ok(_) => {},
    }
    let ghost mid2 = tm_view(checker.type_map);
    proof {
        lemma_extend_twice(
            pre,
            mid,
            mid2,
            expr_ids(args@[0]),
            exprs_ids(binding_list@),
            expr_ids(args@[0]),
        );
        lemma_suffix_step(args@, 0);
        lemma_fresh_after(
            pre,
            mid2,
            expr_ids(args@[0]),
            exprs_ids(args@.subrange(1, args@.len() as int)),
        );
        assert(ctx_view(out_context) =~= ctx_view(out_context).drop_last().push(
            ctx_view(out_context).last(),
        ));
        assert(ctx_view(out_context) == ctxv.push(ctx_view(out_context).last()));
    }
    let mut typed_args = match checker.type_check_all_from(args, 1, &out_context) {
        Err(e) => {
            proof {
                lemma_extend_twice(
                    pre,
                    mid2,
                    tm_view(checker.type_map),
                    expr_ids(args@[0]),
                    exprs_ids(args@.subrange(1, args@.len() as int)),
                    ids,
                );
            }
            return Err(e);
        },
        Ok(v) => v,
    };
    proof {
        lemma_extend_twice(
            pre,
            mid2,
            tm_view(checker.type_map),
            expr_ids(args@[0]),
            exprs_ids(args@.subrange(1, args@.len() as int)),
            ids,
        );
        lemma_spec_check_all_len(args@, 1, ctx_view(out_context), ccv, dbv);
    }
    let ghost snapshot = typed_args@;
    match typed_args.pop() {
        Some(last_return) => {
            proof {
                assert(ts_view(last_return) == types_view(snapshot)[snapshot.len() - 1]);
            }
            Ok(last_return)
        },
        None => {
            proof {
                assert(false);
            }
            Err(CheckError::new(CheckErrors::CheckerImplementationFailure))
        },
    }
}

/// `contract-call`: a contract-name atom and a function-name atom; the
/// callee's signature is resolved public-first, then read-only, and the
/// remaining arguments are validated against it.
fn check_contract_call(
    checker: &mut TypeChecker,
    args: &[SymbolicExpression],
    context: &TypingContext,
) -> (r: TypeResult)
    requires
        exprs_distinct(args@),
        map_fresh_for(tm_view(old(checker).type_map), exprs_ids(args@)),
    ensures
        checker_frame(*old(checker), *final(checker), exprs_ids(args@)),
        tr_view(r) == spec_check_contract_call(
            args@,
            ctx_view(*context),
            cc_view(old(checker).contract_context),
            db_view(old(checker).db),
        ),
    decreases args@, 1int, 0int,
{
    let ghost pre = tm_view(checker.type_map);
    let ghost ids = exprs_ids(args@);
    match check_arguments_at_least(2, args) {
        Err(e) => {
            proof {
                lemma_extend_refl(pre, ids);
            }
            return Err(e);
        },
        Ok(_) => {},
    }
    let head0 = slice_index_get(args, 0);
    let head1 = slice_index_get(args, 1);
    let contract_name = match head0.match_atom() {
        None => {
            proof {
                lemma_extend_refl(pre, ids);
            }
            return Err(CheckError::new(CheckErrors::ContractCallExpectName));
        },
        Some(name) => name.clone(),
    };
    let function_name = match head1.match_atom() {
        None => {
            proof {
                lemma_extend_refl(pre, ids);
            }
            return Err(CheckError::new(CheckErrors::ContractCallExpectName));
        },
        Some(name) => name.clone(),
    };
    proof {
        assert(args@.subrange(0, args@.len() as int) =~= args@);
        lemma_suffix_step(args@, 0);
        lemma_suffix_step(args@, 1);
        assert(args@.subrange(1, args@.len() as int)[0] == args@[1]);
        lemma_expr_ids_contains_root(args@[0]);
        lemma_expr_ids_contains_root(args@[1]);
        lemma_fresh_subset(pre, ids, expr_ids(args@[0]));
        lemma_fresh_root(pre, expr_ids(args@[0]), args@[0].id);
    }
    match checker.type_map.set_type(head0, no_type()) {
        Ok(_) => {
            proof {
                let post = tm_view(checker.type_map);
                assert(pre =~= post.subrange(0, pre.len() as int));
                assert(map_extended_within(
                    pre,
                    post,
                    Set::<u64>::empty().insert(args@[0].id),
                ));
                lemma_extend_weaken(
                    pre,
                    post,
                    Set::<u64>::empty().insert(args@[0].id),
                    expr_ids(args@[0]),
                );
            }
        },
        Err(e) => {
            proof {
                assert(false);
            }
            return Err(e);
        },
    }
    let ghost mid = tm_view(checker.type_map);
    proof {
        lemma_fresh_after(
            pre,
            mid,
            expr_ids(args@[0]),
            exprs_ids(args@.subrange(1, args@.len() as int)),
        );
        lemma_fresh_subset(
            mid,
            exprs_ids(args@.subrange(1, args@.len() as int)),
            expr_ids(args@[1]),
        );
        lemma_fresh_root(mid, expr_ids(args@[1]), args@[1].id);
    }
    match checker.type_map.set_type(head1, no_type()) {
        Ok(_) => {
            proof {
                let post = tm_view(checker.type_map);
                assert(mid =~= post.subrange(0, mid.len() as int));
                assert(map_extended_within(
                    mid,
                    post,
                    Set::<u64>::empty().insert(args@[1].id),
                ));
                lemma_extend_weaken(
                    mid,
                    post,
                    Set::<u64>::empty().insert(args@[1].id),
                    expr_ids(args@[1]),
                );
                lemma_extend_twice(
                    pre,
                    mid,
                    post,
                    expr_ids(args@[0]),
                    expr_ids(args@[1]),
                    ids,
                );
            }
        },
        Err(e) => {
            proof {
                assert(false);
            }
            return Err(e);
        },
    }
    let ghost mid2 = tm_view(checker.type_map);
    let contract_call_function_type: FunctionType = match checker.db.get_public_function_type(
        &contract_name,
        &function_name,
    ) {
        Err(e) => {
            return Err(e);
        },
        Ok(Some(function_type)) => function_type.clone(),
        Ok(None) => {
            match checker.db.get_read_only_function_type(&contract_name, &function_name) {
                Err(e) => {
                    proof {
                        assert(false);
                    }
                    return Err(e);
                },
                Ok(Some(function_type)) => function_type.clone(),
                Ok(None) => {
                    return Err(CheckError::new(CheckErrors::NoSuchPublicFunction(
                        contract_name,
                        function_name,
                    )));
                },
            }
        },
    };
    proof {
        assert(args@.subrange(1, args@.len() as int).subrange(
            0,
            args@.len() as int - 1,
        ) =~= args@.subrange(1, args@.len() as int));
        lemma_suffix_step(args@.subrange(1, args@.len() as int), 0);
        assert(args@.subrange(1, args@.len() as int).subrange(
            1,
            args@.len() as int - 1,
        ) =~= args@.subrange(2, args@.len() as int));
        lemma_fresh_after(
            pre,
            mid2,
            expr_ids(args@[0]).union(expr_ids(args@[1])),
            exprs_ids(args@.subrange(2, args@.len() as int)),
        );
    }
    let contract_call_args = match checker.type_check_all_from(args, 2, context) {
        Err(e) => {
            proof {
                lemma_extend_twice(
                    pre,
                    mid2,
                    tm_view(checker.type_map),
                    ids,
                    exprs_ids(args@.subrange(2, args@.len() as int)),
                    ids,
                );
            }
            return Err(e);
        },
        Ok(v) => v,
    };
    proof {
        lemma_extend_twice(
            pre,
            mid2,
            tm_view(checker.type_map),
            ids,
            exprs_ids(args@.subrange(2, args@.len() as int)),
            ids,
        );
    }
    match contract_call_function_type.check_args(&contract_call_args) {
        Ok(return_type) => Ok(return_type),
        Err(e) => Err(e),
    }
}

/// `get-block-info`: a property-name atom from the closed property set
/// and an integer block height; the property's fixed type is the result.
fn check_get_block_info(
    checker: &mut TypeChecker,
    args: &[SymbolicExpression],
    context: &TypingContext,
) -> (r: TypeResult)
    requires
        exprs_distinct(args@),
        map_fresh_for(tm_view(old(checker).type_map), exprs_ids(args@)),
    ensures
        checker_frame(*old(checker), *final(checker), exprs_ids(args@)),
        tr_view(r) == spec_check_get_block_info(
            args@,
            ctx_view(*context),
            cc_view(old(checker).contract_context),
            db_view(old(checker).db),
        ),
    decreases args@, 1int, 0int,
{
    let ghost pre = tm_view(checker.type_map);
    let ghost ids = exprs_ids(args@);
    match check_arguments_at_least(2, args) {
        Err(e) => {
            proof {
                lemma_extend_refl(pre, ids);
            }
            return Err(e);
        },
        Ok(_) => {},
    }
    proof {
        assert(args@.subrange(0, args@.len() as int) =~= args@);
        lemma_suffix_step(args@, 0);
        lemma_expr_ids_contains_root(args@[0]);
        lemma_fresh_subset(pre, ids, expr_ids(args@[0]));
        lemma_fresh_root(pre, expr_ids(args@[0]), args@[0].id);
    }
    let head = slice_index_get(args, 0);
    match checker.type_map.set_type(head, no_type()) {
        Ok(_) => {
            proof {
                let post = tm_view(checker.type_map);
                assert(pre =~= post.subrange(0, pre.len() as int));
                assert(map_extended_within(
                    pre,
                    post,
                    Set::<u64>::empty().insert(args@[0].id),
                ));
                lemma_extend_weaken(
                    pre,
                    post,
                    Set::<u64>::empty().insert(args@[0].id),
                    expr_ids(args@[0]),
                );
            }
        },
        Err(e) => {
            proof {
                assert(false);
            }
            return Err(e);
        },
    }
    let ghost mid = tm_view(checker.type_map);
    let block_info_prop_str = match head.match_atom() {
        None => {
            proof {
                lemma_extend_weaken(pre, mid, expr_ids(args@[0]), ids);
            }
            return Err(CheckError::new(CheckErrors::GetBlockInfoExpectPropertyName));
        },
        Some(name) => name,
    };
    let block_info_prop = match BlockInfoProperty::lookup_by_name(block_info_prop_str) {
        None => {
            proof {
                lemma_extend_weaken(pre, mid, expr_ids(args@[0]), ids);
            }
            return Err(CheckError::new(CheckErrors::NoSuchBlockInfoProperty(
                block_info_prop_str.clone(),
            )));
        },
        Some(prop) => prop,
    };
    proof {
        lemma_suffix_step(args@, 1);
        assert(args@.subrange(1, args@.len() as int)[0] == args@[1]);
        lemma_fresh_after(
            pre,
            mid,
            expr_ids(args@[0]),
            exprs_ids(args@.subrange(1, args@.len() as int)),
        );
        lemma_fresh_subset(
            mid,
            exprs_ids(args@.subrange(1, args@.len() as int)),
            expr_ids(args@[1]),
        );
    }
    match checker.type_check_expects(slice_index_get(args, 1), context, &TypeSignature::IntType) {
        Err(e) => {
            proof {
                lemma_extend_twice(
                    pre,
                    mid,
                    tm_view(checker.type_map),
                    expr_ids(args@[0]),
                    expr_ids(args@[1]),
                    ids,
                );
            }
            return Err(e);
        },
        Ok(_) => {},
    }
    proof {
        lemma_extend_twice(
            pre,
            mid,
            tm_view(checker.type_map),
            expr_ids(args@[0]),
            expr_ids(args@[1]),
            ids,
        );
    }
    Ok(block_info_prop.type_result())
}

} // verus!

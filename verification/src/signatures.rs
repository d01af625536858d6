//! Declared function signatures and the generic argument check used for
//! every simple native operator and for cross-contract calls, plus the
//! closed set of block-metadata properties.

use vstd::prelude::*;
use crate::types::{TypeSignature, TypeV, ts_view, types_view, lemma_types_view, admits};
use crate::errors::{CheckErrors, CheckError, CheckErrV, cerr_view};
use crate::representation::name_matches;

verus! {

/// One declared argument of a fixed-arity function.
pub struct FunctionArg {
    pub signature: TypeSignature,
    pub name: String,
}

/// A fixed-arity function: positional arguments and a return type.
pub struct FixedFunction {
    pub args: Vec<FunctionArg>,
    pub returns: TypeSignature,
}

/// A declared function signature.
pub enum FunctionType {
    /// Fixed arity, one declared type per position.
    Fixed(FixedFunction),
    /// Any positive number of arguments of one type; fixed return type.
    Variadic(TypeSignature, TypeSignature),
    /// Exactly one argument, admitted by any of the alternatives; fixed
    /// return type.
    UnionArgs(Vec<TypeSignature>, TypeSignature),
    /// Any positive number of integer arguments; integer result.
    ArithmeticVariadic,
    /// Exactly two integer arguments; integer result.
    ArithmeticBinary,
    /// Exactly two integer arguments; boolean result.
    ArithmeticComparison,
}

/// The mathematical model of a function signature.
pub enum FunctionTypeV {
    Fixed(Seq<(TypeV, Seq<char>)>, TypeV),
    Variadic(TypeV, TypeV),
    UnionArgs(Seq<TypeV>, TypeV),
    ArithmeticVariadic,
    ArithmeticBinary,
    ArithmeticComparison,
}

/// Model of a declared argument list.
pub open spec fn fargs_view(fa: Seq<FunctionArg>) -> Seq<(TypeV, Seq<char>)>
    decreases fa.len() + 1,
{
    fargs_view_from(fa, 0)
}

/// Model of the declared arguments from position `i` on.
pub open spec fn fargs_view_from(fa: Seq<FunctionArg>, i: int) -> Seq<(TypeV, Seq<char>)>
    decreases fa.len() - i,
{
    if i < 0 || i >= fa.len() {
        Seq::empty()
    } else {
        seq![(ts_view(fa[i].signature), fa[i].name@)] + fargs_view_from(fa, i + 1)
    }
}

proof fn lemma_fargs_view_from(fa: Seq<FunctionArg>, i: int)
    requires
        0 <= i <= fa.len(),
    ensures
        fargs_view_from(fa, i).len() == fa.len() - i,
        forall|k: int|
            0 <= k < fa.len() - i ==> fargs_view_from(fa, i)[k] == (
                ts_view(fa[i + k].signature),
                fa[i + k].name@,
            ),
    decreases fa.len() - i,
{
    if i < fa.len() {
        lemma_fargs_view_from(fa, i + 1);
    }
}

/// A declared argument list's model lists its arguments, in order.
pub broadcast proof fn lemma_fargs_view(fa: Seq<FunctionArg>)
    ensures
        (#[trigger] fargs_view(fa)).len() == fa.len(),
        forall|k: int|
            0 <= k < fa.len() ==> fargs_view(fa)[k] == (ts_view(fa[k].signature), fa[k].name@),
{
    lemma_fargs_view_from(fa, 0);
}

/// Model of a function signature.
pub open spec fn ft_view(ft: FunctionType) -> FunctionTypeV {
    match ft {
        FunctionType::Fixed(ff) => FunctionTypeV::Fixed(
            fargs_view(ff.args@),
            ts_view(ff.returns),
        ),
        FunctionType::Variadic(a, r) => FunctionTypeV::Variadic(ts_view(a), ts_view(r)),
        FunctionType::UnionArgs(ts, r) => FunctionTypeV::UnionArgs(
            types_view(ts@),
            ts_view(r),
        ),
        FunctionType::ArithmeticVariadic => FunctionTypeV::ArithmeticVariadic,
        FunctionType::ArithmeticBinary => FunctionTypeV::ArithmeticBinary,
        FunctionType::ArithmeticComparison => FunctionTypeV::ArithmeticComparison,
    }
}

/// First position at or after `i` whose argument is not admitted by its
/// declared type, as that position's mismatch; nothing when all fit.
pub open spec fn spec_fixed_mismatch(
    fargs: Seq<(TypeV, Seq<char>)>,
    args: Seq<TypeV>,
    i: int,
) -> Option<CheckErrV>
    decreases args.len() - i,
{
    if i < 0 || i >= args.len() || i >= fargs.len() {
        None
    } else if !admits(fargs[i].0, args[i]) {
        Some(CheckErrV::TypeError(fargs[i].0, args[i]))
    } else {
        spec_fixed_mismatch(fargs, args, i + 1)
    }
}

/// First position at or after `i` whose argument is not admitted by the
/// repeated type, as that position's mismatch; nothing when all fit.
pub open spec fn spec_variadic_mismatch(expected: TypeV, args: Seq<TypeV>, i: int) -> Option<
    CheckErrV,
>
    decreases args.len() - i,
{
    if i < 0 || i >= args.len() {
        None
    } else if !admits(expected, args[i]) {
        Some(CheckErrV::TypeError(expected, args[i]))
    } else {
        spec_variadic_mismatch(expected, args, i + 1)
    }
}

/// Whether some alternative at or after `i` admits the argument.
pub open spec fn spec_union_admits(opts: Seq<TypeV>, arg: TypeV, i: int) -> bool
    decreases opts.len() - i,
{
    if i < 0 || i >= opts.len() {
        false
    } else {
        admits(opts[i], arg) || spec_union_admits(opts, arg, i + 1)
    }
}

/// Validates an argument list against a signature: arity first, then
/// per-position admission; yields the declared return type.
pub open spec fn spec_check_args(ft: FunctionTypeV, args: Seq<TypeV>) -> Result<TypeV, CheckErrV> {
    match ft {
        FunctionTypeV::Fixed(fargs, ret) => if args.len() != fargs.len() {
            Err(CheckErrV::IncorrectArgumentCount(fargs.len() as int, args.len() as int))
        } else {
            match spec_fixed_mismatch(fargs, args, 0) {
                Some(e) => Err(e),
                None => Ok(ret),
            }
        },
        FunctionTypeV::Variadic(expected, ret) => if args.len() < 1 {
            Err(CheckErrV::RequiresAtLeastArguments(1, args.len() as int))
        } else {
            match spec_variadic_mismatch(expected, args, 0) {
                Some(e) => Err(e),
                None => Ok(ret),
            }
        },
        FunctionTypeV::UnionArgs(opts, ret) => if args.len() != 1 {
            Err(CheckErrV::IncorrectArgumentCount(1, args.len() as int))
        } else if spec_union_admits(opts, args[0], 0) {
            Ok(ret)
        } else {
            Err(CheckErrV::UnionTypeError(opts, args[0]))
        },
        FunctionTypeV::ArithmeticVariadic => if args.len() < 1 {
            Err(CheckErrV::RequiresAtLeastArguments(1, args.len() as int))
        } else {
            match spec_variadic_mismatch(TypeV::Int, args, 0) {
                Some(e) => Err(e),
                None => Ok(TypeV::Int),
            }
        },
        FunctionTypeV::ArithmeticBinary => if args.len() != 2 {
            Err(CheckErrV::IncorrectArgumentCount(2, args.len() as int))
        } else {
            match spec_variadic_mismatch(TypeV::Int, args, 0) {
                Some(e) => Err(e),
                None => Ok(TypeV::Int),
            }
        },
        FunctionTypeV::ArithmeticComparison => if args.len() != 2 {
            Err(CheckErrV::IncorrectArgumentCount(2, args.len() as int))
        } else {
            match spec_variadic_mismatch(TypeV::Int, args, 0) {
                Some(e) => Err(e),
                None => Ok(TypeV::Bool),
            }
        },
    }
}

/// Checks each argument against the repeated expected type, returning the
/// first mismatch.
#[verifier::loop_isolation(false)]
fn check_variadic(expected: &TypeSignature, args: &Vec<TypeSignature>) -> (r: Option<CheckError>)
    ensures
        match r {
            Some(e) => spec_variadic_mismatch(ts_view(*expected), types_view(args@), 0) == Some(
                cerr_view(e),
            ),
            None => spec_variadic_mismatch(ts_view(*expected), types_view(args@), 0) is None,
        },
{
    broadcast use lemma_types_view;

    let ghost argsv = types_view(args@);
    let ghost ev = ts_view(*expected);
    let mut i: usize = 0;
    while i < args.len()
        invariant
            0 <= i <= args.len(),
            spec_variadic_mismatch(ev, argsv, 0) == spec_variadic_mismatch(ev, argsv, i as int),
        decreases args.len() - i,
    {
        if !expected.admits_type(&args[i]) {
            return Some(CheckError::new(CheckErrors::TypeError(
                expected.clone(),
                args[i].clone(),
            )));
        }
        i += 1;
    }
    None
}

impl FunctionType {
    /// Validates an argument list against this signature: arity first,
    /// then per-position admission; yields the declared return type.
    #[verifier::loop_isolation(false)]
    pub fn check_args(&self, args: &Vec<TypeSignature>) -> (r: Result<TypeSignature, CheckError>)
        ensures
            match r {
                Ok(t) => spec_check_args(ft_view(*self), types_view(args@)) == Ok::<
                    TypeV,
                    CheckErrV,
                >(ts_view(t)),
                Err(e) => spec_check_args(ft_view(*self), types_view(args@)) == Err::<
                    TypeV,
                    CheckErrV,
                >(cerr_view(e)),
            },
    {
        broadcast use lemma_types_view, lemma_fargs_view;

        let ghost argsv = types_view(args@);
        match self {
            FunctionType::Fixed(ff) => {
                let ghost fav = fargs_view(ff.args@);
                if args.len() != ff.args.len() {
                    return Err(CheckError::new(CheckErrors::IncorrectArgumentCount(
                        ff.args.len(),
                        args.len(),
                    )));
                }
                let mut i: usize = 0;
                while i < args.len()
                    invariant
                        0 <= i <= args.len(),
                        spec_fixed_mismatch(fav, argsv, 0) == spec_fixed_mismatch(
                            fav,
                            argsv,
                            i as int,
                        ),
                    decreases args.len() - i,
                {
                    if !ff.args[i].signature.admits_type(&args[i]) {
                        return Err(CheckError::new(CheckErrors::TypeError(
                            ff.args[i].signature.clone(),
                            args[i].clone(),
                        )));
                    }
                    i += 1;
                }
                Ok(ff.returns.clone())
            },
            FunctionType::Variadic(expected, ret) => {
                if args.len() < 1 {
                    return Err(CheckError::new(CheckErrors::RequiresAtLeastArguments(
                        1,
                        args.len(),
                    )));
                }
                match check_variadic(expected, args) {
                    Some(e) => Err(e),
                    None => Ok(ret.clone()),
                }
            },
            FunctionType::UnionArgs(opts, ret) => {
                let ghost optsv = types_view(opts@);
                if args.len() != 1 {
                    return Err(CheckError::new(CheckErrors::IncorrectArgumentCount(
                        1,
                        args.len(),
                    )));
                }
                let mut i: usize = 0;
                while i < opts.len()
                    invariant
                        0 <= i <= opts.len(),
                        !spec_union_admits(optsv, argsv[0], 0) == !spec_union_admits(
                            optsv,
                            argsv[0],
                            i as int,
                        ),
                    decreases opts.len() - i,
                {
                    if opts[i].admits_type(&args[0]) {
                        return Ok(ret.clone());
                    }
                    i += 1;
                }
                let mut carried: Vec<TypeSignature> = Vec::new();
                let mut j: usize = 0;
                while j < opts.len()
                    invariant
                        0 <= j <= opts.len(),
                        carried.len() == j,
                        forall|k: int|
                            0 <= k < j ==> ts_view(#[trigger] carried@[k]) == ts_view(opts@[k]),
                    decreases opts.len() - j,
                {
                    carried.push(opts[j].clone());
                    j += 1;
                }
                proof {
                    assert(types_view(carried@) =~= types_view(opts@));
                }
                Err(CheckError::new(CheckErrors::UnionTypeError(carried, args[0].clone())))
            },
            FunctionType::ArithmeticVariadic => {
                if args.len() < 1 {
                    return Err(CheckError::new(CheckErrors::RequiresAtLeastArguments(
                        1,
                        args.len(),
                    )));
                }
                match check_variadic(&TypeSignature::IntType, args) {
                    Some(e) => Err(e),
                    None => Ok(TypeSignature::IntType),
                }
            },
            FunctionType::ArithmeticBinary => {
                if args.len() != 2 {
                    return Err(CheckError::new(CheckErrors::IncorrectArgumentCount(
                        2,
                        args.len(),
                    )));
                }
                match check_variadic(&TypeSignature::IntType, args) {
                    Some(e) => Err(e),
                    None => Ok(TypeSignature::IntType),
                }
            },
            FunctionType::ArithmeticComparison => {
                if args.len() != 2 {
                    return Err(CheckError::new(CheckErrors::IncorrectArgumentCount(
                        2,
                        args.len(),
                    )));
                }
                match check_variadic(&TypeSignature::IntType, args) {
                    Some(e) => Err(e),
                    None => Ok(TypeSignature::BoolType),
                }
            },
        }
    }
}

/// A block-metadata field, each with a statically fixed result type.
pub enum BlockInfoProperty {
    Time,
    VrfSeed,
    HeaderHash,
    BurnchainHeaderHash,
}

/// Model of the property-name lookup.
pub open spec fn spec_block_info_lookup(name: Seq<char>) -> Option<BlockInfoProperty> {
    if name == "time"@ {
        Some(BlockInfoProperty::Time)
    } else if name == "vrf-seed"@ {
        Some(BlockInfoProperty::VrfSeed)
    } else if name == "header-hash"@ {
        Some(BlockInfoProperty::HeaderHash)
    } else if name == "burnchain-header-hash"@ {
        Some(BlockInfoProperty::BurnchainHeaderHash)
    } else {
        None
    }
}

/// The property's statically fixed result type.
pub open spec fn spec_block_info_type(p: BlockInfoProperty) -> TypeV {
    match p {
        BlockInfoProperty::Time => TypeV::Int,
        BlockInfoProperty::VrfSeed => TypeV::Buffer(32),
        BlockInfoProperty::HeaderHash => TypeV::Buffer(32),
        BlockInfoProperty::BurnchainHeaderHash => TypeV::Buffer(32),
    }
}

impl BlockInfoProperty {
    /// Resolves a property name against the closed property set.
    pub fn lookup_by_name(name: &String) -> (r: Option<BlockInfoProperty>)
        ensures
            r == spec_block_info_lookup(name@),
    {
        if name_matches(name, "time") {
            Some(BlockInfoProperty::Time)
        } else if name_matches(name, "vrf-seed") {
            Some(BlockInfoProperty::VrfSeed)
        } else if name_matches(name, "header-hash") {
            Some(BlockInfoProperty::HeaderHash)
        } else if name_matches(name, "burnchain-header-hash") {
            Some(BlockInfoProperty::BurnchainHeaderHash)
        } else {
            None
        }
    }

    /// The property's statically fixed result type.
    pub fn type_result(&self) -> (r: TypeSignature)
        ensures
            ts_view(r) == spec_block_info_type(*self),
    {
        match self {
            BlockInfoProperty::Time => TypeSignature::IntType,
            BlockInfoProperty::VrfSeed => TypeSignature::BufferType(32),
            BlockInfoProperty::HeaderHash => TypeSignature::BufferType(32),
            BlockInfoProperty::BurnchainHeaderHash => TypeSignature::BufferType(32),
        }
    }
}


impl Clone for FunctionArg {
    /// A copy with the same model.
    fn clone(&self) -> (r: Self)
        ensures
            ts_view(r.signature) == ts_view(self.signature),
            r.name@ == self.name@,
    {
        FunctionArg { signature: self.signature.clone(), name: self.name.clone() }
    }
}

impl Clone for FunctionType {
    /// A deep copy with the same model.
    #[verifier::loop_isolation(false)]
    fn clone(&self) -> (r: Self)
        ensures
            ft_view(r) == ft_view(*self),
    {
        broadcast use lemma_fargs_view, lemma_types_view;

        match self {
            FunctionType::Fixed(ff) => {
                let mut args: Vec<FunctionArg> = Vec::new();
                let mut i: usize = 0;
                while i < ff.args.len()
                    invariant
                        0 <= i <= ff.args.len(),
                        args.len() == i,
                        forall|k: int|
                            0 <= k < i ==> ts_view((#[trigger] args@[k]).signature) == ts_view(
                                ff.args@[k].signature,
                            ) && args@[k].name@ == ff.args@[k].name@,
                    decreases ff.args.len() - i,
                {
                    args.push(ff.args[i].clone());
                    i += 1;
                }
                proof {
                    assert forall|k: int| 0 <= k < ff.args@.len() implies fargs_view(args@)[k]
                        == fargs_view(ff.args@)[k] by {
                        assert(args@[k].name@ == ff.args@[k].name@);
                    }
                    assert(fargs_view(args@) =~= fargs_view(ff.args@));
                }
                FunctionType::Fixed(FixedFunction { args, returns: ff.returns.clone() })
            },
            FunctionType::Variadic(a, r) => FunctionType::Variadic(a.clone(), r.clone()),
            FunctionType::UnionArgs(opts, ret) => {
                let mut copies: Vec<TypeSignature> = Vec::new();
                let mut i: usize = 0;
                while i < opts.len()
                    invariant
                        0 <= i <= opts.len(),
                        copies.len() == i,
                        forall|k: int|
                            0 <= k < i ==> ts_view(#[trigger] copies@[k]) == ts_view(opts@[k]),
                    decreases opts.len() - i,
                {
                    copies.push(opts[i].clone());
                    i += 1;
                }
                proof {
                    assert(types_view(copies@) =~= types_view(opts@));
                }
                FunctionType::UnionArgs(copies, ret.clone())
            },
            FunctionType::ArithmeticVariadic => FunctionType::ArithmeticVariadic,
            FunctionType::ArithmeticBinary => FunctionType::ArithmeticBinary,
            FunctionType::ArithmeticComparison => FunctionType::ArithmeticComparison,
        }
    }
}

} // verus!

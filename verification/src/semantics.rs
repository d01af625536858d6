//! The mathematical model of checking: a pure, total function from an
//! expression tree, a scope chain and the schema stores to the checked
//! type or the first failure.
//!
//! The executable checker in `natives` is proved to return exactly this
//! function's result, which makes checking deterministic: the outcome
//! depends on nothing but the tree, the scope and the stores.

use vstd::prelude::*;
use crate::representation::{SymbolicExpression, SymbolicExpressionType, LiteralValue};
use crate::types::{
    TypeV, tfield_type, spec_most_admissive, admits, tuple_names_distinct, spec_parent_list_type,
    ListConstructionError, MAX_VALUE_SIZE,
};
use crate::errors::CheckErrV;
use crate::signatures::{spec_check_args, spec_block_info_lookup, spec_block_info_type};
use crate::contexts::{
    CtxV, DbV, ctx_lookup, ContractContextV, name_defined, db_contract, fsig_lookup,
};
use crate::natives::{
    NativeFunctions, SpecialForm, TypedNativeFunctionV, spec_lookup_native,
    spec_type_native_function,
};

verus! {

/// The type of a literal value.
pub open spec fn spec_type_literal(v: LiteralValue) -> Result<TypeV, CheckErrV> {
    match v {
        LiteralValue::IntLiteral(_) => Ok(TypeV::Int),
        LiteralValue::BoolLiteral(_) => Ok(TypeV::Bool),
        LiteralValue::BufferLiteral(bytes) => if bytes@.len() <= MAX_VALUE_SIZE {
            Ok(TypeV::Buffer(bytes@.len() as u32))
        } else {
            Err(CheckErrV::ValueTooLarge)
        },
    }
}

/// The checked type of one expression: a literal's own type, a variable's
/// bound type, or the operator-specific result of a call form.
pub open spec fn spec_type_check(
    e: SymbolicExpression,
    ctx: CtxV,
    cc: ContractContextV,
    db: DbV,
) -> Result<TypeV, CheckErrV>
    decreases e, 3int, 0int,
{
    match e.expr {
        SymbolicExpressionType::AtomValue(v) => spec_type_literal(v),
        SymbolicExpressionType::Atom(name) => match ctx_lookup(ctx, name@) {
            Some(t) => Ok(t),
            None => Err(CheckErrV::UndefinedVariable(name@)),
        },
        SymbolicExpressionType::List(children) => if children@.len() == 0 {
            Err(CheckErrV::NonFunctionApplication)
        } else {
            match children@[0].expr {
                SymbolicExpressionType::Atom(op_name) => match spec_lookup_native(op_name@) {
                    Some(native) => spec_check_application(
                        native,
                        children@.subrange(1, children@.len() as int),
                        ctx,
                        cc,
                        db,
                    ),
                    None => Err(CheckErrV::UnknownFunction(op_name@)),
                },
                _ => Err(CheckErrV::NonFunctionApplication),
            }
        },
    }
}

/// The checked type of one expression, which must moreover be admitted by
/// `expected`.
pub open spec fn spec_check_expects(
    e: SymbolicExpression,
    ctx: CtxV,
    cc: ContractContextV,
    db: DbV,
    expected: TypeV,
) -> Result<TypeV, CheckErrV>
    decreases e, 4int, 0int,
{
    match spec_type_check(e, ctx, cc, db) {
        Err(er) => Err(er),
        Ok(t) => if admits(expected, t) {
            Ok(t)
        } else {
            Err(CheckErrV::TypeError(expected, t))
        },
    }
}

/// Routes an operator application to its registered strategy.
pub open spec fn spec_check_application(
    native: NativeFunctions,
    args: Seq<SymbolicExpression>,
    ctx: CtxV,
    cc: ContractContextV,
    db: DbV,
) -> Result<TypeV, CheckErrV>
    decreases args, 3int, 0int,
{
    spec_apply(spec_type_native_function(native), args, ctx, cc, db)
}

/// Applies a checking strategy: a simple signature check, or the special
/// form's own rule.
pub open spec fn spec_apply(
    tnf: TypedNativeFunctionV,
    args: Seq<SymbolicExpression>,
    ctx: CtxV,
    cc: ContractContextV,
    db: DbV,
) -> Result<TypeV, CheckErrV>
    decreases args, 2int, 0int,
{
    match tnf {
        TypedNativeFunctionV::Simple(ft) => match spec_check_all(args, 0, ctx, cc, db) {
            Err(e) => Err(e),
            Ok(ts) => spec_check_args(ft, ts),
        },
        TypedNativeFunctionV::Special(form) => match form {
            SpecialForm::Equals => spec_check_equals(args, ctx, cc, db),
            SpecialForm::If => spec_check_if(args, ctx, cc, db),
            SpecialForm::Let => spec_check_let(args, ctx, cc, db),
            SpecialForm::FetchVar => spec_check_fetch_var(args, cc),
            SpecialForm::SetVar => spec_check_set_var(args, ctx, cc, db),
            SpecialForm::ListCons => spec_check_list_cons(args, ctx, cc, db),
            SpecialForm::TupleCons => spec_check_tuple_cons(args, ctx, cc, db),
            SpecialForm::TupleGet => spec_check_tuple_get(args, ctx, cc, db),
            SpecialForm::Begin => spec_check_begin(args, ctx, cc, db),
            SpecialForm::Print => spec_check_passthrough(args, ctx, cc, db),
            SpecialForm::AsContract => spec_check_passthrough(args, ctx, cc, db),
            SpecialForm::ContractCall => spec_check_contract_call(args, ctx, cc, db),
            SpecialForm::GetBlockInfo => spec_check_get_block_info(args, ctx, cc, db),
        },
    }
}

/// The checked types of the expressions from position `i` on, in order,
/// or the leftmost failure.
pub open spec fn spec_check_all(
    es: Seq<SymbolicExpression>,
    i: int,
    ctx: CtxV,
    cc: ContractContextV,
    db: DbV,
) -> Result<Seq<TypeV>, CheckErrV>
    decreases es, 0int, es.len() - i,
{
    if i < 0 || i >= es.len() {
        Ok(Seq::empty())
    } else {
        match spec_type_check(es[i], ctx, cc, db) {
            Err(e) => Err(e),
            Ok(t) => match spec_check_all(es, i + 1, ctx, cc, db) {
                Err(e) => Err(e),
                Ok(rest) => Ok(seq![t] + rest),
            },
        }
    }
}

/// A successful check of a sequence yields one type per expression.
pub proof fn lemma_spec_check_all_len(
    es: Seq<SymbolicExpression>,
    i: int,
    ctx: CtxV,
    cc: ContractContextV,
    db: DbV,
)
    requires
        0 <= i <= es.len(),
    ensures
        spec_check_all(es, i, ctx, cc, db) is Ok ==> (spec_check_all(
            es,
            i,
            ctx,
            cc,
            db,
        )->Ok_0).len() == es.len() - i,
    decreases es.len() - i,
{
    if i < es.len() {
        lemma_spec_check_all_len(es, i + 1, ctx, cc, db);
    }
}

/// `equals`: every argument is checked, the running type is repeatedly
/// joined with each argument's type, and the result is boolean.
pub open spec fn spec_check_equals(
    args: Seq<SymbolicExpression>,
    ctx: CtxV,
    cc: ContractContextV,
    db: DbV,
) -> Result<TypeV, CheckErrV>
    decreases args, 1int, 0int,
{
    if args.len() < 1 {
        Err(CheckErrV::RequiresAtLeastArguments(1, args.len() as int))
    } else {
        match spec_check_all(args, 0, ctx, cc, db) {
            Err(e) => Err(e),
            Ok(ts) => match spec_equals_fold(ts, ts[0], 0) {
                Ok(_) => Ok(TypeV::Bool),
                Err((a, b)) => Err(CheckErrV::TypeError(a, b)),
            },
        }
    }
}

/// Left fold of the join over the argument types, starting from the first.
pub open spec fn spec_equals_fold(ts: Seq<TypeV>, acc: TypeV, i: int) -> Result<
    TypeV,
    (TypeV, TypeV),
>
    decreases ts.len() - i,
{
    if i < 0 || i >= ts.len() {
        Ok(acc)
    } else {
        match spec_most_admissive(ts[i], acc) {
            Ok(j) => spec_equals_fold(ts, j, i + 1),
            Err(p) => Err(p),
        }
    }
}

/// `if`: three arguments; a boolean condition, and two branches whose
/// types must unify into the result.
pub open spec fn spec_check_if(
    args: Seq<SymbolicExpression>,
    ctx: CtxV,
    cc: ContractContextV,
    db: DbV,
) -> Result<TypeV, CheckErrV>
    decreases args, 1int, 0int,
{
    if args.len() != 3 {
        Err(CheckErrV::IncorrectArgumentCount(3, args.len() as int))
    } else {
        match spec_check_expects(args[0], ctx, cc, db, TypeV::Bool) {
            Err(e) => Err(e),
            Ok(_) => match spec_check_all(args, 1, ctx, cc, db) {
                Err(e) => Err(e),
                Ok(ts) => match spec_most_admissive(ts[0], ts[1]) {
                    Ok(t) => Ok(t),
                    Err((a, b)) => Err(CheckErrV::IfArmsMustMatch(a, b)),
                },
            },
        }
    }
}

/// `begin`: at least one argument; all are checked, the last one's type
/// is the result.
pub open spec fn spec_check_begin(
    args: Seq<SymbolicExpression>,
    ctx: CtxV,
    cc: ContractContextV,
    db: DbV,
) -> Result<TypeV, CheckErrV>
    decreases args, 1int, 0int,
{
    if args.len() < 1 {
        Err(CheckErrV::RequiresAtLeastArguments(1, args.len() as int))
    } else {
        match spec_check_all(args, 0, ctx, cc, db) {
            Err(e) => Err(e),
            Ok(ts) => Ok(ts[ts.len() - 1]),
        }
    }
}

/// `print` and `as-contract`: one argument, passed through transparently.
pub open spec fn spec_check_passthrough(
    args: Seq<SymbolicExpression>,
    ctx: CtxV,
    cc: ContractContextV,
    db: DbV,
) -> Result<TypeV, CheckErrV>
    decreases args, 1int, 0int,
{
    if args.len() != 1 {
        Err(CheckErrV::IncorrectArgumentCount(1, args.len() as int))
    } else {
        spec_type_check(args[0], ctx, cc, db)
    }
}

/// `let`: a binding list, then a body.  Each binding's expression is
/// checked in the outer scope; the body is checked in one child scope
/// holding all the bindings.
pub open spec fn spec_check_let(
    args: Seq<SymbolicExpression>,
    ctx: CtxV,
    cc: ContractContextV,
    db: DbV,
) -> Result<TypeV, CheckErrV>
    decreases args, 1int, 0int,
{
    if args.len() < 2 {
        Err(CheckErrV::RequiresAtLeastArguments(2, args.len() as int))
    } else {
        match args[0].expr {
            SymbolicExpressionType::List(binding_list) => match spec_check_let_bindings(
                binding_list@,
                0,
                ctx,
                Seq::empty(),
                cc,
                db,
            ) {
                Err(e) => Err(e),
                Ok(frame) => match spec_check_all(args, 1, ctx.push(frame), cc, db) {
                    Err(e) => Err(e),
                    Ok(ts) => Ok(ts[ts.len() - 1]),
                },
            },
            _ => Err(CheckErrV::BadLetSyntax),
        }
    }
}

/// Processes the bindings from position `i` on, left to right: a name
/// must collide neither with a contract-level name nor with an earlier
/// binding of the same form; its expression is checked in the outer
/// scope; the grown frame is the result.
pub open spec fn spec_check_let_bindings(
    bindings: Seq<SymbolicExpression>,
    i: int,
    outer_ctx: CtxV,
    frame: Seq<(Seq<char>, TypeV)>,
    cc: ContractContextV,
    db: DbV,
) -> Result<Seq<(Seq<char>, TypeV)>, CheckErrV>
    decreases bindings, 1int, bindings.len() - i,
{
    if i < 0 || i >= bindings.len() {
        Ok(frame)
    } else {
        match bindings[i].expr {
            SymbolicExpressionType::List(pair) => if pair@.len() != 2 {
                Err(CheckErrV::BadSyntaxBinding)
            } else {
                match pair@[0].expr {
                    SymbolicExpressionType::Atom(name) => if name_defined(cc.names, name@) {
                        Err(CheckErrV::NameAlreadyUsed(name@))
                    } else if tfield_type(frame, name@) is Some {
                        Err(CheckErrV::NameAlreadyUsed(name@))
                    } else {
                        match spec_type_check(pair@[1], outer_ctx, cc, db) {
                            Err(e) => Err(e),
                            Ok(t) => spec_check_let_bindings(
                                bindings,
                                i + 1,
                                outer_ctx,
                                frame.push((name@, t)),
                                cc,
                                db,
                            ),
                        }
                    },
                    _ => Err(CheckErrV::BadSyntaxBinding),
                }
            },
            _ => Err(CheckErrV::BadSyntaxBinding),
        }
    }
}

/// `fetch-var`: one variable-name atom, resolved against the persisted
/// declarations.
pub open spec fn spec_check_fetch_var(args: Seq<SymbolicExpression>, cc: ContractContextV) -> Result<
    TypeV,
    CheckErrV,
>
    decreases args, 1int, 0int,
{
    if args.len() != 1 {
        Err(CheckErrV::IncorrectArgumentCount(1, args.len() as int))
    } else {
        match args[0].expr {
            SymbolicExpressionType::Atom(name) => match tfield_type(cc.variables, name@) {
                Some(t) => Ok(t),
                None => Err(CheckErrV::NoSuchVariable(name@)),
            },
            _ => Err(CheckErrV::BadMapName),
        }
    }
}

/// `set-var`: a variable-name atom and a value whose type the declared
/// type must admit; the result is boolean.
pub open spec fn spec_check_set_var(
    args: Seq<SymbolicExpression>,
    ctx: CtxV,
    cc: ContractContextV,
    db: DbV,
) -> Result<TypeV, CheckErrV>
    decreases args, 1int, 0int,
{
    if args.len() < 2 {
        Err(CheckErrV::RequiresAtLeastArguments(2, args.len() as int))
    } else {
        match args[0].expr {
            SymbolicExpressionType::Atom(name) => match spec_type_check(args[1], ctx, cc, db) {
                Err(e) => Err(e),
                Ok(value_type) => match tfield_type(cc.variables, name@) {
                    None => Err(CheckErrV::NoSuchVariable(name@)),
                    Some(expected) => if admits(expected, value_type) {
                        Ok(TypeV::Bool)
                    } else {
                        Err(CheckErrV::TypeError(expected, value_type))
                    },
                },
            },
            _ => Err(CheckErrV::BadMapName),
        }
    }
}

/// `list`: all arguments checked; the minimal common list type, or the
/// construction failure mapped into the checking taxonomy.
pub open spec fn spec_check_list_cons(
    args: Seq<SymbolicExpression>,
    ctx: CtxV,
    cc: ContractContextV,
    db: DbV,
) -> Result<TypeV, CheckErrV>
    decreases args, 1int, 0int,
{
    match spec_check_all(args, 0, ctx, cc, db) {
        Err(e) => Err(e),
        Ok(ts) => match spec_parent_list_type(ts) {
            Ok(t) => Ok(t),
            Err(ListConstructionError::BadTypeConstruction) => Err(CheckErrV::ListTypesMustMatch),
            Err(ListConstructionError::ListTooLarge) => Err(CheckErrV::ConstructedListTooLarge),
            Err(ListConstructionError::ListDimensionTooHigh) => Err(
                CheckErrV::ConstructedListTooLarge,
            ),
            Err(ListConstructionError::EmptyConstruction) => Err(
                CheckErrV::UnknownListConstructionFailure,
            ),
        },
    }
}

/// `tuple`: at least one (name, expression) pair; the tuple type of the
/// pairs, whose names must be distinct.
pub open spec fn spec_check_tuple_cons(
    args: Seq<SymbolicExpression>,
    ctx: CtxV,
    cc: ContractContextV,
    db: DbV,
) -> Result<TypeV, CheckErrV>
    decreases args, 1int, 0int,
{
    if args.len() < 1 {
        Err(CheckErrV::RequiresAtLeastArguments(1, args.len() as int))
    } else {
        match spec_check_tuple_pairs(args, 0, ctx, cc, db) {
            Err(e) => Err(e),
            Ok(fields) => if tuple_names_distinct(fields) {
                Ok(TypeV::Tuple(fields))
            } else {
                Err(CheckErrV::BadTupleConstruction)
            },
        }
    }
}

/// Checks the (name, expression) pairs from position `i` on, in order.
pub open spec fn spec_check_tuple_pairs(
    args: Seq<SymbolicExpression>,
    i: int,
    ctx: CtxV,
    cc: ContractContextV,
    db: DbV,
) -> Result<Seq<(Seq<char>, TypeV)>, CheckErrV>
    decreases args, 0int, args.len() - i,
{
    if i < 0 || i >= args.len() {
        Ok(Seq::empty())
    } else {
        match args[i].expr {
            SymbolicExpressionType::List(pair) => if pair@.len() != 2 {
                Err(CheckErrV::TupleExpectsPairs)
            } else {
                match pair@[0].expr {
                    SymbolicExpressionType::Atom(name) => match spec_type_check(
                        pair@[1],
                        ctx,
                        cc,
                        db,
                    ) {
                        Err(e) => Err(e),
                        Ok(t) => match spec_check_tuple_pairs(args, i + 1, ctx, cc, db) {
                            Err(e) => Err(e),
                            Ok(rest) => Ok(seq![(name@, t)] + rest),
                        },
                    },
                    _ => Err(CheckErrV::TupleExpectsPairs),
                }
            },
            _ => Err(CheckErrV::TupleExpectsPairs),
        }
    }
}

/// What `tuple-get` yields for a checked argument type: the field's type
/// out of a tuple, or optionally that type out of an optional tuple.
pub open spec fn spec_tuple_get_result(field: Seq<char>, t: TypeV) -> Result<TypeV, CheckErrV> {
    match t {
        TypeV::Tuple(fs) => match tfield_type(fs, field) {
            Some(ft) => Ok(ft),
            None => Err(CheckErrV::NoSuchTupleField(field, fs)),
        },
        TypeV::Optional(inner) => match *inner {
            TypeV::Tuple(fs) => match tfield_type(fs, field) {
                Some(ft) => Ok(TypeV::Optional(Box::new(ft))),
                None => Err(CheckErrV::NoSuchTupleField(field, fs)),
            },
            _ => Err(CheckErrV::ExpectedTuple(*inner)),
        },
        _ => Err(CheckErrV::ExpectedTuple(t)),
    }
}

/// `tuple-get`: a field-name atom, and an argument whose checked type
/// must be a tuple or an optional tuple.
pub open spec fn spec_check_tuple_get(
    args: Seq<SymbolicExpression>,
    ctx: CtxV,
    cc: ContractContextV,
    db: DbV,
) -> Result<TypeV, CheckErrV>
    decreases args, 1int, 0int,
{
    if args.len() != 2 {
        Err(CheckErrV::IncorrectArgumentCount(2, args.len() as int))
    } else {
        match args[0].expr {
            SymbolicExpressionType::Atom(field_name) => match spec_type_check(
                args[1],
                ctx,
                cc,
                db,
            ) {
                Err(e) => Err(e),
                Ok(t) => spec_tuple_get_result(field_name@, t),
            },
            _ => Err(CheckErrV::BadTupleFieldName),
        }
    }
}

/// `contract-call`: a contract-name atom and a function-name atom; the
/// signature is resolved public-first, then read-only; the remaining
/// arguments are validated against it.
pub open spec fn spec_check_contract_call(
    args: Seq<SymbolicExpression>,
    ctx: CtxV,
    cc: ContractContextV,
    db: DbV,
) -> Result<TypeV, CheckErrV>
    decreases args, 1int, 0int,
{
    if args.len() < 2 {
        Err(CheckErrV::RequiresAtLeastArguments(2, args.len() as int))
    } else {
        match args[0].expr {
            SymbolicExpressionType::Atom(contract_name) => match args[1].expr {
                SymbolicExpressionType::Atom(function_name) => match db_contract(
                    db,
                    contract_name@,
                ) {
                    None => Err(CheckErrV::NoSuchContract(contract_name@)),
                    Some(c) => {
                        let resolved = match fsig_lookup(c.public_functions, function_name@) {
                            Some(ft) => Some(ft),
                            None => fsig_lookup(c.read_only_functions, function_name@),
                        };
                        match resolved {
                            None => Err(
                                CheckErrV::NoSuchPublicFunction(contract_name@, function_name@),
                            ),
                            Some(ft) => match spec_check_all(args, 2, ctx, cc, db) {
                                Err(e) => Err(e),
                                Ok(ts) => spec_check_args(ft, ts),
                            },
                        }
                    },
                },
                _ => Err(CheckErrV::ContractCallExpectName),
            },
            _ => Err(CheckErrV::ContractCallExpectName),
        }
    }
}

/// `get-block-info`: a property-name atom from the closed property set,
/// and an integer block height; the property's fixed type is the result.
pub open spec fn spec_check_get_block_info(
    args: Seq<SymbolicExpression>,
    ctx: CtxV,
    cc: ContractContextV,
    db: DbV,
) -> Result<TypeV, CheckErrV>
    decreases args, 1int, 0int,
{
    if args.len() < 2 {
        Err(CheckErrV::RequiresAtLeastArguments(2, args.len() as int))
    } else {
        match args[0].expr {
            SymbolicExpressionType::Atom(prop_name) => match spec_block_info_lookup(prop_name@) {
                None => Err(CheckErrV::NoSuchBlockInfoProperty(prop_name@)),
                Some(prop) => match spec_check_expects(args[1], ctx, cc, db, TypeV::Int) {
                    Err(e) => Err(e),
                    Ok(_) => Ok(spec_block_info_type(prop)),
                },
            },
            _ => Err(CheckErrV::GetBlockInfoExpectPropertyName),
        }
    }
}

} // verus!

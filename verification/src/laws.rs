//! The laws the checker obeys, stated over the checking model and proved
//! once and for all: branch unification, rejection of shadowing bindings,
//! binding expressions seeing only the outer scope, tuple access, storage
//! writes by admission, equality arity, cross-contract resolution, and
//! determinism.

use vstd::prelude::*;
use crate::representation::{SymbolicExpression, SymbolicExpressionType};
use crate::types::{
    TypeV, admits, spec_most_admissive, tfield_type, tfield_index, lemma_tfield_index_from,
    tuple_names_distinct, tuple_fields_admitted, tuple_field_admitted,
};
use crate::errors::CheckErrV;
use crate::contexts::{CtxV, DbV, ContractContextV, name_defined, db_contract, fsig_lookup};
use crate::signatures::FunctionTypeV;
use crate::semantics::{
    spec_type_check, spec_check_all, spec_check_expects, spec_check_if, spec_check_equals,
    spec_check_set_var, spec_check_contract_call, spec_check_let_bindings, spec_tuple_get_result,
    spec_equals_fold, lemma_spec_check_all_len,
};

verus! {

/// A well-formed type: every tuple type in it has pairwise distinct field
/// names.  The checker only ever constructs and stores such types.
pub open spec fn wf_type(t: TypeV) -> bool
    decreases t, 1int, 0int,
{
    match t {
        TypeV::Optional(inner) => wf_type(*inner),
        TypeV::Response(ok, err) => wf_type(*ok) && wf_type(*err),
        TypeV::List(e, _) => wf_type(*e),
        TypeV::Tuple(fs) => tuple_names_distinct(fs) && wf_fields(fs, 0),
        _ => true,
    }
}

/// Every field from position `i` on carries a well-formed type.
pub open spec fn wf_fields(fs: Seq<(Seq<char>, TypeV)>, i: int) -> bool
    decreases fs, 0int, fs.len() - i,
{
    if i < 0 || i >= fs.len() {
        true
    } else {
        wf_type(fs[i].1) && wf_fields(fs, i + 1)
    }
}

proof fn lemma_wf_fields_at(fs: Seq<(Seq<char>, TypeV)>, i: int, j: int)
    requires
        0 <= i <= j < fs.len(),
        wf_fields(fs, i),
    ensures
        wf_type(fs[j].1),
    decreases j - i,
{
    if i < j {
        lemma_wf_fields_at(fs, i + 1, j);
    }
}

/// Subtyping is reflexive on well-formed types: every type admits itself.
pub proof fn lemma_admits_reflexive(t: TypeV)
    requires
        wf_type(t),
    ensures
        admits(t, t),
    decreases t, 2int, 0int,
{
    match t {
        TypeV::Optional(inner) => lemma_admits_reflexive(*inner),
        TypeV::Response(ok, err) => {
            lemma_admits_reflexive(*ok);
            lemma_admits_reflexive(*err);
        },
        TypeV::List(e, _) => lemma_admits_reflexive(*e),
        TypeV::Tuple(fs) => lemma_tuple_fields_admitted_reflexive(fs, 0),
        _ => {},
    }
}

proof fn lemma_tuple_fields_admitted_reflexive(fs: Seq<(Seq<char>, TypeV)>, i: int)
    requires
        tuple_names_distinct(fs),
        wf_fields(fs, 0),
        0 <= i <= fs.len(),
    ensures
        tuple_fields_admitted(fs, fs, i),
    decreases fs, 1int, fs.len() - i,
{
    if i < fs.len() {
        lemma_tfield_index_from(fs, fs[i].0, 0);
        let r = tfield_index(fs, fs[i].0);
        assert(r != -1);
        assert(r == i);
        lemma_wf_fields_at(fs, 0, i);
        lemma_admits_reflexive(fs[i].1);
        assert(tuple_field_admitted(fs, fs[i]));
        lemma_tuple_fields_admitted_reflexive(fs, i + 1);
    }
}

/// A successful join of two well-formed types is one of them and admits
/// both; it fails exactly when neither admits the other.
pub proof fn lemma_most_admissive_sound(a: TypeV, b: TypeV)
    requires
        wf_type(a),
        wf_type(b),
    ensures
        spec_most_admissive(a, b) is Ok ==> ({
            let r = spec_most_admissive(a, b)->Ok_0;
            &&& r == a || r == b
            &&& admits(r, a)
            &&& admits(r, b)
        }),
        spec_most_admissive(a, b) is Err <==> !admits(a, b) && !admits(b, a),
{
    lemma_admits_reflexive(a);
    lemma_admits_reflexive(b);
}

/// For every well-typed `if`, the checked result type equals the most
/// admissive of the two branch types; two branches with no common
/// admissive type fail with the branch-mismatch error naming both.
pub proof fn lemma_if_branches_unify(
    args: Seq<SymbolicExpression>,
    ctx: CtxV,
    cc: ContractContextV,
    db: DbV,
)
    requires
        args.len() == 3,
        spec_check_expects(args[0], ctx, cc, db, TypeV::Bool) is Ok,
        spec_check_all(args, 1, ctx, cc, db) is Ok,
    ensures
        ({
            let ts = spec_check_all(args, 1, ctx, cc, db)->Ok_0;
            &&& spec_most_admissive(ts[0], ts[1]) is Ok ==> spec_check_if(args, ctx, cc, db)
                == Ok::<TypeV, CheckErrV>(spec_most_admissive(ts[0], ts[1])->Ok_0)
            &&& !admits(ts[0], ts[1]) && !admits(ts[1], ts[0]) ==> spec_check_if(
                args,
                ctx,
                cc,
                db,
            ) == Err::<TypeV, CheckErrV>(CheckErrV::IfArmsMustMatch(ts[0], ts[1]))
        }),
{
}

/// The name of an atom node; the empty name for any other node.
pub open spec fn atom_name(e: SymbolicExpression) -> Seq<char> {
    match e.expr {
        SymbolicExpressionType::Atom(n) => n@,
        _ => Seq::empty(),
    }
}

/// The expression of a well-shaped binding pair; the binding itself
/// otherwise.
pub open spec fn let_binding_expr(b: SymbolicExpression) -> SymbolicExpression {
    match b.expr {
        SymbolicExpressionType::List(pair) => if pair@.len() == 2 {
            pair@[1]
        } else {
            b
        },
        _ => b,
    }
}

/// `let` rejects any binding whose name duplicates an earlier binding of
/// the same form or a contract-level name, whether or not the body ever
/// references it: when the bindings are accepted, the resulting frame's
/// names are pairwise distinct and none is contract-level.
pub proof fn lemma_let_rejects_collisions(
    bindings: Seq<SymbolicExpression>,
    i: int,
    outer: CtxV,
    frame: Seq<(Seq<char>, TypeV)>,
    cc: ContractContextV,
    db: DbV,
)
    requires
        0 <= i <= bindings.len(),
        spec_check_let_bindings(bindings, i, outer, frame, cc, db) is Ok,
        tuple_names_distinct(frame),
        forall|k: int| 0 <= k < frame.len() ==> !name_defined(cc.names, #[trigger] frame[k].0),
    ensures
        ({
            let out = spec_check_let_bindings(bindings, i, outer, frame, cc, db)->Ok_0;
            &&& tuple_names_distinct(out)
            &&& forall|k: int| 0 <= k < out.len() ==> !name_defined(cc.names, #[trigger] out[k].0)
        }),
    decreases bindings.len() - i,
{
    if i < bindings.len() {
        match bindings[i].expr {
            SymbolicExpressionType::List(pair) => {
                match pair@[0].expr {
                    SymbolicExpressionType::Atom(name) => {
                        let t = spec_type_check(pair@[1], outer, cc, db)->Ok_0;
                        let frame2 = frame.push((name@, t));
                        lemma_tfield_index_from(frame, name@, 0);
                        assert forall|a: int, b: int| 0 <= a < b < frame2.len() implies frame2[a].0
                            != frame2[b].0 by {
                            if b < frame.len() {
                                assert(frame[a].0 != frame[b].0);
                            } else {
                                assert(frame2[a].0 == frame[a].0);
                                assert(frame[a].0 != name@);
                            }
                        }
                        lemma_let_rejects_collisions(bindings, i + 1, outer, frame2, cc, db);
                    },
                    _ => {},
                }
            },
            _ => {},
        }
    }
}

/// `let` bindings never see each other: every accepted binding expression
/// also checks in the outer scope alone — the scope that existed before
/// the `let` — so a reference to a sibling binding's name can only
/// resolve outside the form, never to the sibling.
pub proof fn lemma_let_bindings_use_outer_scope(
    bindings: Seq<SymbolicExpression>,
    i: int,
    outer: CtxV,
    frame: Seq<(Seq<char>, TypeV)>,
    cc: ContractContextV,
    db: DbV,
)
    requires
        0 <= i <= bindings.len(),
        spec_check_let_bindings(bindings, i, outer, frame, cc, db) is Ok,
    ensures
        forall|j: int|
            i <= j < bindings.len() ==> spec_type_check(
                #[trigger] let_binding_expr(bindings[j]),
                outer,
                cc,
                db,
            ) is Ok,
    decreases bindings.len() - i,
{
    if i < bindings.len() {
        match bindings[i].expr {
            SymbolicExpressionType::List(pair) => {
                match pair@[0].expr {
                    SymbolicExpressionType::Atom(name) => {
                        let t = spec_type_check(pair@[1], outer, cc, db)->Ok_0;
                        let frame2 = frame.push((name@, t));
                        lemma_let_bindings_use_outer_scope(bindings, i + 1, outer, frame2, cc, db);
                        assert(let_binding_expr(bindings[i]) == pair@[1]);
                    },
                    _ => {},
                }
            },
            _ => {},
        }
    }
}

/// `tuple-get` on a tuple type missing the requested field fails with the
/// field-not-found error naming the field and the full tuple signature;
/// on an optional tuple with the field present, the result is the
/// optional of the field's type.
pub proof fn lemma_tuple_get_cases(field: Seq<char>, fs: Seq<(Seq<char>, TypeV)>)
    ensures
        tfield_type(fs, field) is None ==> spec_tuple_get_result(field, TypeV::Tuple(fs)) == Err::<
            TypeV,
            CheckErrV,
        >(CheckErrV::NoSuchTupleField(field, fs)),
        tfield_type(fs, field) is Some ==> spec_tuple_get_result(field, TypeV::Tuple(fs)) == Ok::<
            TypeV,
            CheckErrV,
        >(tfield_type(fs, field).unwrap()),
        tfield_type(fs, field) is Some ==> spec_tuple_get_result(
            field,
            TypeV::Optional(Box::new(TypeV::Tuple(fs))),
        ) == Ok::<TypeV, CheckErrV>(TypeV::Optional(Box::new(tfield_type(fs, field).unwrap()))),
        tfield_type(fs, field) is None ==> spec_tuple_get_result(
            field,
            TypeV::Optional(Box::new(TypeV::Tuple(fs))),
        ) == Err::<TypeV, CheckErrV>(CheckErrV::NoSuchTupleField(field, fs)),
{
}

/// `set-var` accepts a value whose type is admitted by — not necessarily
/// identical to — the declared type, and always yields the boolean
/// acknowledgement type on success; a value the declaration does not
/// admit fails with the mismatch carrying both types.
pub proof fn lemma_set_var_admission(
    args: Seq<SymbolicExpression>,
    ctx: CtxV,
    cc: ContractContextV,
    db: DbV,
)
    requires
        args.len() >= 2,
        args[0].expr is Atom,
        spec_type_check(args[1], ctx, cc, db) is Ok,
        tfield_type(cc.variables, atom_name(args[0])) is Some,
    ensures
        ({
            let declared = tfield_type(cc.variables, atom_name(args[0])).unwrap();
            let value_type = spec_type_check(args[1], ctx, cc, db)->Ok_0;
            &&& admits(declared, value_type) ==> spec_check_set_var(args, ctx, cc, db) == Ok::<
                TypeV,
                CheckErrV,
            >(TypeV::Bool)
            &&& !admits(declared, value_type) ==> spec_check_set_var(args, ctx, cc, db) == Err::<
                TypeV,
                CheckErrV,
            >(CheckErrV::TypeError(declared, value_type))
        }),
{
}

/// `equals` with no arguments fails with the arity error.
pub proof fn lemma_equals_zero_arguments(ctx: CtxV, cc: ContractContextV, db: DbV)
    ensures
        spec_check_equals(Seq::empty(), ctx, cc, db) == Err::<TypeV, CheckErrV>(
            CheckErrV::RequiresAtLeastArguments(1, 0),
        ),
{
}

/// `equals` with one argument of a well-formed type succeeds and yields
/// the boolean type.
pub proof fn lemma_equals_single_argument(
    args: Seq<SymbolicExpression>,
    ctx: CtxV,
    cc: ContractContextV,
    db: DbV,
)
    requires
        args.len() == 1,
        spec_type_check(args[0], ctx, cc, db) is Ok,
        wf_type(spec_type_check(args[0], ctx, cc, db)->Ok_0),
    ensures
        spec_check_equals(args, ctx, cc, db) == Ok::<TypeV, CheckErrV>(TypeV::Bool),
{
    let t = spec_type_check(args[0], ctx, cc, db)->Ok_0;
    assert(spec_check_all(args, 1, ctx, cc, db) == Ok::<Seq<TypeV>, CheckErrV>(
        Seq::<TypeV>::empty(),
    ));
    let ts = spec_check_all(args, 0, ctx, cc, db)->Ok_0;
    assert(ts =~= seq![t]);
    lemma_admits_reflexive(t);
    assert(spec_most_admissive(ts[0], t) == Ok::<TypeV, (TypeV, TypeV)>(t));
    assert(spec_equals_fold(ts, t, 1) == Ok::<TypeV, (TypeV, TypeV)>(t));
    assert(spec_equals_fold(ts, ts[0], 0) == Ok::<TypeV, (TypeV, TypeV)>(t));
}

/// `equals` with arguments whose types do not all unify fails naming the
/// first incompatible pair found left to right by the running join.
pub proof fn lemma_equals_mismatch(
    args: Seq<SymbolicExpression>,
    ctx: CtxV,
    cc: ContractContextV,
    db: DbV,
)
    requires
        args.len() >= 1,
        spec_check_all(args, 0, ctx, cc, db) is Ok,
        ({
            let ts = spec_check_all(args, 0, ctx, cc, db)->Ok_0;
            spec_equals_fold(ts, ts[0], 0) is Err
        }),
    ensures
        ({
            let ts = spec_check_all(args, 0, ctx, cc, db)->Ok_0;
            let pair = spec_equals_fold(ts, ts[0], 0)->Err_0;
            spec_check_equals(args, ctx, cc, db) == Err::<TypeV, CheckErrV>(
                CheckErrV::TypeError(pair.0, pair.1),
            )
        }),
{
}

/// `contract-call` to a function that the known target contract declares
/// neither publicly nor read-only fails naming both the contract and the
/// function.
pub proof fn lemma_contract_call_missing_function(
    args: Seq<SymbolicExpression>,
    ctx: CtxV,
    cc: ContractContextV,
    db: DbV,
)
    requires
        args.len() >= 2,
        args[0].expr is Atom,
        args[1].expr is Atom,
        db_contract(db, atom_name(args[0])) is Some,
        fsig_lookup(
            db_contract(db, atom_name(args[0])).unwrap().public_functions,
            atom_name(args[1]),
        ) is None,
        fsig_lookup(
            db_contract(db, atom_name(args[0])).unwrap().read_only_functions,
            atom_name(args[1]),
        ) is None,
    ensures
        spec_check_contract_call(args, ctx, cc, db) == Err::<TypeV, CheckErrV>(
            CheckErrV::NoSuchPublicFunction(atom_name(args[0]), atom_name(args[1])),
        ),
{
}

/// `contract-call` to a known public function with the wrong argument
/// count fails with the arity error from the callee's own signature.
pub proof fn lemma_contract_call_wrong_arity(
    args: Seq<SymbolicExpression>,
    ctx: CtxV,
    cc: ContractContextV,
    db: DbV,
    fargs: Seq<(TypeV, Seq<char>)>,
    ret: TypeV,
)
    requires
        args.len() >= 2,
        args[0].expr is Atom,
        args[1].expr is Atom,
        db_contract(db, atom_name(args[0])) is Some,
        fsig_lookup(
            db_contract(db, atom_name(args[0])).unwrap().public_functions,
            atom_name(args[1]),
        ) == Some(FunctionTypeV::Fixed(fargs, ret)),
        spec_check_all(args, 2, ctx, cc, db) is Ok,
        args.len() - 2 != fargs.len(),
    ensures
        spec_check_contract_call(args, ctx, cc, db) == Err::<TypeV, CheckErrV>(
            CheckErrV::IncorrectArgumentCount(fargs.len() as int, args.len() - 2),
        ),
{
    lemma_spec_check_all_len(args, 2, ctx, cc, db);
}

/// Checking is deterministic: the outcome is a function of the tree, the
/// scope and the schema stores alone — the model never consults the type
/// map — so re-checking the identical input yields the identical result.
pub proof fn lemma_recheck_deterministic(
    e: SymbolicExpression,
    ctx: CtxV,
    cc: ContractContextV,
    db: DbV,
    first: Result<TypeV, CheckErrV>,
    second: Result<TypeV, CheckErrV>,
)
    requires
        first == spec_type_check(e, ctx, cc, db),
        second == spec_type_check(e, ctx, cc, db),
    ensures
        first == second,
{
}

} // verus!

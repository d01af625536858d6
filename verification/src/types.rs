//! The value-type lattice: type signatures, the `admits` subtyping test,
//! the `most_admissive` join used to unify branches, and construction of
//! list types from element types.
//!
//! Tuple types hold an ordered list of uniquely named fields; two tuple
//! types are compared field-set-wise, regardless of declaration order.

use vstd::prelude::*;

verus! {

/// Upper bound on the serialized size of any constructed value type.
pub const MAX_VALUE_SIZE: u64 = 1024 * 1024;

/// Upper bound on type nesting depth for constructed list types.
pub const MAX_TYPE_DEPTH: u64 = 32;

/// A recursive value type.
pub enum TypeSignature {
    BoolType,
    IntType,
    PrincipalType,
    /// A byte buffer of at most the given length.
    BufferType(u32),
    OptionalType(Box<TypeSignature>),
    ResponseType(Box<TypeSignature>, Box<TypeSignature>),
    /// Element type and maximum length.
    ListType(Box<TypeSignature>, u32),
    TupleType(TupleTypeSignature),
}

/// An ordered set of uniquely named fields.
pub struct TupleTypeSignature {
    pub fields: Vec<(String, TypeSignature)>,
}

/// The mathematical model of a value type: names as character sequences.
pub enum TypeV {
    Bool,
    Int,
    Principal,
    Buffer(u32),
    Optional(Box<TypeV>),
    Response(Box<TypeV>, Box<TypeV>),
    List(Box<TypeV>, u32),
    Tuple(Seq<(Seq<char>, TypeV)>),
}

/// Model of a type signature.
pub open spec fn ts_view(t: TypeSignature) -> TypeV
    decreases t, 1int, 0int,
{
    match t {
        TypeSignature::BoolType => TypeV::Bool,
        TypeSignature::IntType => TypeV::Int,
        TypeSignature::PrincipalType => TypeV::Principal,
        TypeSignature::BufferType(n) => TypeV::Buffer(n),
        TypeSignature::OptionalType(inner) => TypeV::Optional(Box::new(ts_view(*inner))),
        TypeSignature::ResponseType(ok, err) => TypeV::Response(
            Box::new(ts_view(*ok)),
            Box::new(ts_view(*err)),
        ),
        TypeSignature::ListType(elem, n) => TypeV::List(Box::new(ts_view(*elem)), n),
        TypeSignature::TupleType(tt) => TypeV::Tuple(fields_view(tt.fields@)),
    }
}

/// Model of a tuple's field list.
pub open spec fn fields_view(fs: Seq<(String, TypeSignature)>) -> Seq<(Seq<char>, TypeV)>
    decreases fs, 0int, fs.len() + 1,
{
    fields_view_from(fs, 0)
}

/// Model of the fields of `fs` from position `i` on.
pub open spec fn fields_view_from(fs: Seq<(String, TypeSignature)>, i: int) -> Seq<
    (Seq<char>, TypeV),
>
    decreases fs, 0int, fs.len() - i,
{
    if i < 0 || i >= fs.len() {
        Seq::empty()
    } else {
        seq![(fs[i].0@, ts_view(fs[i].1))] + fields_view_from(fs, i + 1)
    }
}

proof fn lemma_fields_view_from(fs: Seq<(String, TypeSignature)>, i: int)
    requires
        0 <= i <= fs.len(),
    ensures
        fields_view_from(fs, i).len() == fs.len() - i,
        forall|k: int|
            0 <= k < fs.len() - i ==> fields_view_from(fs, i)[k] == (
                fs[i + k].0@,
                ts_view(fs[i + k].1),
            ),
    decreases fs.len() - i,
{
    if i < fs.len() {
        lemma_fields_view_from(fs, i + 1);
    }
}

/// A field list's model lists the models of its fields, in order.
pub broadcast proof fn lemma_fields_view(fs: Seq<(String, TypeSignature)>)
    ensures
        (#[trigger] fields_view(fs)).len() == fs.len(),
        forall|k: int|
            0 <= k < fs.len() ==> fields_view(fs)[k] == (fs[k].0@, ts_view(fs[k].1)),
{
    lemma_fields_view_from(fs, 0);
}

/// Index of the first field named `name` at or after `i`, or -1 if none.
pub open spec fn tfield_index_from(fs: Seq<(Seq<char>, TypeV)>, name: Seq<char>, i: int) -> int
    decreases fs.len() - i,
{
    if i < 0 || i >= fs.len() {
        -1
    } else if fs[i].0 == name {
        i
    } else {
        tfield_index_from(fs, name, i + 1)
    }
}

/// Index of the first field with the given name, or -1 if there is none.
pub open spec fn tfield_index(fs: Seq<(Seq<char>, TypeV)>, name: Seq<char>) -> int {
    tfield_index_from(fs, name, 0)
}

/// The declared type of the named field, if present.
pub open spec fn tfield_type(fs: Seq<(Seq<char>, TypeV)>, name: Seq<char>) -> Option<TypeV> {
    let i = tfield_index(fs, name);
    if i >= 0 {
        Some(fs[i].1)
    } else {
        None
    }
}

/// What `tfield_index_from` returns is the first match at or after `i`.
pub proof fn lemma_tfield_index_from(fs: Seq<(Seq<char>, TypeV)>, name: Seq<char>, i: int)
    requires
        0 <= i <= fs.len(),
    ensures
        ({
            let r = tfield_index_from(fs, name, i);
            &&& r == -1 ==> forall|k: int| i <= k < fs.len() ==> fs[k].0 != name
            &&& r != -1 ==> i <= r < fs.len() && fs[r].0 == name && (forall|k: int|
                i <= k < r ==> fs[k].0 != name)
        }),
    decreases fs.len() - i,
{
    if i < fs.len() && fs[i].0 != name {
        lemma_tfield_index_from(fs, name, i + 1);
    }
}

/// The subtyping test: a value of type `actual` is acceptable wherever
/// `expected` is required.
pub open spec fn admits(expected: TypeV, actual: TypeV) -> bool
    decreases expected, 2int, 0int,
{
    match (expected, actual) {
        (TypeV::Bool, TypeV::Bool) => true,
        (TypeV::Int, TypeV::Int) => true,
        (TypeV::Principal, TypeV::Principal) => true,
        (TypeV::Buffer(n), TypeV::Buffer(m)) => m <= n,
        (TypeV::Optional(e), TypeV::Optional(a)) => admits(*e, *a),
        (TypeV::Response(e1, e2), TypeV::Response(a1, a2)) => admits(*e1, *a1) && admits(
            *e2,
            *a2,
        ),
        (TypeV::List(e, n), TypeV::List(a, m)) => m <= n && admits(*e, *a),
        (TypeV::Tuple(fa), TypeV::Tuple(fb)) => fa.len() == fb.len() && tuple_fields_admitted(
            fa,
            fb,
            0,
        ),
        _ => false,
    }
}

/// Every field of `fb` from position `i` on is named in `fa` with an
/// admitted type.
pub open spec fn tuple_fields_admitted(
    fa: Seq<(Seq<char>, TypeV)>,
    fb: Seq<(Seq<char>, TypeV)>,
    i: int,
) -> bool
    decreases fa, 1int, fb.len() - i,
{
    if i < 0 || i >= fb.len() {
        true
    } else {
        tuple_field_admitted(fa, fb[i]) && tuple_fields_admitted(fa, fb, i + 1)
    }
}

/// The field's name resolves in `fa` and the type declared there admits its
/// type.
pub open spec fn tuple_field_admitted(fa: Seq<(Seq<char>, TypeV)>, f: (Seq<char>, TypeV)) -> bool
    decreases fa, 0int, 0int,
{
    let i = tfield_index(fa, f.0);
    if 0 <= i < fa.len() {
        admits(fa[i].1, f.1)
    } else {
        false
    }
}

/// Model of a sequence of type signatures.
pub open spec fn types_view(ts: Seq<TypeSignature>) -> Seq<TypeV>
    decreases ts, 0int, ts.len() + 1,
{
    types_view_from(ts, 0)
}

/// Model of the types of `ts` from position `i` on.
pub open spec fn types_view_from(ts: Seq<TypeSignature>, i: int) -> Seq<TypeV>
    decreases ts, 0int, ts.len() - i,
{
    if i < 0 || i >= ts.len() {
        Seq::empty()
    } else {
        seq![ts_view(ts[i])] + types_view_from(ts, i + 1)
    }
}

proof fn lemma_types_view_from(ts: Seq<TypeSignature>, i: int)
    requires
        0 <= i <= ts.len(),
    ensures
        types_view_from(ts, i).len() == ts.len() - i,
        forall|k: int|
            0 <= k < ts.len() - i ==> types_view_from(ts, i)[k] == ts_view(ts[i + k]),
    decreases ts.len() - i,
{
    if i < ts.len() {
        lemma_types_view_from(ts, i + 1);
    }
}

/// A type list's model lists the models of its types, in order.
pub broadcast proof fn lemma_types_view(ts: Seq<TypeSignature>)
    ensures
        (#[trigger] types_view(ts)).len() == ts.len(),
        forall|k: int| 0 <= k < ts.len() ==> types_view(ts)[k] == ts_view(ts[k]),
{
    lemma_types_view_from(ts, 0);
}

/// Serialized size of a value of the given type, in bytes.
pub open spec fn type_size(t: TypeV) -> nat
    decreases t, 1int, 0int,
{
    match t {
        TypeV::Bool => 1,
        TypeV::Int => 16,
        TypeV::Principal => 21,
        TypeV::Buffer(n) => 4 + (n as nat),
        TypeV::Optional(inner) => 1 + type_size(*inner),
        TypeV::Response(ok, err) => 1 + type_size(*ok) + type_size(*err),
        TypeV::List(e, n) => 4 + (n as nat) * type_size(*e),
        TypeV::Tuple(fs) => 4 + tuple_size_from(fs, 0),
    }
}

/// Summed size of the tuple fields from position `i` on.
pub open spec fn tuple_size_from(fs: Seq<(Seq<char>, TypeV)>, i: int) -> nat
    decreases fs, 0int, fs.len() - i,
{
    if i < 0 || i >= fs.len() {
        0
    } else {
        1 + type_size(fs[i].1) + tuple_size_from(fs, i + 1)
    }
}

/// Whether the type nests no deeper than `k` levels.
pub open spec fn type_depth_leq(t: TypeV, k: int) -> bool
    decreases t, 1int, 0int,
{
    match t {
        TypeV::Bool => k >= 1,
        TypeV::Int => k >= 1,
        TypeV::Principal => k >= 1,
        TypeV::Buffer(_) => k >= 1,
        TypeV::Optional(inner) => k >= 1 && type_depth_leq(*inner, k - 1),
        TypeV::Response(ok, err) => k >= 1 && type_depth_leq(*ok, k - 1) && type_depth_leq(
            *err,
            k - 1,
        ),
        TypeV::List(e, _) => k >= 1 && type_depth_leq(*e, k - 1),
        TypeV::Tuple(fs) => k >= 1 && tuple_depth_leq(fs, k - 1, 0),
    }
}

/// Whether every tuple field from position `i` on is within depth `k`.
pub open spec fn tuple_depth_leq(fs: Seq<(Seq<char>, TypeV)>, k: int, i: int) -> bool
    decreases fs, 0int, fs.len() - i,
{
    if i < 0 || i >= fs.len() {
        true
    } else {
        type_depth_leq(fs[i].1, k) && tuple_depth_leq(fs, k, i + 1)
    }
}

/// Why a list type could not be constructed.
pub enum ListConstructionError {
    /// The element types have no common admissive type.
    BadTypeConstruction,
    /// The constructed list type exceeds the maximum serialized size.
    ListTooLarge,
    /// The constructed list type nests deeper than the maximum depth.
    ListDimensionTooHigh,
    /// There were no elements to derive an element type from.
    EmptyConstruction,
}

/// Left fold of `most_admissive` over `ts` from position `i`, starting
/// from `acc`.
pub open spec fn join_types_from(ts: Seq<TypeV>, i: int, acc: TypeV) -> Result<
    TypeV,
    (TypeV, TypeV),
>
    decreases ts.len() - i,
{
    if i < 0 || i >= ts.len() {
        Ok(acc)
    } else {
        match spec_most_admissive(acc, ts[i]) {
            Ok(j) => join_types_from(ts, i + 1, j),
            Err(e) => Err(e),
        }
    }
}

/// The minimal list type holding the given element types: element type is
/// the join of all of them, length is their count; fails when they do not
/// unify or the constructed type is too large or too deep.
pub open spec fn spec_parent_list_type(ts: Seq<TypeV>) -> Result<TypeV, ListConstructionError> {
    if ts.len() == 0 {
        Err(ListConstructionError::EmptyConstruction)
    } else {
        match join_types_from(ts, 1, ts[0]) {
            Err(_) => Err(ListConstructionError::BadTypeConstruction),
            Ok(elem) => {
                if ts.len() > u32::MAX {
                    Err(ListConstructionError::ListTooLarge)
                } else {
                    let lt = TypeV::List(Box::new(elem), ts.len() as u32);
                    if !type_depth_leq(lt, MAX_TYPE_DEPTH as int) {
                        Err(ListConstructionError::ListDimensionTooHigh)
                    } else if type_size(lt) > MAX_VALUE_SIZE {
                        Err(ListConstructionError::ListTooLarge)
                    } else {
                        Ok(lt)
                    }
                }
            },
        }
    }
}

/// The most admissive of two types: the one that admits the other, or
/// failure carrying both when neither does.
pub open spec fn spec_most_admissive(a: TypeV, b: TypeV) -> Result<TypeV, (TypeV, TypeV)> {
    if admits(a, b) {
        Ok(a)
    } else if admits(b, a) {
        Ok(b)
    } else {
        Err((a, b))
    }
}

impl TypeSignature {
    /// Whether this type admits `other`.
    #[verifier::loop_isolation(false)]
    pub fn admits_type(&self, other: &TypeSignature) -> (r: bool)
        ensures
            r == admits(ts_view(*self), ts_view(*other)),
        decreases *self, 2int, 0int,
    {
        broadcast use lemma_fields_view;

        match (self, other) {
            (TypeSignature::BoolType, TypeSignature::BoolType) => true,
            (TypeSignature::IntType, TypeSignature::IntType) => true,
            (TypeSignature::PrincipalType, TypeSignature::PrincipalType) => true,
            (TypeSignature::BufferType(n), TypeSignature::BufferType(m)) => m <= n,
            (TypeSignature::OptionalType(e), TypeSignature::OptionalType(a)) => e.admits_type(a),
            (TypeSignature::ResponseType(e1, e2), TypeSignature::ResponseType(a1, a2)) => {
                let ok_fits = e1.admits_type(a1);
                ok_fits && e2.admits_type(a2)
            },
            (TypeSignature::ListType(e, n), TypeSignature::ListType(a, m)) => {
                let len_fits = *m <= *n;
                len_fits && e.admits_type(a)
            },
            (TypeSignature::TupleType(ta), TypeSignature::TupleType(tb)) => {
                let ghost fav = fields_view(ta.fields@);
                let ghost fbv = fields_view(tb.fields@);
                if ta.fields.len() != tb.fields.len() {
                    return false;
                }
                let mut i: usize = 0;
                let mut all_admitted = true;
                while i < tb.fields.len() && all_admitted
                    invariant
                        0 <= i <= tb.fields.len(),
                        all_admitted ==> tuple_fields_admitted(fav, fbv, 0)
                            == tuple_fields_admitted(fav, fbv, i as int),
                        !all_admitted ==> !tuple_fields_admitted(fav, fbv, 0),
                    decreases tb.fields.len() - i, (if all_admitted { 1int } else { 0int }),
                {
                    let mut j: usize = 0;
                    let mut found = false;
                    while j < ta.fields.len() && !found
                        invariant
                            0 <= j <= ta.fields.len(),
                            i < tb.fields.len(),
                            !found ==> forall|l: int| 0 <= l < j ==> fav[l].0 != fbv[i as int].0,
                            found ==> j < ta.fields.len() && tfield_index(fav, fbv[i as int].0)
                                == j as int && fav[j as int].0 == fbv[i as int].0,
                        decreases ta.fields.len() - j, (if found { 0int } else { 1int }),
                    {
                        if ta.fields[j].0.eq(&tb.fields[i].0) {
                            proof {
                                assert(fav[j as int].0 == fbv[i as int].0);
                                lemma_tfield_index_from(fav, fbv[i as int].0, 0);
                                assert(tfield_index(fav, fbv[i as int].0) == j as int);
                            }
                            found = true;
                        } else {
                            j += 1;
                        }
                    }
                    if !found {
                        proof {
                            lemma_tfield_index_from(fav, fbv[i as int].0, 0);
                            assert(!tuple_field_admitted(fav, fbv[i as int]));
                        }
                        all_admitted = false;
                    } else {
                        if !ta.fields[j].1.admits_type(&tb.fields[i].1) {
                            proof {
                                assert(!tuple_field_admitted(fav, fbv[i as int]));
                            }
                            all_admitted = false;
                        } else {
                            proof {
                                assert(tuple_field_admitted(fav, fbv[i as int]));
                            }
                            i += 1;
                        }
                    }
                }
                all_admitted
            },
            _ => {
                assert(!admits(ts_view(*self), ts_view(*other)));
                false
            },
        }
    }

    /// The most admissive of two types, or both when neither admits the
    /// other.
    pub fn most_admissive(a: TypeSignature, b: TypeSignature) -> (r: Result<
        TypeSignature,
        (TypeSignature, TypeSignature),
    >)
        ensures
            match r {
                Ok(t) => spec_most_admissive(ts_view(a), ts_view(b)) == Ok::<TypeV, (TypeV, TypeV)>(
                    ts_view(t),
                ),
                Err((x, y)) => spec_most_admissive(ts_view(a), ts_view(b)) == Err::<
                    TypeV,
                    (TypeV, TypeV),
                >((ts_view(x), ts_view(y))),
            },
    {
        if a.admits_type(&b) {
            Ok(a)
        } else if b.admits_type(&a) {
            Ok(b)
        } else {
            Err((a, b))
        }
    }

    /// Serialized size of a value of this type, or nothing when the size
    /// does not fit in a machine word.
    pub fn type_size_checked(&self) -> (r: Option<u64>)
        ensures
            match r {
                Some(s) => s as nat == type_size(ts_view(*self)),
                None => type_size(ts_view(*self)) > u64::MAX,
            },
        decreases *self, 1int, 0int,
    {
        match self {
            TypeSignature::BoolType => Some(1),
            TypeSignature::IntType => Some(16),
            TypeSignature::PrincipalType => Some(21),
            TypeSignature::BufferType(n) => Some(4 + (*n as u64)),
            TypeSignature::OptionalType(inner) => match inner.type_size_checked() {
                Some(s) => s.checked_add(1),
                None => None,
            },
            TypeSignature::ResponseType(ok, err) => match (
                ok.type_size_checked(),
                err.type_size_checked(),
            ) {
                (Some(a), Some(b)) => match a.checked_add(b) {
                    Some(s) => s.checked_add(1),
                    None => None,
                },
                _ => None,
            },
            TypeSignature::ListType(e, n) => {
                if *n == 0 {
                    return Some(4);
                }
                match e.type_size_checked() {
                    None => {
                        proof {
                            let ev = type_size(ts_view(**e));
                            assert((*n as nat) * ev >= ev) by (nonlinear_arith)
                                requires *n >= 1, ev >= 0;
                        }
                        None
                    },
                    Some(es) => match (*n as u64).checked_mul(es) {
                        None => {
                            proof {
                                assert((*n as nat) * (es as nat) == ((*n as u64) as nat) * (
                                es as nat));
                            }
                            None
                        },
                        Some(p) => p.checked_add(4),
                    },
                }
            },
            TypeSignature::TupleType(tt) => match tuple_size_checked(&tt.fields, 0) {
                Some(s) => s.checked_add(4),
                None => None,
            },
        }
    }

    /// Whether this type nests no deeper than `k` levels.
    pub fn depth_at_most(&self, k: u64) -> (r: bool)
        ensures
            r == type_depth_leq(ts_view(*self), k as int),
        decreases *self, 1int, 0int,
    {
        match self {
            TypeSignature::BoolType => k >= 1,
            TypeSignature::IntType => k >= 1,
            TypeSignature::PrincipalType => k >= 1,
            TypeSignature::BufferType(_) => k >= 1,
            TypeSignature::OptionalType(inner) => k >= 1 && inner.depth_at_most(k - 1),
            TypeSignature::ResponseType(ok, err) => {
                let head_ok = k >= 1 && ok.depth_at_most(k - 1);
                head_ok && err.depth_at_most(k - 1)
            },
            TypeSignature::ListType(e, _) => k >= 1 && e.depth_at_most(k - 1),
            TypeSignature::TupleType(tt) => k >= 1 && tuple_depth_at_most(&tt.fields, k - 1, 0),
        }
    }

    /// The minimal list type holding the given element types; see
    /// `spec_parent_list_type`.
    #[verifier::loop_isolation(false)]
    pub fn parent_list_type(args: &Vec<TypeSignature>) -> (r: Result<
        TypeSignature,
        ListConstructionError,
    >)
        ensures
            match r {
                Ok(t) => spec_parent_list_type(types_view(args@)) == Ok::<
                    TypeV,
                    ListConstructionError,
                >(ts_view(t)),
                Err(e) => spec_parent_list_type(types_view(args@)) == Err::<
                    TypeV,
                    ListConstructionError,
                >(e),
            },
    {
        broadcast use lemma_types_view;

        let ghost tsv = types_view(args@);
        if args.len() == 0 {
            return Err(ListConstructionError::EmptyConstruction);
        }
        let mut acc = args[0].clone();
        let mut i: usize = 1;
        while i < args.len()
            invariant
                1 <= i <= args.len(),
                join_types_from(tsv, i as int, ts_view(acc)) == join_types_from(tsv, 1, tsv[0]),
            decreases args.len() - i,
        {
            match TypeSignature::most_admissive(acc, args[i].clone()) {
                Ok(t) => {
                    acc = t;
                    i += 1;
                },
                Err(_) => {
                    return Err(ListConstructionError::BadTypeConstruction);
                },
            }
        }
        assert(join_types_from(tsv, 1, tsv[0]) == Ok::<TypeV, (TypeV, TypeV)>(ts_view(acc)));
        if args.len() > u32::MAX as usize {
            return Err(ListConstructionError::ListTooLarge);
        }
        let n: u32 = args.len() as u32;
        let ghost ltv = TypeV::List(Box::new(ts_view(acc)), tsv.len() as u32);
        if !acc.depth_at_most(MAX_TYPE_DEPTH - 1) {
            return Err(ListConstructionError::ListDimensionTooHigh);
        }
        match acc.type_size_checked() {
            None => {
                proof {
                    let ev = type_size(ts_view(acc));
                    assert((n as nat) * ev >= ev) by (nonlinear_arith)
                        requires n >= 1, ev >= 0;
                }
                Err(ListConstructionError::ListTooLarge)
            },
            Some(es) => {
                match (n as u64).checked_mul(es) {
                    None => Err(ListConstructionError::ListTooLarge),
                    Some(p) => {
                        match p.checked_add(4) {
                            None => Err(ListConstructionError::ListTooLarge),
                            Some(total) => {
                                if total > MAX_VALUE_SIZE {
                                    Err(ListConstructionError::ListTooLarge)
                                } else {
                                    Ok(TypeSignature::ListType(Box::new(acc), n))
                                }
                            },
                        }
                    },
                }
            },
        }
    }
}

/// Summed serialized size of the tuple fields from position `i` on, or
/// nothing when it does not fit in a machine word.
pub fn tuple_size_checked(fs: &Vec<(String, TypeSignature)>, i: usize) -> (r: Option<u64>)
    ensures
        match r {
            Some(s) => s as nat == tuple_size_from(fields_view(fs@), i as int),
            None => tuple_size_from(fields_view(fs@), i as int) > u64::MAX,
        },
    decreases fs@, 0int, fs@.len() - i,
{
    proof {
        lemma_fields_view(fs@);
    }
    if i >= fs.len() {
        Some(0)
    } else {
        match fs[i].1.type_size_checked() {
            None => None,
            Some(s) => match tuple_size_checked(fs, i + 1) {
                None => None,
                Some(rest) => match s.checked_add(rest) {
                    None => None,
                    Some(sum) => sum.checked_add(1),
                },
            },
        }
    }
}

/// Whether every tuple field from position `i` on nests within depth `k`.
pub fn tuple_depth_at_most(fs: &Vec<(String, TypeSignature)>, k: u64, i: usize) -> (r: bool)
    ensures
        r == tuple_depth_leq(fields_view(fs@), k as int, i as int),
    decreases fs@, 0int, fs@.len() - i,
{
    proof {
        lemma_fields_view(fs@);
    }
    if i >= fs.len() {
        true
    } else {
        let head_ok = fs[i].1.depth_at_most(k);
        head_ok && tuple_depth_at_most(fs, k, i + 1)
    }
}

/// No two fields share a name.
pub open spec fn tuple_names_distinct(fs: Seq<(Seq<char>, TypeV)>) -> bool {
    forall|i: int, j: int| 0 <= i < j < fs.len() ==> fs[i].0 != fs[j].0
}

impl TupleTypeSignature {
    /// Builds a tuple type from (name, type) pairs; fails when two pairs
    /// share a name.
    #[verifier::loop_isolation(false)]
    pub fn new(fields: Vec<(String, TypeSignature)>) -> (r: Result<TupleTypeSignature, ()>)
        ensures
            match r {
                Ok(tt) => tt.fields@ == fields@ && tuple_names_distinct(fields_view(fields@)),
                Err(_) => !tuple_names_distinct(fields_view(fields@)),
            },
    {
        broadcast use lemma_fields_view;

        let ghost fsv = fields_view(fields@);
        let mut i: usize = 0;
        while i < fields.len()
            invariant
                0 <= i <= fields.len(),
                forall|a: int, b: int| 0 <= a < b < i ==> fsv[a].0 != fsv[b].0,
            decreases fields.len() - i,
        {
            let mut j: usize = 0;
            while j < i
                invariant
                    0 <= j <= i < fields.len(),
                    forall|a: int| 0 <= a < j ==> fsv[a].0 != fsv[i as int].0,
                decreases i - j,
            {
                if fields[j].0.eq(&fields[i].0) {
                    proof {
                        assert(fsv[j as int].0 == fsv[i as int].0);
                        assert(!tuple_names_distinct(fsv));
                    }
                    return Err(());
                }
                j += 1;
            }
            i += 1;
        }
        Ok(TupleTypeSignature { fields })
    }

    /// The declared type of the named field, if present.
    #[verifier::loop_isolation(false)]
    pub fn field_type(&self, name: &String) -> (r: Option<&TypeSignature>)
        ensures
            match r {
                Some(t) => tfield_type(fields_view(self.fields@), name@) == Some(ts_view(*t)),
                None => tfield_type(fields_view(self.fields@), name@) is None,
            },
    {
        broadcast use lemma_fields_view;

        let ghost fsv = fields_view(self.fields@);
        let mut j: usize = 0;
        while j < self.fields.len()
            invariant
                0 <= j <= self.fields.len(),
                forall|l: int| 0 <= l < j ==> fsv[l].0 != name@,
            decreases self.fields.len() - j,
        {
            if self.fields[j].0.eq(name) {
                proof {
                    assert(self.fields@[j as int].0@ == name@);
                    assert(fsv[j as int].0 == name@);
                    assert(fsv.len() == self.fields@.len());
                    lemma_tfield_index_from(fsv, name@, 0);
                    assert(tfield_index(fsv, name@) == j as int);
                    assert(fsv[j as int].1 == ts_view(self.fields@[j as int].1));
                }
                return Some(&self.fields[j].1);
            }
            j += 1;
        }
        proof {
            lemma_tfield_index_from(fsv, name@, 0);
        }
        None
    }
}

impl Clone for TypeSignature {
    /// A deep copy with the same model.
    #[verifier::loop_isolation(false)]
    fn clone(&self) -> (r: Self)
        ensures
            ts_view(r) == ts_view(*self),
        decreases *self,
    {
        broadcast use lemma_fields_view;

        match self {
            TypeSignature::BoolType => TypeSignature::BoolType,
            TypeSignature::IntType => TypeSignature::IntType,
            TypeSignature::PrincipalType => TypeSignature::PrincipalType,
            TypeSignature::BufferType(n) => TypeSignature::BufferType(*n),
            TypeSignature::OptionalType(inner) => TypeSignature::OptionalType(
                Box::new((**inner).clone()),
            ),
            TypeSignature::ResponseType(ok, err) => TypeSignature::ResponseType(
                Box::new((**ok).clone()),
                Box::new((**err).clone()),
            ),
            TypeSignature::ListType(elem, n) => TypeSignature::ListType(
                Box::new((**elem).clone()),
                *n,
            ),
            TypeSignature::TupleType(tt) => {
                let mut fields: Vec<(String, TypeSignature)> = Vec::new();
                let mut i: usize = 0;
                while i < tt.fields.len()
                    invariant
                        0 <= i <= tt.fields.len(),
                        fields.len() == i,
                        forall|k: int|
                            0 <= k < i ==> (#[trigger] fields@[k]).0@ == tt.fields@[k].0@
                                && ts_view(fields@[k].1) == ts_view(tt.fields@[k].1),
                    decreases tt.fields.len() - i,
                {
                    let name = tt.fields[i].0.clone();
                    let ty = tt.fields[i].1.clone();
                    fields.push((name, ty));
                    proof {
                        assert(fields@[i as int].0@ == tt.fields@[i as int].0@);
                        assert(ts_view(fields@[i as int].1) == ts_view(tt.fields@[i as int].1));
                    }
                    i += 1;
                }
                proof {
                    assert forall|k: int| 0 <= k < tt.fields@.len() implies fields_view(fields@)[k]
                        == fields_view(tt.fields@)[k] by {
                        assert(fields@[k].0@ == tt.fields@[k].0@);
                    }
                    assert(fields_view(fields@) =~= fields_view(tt.fields@));
                }
                TypeSignature::TupleType(TupleTypeSignature { fields })
            },
        }
    }
}


impl Clone for TupleTypeSignature {
    /// A deep copy with the same model.
    #[verifier::loop_isolation(false)]
    fn clone(&self) -> (r: Self)
        ensures
            fields_view(r.fields@) == fields_view(self.fields@),
        decreases *self,
    {
        broadcast use lemma_fields_view;

        let mut fields: Vec<(String, TypeSignature)> = Vec::new();
        let mut i: usize = 0;
        while i < self.fields.len()
            invariant
                0 <= i <= self.fields.len(),
                fields.len() == i,
                forall|k: int|
                    0 <= k < i ==> (#[trigger] fields@[k]).0@ == self.fields@[k].0@ && ts_view(
                        fields@[k].1,
                    ) == ts_view(self.fields@[k].1),
            decreases self.fields.len() - i,
        {
            let name = self.fields[i].0.clone();
            let ty = self.fields[i].1.clone();
            fields.push((name, ty));
            proof {
                assert(fields@[i as int].0@ == self.fields@[i as int].0@);
                assert(ts_view(fields@[i as int].1) == ts_view(self.fields@[i as int].1));
            }
            i += 1;
        }
        proof {
            assert forall|k: int| 0 <= k < self.fields@.len() implies fields_view(fields@)[k]
                == fields_view(self.fields@)[k] by {
                assert(fields@[k].0@ == self.fields@[k].0@);
            }
            assert(fields_view(fields@) =~= fields_view(self.fields@));
        }
        TupleTypeSignature { fields }
    }
}

} // verus!

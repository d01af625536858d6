//! The checker's working state: the append-only type map, the immutable
//! scope chain, the current contract's schema, and the store of other
//! contracts' analyses consulted by cross-contract calls.

use vstd::prelude::*;
use crate::representation::SymbolicExpression;
use crate::types::{TypeSignature, TypeV, ts_view, fields_view, lemma_fields_view, tfield_type, tfield_index, lemma_tfield_index_from};
use crate::errors::{CheckErrors, CheckError, CheckErrV, cerr_view};
use crate::signatures::{FunctionType, FunctionTypeV, ft_view};

verus! {

/// What the type map records for one node: its resolved type, or an
/// explicit marker for syntactic positions that never produce a value.
pub enum TypeAnnotation {
    /// The node is a purely syntactic position (a field name, a binding
    /// name, a property name): deliberately not a value.
    NoValue,
    /// The node's resolved type.
    ValueType(TypeSignature),
}

/// Model of one annotation.
pub enum TypeAnnV {
    NoValue,
    ValueType(TypeV),
}

/// Model of an annotation.
pub open spec fn ann_view(a: TypeAnnotation) -> TypeAnnV {
    match a {
        TypeAnnotation::NoValue => TypeAnnV::NoValue,
        TypeAnnotation::ValueType(t) => TypeAnnV::ValueType(ts_view(t)),
    }
}

/// The "no value" marker.
pub fn no_type() -> (r: TypeAnnotation)
    ensures
        ann_view(r) == TypeAnnV::NoValue,
{
    TypeAnnotation::NoValue
}

/// The append-only side table recording one entry per visited node.
pub struct TypeMap {
    pub entries: Vec<(u64, TypeAnnotation)>,
}

/// Model of the type map: the recorded entries, in recording order.
pub open spec fn tm_view(m: TypeMap) -> Seq<(u64, TypeAnnV)>
    decreases m.entries@.len() + 1,
{
    tm_view_from(m.entries@, 0)
}

/// Model of the entries from position `i` on.
pub open spec fn tm_view_from(es: Seq<(u64, TypeAnnotation)>, i: int) -> Seq<(u64, TypeAnnV)>
    decreases es.len() - i,
{
    if i < 0 || i >= es.len() {
        Seq::empty()
    } else {
        seq![(es[i].0, ann_view(es[i].1))] + tm_view_from(es, i + 1)
    }
}

proof fn lemma_tm_view_from(es: Seq<(u64, TypeAnnotation)>, i: int)
    requires
        0 <= i <= es.len(),
    ensures
        tm_view_from(es, i).len() == es.len() - i,
        forall|k: int|
            0 <= k < es.len() - i ==> tm_view_from(es, i)[k] == (es[i + k].0, ann_view(es[i + k].1)),
    decreases es.len() - i,
{
    if i < es.len() {
        lemma_tm_view_from(es, i + 1);
    }
}

/// The map's model lists its entries, in order.
pub broadcast proof fn lemma_tm_view(m: TypeMap)
    ensures
        (#[trigger] tm_view(m)).len() == m.entries@.len(),
        forall|k: int|
            0 <= k < m.entries@.len() ==> tm_view(m)[k] == (
                m.entries@[k].0,
                ann_view(m.entries@[k].1),
            ),
{
    lemma_tm_view_from(m.entries@, 0);
}

/// Whether the map holds an entry for the given node identity.
pub open spec fn tm_contains(s: Seq<(u64, TypeAnnV)>, id: u64) -> bool {
    exists|i: int| 0 <= i < s.len() && s[i].0 == id
}

/// The first entry recorded for the given node identity, if any.
pub open spec fn tm_lookup(s: Seq<(u64, TypeAnnV)>, id: u64) -> Option<TypeAnnV>
    decreases s.len(),
{
    if s.len() == 0 {
        None
    } else if s[0].0 == id {
        Some(s[0].1)
    } else {
        tm_lookup(s.subrange(1, s.len() as int), id)
    }
}

impl TypeMap {
    /// An empty map.
    pub fn new() -> (r: TypeMap)
        ensures
            tm_view(r) == Seq::<(u64, TypeAnnV)>::empty(),
    {
        let r = TypeMap { entries: Vec::new() };
        proof {
            lemma_tm_view(r);
            assert(tm_view(r) =~= Seq::<(u64, TypeAnnV)>::empty());
        }
        r
    }

    /// Records the node's annotation; a node is never annotated twice, so
    /// an existing entry is reported as a checker defect.
    #[verifier::loop_isolation(false)]
    pub fn set_type(&mut self, expr: &SymbolicExpression, ann: TypeAnnotation) -> (r: Result<
        (),
        CheckError,
    >)
        ensures
            match r {
                Ok(_) => !tm_contains(tm_view(*old(self)), expr.id) && tm_view(*final(self))
                    == tm_view(*old(self)).push((expr.id, ann_view(ann))),
                Err(e) => tm_contains(tm_view(*old(self)), expr.id) && *final(self) == *old(self)
                    && cerr_view(e) == CheckErrV::TypeAlreadyAnnotatedFailure,
            },
    {
        broadcast use lemma_tm_view;

        let mut i: usize = 0;
        while i < self.entries.len()
            invariant
                0 <= i <= self.entries.len(),
                forall|k: int| 0 <= k < i ==> tm_view(*self)[k].0 != expr.id,
            decreases self.entries.len() - i,
        {
            if self.entries[i].0 == expr.id {
                proof {
                    assert(tm_view(*self)[i as int].0 == expr.id);
                }
                return Err(CheckError::new(CheckErrors::TypeAlreadyAnnotatedFailure));
            }
            i += 1;
        }
        assert(!tm_contains(tm_view(*self), expr.id));
        self.entries.push((expr.id, ann));
        proof {
            assert(tm_view(*self) =~= tm_view(*old(self)).push((expr.id, ann_view(ann))));
        }
        Ok(())
    }

    /// The annotation recorded for the node, if it was visited.
    #[verifier::loop_isolation(false)]
    pub fn get_type(&self, expr: &SymbolicExpression) -> (r: Option<&TypeAnnotation>)
        ensures
            match r {
                Some(a) => tm_lookup(tm_view(*self), expr.id) == Some(ann_view(*a)),
                None => tm_lookup(tm_view(*self), expr.id) is None && !tm_contains(
                    tm_view(*self),
                    expr.id,
                ),
            },
    {
        broadcast use lemma_tm_view;

        let ghost s = tm_view(*self);
        proof {
            assert(s.subrange(0, s.len() as int) =~= s);
        }
        let mut i: usize = 0;
        while i < self.entries.len()
            invariant
                0 <= i <= self.entries.len(),
                forall|k: int| 0 <= k < i ==> s[k].0 != expr.id,
                tm_lookup(s, expr.id) == tm_lookup(s.subrange(i as int, s.len() as int), expr.id),
            decreases self.entries.len() - i,
        {
            let ghost suffix = s.subrange(i as int, s.len() as int);
            proof {
                assert(suffix[0] == s[i as int]);
                assert(suffix.subrange(1, suffix.len() as int) =~= s.subrange(
                    i as int + 1,
                    s.len() as int,
                ));
            }
            if self.entries[i].0 == expr.id {
                return Some(&self.entries[i].1);
            }
            i += 1;
        }
        proof {
            assert(s.subrange(s.len() as int, s.len() as int) =~= Seq::<(u64, TypeAnnV)>::empty());
        }
        None
    }
}

/// The first entry with the given name in an association list, if any.
#[verifier::loop_isolation(false)]
pub fn assoc_type_lookup<'a>(entries: &'a Vec<(String, TypeSignature)>, name: &String) -> (r:
    Option<&'a TypeSignature>)
    ensures
        match r {
            Some(t) => tfield_type(fields_view(entries@), name@) == Some(ts_view(*t)),
            None => tfield_type(fields_view(entries@), name@) is None,
        },
{
    broadcast use lemma_fields_view;

    let ghost fsv = fields_view(entries@);
    let mut j: usize = 0;
    while j < entries.len()
        invariant
            0 <= j <= entries.len(),
            forall|l: int| 0 <= l < j ==> fsv[l].0 != name@,
        decreases entries.len() - j,
    {
        if entries[j].0.eq(name) {
            proof {
                assert(fsv[j as int].0 == name@);
                lemma_tfield_index_from(fsv, name@, 0);
                assert(tfield_index(fsv, name@) == j as int);
            }
            return Some(&entries[j].1);
        }
        j += 1;
    }
    proof {
        lemma_tfield_index_from(fsv, name@, 0);
    }
    None
}

/// The chain of scope frames visible at one point of the tree; the last
/// frame is the innermost.
pub struct TypingContext {
    pub frames: Vec<Vec<(String, TypeSignature)>>,
}

/// Model of the scope chain: one binding list per frame, innermost last.
pub open spec fn ctx_view(c: TypingContext) -> Seq<Seq<(Seq<char>, TypeV)>>
    decreases c.frames@.len() + 1,
{
    frames_view_from(c.frames@, 0)
}

/// Model of the frames from position `i` on.
pub open spec fn frames_view_from(fs: Seq<Vec<(String, TypeSignature)>>, i: int) -> Seq<
    Seq<(Seq<char>, TypeV)>,
>
    decreases fs.len() - i,
{
    if i < 0 || i >= fs.len() {
        Seq::empty()
    } else {
        seq![fields_view(fs[i]@)] + frames_view_from(fs, i + 1)
    }
}

proof fn lemma_frames_view_from(fs: Seq<Vec<(String, TypeSignature)>>, i: int)
    requires
        0 <= i <= fs.len(),
    ensures
        frames_view_from(fs, i).len() == fs.len() - i,
        forall|k: int|
            0 <= k < fs.len() - i ==> frames_view_from(fs, i)[k] == fields_view(fs[i + k]@),
    decreases fs.len() - i,
{
    if i < fs.len() {
        lemma_frames_view_from(fs, i + 1);
    }
}

/// The chain's model lists its frames, in order.
pub broadcast proof fn lemma_ctx_view(c: TypingContext)
    ensures
        (#[trigger] ctx_view(c)).len() == c.frames@.len(),
        forall|k: int|
            0 <= k < c.frames@.len() ==> ctx_view(c)[k] == fields_view(c.frames@[k]@),
{
    lemma_frames_view_from(c.frames@, 0);
}

/// Model of a scope chain.
pub type CtxV = Seq<Seq<(Seq<char>, TypeV)>>;

/// Model of the analysis store.
pub type DbV = Seq<ContractAnalysisV>;

/// The type bound to the name, looked up innermost-first.
pub open spec fn ctx_lookup(frames: Seq<Seq<(Seq<char>, TypeV)>>, name: Seq<char>) -> Option<
    TypeV,
>
    decreases frames.len(),
{
    if frames.len() == 0 {
        None
    } else {
        match tfield_type(frames.last(), name) {
            Some(t) => Some(t),
            None => ctx_lookup(frames.drop_last(), name),
        }
    }
}

impl TypingContext {
    /// An empty scope: one innermost frame with no bindings.
    pub fn new() -> (r: TypingContext)
        ensures
            ctx_view(r) == seq![Seq::<(Seq<char>, TypeV)>::empty()],
    {
        let mut frames: Vec<Vec<(String, TypeSignature)>> = Vec::new();
        frames.push(Vec::new());
        let r = TypingContext { frames };
        proof {
            lemma_ctx_view(r);
            assert(fields_view(r.frames@[0]@) =~= Seq::<(Seq<char>, TypeV)>::empty());
            assert(ctx_view(r) =~= seq![Seq::<(Seq<char>, TypeV)>::empty()]);
        }
        r
    }

    /// A child scope: the same chain with one new, empty innermost frame.
    /// The parent is never written through.
    #[verifier::loop_isolation(false)]
    pub fn extend(&self) -> (r: TypingContext)
        ensures
            ctx_view(r) == ctx_view(*self).push(Seq::<(Seq<char>, TypeV)>::empty()),
    {
        broadcast use lemma_ctx_view, lemma_fields_view;

        let mut frames: Vec<Vec<(String, TypeSignature)>> = Vec::new();
        let mut i: usize = 0;
        while i < self.frames.len()
            invariant
                0 <= i <= self.frames.len(),
                frames.len() == i,
                forall|k: int|
                    0 <= k < i ==> fields_view(#[trigger] frames@[k]@) == fields_view(
                        self.frames@[k]@,
                    ),
            decreases self.frames.len() - i,
        {
            let mut frame: Vec<(String, TypeSignature)> = Vec::new();
            let mut j: usize = 0;
            while j < self.frames[i].len()
                invariant
                    0 <= j <= self.frames@[i as int]@.len(),
                    i < self.frames.len(),
                    frame.len() == j,
                    forall|l: int|
                        0 <= l < j ==> (#[trigger] frame@[l]).0@ == self.frames@[i as int]@[l].0@
                            && ts_view(frame@[l].1) == ts_view(self.frames@[i as int]@[l].1),
                decreases self.frames@[i as int]@.len() - j,
            {
                let name = self.frames[i][j].0.clone();
                let ty = self.frames[i][j].1.clone();
                frame.push((name, ty));
                j += 1;
            }
            proof {
                assert forall|l: int|
                    0 <= l < frame@.len() implies fields_view(frame@)[l] == fields_view(
                    self.frames@[i as int]@,
                )[l] by {
                    assert(frame@[l].0@ == self.frames@[i as int]@[l].0@);
                }
                assert(fields_view(frame@) =~= fields_view(self.frames@[i as int]@));
            }
            frames.push(frame);
            i += 1;
        }
        frames.push(Vec::new());
        let r = TypingContext { frames };
        proof {
            lemma_ctx_view(r);
            assert(fields_view(r.frames@.last()@) =~= Seq::<(Seq<char>, TypeV)>::empty());
            assert(ctx_view(r) =~= ctx_view(*self).push(Seq::<(Seq<char>, TypeV)>::empty()));
        }
        r
    }

    /// The type bound to the name, looked up innermost-first through the
    /// whole chain.
    #[verifier::loop_isolation(false)]
    pub fn lookup_variable_type(&self, name: &String) -> (r: Option<&TypeSignature>)
        ensures
            match r {
                Some(t) => ctx_lookup(ctx_view(*self), name@) == Some(ts_view(*t)),
                None => ctx_lookup(ctx_view(*self), name@) is None,
            },
    {
        broadcast use lemma_ctx_view;

        let ghost cv = ctx_view(*self);
        proof {
            assert(cv.subrange(0, cv.len() as int) =~= cv);
        }
        let mut fi: usize = self.frames.len();
        while fi > 0
            invariant
                0 <= fi <= self.frames.len(),
                ctx_lookup(cv, name@) == ctx_lookup(cv.subrange(0, fi as int), name@),
            decreases fi,
        {
            fi -= 1;
            let ghost prefix = cv.subrange(0, fi as int + 1);
            proof {
                assert(prefix.last() == cv[fi as int]);
                assert(prefix.drop_last() =~= cv.subrange(0, fi as int));
            }
            match assoc_type_lookup(&self.frames[fi], name) {
                Some(t) => {
                    return Some(t);
                },
                None => {
                },
            }
        }
        proof {
            assert(cv.subrange(0, 0) =~= Seq::<Seq<(Seq<char>, TypeV)>>::empty());
        }
        None
    }

    /// Whether the innermost frame itself binds the name.
    pub fn binds_in_innermost(&self, name: &String) -> (r: bool)
        requires
            ctx_view(*self).len() > 0,
        ensures
            r == (tfield_type(ctx_view(*self).last(), name@) is Some),
    {
        broadcast use lemma_ctx_view;

        match assoc_type_lookup(&self.frames[self.frames.len() - 1], name) {
            Some(_) => true,
            None => false,
        }
    }

    /// Adds a binding to the innermost frame, the one created for the
    /// enclosing form.
    pub fn add_binding(&mut self, name: String, ty: TypeSignature)
        requires
            ctx_view(*old(self)).len() > 0,
        ensures
            ctx_view(*final(self)) == ctx_view(*old(self)).drop_last().push(
                ctx_view(*old(self)).last().push((name@, ts_view(ty))),
            ),
    {
        broadcast use lemma_ctx_view, lemma_fields_view;

        let ghost oldv = ctx_view(*old(self));
        match self.frames.pop() {
            Some(mut frame) => {
                let ghost oldframe = frame@;
                frame.push((name, ty));
                proof {
                    assert(fields_view(frame@) =~= fields_view(oldframe).push((name@, ts_view(ty))));
                }
                self.frames.push(frame);
                proof {
                    lemma_ctx_view(*self);
                    assert(ctx_view(*self) =~= oldv.drop_last().push(
                        oldv.last().push((name@, ts_view(ty))),
                    ));
                }
            },
            None => {
                proof {
                    assert(false);
                }
            },
        }
    }
}

/// The current contract's schema: its contract-level names and its
/// persisted-variable declarations, populated before checking begins and
/// read-only during it.
pub struct ContractContext {
    pub defined_names: Vec<String>,
    pub variable_types: Vec<(String, TypeSignature)>,
}

/// Model of a name list.
pub open spec fn names_view(ns: Seq<String>) -> Seq<Seq<char>>
    decreases ns.len() + 1,
{
    names_view_from(ns, 0)
}

/// Model of the names from position `i` on.
pub open spec fn names_view_from(ns: Seq<String>, i: int) -> Seq<Seq<char>>
    decreases ns.len() - i,
{
    if i < 0 || i >= ns.len() {
        Seq::empty()
    } else {
        seq![ns[i]@] + names_view_from(ns, i + 1)
    }
}

proof fn lemma_names_view_from(ns: Seq<String>, i: int)
    requires
        0 <= i <= ns.len(),
    ensures
        names_view_from(ns, i).len() == ns.len() - i,
        forall|k: int| 0 <= k < ns.len() - i ==> names_view_from(ns, i)[k] == ns[i + k]@,
    decreases ns.len() - i,
{
    if i < ns.len() {
        lemma_names_view_from(ns, i + 1);
    }
}

/// A name list's model lists its names, in order.
pub broadcast proof fn lemma_names_view(ns: Seq<String>)
    ensures
        (#[trigger] names_view(ns)).len() == ns.len(),
        forall|k: int| 0 <= k < ns.len() ==> names_view(ns)[k] == ns[k]@,
{
    lemma_names_view_from(ns, 0);
}

/// Whether the name is among the given names.
pub open spec fn name_defined(ns: Seq<Seq<char>>, name: Seq<char>) -> bool {
    exists|i: int| 0 <= i < ns.len() && ns[i] == name
}

/// Model of the current contract's schema.
pub struct ContractContextV {
    pub names: Seq<Seq<char>>,
    pub variables: Seq<(Seq<char>, TypeV)>,
}

/// Model of the schema.
pub open spec fn cc_view(cc: ContractContext) -> ContractContextV {
    ContractContextV {
        names: names_view(cc.defined_names@),
        variables: fields_view(cc.variable_types@),
    }
}

impl ContractContext {
    /// An empty schema.
    pub fn new() -> (r: ContractContext)
        ensures
            cc_view(r).names == Seq::<Seq<char>>::empty(),
            cc_view(r).variables == Seq::<(Seq<char>, TypeV)>::empty(),
    {
        let r = ContractContext { defined_names: Vec::new(), variable_types: Vec::new() };
        proof {
            lemma_names_view(r.defined_names@);
            lemma_fields_view(r.variable_types@);
            assert(cc_view(r).names =~= Seq::<Seq<char>>::empty());
            assert(cc_view(r).variables =~= Seq::<(Seq<char>, TypeV)>::empty());
        }
        r
    }

    /// Registers a contract-level name (a function, a map, a token).
    pub fn add_defined_name(&mut self, name: String)
        ensures
            cc_view(*final(self)).names == cc_view(*old(self)).names.push(name@),
            cc_view(*final(self)).variables == cc_view(*old(self)).variables,
    {
        broadcast use lemma_names_view;

        self.defined_names.push(name);
        proof {
            assert(cc_view(*self).names =~= cc_view(*old(self)).names.push(name@));
        }
    }

    /// Declares a persisted variable with its type; its name becomes a
    /// contract-level name.
    pub fn add_persisted_variable(&mut self, name: String, ty: TypeSignature)
        ensures
            cc_view(*final(self)).names == cc_view(*old(self)).names.push(name@),
            cc_view(*final(self)).variables == cc_view(*old(self)).variables.push(
                (name@, ts_view(ty)),
            ),
    {
        broadcast use lemma_names_view, lemma_fields_view;

        let var_name = name.clone();
        self.defined_names.push(name);
        self.variable_types.push((var_name, ty));
        proof {
            assert(cc_view(*self).names =~= cc_view(*old(self)).names.push(var_name@));
            assert(cc_view(*self).variables =~= cc_view(*old(self)).variables.push(
                (var_name@, ts_view(ty)),
            ));
        }
    }

    /// Rejects a local binding that would shadow a contract-level name.
    #[verifier::loop_isolation(false)]
    pub fn check_name_used(&self, name: &String) -> (r: Result<(), CheckError>)
        ensures
            match r {
                Ok(_) => !name_defined(cc_view(*self).names, name@),
                Err(e) => name_defined(cc_view(*self).names, name@) && cerr_view(e)
                    == CheckErrV::NameAlreadyUsed(name@),
            },
    {
        broadcast use lemma_names_view;

        let ghost ns = cc_view(*self).names;
        let mut i: usize = 0;
        while i < self.defined_names.len()
            invariant
                0 <= i <= self.defined_names.len(),
                forall|k: int| 0 <= k < i ==> ns[k] != name@,
            decreases self.defined_names.len() - i,
        {
            if self.defined_names[i].eq(name) {
                proof {
                    assert(ns[i as int] == name@);
                }
                return Err(CheckError::new(CheckErrors::NameAlreadyUsed(name.clone())));
            }
            i += 1;
        }
        Ok(())
    }

    /// The declared type of the named persisted variable, if any.
    pub fn get_persisted_variable_type(&self, name: &String) -> (r: Option<&TypeSignature>)
        ensures
            match r {
                Some(t) => tfield_type(cc_view(*self).variables, name@) == Some(ts_view(*t)),
                None => tfield_type(cc_view(*self).variables, name@) is None,
            },
    {
        assoc_type_lookup(&self.variable_types, name)
    }
}

/// Model of a declared function list.
pub open spec fn fsigs_view(fs: Seq<(String, FunctionType)>) -> Seq<(Seq<char>, FunctionTypeV)>
    decreases fs.len() + 1,
{
    fsigs_view_from(fs, 0)
}

/// Model of the declared functions from position `i` on.
pub open spec fn fsigs_view_from(fs: Seq<(String, FunctionType)>, i: int) -> Seq<
    (Seq<char>, FunctionTypeV),
>
    decreases fs.len() - i,
{
    if i < 0 || i >= fs.len() {
        Seq::empty()
    } else {
        seq![(fs[i].0@, ft_view(fs[i].1))] + fsigs_view_from(fs, i + 1)
    }
}

proof fn lemma_fsigs_view_from(fs: Seq<(String, FunctionType)>, i: int)
    requires
        0 <= i <= fs.len(),
    ensures
        fsigs_view_from(fs, i).len() == fs.len() - i,
        forall|k: int|
            0 <= k < fs.len() - i ==> fsigs_view_from(fs, i)[k] == (
                fs[i + k].0@,
                ft_view(fs[i + k].1),
            ),
    decreases fs.len() - i,
{
    if i < fs.len() {
        lemma_fsigs_view_from(fs, i + 1);
    }
}

/// A declared function list's model lists its entries, in order.
pub broadcast proof fn lemma_fsigs_view(fs: Seq<(String, FunctionType)>)
    ensures
        (#[trigger] fsigs_view(fs)).len() == fs.len(),
        forall|k: int|
            0 <= k < fs.len() ==> fsigs_view(fs)[k] == (fs[k].0@, ft_view(fs[k].1)),
{
    lemma_fsigs_view_from(fs, 0);
}

/// The first declared signature under the given name, if any.
pub open spec fn fsig_lookup(s: Seq<(Seq<char>, FunctionTypeV)>, name: Seq<char>) -> Option<
    FunctionTypeV,
>
    decreases s.len(),
{
    if s.len() == 0 {
        None
    } else if s[0].0 == name {
        Some(s[0].1)
    } else {
        fsig_lookup(s.subrange(1, s.len() as int), name)
    }
}

/// The first declared signature under the given name, if any.
#[verifier::loop_isolation(false)]
pub fn fsig_assoc_lookup<'a>(entries: &'a Vec<(String, FunctionType)>, name: &String) -> (r:
    Option<&'a FunctionType>)
    ensures
        match r {
            Some(ft) => fsig_lookup(fsigs_view(entries@), name@) == Some(ft_view(*ft)),
            None => fsig_lookup(fsigs_view(entries@), name@) is None,
        },
{
    broadcast use lemma_fsigs_view;

    let ghost s = fsigs_view(entries@);
    proof {
        assert(s.subrange(0, s.len() as int) =~= s);
    }
    let mut i: usize = 0;
    while i < entries.len()
        invariant
            0 <= i <= entries.len(),
            fsig_lookup(s, name@) == fsig_lookup(s.subrange(i as int, s.len() as int), name@),
        decreases entries.len() - i,
    {
        let ghost suffix = s.subrange(i as int, s.len() as int);
        proof {
            assert(suffix[0] == s[i as int]);
            assert(suffix.subrange(1, suffix.len() as int) =~= s.subrange(
                i as int + 1,
                s.len() as int,
            ));
        }
        if entries[i].0.eq(name) {
            return Some(&entries[i].1);
        }
        i += 1;
    }
    proof {
        assert(s.subrange(s.len() as int, s.len() as int) =~= Seq::<
            (Seq<char>, FunctionTypeV),
        >::empty());
    }
    None
}

/// One checked contract's published interface: its public and read-only
/// function signatures.
pub struct ContractAnalysis {
    pub name: String,
    pub public_function_types: Vec<(String, FunctionType)>,
    pub read_only_function_types: Vec<(String, FunctionType)>,
}

/// Model of a checked contract's interface.
pub struct ContractAnalysisV {
    pub name: Seq<char>,
    pub public_functions: Seq<(Seq<char>, FunctionTypeV)>,
    pub read_only_functions: Seq<(Seq<char>, FunctionTypeV)>,
}

/// Model of a contract analysis.
pub open spec fn ca_view(c: ContractAnalysis) -> ContractAnalysisV {
    ContractAnalysisV {
        name: c.name@,
        public_functions: fsigs_view(c.public_function_types@),
        read_only_functions: fsigs_view(c.read_only_function_types@),
    }
}

/// The store of other contracts' analyses, consulted by cross-contract
/// calls and never mutated by checking.
pub struct AnalysisDatabase {
    pub contracts: Vec<ContractAnalysis>,
}

/// Model of the store.
pub open spec fn db_view(db: AnalysisDatabase) -> Seq<ContractAnalysisV>
    decreases db.contracts@.len() + 1,
{
    db_view_from(db.contracts@, 0)
}

/// Model of the contracts from position `i` on.
pub open spec fn db_view_from(cs: Seq<ContractAnalysis>, i: int) -> Seq<ContractAnalysisV>
    decreases cs.len() - i,
{
    if i < 0 || i >= cs.len() {
        Seq::empty()
    } else {
        seq![ca_view(cs[i])] + db_view_from(cs, i + 1)
    }
}

proof fn lemma_db_view_from(cs: Seq<ContractAnalysis>, i: int)
    requires
        0 <= i <= cs.len(),
    ensures
        db_view_from(cs, i).len() == cs.len() - i,
        forall|k: int| 0 <= k < cs.len() - i ==> db_view_from(cs, i)[k] == ca_view(cs[i + k]),
    decreases cs.len() - i,
{
    if i < cs.len() {
        lemma_db_view_from(cs, i + 1);
    }
}

/// The store's model lists its contracts, in order.
pub broadcast proof fn lemma_db_view(db: AnalysisDatabase)
    ensures
        (#[trigger] db_view(db)).len() == db.contracts@.len(),
        forall|k: int|
            0 <= k < db.contracts@.len() ==> db_view(db)[k] == ca_view(db.contracts@[k]),
{
    lemma_db_view_from(db.contracts@, 0);
}

/// The first contract of the given name, if any.
pub open spec fn db_contract(db: Seq<ContractAnalysisV>, name: Seq<char>) -> Option<
    ContractAnalysisV,
>
    decreases db.len(),
{
    if db.len() == 0 {
        None
    } else if db[0].name == name {
        Some(db[0])
    } else {
        db_contract(db.subrange(1, db.len() as int), name)
    }
}

impl AnalysisDatabase {
    /// An empty store.
    pub fn new() -> (r: AnalysisDatabase)
        ensures
            db_view(r) == Seq::<ContractAnalysisV>::empty(),
    {
        let r = AnalysisDatabase { contracts: Vec::new() };
        proof {
            lemma_db_view(r);
            assert(db_view(r) =~= Seq::<ContractAnalysisV>::empty());
        }
        r
    }

    /// The named contract's entry, if any; a miss is the unknown-contract
    /// error.
    #[verifier::loop_isolation(false)]
    fn find_contract<'a>(&'a self, contract_name: &String) -> (r: Option<&'a ContractAnalysis>)
        ensures
            match r {
                Some(c) => db_contract(db_view(*self), contract_name@) == Some(ca_view(*c)),
                None => db_contract(db_view(*self), contract_name@) is None,
            },
    {
        broadcast use lemma_db_view;

        let ghost s = db_view(*self);
        proof {
            assert(s.subrange(0, s.len() as int) =~= s);
        }
        let mut i: usize = 0;
        while i < self.contracts.len()
            invariant
                0 <= i <= self.contracts.len(),
                db_contract(s, contract_name@) == db_contract(
                    s.subrange(i as int, s.len() as int),
                    contract_name@,
                ),
            decreases self.contracts.len() - i,
        {
            let ghost suffix = s.subrange(i as int, s.len() as int);
            proof {
                assert(suffix[0] == s[i as int]);
                assert(suffix.subrange(1, suffix.len() as int) =~= s.subrange(
                    i as int + 1,
                    s.len() as int,
                ));
            }
            if self.contracts[i].name.eq(contract_name) {
                return Some(&self.contracts[i]);
            }
            i += 1;
        }
        proof {
            assert(s.subrange(s.len() as int, s.len() as int) =~= Seq::<
                ContractAnalysisV,
            >::empty());
        }
        None
    }

    /// The named contract's public function of the given name; an unknown
    /// contract is a checking error, an unknown function is merely absent.
    pub fn get_public_function_type<'a>(
        &'a self,
        contract_name: &String,
        function_name: &String,
    ) -> (r: Result<Option<&'a FunctionType>, CheckError>)
        ensures
            match r {
                Ok(Some(ft)) => db_contract(db_view(*self), contract_name@) is Some && fsig_lookup(
                    db_contract(db_view(*self), contract_name@).unwrap().public_functions,
                    function_name@,
                ) == Some(ft_view(*ft)),
                Ok(None) => db_contract(db_view(*self), contract_name@) is Some && fsig_lookup(
                    db_contract(db_view(*self), contract_name@).unwrap().public_functions,
                    function_name@,
                ) is None,
                Err(e) => db_contract(db_view(*self), contract_name@) is None && cerr_view(e)
                    == CheckErrV::NoSuchContract(contract_name@),
            },
    {
        match self.find_contract(contract_name) {
            None => Err(CheckError::new(CheckErrors::NoSuchContract(contract_name.clone()))),
            Some(c) => Ok(fsig_assoc_lookup(&c.public_function_types, function_name)),
        }
    }

    /// The named contract's read-only function of the given name; an
    /// unknown contract is a checking error, an unknown function is merely
    /// absent.
    pub fn get_read_only_function_type<'a>(
        &'a self,
        contract_name: &String,
        function_name: &String,
    ) -> (r: Result<Option<&'a FunctionType>, CheckError>)
        ensures
            match r {
                Ok(Some(ft)) => db_contract(db_view(*self), contract_name@) is Some && fsig_lookup(
                    db_contract(db_view(*self), contract_name@).unwrap().read_only_functions,
                    function_name@,
                ) == Some(ft_view(*ft)),
                Ok(None) => db_contract(db_view(*self), contract_name@) is Some && fsig_lookup(
                    db_contract(db_view(*self), contract_name@).unwrap().read_only_functions,
                    function_name@,
                ) is None,
                Err(e) => db_contract(db_view(*self), contract_name@) is None && cerr_view(e)
                    == CheckErrV::NoSuchContract(contract_name@),
            },
    {
        match self.find_contract(contract_name) {
            None => Err(CheckError::new(CheckErrors::NoSuchContract(contract_name.clone()))),
            Some(c) => Ok(fsig_assoc_lookup(&c.read_only_function_types, function_name)),
        }
    }
}


} // verus!

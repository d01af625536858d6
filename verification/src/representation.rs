//! Expression trees handed to the type checker by the parser.
//!
//! A node is an atom (a bare name), a literal value, or an ordered list of
//! child nodes.  Every node carries an identity used to key the type map;
//! the checker requires these identities to be pairwise distinct within one
//! tree, which the parser guarantees by numbering nodes as it builds them.

use vstd::prelude::*;
use vstd::string::StringExecFns;

verus! {

/// Whether a name equals the given literal.
pub fn name_matches(name: &String, lit: &str) -> (r: bool)
    ensures
        r == (name@ == lit@),
{
    let other = String::from_str(lit);
    name.eq(&other)
}

/// A literal value carried directly by an expression atom.
pub enum LiteralValue {
    IntLiteral(i128),
    BoolLiteral(bool),
    BufferLiteral(Vec<u8>),
}

/// The shape of one expression node.
pub enum SymbolicExpressionType {
    /// A bare name: a variable reference, or a syntactic name position.
    Atom(String),
    /// A literal value.
    AtomValue(LiteralValue),
    /// An ordered list of children; in operator position, a call form.
    List(Vec<SymbolicExpression>),
}

/// One node of an expression tree, with its identity.
pub struct SymbolicExpression {
    pub id: u64,
    pub expr: SymbolicExpressionType,
}

impl SymbolicExpression {
    /// Builds an atom node.
    pub fn atom(id: u64, name: String) -> (r: SymbolicExpression)
        ensures
            r.id == id,
            r.expr == SymbolicExpressionType::Atom(name),
    {
        SymbolicExpression { id, expr: SymbolicExpressionType::Atom(name) }
    }

    /// Builds a literal node.
    pub fn atom_value(id: u64, value: LiteralValue) -> (r: SymbolicExpression)
        ensures
            r.id == id,
            r.expr == SymbolicExpressionType::AtomValue(value),
    {
        SymbolicExpression { id, expr: SymbolicExpressionType::AtomValue(value) }
    }

    /// Builds a list node.
    pub fn list(id: u64, children: Vec<SymbolicExpression>) -> (r: SymbolicExpression)
        ensures
            r.id == id,
            r.expr == SymbolicExpressionType::List(children),
    {
        SymbolicExpression { id, expr: SymbolicExpressionType::List(children) }
    }

    /// The atom's name, if this node is a bare name.
    pub fn match_atom(&self) -> (r: Option<&String>)
        ensures
            match r {
                Option::Some(name) => self.expr == SymbolicExpressionType::Atom(*name),
                Option::None => !(self.expr is Atom),
            },
    {
        match &self.expr {
            SymbolicExpressionType::Atom(name) => Option::Some(name),
            _ => Option::None,
        }
    }

    /// The node's children, if this node is a list.
    pub fn match_list(&self) -> (r: Option<&Vec<SymbolicExpression>>)
        ensures
            match r {
                Option::Some(children) => self.expr == SymbolicExpressionType::List(*children),
                Option::None => !(self.expr is List),
            },
    {
        match &self.expr {
            SymbolicExpressionType::List(children) => Option::Some(children),
            _ => Option::None,
        }
    }
}

/// The set of node identities occurring in a tree.
pub open spec fn expr_ids(e: SymbolicExpression) -> Set<u64>
    decreases e, 1int,
{
    match e.expr {
        SymbolicExpressionType::List(children) => exprs_ids(children@).insert(e.id),
        _ => Set::empty().insert(e.id),
    }
}

/// The set of node identities occurring in a sequence of trees.
pub open spec fn exprs_ids(es: Seq<SymbolicExpression>) -> Set<u64>
    decreases es, 0int,
{
    if es.len() == 0 {
        Set::empty()
    } else {
        expr_ids(es[0]).union(exprs_ids(es.subrange(1, es.len() as int)))
    }
}

/// Node identities are pairwise distinct within the tree.
pub open spec fn ids_distinct(e: SymbolicExpression) -> bool
    decreases e, 1int,
{
    match e.expr {
        SymbolicExpressionType::List(children) => !exprs_ids(children@).contains(e.id)
            && exprs_distinct(children@),
        _ => true,
    }
}

/// Node identities are pairwise distinct within and across the trees.
pub open spec fn exprs_distinct(es: Seq<SymbolicExpression>) -> bool
    decreases es, 0int,
{
    es.len() != 0 ==> {
        &&& ids_distinct(es[0])
        &&& expr_ids(es[0]).disjoint(exprs_ids(es.subrange(1, es.len() as int)))
        &&& exprs_distinct(es.subrange(1, es.len() as int))
    }
}

/// A tree's own identity belongs to its identity set.
pub proof fn lemma_expr_ids_contains_root(e: SymbolicExpression)
    ensures
        expr_ids(e).contains(e.id),
{
}

} // verus!

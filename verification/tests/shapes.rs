//! Malformed-shape and size-limit failures: non-atom name positions,
//! malformed pairs, oversized constructions.

use contract_typecheck::contexts::{AnalysisDatabase, ContractContext, TypingContext};
use contract_typecheck::errors::CheckErrors;
use contract_typecheck::natives::TypeChecker;
use contract_typecheck::representation::{LiteralValue, SymbolicExpression};
use contract_typecheck::types::TypeSignature;

pub struct Ids {
    next: std::cell::Cell<u64>,
}

impl Ids {
    pub fn new() -> Ids {
        Ids { next: std::cell::Cell::new(1) }
    }

    fn fresh(&self) -> u64 {
        let id = self.next.get();
        self.next.set(id + 1);
        id
    }

    pub fn atom(&self, name: &str) -> SymbolicExpression {
        SymbolicExpression::atom(self.fresh(), name.to_string())
    }

    pub fn integer(&self, value: i128) -> SymbolicExpression {
        SymbolicExpression::atom_value(self.fresh(), LiteralValue::IntLiteral(value))
    }

    pub fn list(&self, children: Vec<SymbolicExpression>) -> SymbolicExpression {
        SymbolicExpression::list(self.fresh(), children)
    }

    pub fn call(&self, op: &str, args: Vec<SymbolicExpression>) -> SymbolicExpression {
        let mut children = vec![self.atom(op)];
        children.extend(args);
        self.list(children)
    }
}

fn check(expr: &SymbolicExpression) -> Result<TypeSignature, CheckErrors> {
    let mut checker = TypeChecker::new(ContractContext::new(), AnalysisDatabase::new());
    let context = TypingContext::new();
    checker.type_check(expr, &context).map_err(|e| e.err)
}

#[test]
fn tuple_get_field_position_must_be_atom() {
    let b = Ids::new();
    let e = b.call("get", vec![b.integer(5), b.integer(1)]);
    assert!(matches!(check(&e), Err(CheckErrors::BadTupleFieldName)));
}

#[test]
fn tuple_cons_rejects_non_pairs() {
    let b = Ids::new();
    let e = b.call("tuple", vec![b.integer(5)]);
    assert!(matches!(check(&e), Err(CheckErrors::TupleExpectsPairs)));
    let b2 = Ids::new();
    let triple = b2.list(vec![b2.atom("f"), b2.integer(1), b2.integer(2)]);
    let e2 = b2.call("tuple", vec![triple]);
    assert!(matches!(check(&e2), Err(CheckErrors::TupleExpectsPairs)));
}

#[test]
fn let_binding_position_must_be_list() {
    let b = Ids::new();
    let e = b.call("let", vec![b.integer(5), b.integer(1)]);
    assert!(matches!(check(&e), Err(CheckErrors::BadLetSyntax)));
}

#[test]
fn let_binding_must_be_name_expression_pair() {
    let b = Ids::new();
    let lonely = b.list(vec![b.atom("a")]);
    let bindings = b.list(vec![lonely]);
    let e = b.call("let", vec![bindings, b.integer(1)]);
    assert!(matches!(check(&e), Err(CheckErrors::BadSyntaxBinding)));
    let b2 = Ids::new();
    let unnamed = b2.list(vec![b2.integer(7), b2.integer(1)]);
    let bindings2 = b2.list(vec![unnamed]);
    let e2 = b2.call("let", vec![bindings2, b2.integer(1)]);
    assert!(matches!(check(&e2), Err(CheckErrors::BadSyntaxBinding)));
}

#[test]
fn fetch_and_set_var_name_positions_must_be_atoms() {
    let b = Ids::new();
    let e = b.call("fetch-var!", vec![b.integer(5)]);
    assert!(matches!(check(&e), Err(CheckErrors::BadMapName)));
    let b2 = Ids::new();
    let e2 = b2.call("set-var!", vec![b2.integer(5), b2.integer(1)]);
    assert!(matches!(check(&e2), Err(CheckErrors::BadMapName)));
}

#[test]
fn contract_call_name_positions_must_be_atoms() {
    let b = Ids::new();
    let e = b.call("contract-call!", vec![b.integer(5), b.atom("combine")]);
    assert!(matches!(check(&e), Err(CheckErrors::ContractCallExpectName)));
    let b2 = Ids::new();
    let e2 = b2.call("contract-call!", vec![b2.atom("registry"), b2.integer(5)]);
    assert!(matches!(check(&e2), Err(CheckErrors::ContractCallExpectName)));
}

#[test]
fn block_info_property_position_must_be_atom() {
    let b = Ids::new();
    let e = b.call("get-block-info", vec![b.integer(5), b.integer(1)]);
    assert!(matches!(check(&e), Err(CheckErrors::GetBlockInfoExpectPropertyName)));
}

#[test]
fn operator_position_must_be_an_atom() {
    let b = Ids::new();
    let inner = b.list(vec![b.integer(1)]);
    let e = b.list(vec![inner, b.integer(2)]);
    assert!(matches!(check(&e), Err(CheckErrors::NonFunctionApplication)));
}

#[test]
fn oversized_list_construction_is_rejected() {
    let b = Ids::new();
    let e = b.call("list", vec![b.atom("blob")]);
    let mut context = TypingContext::new();
    context.add_binding("blob".to_string(), TypeSignature::BufferType(1024 * 1024));
    let mut checker = TypeChecker::new(ContractContext::new(), AnalysisDatabase::new());
    match checker.type_check(&e, &context) {
        Err(e) => assert!(matches!(e.err, CheckErrors::ConstructedListTooLarge)),
        Ok(_) => panic!("expected the list type to be too large"),
    }
}

#[test]
fn deeply_nested_list_construction_is_rejected() {
    let b = Ids::new();
    let e = b.call("list", vec![b.atom("deep")]);
    let mut nested = TypeSignature::BoolType;
    let mut level = 0;
    while level < 40 {
        nested = TypeSignature::ListType(Box::new(nested), 1);
        level += 1;
    }
    let mut context = TypingContext::new();
    context.add_binding("deep".to_string(), nested);
    let mut checker = TypeChecker::new(ContractContext::new(), AnalysisDatabase::new());
    match checker.type_check(&e, &context) {
        Err(e) => assert!(matches!(e.err, CheckErrors::ConstructedListTooLarge)),
        Ok(_) => panic!("expected the list type to be too deep"),
    }
}

#[test]
fn oversized_buffer_literal_is_rejected() {
    let big = SymbolicExpression::atom_value(
        1,
        LiteralValue::BufferLiteral(vec![0u8; 1024 * 1024 + 1]),
    );
    assert!(matches!(check(&big), Err(CheckErrors::ValueTooLarge)));
}

//! End-to-end checks of expression typing: control flow, scoping,
//! tuples, persisted variables, equality, lists, cross-contract calls
//! and block metadata.

use contract_typecheck::contexts::{
    AnalysisDatabase, ContractAnalysis, ContractContext, TypeAnnotation, TypingContext,
};
use contract_typecheck::errors::CheckErrors;
use contract_typecheck::natives::TypeChecker;
use contract_typecheck::representation::{LiteralValue, SymbolicExpression};
use contract_typecheck::signatures::{FixedFunction, FunctionArg, FunctionType};
use contract_typecheck::types::{TupleTypeSignature, TypeSignature};

/// Hands out fresh node identities while building expression trees.
pub struct Builder {
    next: std::cell::Cell<u64>,
}

impl Builder {
    pub fn new() -> Builder {
        Builder { next: std::cell::Cell::new(1) }
    }

    fn fresh(&self) -> u64 {
        let id = self.next.get();
        self.next.set(id + 1);
        id
    }

    pub fn atom(&self, name: &str) -> SymbolicExpression {
        SymbolicExpression::atom(self.fresh(), name.to_string())
    }

    pub fn integer(&self, value: i128) -> SymbolicExpression {
        SymbolicExpression::atom_value(self.fresh(), LiteralValue::IntLiteral(value))
    }

    pub fn boolean(&self, value: bool) -> SymbolicExpression {
        SymbolicExpression::atom_value(self.fresh(), LiteralValue::BoolLiteral(value))
    }

    pub fn buffer(&self, len: usize) -> SymbolicExpression {
        SymbolicExpression::atom_value(self.fresh(), LiteralValue::BufferLiteral(vec![0u8; len]))
    }

    pub fn list(&self, children: Vec<SymbolicExpression>) -> SymbolicExpression {
        SymbolicExpression::list(self.fresh(), children)
    }

    pub fn call(&self, op: &str, args: Vec<SymbolicExpression>) -> SymbolicExpression {
        let mut children = vec![self.atom(op)];
        children.extend(args);
        self.list(children)
    }
}

pub fn empty_checker() -> TypeChecker {
    TypeChecker::new(ContractContext::new(), AnalysisDatabase::new())
}

pub fn check(expr: &SymbolicExpression) -> Result<TypeSignature, CheckErrors> {
    let mut checker = empty_checker();
    let context = TypingContext::new();
    checker.type_check(expr, &context).map_err(|e| e.err)
}

pub fn int_arg(name: &str) -> FunctionArg {
    FunctionArg {
        signature: TypeSignature::IntType,
        name: name.to_string(),
    }
}

#[test]
fn if_with_int_branches_yields_int() {
    let b = Builder::new();
    let gt = b.call(">", vec![b.integer(1), b.integer(2)]);
    let e = b.call("if", vec![gt, b.integer(10), b.integer(20)]);
    assert!(matches!(check(&e), Ok(TypeSignature::IntType)));
}

#[test]
fn if_result_is_most_admissive_branch() {
    let b = Builder::new();
    let e = b.call("if", vec![b.boolean(true), b.buffer(3), b.buffer(5)]);
    assert!(matches!(check(&e), Ok(TypeSignature::BufferType(5))));
}

#[test]
fn if_with_incompatible_branches_names_both() {
    let b = Builder::new();
    let e = b.call("if", vec![b.boolean(true), b.integer(1), b.boolean(false)]);
    match check(&e) {
        Err(CheckErrors::IfArmsMustMatch(x, y)) => {
            assert!(matches!(x, TypeSignature::IntType));
            assert!(matches!(y, TypeSignature::BoolType));
        }
        other => panic!("expected a branch mismatch, got {:?}", other.is_ok()),
    }
}

#[test]
fn if_condition_must_be_boolean() {
    let b = Builder::new();
    let e = b.call("if", vec![b.integer(7), b.integer(1), b.integer(2)]);
    match check(&e) {
        Err(CheckErrors::TypeError(expected, actual)) => {
            assert!(matches!(expected, TypeSignature::BoolType));
            assert!(matches!(actual, TypeSignature::IntType));
        }
        _ => panic!("expected a condition type mismatch"),
    }
}

#[test]
fn if_wrong_arity() {
    let b = Builder::new();
    let e = b.call("if", vec![b.boolean(true), b.integer(1)]);
    assert!(matches!(check(&e), Err(CheckErrors::IncorrectArgumentCount(3, 2))));
}

#[test]
fn let_binding_cannot_see_sibling() {
    let b = Builder::new();
    let bind_a = b.list(vec![b.atom("a"), b.integer(1)]);
    let plus = b.call("+", vec![b.atom("a"), b.integer(1)]);
    let bind_b = b.list(vec![b.atom("b"), plus]);
    let bindings = b.list(vec![bind_a, bind_b]);
    let e = b.call("let", vec![bindings, b.atom("b")]);
    match check(&e) {
        Err(CheckErrors::UndefinedVariable(name)) => assert_eq!(name, "a"),
        _ => panic!("expected the sibling reference to be unknown"),
    }
}

#[test]
fn let_rejects_duplicate_binding_even_unused() {
    let b = Builder::new();
    let bind_first = b.list(vec![b.atom("a"), b.integer(1)]);
    let bind_second = b.list(vec![b.atom("a"), b.integer(2)]);
    let bindings = b.list(vec![bind_first, bind_second]);
    let e = b.call("let", vec![bindings, b.integer(3)]);
    match check(&e) {
        Err(CheckErrors::NameAlreadyUsed(name)) => assert_eq!(name, "a"),
        _ => panic!("expected the duplicate binding to be rejected"),
    }
}

#[test]
fn let_rejects_contract_level_name() {
    let b = Builder::new();
    let bind = b.list(vec![b.atom("cursor"), b.integer(1)]);
    let bindings = b.list(vec![bind]);
    let e = b.call("let", vec![bindings, b.integer(3)]);
    let mut cc = ContractContext::new();
    cc.add_persisted_variable("cursor".to_string(), TypeSignature::IntType);
    let mut checker = TypeChecker::new(cc, AnalysisDatabase::new());
    let context = TypingContext::new();
    match checker.type_check(&e, &context) {
        Err(e) => match e.err {
            CheckErrors::NameAlreadyUsed(name) => assert_eq!(name, "cursor"),
            _ => panic!("expected a name collision"),
        },
        Ok(_) => panic!("expected a name collision"),
    }
}

#[test]
fn let_body_sees_bindings_in_order() {
    let b = Builder::new();
    let bind_a = b.list(vec![b.atom("a"), b.integer(1)]);
    let bindings = b.list(vec![bind_a]);
    let body = b.call("+", vec![b.atom("a"), b.integer(2)]);
    let e = b.call("let", vec![bindings, body]);
    assert!(matches!(check(&e), Ok(TypeSignature::IntType)));
}

#[test]
fn let_needs_body() {
    let b = Builder::new();
    let bind_a = b.list(vec![b.atom("a"), b.integer(1)]);
    let bindings = b.list(vec![bind_a]);
    let e = b.call("let", vec![bindings]);
    assert!(matches!(check(&e), Err(CheckErrors::RequiresAtLeastArguments(2, 1))));
}

#[test]
fn tuple_cons_and_get_field() {
    let b = Builder::new();
    let pair = b.list(vec![b.atom("name"), b.integer(1)]);
    let tup = b.call("tuple", vec![pair]);
    let e = b.call("get", vec![b.atom("name"), tup]);
    assert!(matches!(check(&e), Ok(TypeSignature::IntType)));
}

#[test]
fn tuple_get_missing_field_names_field_and_signature() {
    let b = Builder::new();
    let pair = b.list(vec![b.atom("age"), b.integer(5)]);
    let tup = b.call("tuple", vec![pair]);
    let e = b.call("get", vec![b.atom("name"), tup]);
    match check(&e) {
        Err(CheckErrors::NoSuchTupleField(field, signature)) => {
            assert_eq!(field, "name");
            assert_eq!(signature.fields.len(), 1);
            assert_eq!(signature.fields[0].0, "age");
        }
        _ => panic!("expected the field to be missing"),
    }
}

#[test]
fn tuple_get_on_optional_tuple_wraps_field_type() {
    let b = Builder::new();
    let e = b.call("get", vec![b.atom("name"), b.atom("record")]);
    let record_type = TypeSignature::OptionalType(Box::new(TypeSignature::TupleType(
        TupleTypeSignature {
            fields: vec![("name".to_string(), TypeSignature::IntType)],
        },
    )));
    let mut context = TypingContext::new();
    context.add_binding("record".to_string(), record_type);
    let mut checker = empty_checker();
    match checker.type_check(&e, &context) {
        Ok(TypeSignature::OptionalType(inner)) => {
            assert!(matches!(*inner, TypeSignature::IntType))
        }
        _ => panic!("expected an optional field type"),
    }
}

#[test]
fn tuple_rejects_duplicate_field_names() {
    let b = Builder::new();
    let p1 = b.list(vec![b.atom("f"), b.integer(1)]);
    let p2 = b.list(vec![b.atom("f"), b.integer(2)]);
    let e = b.call("tuple", vec![p1, p2]);
    assert!(matches!(check(&e), Err(CheckErrors::BadTupleConstruction)));
}

#[test]
fn tuple_get_on_non_tuple_reports_shape() {
    let b = Builder::new();
    let e = b.call("get", vec![b.atom("name"), b.integer(3)]);
    assert!(matches!(check(&e), Err(CheckErrors::ExpectedTuple(TypeSignature::IntType))));
}

#[test]
fn set_var_accepts_admitted_not_identical_type() {
    let b = Builder::new();
    let e = b.call("set-var!", vec![b.atom("cursor"), b.buffer(3)]);
    let mut cc = ContractContext::new();
    cc.add_persisted_variable("cursor".to_string(), TypeSignature::BufferType(5));
    let mut checker = TypeChecker::new(cc, AnalysisDatabase::new());
    let context = TypingContext::new();
    assert!(matches!(
        checker.type_check(&e, &context),
        Ok(TypeSignature::BoolType)
    ));
}

#[test]
fn set_var_rejects_unadmitted_type() {
    let b = Builder::new();
    let e = b.call("set-var!", vec![b.atom("cursor"), b.buffer(9)]);
    let mut cc = ContractContext::new();
    cc.add_persisted_variable("cursor".to_string(), TypeSignature::BufferType(5));
    let mut checker = TypeChecker::new(cc, AnalysisDatabase::new());
    let context = TypingContext::new();
    match checker.type_check(&e, &context) {
        Err(e) => match e.err {
            CheckErrors::TypeError(expected, actual) => {
                assert!(matches!(expected, TypeSignature::BufferType(5)));
                assert!(matches!(actual, TypeSignature::BufferType(9)));
            }
            _ => panic!("expected a type mismatch"),
        },
        Ok(_) => panic!("expected a type mismatch"),
    }
}

#[test]
fn fetch_var_returns_declared_type() {
    let b = Builder::new();
    let e = b.call("fetch-var!", vec![b.atom("cursor")]);
    let mut cc = ContractContext::new();
    cc.add_persisted_variable("cursor".to_string(), TypeSignature::BufferType(5));
    let mut checker = TypeChecker::new(cc, AnalysisDatabase::new());
    let context = TypingContext::new();
    assert!(matches!(
        checker.type_check(&e, &context),
        Ok(TypeSignature::BufferType(5))
    ));
}

#[test]
fn fetch_var_unknown_names_variable() {
    let b = Builder::new();
    let e = b.call("fetch-var!", vec![b.atom("ghostly")]);
    match check(&e) {
        Err(CheckErrors::NoSuchVariable(name)) => assert_eq!(name, "ghostly"),
        _ => panic!("expected the variable to be unknown"),
    }
}

#[test]
fn equals_zero_arguments_is_arity_error() {
    let b = Builder::new();
    let e = b.call("eq?", vec![]);
    assert!(matches!(check(&e), Err(CheckErrors::RequiresAtLeastArguments(1, 0))));
}

#[test]
fn equals_single_argument_yields_bool() {
    let b = Builder::new();
    let e = b.call("eq?", vec![b.integer(1)]);
    assert!(matches!(check(&e), Ok(TypeSignature::BoolType)));
}

#[test]
fn equals_compatible_arguments_yield_bool() {
    let b = Builder::new();
    let e = b.call("eq?", vec![b.buffer(2), b.buffer(4), b.buffer(1)]);
    assert!(matches!(check(&e), Ok(TypeSignature::BoolType)));
}

#[test]
fn equals_incompatible_arguments_name_first_pair() {
    let b = Builder::new();
    let e = b.call("eq?", vec![b.integer(1), b.boolean(true)]);
    match check(&e) {
        Err(CheckErrors::TypeError(x, y)) => {
            assert!(matches!(x, TypeSignature::BoolType));
            assert!(matches!(y, TypeSignature::IntType));
        }
        _ => panic!("expected the pair to be incompatible"),
    }
}

#[test]
fn list_cons_builds_minimal_list_type() {
    let b = Builder::new();
    let e = b.call("list", vec![b.integer(1), b.integer(2), b.integer(3)]);
    match check(&e) {
        Ok(TypeSignature::ListType(elem, 3)) => assert!(matches!(*elem, TypeSignature::IntType)),
        _ => panic!("expected a three-element integer list type"),
    }
}

#[test]
fn list_cons_incompatible_elements() {
    let b = Builder::new();
    let e = b.call("list", vec![b.integer(1), b.boolean(true)]);
    assert!(matches!(check(&e), Err(CheckErrors::ListTypesMustMatch)));
}

#[test]
fn list_cons_empty_is_unclassified_failure() {
    let b = Builder::new();
    let e = b.call("list", vec![]);
    assert!(matches!(check(&e), Err(CheckErrors::UnknownListConstructionFailure)));
}

#[test]
fn begin_yields_last_type() {
    let b = Builder::new();
    let e = b.call("begin", vec![b.integer(1), b.boolean(true)]);
    assert!(matches!(check(&e), Ok(TypeSignature::BoolType)));
}

#[test]
fn print_and_as_contract_pass_through() {
    let b = Builder::new();
    let p = b.call("print", vec![b.buffer(7)]);
    assert!(matches!(check(&p), Ok(TypeSignature::BufferType(7))));
    let b2 = Builder::new();
    let a = b2.call("as-contract", vec![b2.integer(4)]);
    assert!(matches!(check(&a), Ok(TypeSignature::IntType)));
}

#[test]
fn arithmetic_and_comparisons() {
    let b = Builder::new();
    let sum = b.call("+", vec![b.integer(1), b.integer(2), b.integer(3)]);
    assert!(matches!(check(&sum), Ok(TypeSignature::IntType)));
    let b2 = Builder::new();
    let cmp = b2.call("<", vec![b2.integer(1), b2.integer(2)]);
    assert!(matches!(check(&cmp), Ok(TypeSignature::BoolType)));
    let b3 = Builder::new();
    let bad = b3.call("+", vec![b3.boolean(true)]);
    assert!(matches!(check(&bad), Err(CheckErrors::TypeError(_, _))));
    let b4 = Builder::new();
    let modulo = b4.call("mod", vec![b4.integer(1)]);
    assert!(matches!(check(&modulo), Err(CheckErrors::IncorrectArgumentCount(2, 1))));
}

#[test]
fn boolean_operators_and_hashing() {
    let b = Builder::new();
    let neg = b.call("not", vec![b.boolean(true)]);
    assert!(matches!(check(&neg), Ok(TypeSignature::BoolType)));
    let b2 = Builder::new();
    let bad = b2.call("not", vec![b2.integer(1)]);
    assert!(matches!(check(&bad), Err(CheckErrors::TypeError(_, _))));
    let b3 = Builder::new();
    let digest = b3.call("sha256", vec![b3.integer(1)]);
    assert!(matches!(check(&digest), Ok(TypeSignature::BufferType(32))));
    let b4 = Builder::new();
    let short = b4.call("hash160", vec![b4.buffer(10)]);
    assert!(matches!(check(&short), Ok(TypeSignature::BufferType(20))));
    let b5 = Builder::new();
    let wrong = b5.call("sha256", vec![b5.boolean(true)]);
    assert!(matches!(check(&wrong), Err(CheckErrors::UnionTypeError(_, _))));
}

fn registry_database() -> AnalysisDatabase {
    let combine = FunctionType::Fixed(FixedFunction {
        args: vec![int_arg("x"), int_arg("y")],
        returns: TypeSignature::IntType,
    });
    let peek = FunctionType::Fixed(FixedFunction {
        args: vec![],
        returns: TypeSignature::BoolType,
    });
    AnalysisDatabase {
        contracts: vec![ContractAnalysis {
            name: "registry".to_string(),
            public_function_types: vec![("combine".to_string(), combine)],
            read_only_function_types: vec![("peek".to_string(), peek)],
        }],
    }
}

#[test]
fn contract_call_resolves_public_function() {
    let b = Builder::new();
    let e = b.call(
        "contract-call!",
        vec![b.atom("registry"), b.atom("combine"), b.integer(1), b.integer(2)],
    );
    let mut checker = TypeChecker::new(ContractContext::new(), registry_database());
    let context = TypingContext::new();
    assert!(matches!(
        checker.type_check(&e, &context),
        Ok(TypeSignature::IntType)
    ));
}

#[test]
fn contract_call_falls_back_to_read_only() {
    let b = Builder::new();
    let e = b.call("contract-call!", vec![b.atom("registry"), b.atom("peek")]);
    let mut checker = TypeChecker::new(ContractContext::new(), registry_database());
    let context = TypingContext::new();
    assert!(matches!(
        checker.type_check(&e, &context),
        Ok(TypeSignature::BoolType)
    ));
}

#[test]
fn contract_call_unknown_function_names_both() {
    let b = Builder::new();
    let e = b.call("contract-call!", vec![b.atom("registry"), b.atom("vanish")]);
    let mut checker = TypeChecker::new(ContractContext::new(), registry_database());
    let context = TypingContext::new();
    match checker.type_check(&e, &context) {
        Err(e) => match e.err {
            CheckErrors::NoSuchPublicFunction(contract, function) => {
                assert_eq!(contract, "registry");
                assert_eq!(function, "vanish");
            }
            _ => panic!("expected the function to be missing"),
        },
        Ok(_) => panic!("expected the function to be missing"),
    }
}

#[test]
fn contract_call_wrong_arity_uses_callee_signature() {
    let b = Builder::new();
    let e = b.call(
        "contract-call!",
        vec![b.atom("registry"), b.atom("combine"), b.integer(1)],
    );
    let mut checker = TypeChecker::new(ContractContext::new(), registry_database());
    let context = TypingContext::new();
    match checker.type_check(&e, &context) {
        Err(e) => assert!(matches!(e.err, CheckErrors::IncorrectArgumentCount(2, 1))),
        Ok(_) => panic!("expected an arity error"),
    }
}

#[test]
fn contract_call_unknown_contract() {
    let b = Builder::new();
    let e = b.call("contract-call!", vec![b.atom("nowhere"), b.atom("combine")]);
    let mut checker = TypeChecker::new(ContractContext::new(), registry_database());
    let context = TypingContext::new();
    match checker.type_check(&e, &context) {
        Err(e) => match e.err {
            CheckErrors::NoSuchContract(name) => assert_eq!(name, "nowhere"),
            _ => panic!("expected the contract to be unknown"),
        },
        Ok(_) => panic!("expected the contract to be unknown"),
    }
}

#[test]
fn get_block_info_time_is_int() {
    let b = Builder::new();
    let e = b.call("get-block-info", vec![b.atom("time"), b.integer(1)]);
    assert!(matches!(check(&e), Ok(TypeSignature::IntType)));
}

#[test]
fn get_block_info_header_hash_is_buffer() {
    let b = Builder::new();
    let e = b.call("get-block-info", vec![b.atom("header-hash"), b.integer(1)]);
    assert!(matches!(check(&e), Ok(TypeSignature::BufferType(32))));
}

#[test]
fn get_block_info_unknown_property() {
    let b = Builder::new();
    let e = b.call("get-block-info", vec![b.atom("weather"), b.integer(1)]);
    match check(&e) {
        Err(CheckErrors::NoSuchBlockInfoProperty(name)) => assert_eq!(name, "weather"),
        _ => panic!("expected the property to be unknown"),
    }
}

#[test]
fn get_block_info_height_must_be_int() {
    let b = Builder::new();
    let e = b.call("get-block-info", vec![b.atom("time"), b.boolean(true)]);
    assert!(matches!(check(&e), Err(CheckErrors::TypeError(_, _))));
}

#[test]
fn unknown_operator_and_bad_application() {
    let b = Builder::new();
    let e = b.call("warble", vec![b.integer(1)]);
    match check(&e) {
        Err(CheckErrors::UnknownFunction(name)) => assert_eq!(name, "warble"),
        _ => panic!("expected the operator to be unknown"),
    }
    let b2 = Builder::new();
    let empty = b2.list(vec![]);
    assert!(matches!(check(&empty), Err(CheckErrors::NonFunctionApplication)));
}

#[test]
fn unknown_variable_reference() {
    let b = Builder::new();
    let e = b.atom("drifter");
    match check(&e) {
        Err(CheckErrors::UndefinedVariable(name)) => assert_eq!(name, "drifter"),
        _ => panic!("expected the variable to be unknown"),
    }
}

#[test]
fn rechecking_identical_input_is_deterministic() {
    let b = Builder::new();
    let gt = b.call(">", vec![b.integer(1), b.integer(2)]);
    let e = b.call("if", vec![gt, b.integer(10), b.integer(20)]);
    let first = check(&e);
    let second = check(&e);
    match (first, second) {
        (Ok(TypeSignature::IntType), Ok(TypeSignature::IntType)) => {}
        _ => panic!("expected both passes to agree on Int"),
    }
    let b2 = Builder::new();
    let bad = b2.call("if", vec![b2.boolean(true), b2.integer(1), b2.boolean(false)]);
    let e1 = check(&bad);
    let e2 = check(&bad);
    match (e1, e2) {
        (Err(CheckErrors::IfArmsMustMatch(_, _)), Err(CheckErrors::IfArmsMustMatch(_, _))) => {}
        _ => panic!("expected both passes to agree on the failure"),
    }
}

#[test]
fn type_map_records_values_and_no_value_markers() {
    let b = Builder::new();
    let field = b.atom("name");
    let field_id = field.id;
    let pair = b.list(vec![field, b.integer(1)]);
    let tup = b.call("tuple", vec![pair]);
    let root_id = tup.id;
    let mut checker = empty_checker();
    let context = TypingContext::new();
    let r = checker.type_check(&tup, &context);
    assert!(matches!(r, Ok(TypeSignature::TupleType(_))));
    let root_probe = SymbolicExpression::atom(root_id, "probe".to_string());
    match checker.type_map.get_type(&root_probe) {
        Some(TypeAnnotation::ValueType(TypeSignature::TupleType(_))) => {}
        _ => panic!("expected the root to be annotated with its type"),
    }
    let field_probe = SymbolicExpression::atom(field_id, "probe".to_string());
    match checker.type_map.get_type(&field_probe) {
        Some(TypeAnnotation::NoValue) => {}
        _ => panic!("expected the field name to carry the no-value marker"),
    }
    let unvisited_probe = SymbolicExpression::atom(9999, "probe".to_string());
    assert!(checker.type_map.get_type(&unvisited_probe).is_none());
}

#[test]
fn admits_is_order_insensitive_for_tuples() {
    let first = TypeSignature::TupleType(TupleTypeSignature {
        fields: vec![
            ("a".to_string(), TypeSignature::IntType),
            ("b".to_string(), TypeSignature::BoolType),
        ],
    });
    let second = TypeSignature::TupleType(TupleTypeSignature {
        fields: vec![
            ("b".to_string(), TypeSignature::BoolType),
            ("a".to_string(), TypeSignature::IntType),
        ],
    });
    assert!(first.admits_type(&second));
    assert!(second.admits_type(&first));
}

#[test]
fn admits_buffer_and_list_lengths() {
    let wide = TypeSignature::BufferType(5);
    let narrow = TypeSignature::BufferType(3);
    assert!(wide.admits_type(&narrow));
    assert!(!narrow.admits_type(&wide));
    let long = TypeSignature::ListType(Box::new(TypeSignature::IntType), 4);
    let short = TypeSignature::ListType(Box::new(TypeSignature::IntType), 2);
    assert!(long.admits_type(&short));
    assert!(!short.admits_type(&long));
}

#[test]
fn most_admissive_picks_the_wider_type() {
    let wide = TypeSignature::BufferType(5);
    let narrow = TypeSignature::BufferType(3);
    match TypeSignature::most_admissive(narrow, wide) {
        Ok(TypeSignature::BufferType(5)) => {}
        _ => panic!("expected the wider buffer"),
    }
    match TypeSignature::most_admissive(TypeSignature::IntType, TypeSignature::BoolType) {
        Err((TypeSignature::IntType, TypeSignature::BoolType)) => {}
        _ => panic!("expected no common type"),
    }
}

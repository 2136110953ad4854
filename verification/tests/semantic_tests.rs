use sigmac::ast::BinOp;
use sigmac::ast::Type;
use sigmac::chunker::chunker;
use sigmac::compiler::compile;
use sigmac::parser::parse;
use sigmac::semantic::SymbolTable;
use sigmac::semantic::analyze_program;
use sigmac::semantic::check_binary_op;
use sigmac::tokenizer::tokenizer;

fn analyze_src(src: &str) -> Result<(), String> {
    analyze_program(&parse(tokenizer(chunker(src))).unwrap())
}

#[test]
fn arithmetic_promotes_to_highest_rank() {
    assert_eq!(
        check_binary_op(&Type::Based, &BinOp::Add, &Type::Based),
        Ok(Type::Based)
    );
    assert_eq!(
        check_binary_op(&Type::Based, &BinOp::Mul, &Type::SuperBased),
        Ok(Type::SuperBased)
    );
    assert_eq!(
        check_binary_op(&Type::SuperBased, &BinOp::Sub, &Type::Based),
        Ok(Type::SuperBased)
    );
    assert_eq!(
        check_binary_op(&Type::Chill, &BinOp::Div, &Type::SuperBased),
        Ok(Type::Chill)
    );
    assert_eq!(
        check_binary_op(&Type::Based, &BinOp::Add, &Type::Chill),
        Ok(Type::Chill)
    );
}

#[test]
fn arithmetic_rejects_non_numeric_operands() {
    assert!(check_binary_op(&Type::Vibes, &BinOp::Add, &Type::Based).is_err());
    assert!(check_binary_op(&Type::Based, &BinOp::Mul, &Type::Chad).is_err());
}

#[test]
fn equality_demands_matching_types() {
    assert_eq!(
        check_binary_op(&Type::Based, &BinOp::Equal, &Type::Based),
        Ok(Type::Based)
    );
    assert_eq!(
        check_binary_op(&Type::Vibes, &BinOp::NotEqual, &Type::Vibes),
        Ok(Type::Based)
    );
    let e = check_binary_op(&Type::Based, &BinOp::Equal, &Type::SuperBased).unwrap_err();
    assert_eq!(e, "Cannot compare 'based' and 'superBased': types must match");
}

#[test]
fn relational_comparison_rejects_non_numeric() {
    assert_eq!(
        check_binary_op(&Type::Based, &BinOp::Less, &Type::SuperBased),
        Ok(Type::Based)
    );
    let e = check_binary_op(&Type::Vibes, &BinOp::GreaterEq, &Type::Based).unwrap_err();
    assert_eq!(
        e,
        "Invalid comparison GreaterEq between 'vibes' and 'based': both must be numeric types!"
    );
}

#[test]
fn valid_program_passes() {
    assert!(analyze_src("bussin based sigma() { based x slay 2 + 3 * 4; yeet x; }").is_ok());
}

#[test]
fn undeclared_variable_is_an_error() {
    let e = analyze_src("bussin based sigma() { yeet y; }").unwrap_err();
    assert_eq!(e, "Variable 'y' not declared");
}

#[test]
fn undeclared_assignment_target_is_an_error() {
    let e = analyze_src("bussin based sigma() { x slay 1; yeet 0; }").unwrap_err();
    assert_eq!(e, "Variable 'x' not declared");
}

#[test]
fn redeclaration_in_same_scope_is_an_error() {
    let e = analyze_src("bussin based sigma() { based x slay 1; based x slay 2; yeet x; }")
        .unwrap_err();
    assert_eq!(e, "Variable 'x' already declared in this scope");
}

#[test]
fn shadowing_in_nested_scope_is_permitted() {
    assert!(
        analyze_src(
            "bussin based sigma() { based x slay 1; ong 1 { based x slay 2; flex x; } yeet x; }"
        )
        .is_ok()
    );
}

#[test]
fn inner_declaration_does_not_leak_out() {
    let e = analyze_src("bussin based sigma() { ong 1 { based y slay 1; } yeet y; }").unwrap_err();
    assert_eq!(e, "Variable 'y' not declared");
}

#[test]
fn declaration_type_must_match_exactly() {
    let e = analyze_src("bussin based sigma() { based x slay 3000000000; yeet x; }").unwrap_err();
    assert_eq!(
        e,
        "Type mismatch in variable declaration 'x': expected based, got superBased"
    );
}

#[test]
fn assignment_type_must_match_exactly() {
    let e = analyze_src("bussin based sigma() { based x slay 1; x slay \"hi\"; yeet x; }")
        .unwrap_err();
    assert_eq!(e, "Type mismatch in assignment to 'x': expected based, got vibes");
}

#[test]
fn return_type_must_match() {
    let e = analyze_src("bussin based sigma() { yeet \"hi\"; }").unwrap_err();
    assert_eq!(e, "Return mismatch: expected 'based', got vibes");
}

#[test]
fn bare_return_only_in_void_function() {
    assert!(analyze_src("bussin ghost sigma() { yeet; }").is_ok());
    let e = analyze_src("bussin based sigma() { yeet; }").unwrap_err();
    assert_eq!(
        e,
        "Function must return based, but return statement has no return value"
    );
}

#[test]
fn parameters_are_declared_in_the_function_scope() {
    assert!(
        analyze_src("bussin based addup(based a, based b) { yeet a + b; } bussin based sigma() { yeet 0; }")
            .is_ok()
    );
}

#[test]
fn duplicate_parameter_names_are_an_error() {
    let e = analyze_src("bussin based f(based a, based a) { yeet a; } bussin based sigma() { yeet 0; }")
        .unwrap_err();
    assert_eq!(e, "Variable 'a' already declared in this scope");
}

#[test]
fn print_accepts_any_well_typed_expression() {
    assert!(analyze_src("bussin ghost sigma() { flex \"hi\"; flex 1 + 2; flex 'c'; }").is_ok());
}

#[test]
fn break_passes_semantic_analysis_even_outside_a_loop() {
    // the loop-nesting check is deliberately left to the code generator
    assert!(analyze_src("bussin ghost sigma() { ohio; }").is_ok());
    let e = compile("bussin ghost sigma() { ohio; }").unwrap_err();
    assert_eq!(e, "Break outside of a loop");
}

#[test]
fn symbol_table_scopes_and_lookup() {
    let mut table = SymbolTable::new();
    table.declare("x".to_string(), Type::Based, 0).unwrap();
    table.enter_scope();
    table.declare("x".to_string(), Type::Vibes, 0).unwrap();
    assert_eq!(table.lookup("x").unwrap().tipo, Type::Vibes);
    table.exit_scope();
    assert_eq!(table.lookup("x").unwrap().tipo, Type::Based);
    assert!(table.lookup("y").is_none());
}

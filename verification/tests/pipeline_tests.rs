use sigmac::compiler::compile;
use sigmac::numerals::dec_i64;
use sigmac::numerals::dec_u64;
use sigmac::numerals::parse_i64_chars;

#[test]
fn arithmetic_precedence_computes_the_product_first() {
    let out = compile("bussin based sigma() { based x slay 2 + 3 * 4; yeet x; }").unwrap();
    let expected = "  li a0, 2\n  addi sp, sp, -4\n  sw a0, 0(sp)\n  li a0, 3\n  addi sp, sp, -4\n  sw a0, 0(sp)\n  li a0, 4\n  lw a1, 0(sp)\n  addi sp, sp, 4\n  mul a0, a1, a0\n  lw a1, 0(sp)\n  addi sp, sp, 4\n  add a0, a1, a0\n";
    assert!(out.contains(expected));
    assert!(out.find("  mul a0, a1, a0").unwrap() < out.find("  add a0, a1, a0").unwrap());
}

#[test]
fn printing_a_string_literal_selects_the_string_helper() {
    let out = compile("bussin ghost sigma() { flex \"hi\"; }").unwrap();
    assert!(out.contains("  call print_string\n"));
    assert!(!out.contains("  call print_int\n"));
}

#[test]
fn printing_a_string_variable_selects_the_string_helper() {
    let out = compile("bussin ghost sigma() { vibes s slay \"hey\"; flex s; }").unwrap();
    assert!(out.contains("  call print_string\n"));
}

#[test]
fn printing_an_integer_expression_selects_the_integer_helper() {
    let out = compile("bussin ghost sigma() { flex 1 + 2; }").unwrap();
    assert!(out.contains("  call print_int\n"));
    assert!(!out.contains("  call print_string\n"));
}

#[test]
fn while_loop_wiring_has_one_start_one_end_and_a_guard() {
    let out = compile(
        "bussin based sigma() { based i slay 0; mewing (i < 3) { flex i; i slay i + 1; } yeet 0; }",
    )
    .unwrap();
    // exactly one definition of each loop label
    assert_eq!(out.matches(".Lwhile_start_0:\n").count(), 1);
    assert_eq!(out.matches(".Lwhile_end_1:\n").count(), 1);
    // guard: branch to the end label when the condition is zero
    assert!(out.contains("  beqz a0, .Lwhile_end_1\n"));
    // back edge to the start label
    assert!(out.contains("  j .Lwhile_start_0\n"));
    // the `<` comparison lowers through signed-less-than
    assert!(out.contains("  slt a0, a1, a0\n"));
    assert!(out.contains("  call print_int\n"));
}

#[test]
fn break_outside_any_loop_is_rejected_by_code_generation() {
    let e = compile("bussin based sigma() { ohio; yeet 0; }").unwrap_err();
    assert_eq!(e, "Break outside of a loop");
}

#[test]
fn for_loop_lowers_init_guard_body_increment() {
    let out = compile(
        "bussin ghost sigma() { sixSeven based i slay 0; i < 2; i slay i + 1; { flex i; } }",
    )
    .unwrap();
    assert!(out.contains(".Lfor_start_0:\n"));
    assert!(out.contains("  beqz a0, .Lfor_end_1\n"));
    assert!(out.contains("  j .Lfor_start_0\n"));
    assert!(out.contains(".Lfor_end_1:\n"));
}

#[test]
fn if_else_lowers_with_two_labels() {
    let out =
        compile("bussin ghost sigma() { ong 1 { flex 1; } nah { flex 2; } }").unwrap();
    assert!(out.contains("  beqz a0, .Lelse_0\n"));
    assert!(out.contains("  j .Lend_if_1\n"));
    assert!(out.contains(".Lelse_0:\n"));
    assert!(out.contains(".Lend_if_1:\n"));
}

#[test]
fn character_literals_lower_to_their_code_points() {
    let out = compile("bussin ghost sigma() { chad c slay 'A'; flex c; }").unwrap();
    assert!(out.contains("  li a0, 65\n"));
}

#[test]
fn the_first_failing_stage_reports_its_error() {
    // parse error before semantic analysis
    assert_eq!(
        compile("bussin based sigma() { yeet 1 }").unwrap_err(),
        "Expected ';' after return statement"
    );
    // semantic error before code generation
    assert_eq!(
        compile("bussin based sigma() { yeet y; }").unwrap_err(),
        "Variable 'y' not declared"
    );
}

#[test]
fn compiling_twice_yields_identical_text() {
    let src = "bussin based sigma() { based i slay 0; mewing (i < 3) { flex i; i slay i + 1; } yeet i; }";
    assert_eq!(compile(src).unwrap(), compile(src).unwrap());
}

#[test]
fn decimal_rendering_is_exact() {
    assert_eq!(dec_u64(0), "0");
    assert_eq!(dec_u64(10), "10");
    assert_eq!(dec_u64(18446744073709551615), "18446744073709551615");
    assert_eq!(dec_i64(-5), "-5");
    assert_eq!(dec_i64(i64::MIN), "-9223372036854775808");
    assert_eq!(dec_i64(i64::MAX), "9223372036854775807");
}

#[test]
fn integer_reading_matches_the_standard_parser() {
    let cases = [
        "0", "123", "-123", "+12", "-9223372036854775808", "9223372036854775807",
        "9223372036854775808", "-9223372036854775809", "12a", "", "+", "-", "007",
    ];
    for c in cases {
        let chars: Vec<char> = c.chars().collect();
        assert_eq!(parse_i64_chars(&chars), c.parse::<i64>().ok(), "case {:?}", c);
    }
}

#[test]
fn empty_source_has_no_main_function() {
    assert_eq!(
        compile("").unwrap_err(),
        "Program must have at least one 'bussin sigma()' function"
    );
}

#[test]
fn break_inside_a_for_loop_targets_its_exit_label() {
    let out = compile(
        "bussin ghost sigma() { sixSeven based i slay 0; i < 2; i slay i + 1; { ohio; } }",
    )
    .unwrap();
    assert!(out.contains("  j .Lfor_end_1\n"));
}

#[test]
fn void_keyword_cannot_start_a_declaration() {
    assert_eq!(
        compile("bussin ghost sigma() { ghost x slay 1; }").unwrap_err(),
        "Unexpected token in body: ghost"
    );
}

#[test]
fn if_at_the_end_of_a_function_needs_no_else() {
    assert!(compile("bussin ghost sigma() { ong 1 { flex 1; } }").is_ok());
}

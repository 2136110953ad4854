use sigmac::ast::Expression;
use sigmac::ast::Function;
use sigmac::ast::Program;
use sigmac::ast::Statement;
use sigmac::ast::Type;
use sigmac::compiler::compile;
use sigmac::context::CodeGenContext;
use sigmac::riscv::generate_riscv;
use sigmac::riscv::type_to_string;

#[test]
fn string_literal_labels_are_sequential_without_reuse() {
    let mut ctx = CodeGenContext::new();
    assert_eq!(ctx.add_string_literal("hi".to_string()), "str_0");
    assert_eq!(ctx.add_string_literal("hi".to_string()), "str_1");
    assert_eq!(ctx.add_string_literal("other".to_string()), "str_2");
    assert_eq!(ctx.string_literals.len(), 3);
}

#[test]
fn identical_literals_get_their_own_data_entries() {
    let out = compile("bussin ghost sigma() { flex \"x\"; flex \"x\"; }").unwrap();
    assert!(out.contains("str_0: .asciz \"x\"\n"));
    assert!(out.contains("str_1: .asciz \"x\"\n"));
    assert!(out.contains("  la a0, str_0\n"));
    assert!(out.contains("  la a0, str_1\n"));
}

#[test]
fn control_flow_labels_are_unique_and_sequential() {
    let mut ctx = CodeGenContext::new();
    assert_eq!(ctx.generate_label(".Lelse"), ".Lelse_0");
    assert_eq!(ctx.generate_label(".Lend_if"), ".Lend_if_1");
    assert_eq!(ctx.label_counter, 2);
}

#[test]
fn variable_slots_are_sequential_four_byte_offsets() {
    let mut ctx = CodeGenContext::new();
    assert_eq!(ctx.allocate_variable("a".to_string(), Type::Based), 0);
    assert_eq!(ctx.allocate_variable("b".to_string(), Type::Vibes), 4);
    assert_eq!(ctx.allocate_variable("c".to_string(), Type::Based), 8);
    assert_eq!(ctx.get_variable_offset("b"), Some(4));
    assert_eq!(ctx.get_variable_offset("nope"), None);
    assert_eq!(ctx.get_variable_type("b"), Some(&Type::Vibes));
    assert!(ctx.get_variable_type("nope").is_none());
}

#[test]
fn loop_stack_is_last_in_first_out() {
    let mut ctx = CodeGenContext::new();
    assert!(ctx.current_loop_end().is_none());
    ctx.enter_loop("outer".to_string());
    ctx.enter_loop("inner".to_string());
    assert_eq!(ctx.current_loop_end().unwrap(), "inner");
    ctx.exit_loop();
    assert_eq!(ctx.current_loop_end().unwrap(), "outer");
    ctx.exit_loop();
    assert!(ctx.current_loop_end().is_none());
}

#[test]
fn void_function_zeroes_a0_before_the_epilogue() {
    let out = compile("bussin ghost sigma() { flex 1; }").unwrap();
    assert!(out.contains("  # epilogue\n  li a0, 0\n  lw ra, "));
}

#[test]
fn non_void_function_has_no_default_zero() {
    let out = compile("bussin based sigma() { yeet 7; }").unwrap();
    assert!(!out.contains("  # epilogue\n  li a0, 0\n"));
}

#[test]
fn break_jumps_to_the_innermost_loop_exit() {
    let out = compile("bussin ghost sigma() { mewing 1 { mewing 1 { ohio; } } }").unwrap();
    // outer loop labels use counters 0 and 1, inner 2 and 3
    assert!(out.contains(".Lwhile_end_1:\n"));
    assert!(out.contains(".Lwhile_end_3:\n"));
    assert!(out.contains("  j .Lwhile_end_3\n"));
    assert!(!out.contains("  j .Lwhile_end_1\n"));
}

#[test]
fn break_outside_a_loop_is_a_generator_error() {
    let program = Program {
        functions: vec![Function {
            name: "sigma".to_string(),
            return_type: Type::Void,
            parameters: vec![],
            body: vec![Statement::Break],
        }],
    };
    assert_eq!(generate_riscv(&program).unwrap_err(), "Break outside of a loop");
}

#[test]
fn undeclared_variable_at_lowering_is_a_generator_error() {
    let program = Program {
        functions: vec![Function {
            name: "sigma".to_string(),
            return_type: Type::Void,
            parameters: vec![],
            body: vec![Statement::Assignment {
                name: "x".to_string(),
                value: Expression::Integer(1),
            }],
        }],
    };
    assert_eq!(generate_riscv(&program).unwrap_err(), "Variable 'x' not found");
}

#[test]
fn floating_literal_fails_cleanly_at_lowering() {
    let e = compile("bussin based sigma() { chill x slay 1.5; yeet 0; }").unwrap_err();
    assert_eq!(e, "Floating-point literals are not supported by the code generator");
}

#[test]
fn wide_literal_is_truncated_to_32_bits() {
    let out = compile("bussin based sigma() { superBased x slay 4294967299; yeet 0; }").unwrap();
    assert!(out.contains("  li a0, 3\n"));
}

#[test]
fn frame_size_counts_locals_params_ra_and_spill_slots() {
    // one local, no parameters, expression depth 2 (+4 margin): 1*4 + 4 + 6*4 = 32
    let out = compile("bussin based sigma() { based x slay 2 + 3 * 4; yeet x; }").unwrap();
    assert!(out.contains("  addi sp, sp, -32\n"));
    assert!(out.contains("  sw ra, 28(s0)\n"));
    assert!(out.contains("  addi sp, sp, 32\n"));
}

#[test]
fn parameters_are_stored_from_argument_registers() {
    let out = compile(
        "bussin based addup(based a, based b) { yeet a + b; } bussin based sigma() { yeet 0; }",
    )
    .unwrap();
    assert!(out.contains("  sw a0, 0(s0) # param a\n"));
    assert!(out.contains("  sw a1, 4(s0) # param b\n"));
}

#[test]
fn module_has_entry_point_and_data_section() {
    let out = compile("bussin based sigma() { yeet 0; }").unwrap();
    assert!(out.starts_with("# Target: RISC-V RV32IM Linux\n\n.text\n.global _start\n\n_start:\ncall sigma\nli a7, 93\necall\n\n"));
    assert!(out.contains("\n.data\n"));
    assert!(out.contains(".Lnewline: .asciz \"\\n\"\n"));
    assert!(out.contains("print_int:\n"));
    assert!(out.contains("print_string:\n"));
}

#[test]
fn type_keywords_round_trip() {
    assert_eq!(type_to_string(&Type::Based), "based");
    assert_eq!(type_to_string(&Type::SuperBased), "superBased");
    assert_eq!(type_to_string(&Type::Chill), "chill");
    assert_eq!(type_to_string(&Type::Vibes), "vibes");
    assert_eq!(type_to_string(&Type::Chad), "chad");
    assert_eq!(type_to_string(&Type::Void), "ghost");
}

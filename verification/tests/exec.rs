use urcljit::codegen::{compile, CodegenFailure, OpcodeKind};
use urcljit::machine::Machine;
use urcljit::opcodes::Port;
use urcljit::parser::parse;

fn run_source(src: &str, fuel: u64) -> (String, bool) {
    let (ast, header) = parse(src).expect("source should parse");
    let compiled = compile(&ast, &header).expect("source should lower");
    let mut machine = Machine::new(compiled);
    let halted = machine.run(fuel);
    let out: String = machine.ctx.text_io_buffer.iter().collect();
    (out, halted)
}

fn lowering_failure(src: &str) -> CodegenFailure {
    let (ast, header) = parse(src).expect("source should parse");
    compile(&ast, &header).expect_err("lowering should fail")
}

#[test]
fn register_zero_reads_zero_before_any_write() {
    let (out, halted) = run_source("8 4 8 8\nOUT NUMB R0\nHLT\n", 100);
    assert!(halted);
    assert_eq!(out, "0");
}

#[test]
fn register_zero_write_is_a_no_op() {
    let (out, halted) = run_source("8 4 8 8\nIMM R0 7\nOUT NUMB R0\nHLT\n", 100);
    assert!(halted);
    assert_eq!(out, "0");
}

#[test]
fn add_wraps_at_declared_width() {
    // width 8: 255 + 2 wraps to 1
    let (out, halted) = run_source("8 4 8 8\nADD R1 255 2\nOUT NUMB R1\nHLT\n", 100);
    assert!(halted);
    assert_eq!(out, "1");
}

#[test]
fn add_without_overflow_is_exact() {
    let (out, _) = run_source("8 4 8 8\nADD R1 100 27\nOUT NUMB R1\nHLT\n", 100);
    assert_eq!(out, "127");
}

#[test]
fn add_wraps_at_width_sixteen() {
    let (out, _) = run_source("16 4 8 8\nADD R1 65535 3\nOUT NUMB R1\nHLT\n", 100);
    assert_eq!(out, "2");
}

#[test]
fn add_wraps_at_width_sixty_four() {
    // -1 stands for 2^64 - 1; adding 2 wraps to 1
    let (out, _) = run_source("64 4 8 8\nADD R1 -1 2\nOUT NUMB R1\nHLT\n", 100);
    assert_eq!(out, "1");
}

#[test]
fn bnc_branches_when_no_carry() {
    // 100 + 100 = 200 <= 255: branch taken, the X is skipped
    let (out, halted) = run_source(
        "8 4 8 8\nBNC over 100 100\nOUT TEXT 88\n.over\nOUT TEXT 89\nHLT\n",
        100,
    );
    assert!(halted);
    assert_eq!(out, "Y");
}

#[test]
fn bnc_falls_through_when_carry() {
    // 200 + 100 = 300 > 255: branch not taken, both characters print
    let (out, halted) = run_source(
        "8 4 8 8\nBNC over 200 100\nOUT TEXT 88\n.over\nOUT TEXT 89\nHLT\n",
        100,
    );
    assert!(halted);
    assert_eq!(out, "XY");
}

#[test]
fn brc_branches_when_carry() {
    let (out, _) = run_source(
        "8 4 8 8\nBRC over 200 100\nOUT TEXT 88\n.over\nOUT TEXT 89\nHLT\n",
        100,
    );
    assert_eq!(out, "Y");
}

#[test]
fn bge_compares_signed_at_width() {
    // at width 8, 255 stands for -1, so 255 >= 1 signed is false
    let (out, _) = run_source(
        "8 4 8 8\nBGE over 255 1\nOUT TEXT 88\n.over\nOUT TEXT 89\nHLT\n",
        100,
    );
    assert_eq!(out, "XY");
    // and 1 >= -1 signed is true
    let (out, _) = run_source(
        "8 4 8 8\nBGE over 1 255\nOUT TEXT 88\n.over\nOUT TEXT 89\nHLT\n",
        100,
    );
    assert_eq!(out, "Y");
}

#[test]
fn halt_only_program_terminates_with_no_output() {
    let (out, halted) = run_source("8 1 0 0\nHLT\n", 1);
    assert!(halted);
    assert_eq!(out, "");
}

#[test]
fn falling_off_the_end_halts() {
    let (out, halted) = run_source("8 4 8 8\nOUT TEXT 72\n", 100);
    assert!(halted);
    assert_eq!(out, "H");
}

#[test]
fn out_text_appends_exactly_one_character() {
    let (out, _) = run_source("8 4 8 8\nOUT TEXT 72\nOUT TEXT 105\nHLT\n", 100);
    assert_eq!(out, "Hi");
}

#[test]
fn out_text_uses_low_byte_of_value() {
    // 328 mod 256 = 72 = 'H'
    let (out, _) = run_source("16 4 8 8\nOUT TEXT 328\nHLT\n", 100);
    assert_eq!(out, "H");
}

#[test]
fn out_numb_appends_decimal_with_no_separator() {
    let (out, _) = run_source("16 4 8 8\nOUT NUMB 4095\nOUT NUMB 7\nHLT\n", 100);
    assert_eq!(out, "40957");
}

#[test]
fn out_numb_largest_word() {
    let (out, _) = run_source("64 4 8 8\nOUT NUMB -1\nHLT\n", 100);
    assert_eq!(out, "18446744073709551615");
}

#[test]
fn forward_jump_transfers_control() {
    let (out, halted) = run_source(
        "8 4 8 8\nJMP skip\nOUT TEXT 88\n.skip\nOUT TEXT 89\nHLT\n",
        100,
    );
    assert!(halted);
    assert_eq!(out, "Y");
}

#[test]
fn backward_branch_loop_runs_expected_number_of_times() {
    // bodies run with the counter at 0, 1, 2 and 3; after the fourth
    // increment 4 + 252 carries and the loop exits
    let (out, halted) = run_source(
        "8 4 8 8\nIMM R1 0\n.loop\nOUT TEXT 65\nADD R1 R1 1\nBNC loop R1 252\nHLT\n",
        1000,
    );
    assert!(halted);
    assert_eq!(out, "AAAA");
}

#[test]
fn label_declared_between_instructions_is_a_fallthrough_target() {
    let (out, _) = run_source("8 4 8 8\nOUT TEXT 88\n.mid\nOUT TEXT 89\nHLT\n", 100);
    assert_eq!(out, "XY");
}

#[test]
fn mov_and_imm_store_values() {
    let (out, _) = run_source("8 4 8 8\nIMM R1 41\nMOV R2 R1\nADD R2 R2 1\nOUT NUMB R2\nHLT\n", 100);
    assert_eq!(out, "42");
}

#[test]
fn negative_immediate_wraps_to_width() {
    // -5 at width 8 is 251
    let (out, _) = run_source("8 4 8 8\nIMM R1 -5\nOUT NUMB R1\nHLT\n", 100);
    assert_eq!(out, "251");
}

#[test]
fn sub_wraps_below_zero() {
    let (out, _) = run_source("8 4 8 8\nSUB R1 0 1\nOUT NUMB R1\nHLT\n", 100);
    assert_eq!(out, "255");
}

#[test]
fn stack_pointer_is_storage() {
    let (out, _) = run_source("8 4 8 8\nIMM SP 3\nOUT NUMB SP\nHLT\n", 100);
    assert_eq!(out, "3");
}

#[test]
fn out_of_fuel_leaves_machine_running() {
    let (ast, header) = parse("8 4 8 8\n.spin\nJMP spin\n").expect("source should parse");
    let compiled = compile(&ast, &header).expect("source should lower");
    let mut machine = Machine::new(compiled);
    let halted = machine.run(10);
    assert!(!halted);
    assert!(!machine.ctx.terminated);
    // resuming keeps running
    let halted = machine.run(10);
    assert!(!halted);
}

#[test]
fn terminated_flag_set_once_halted() {
    let (ast, header) = parse("8 4 8 8\nHLT\n").expect("source should parse");
    let compiled = compile(&ast, &header).expect("source should lower");
    let mut machine = Machine::new(compiled);
    assert!(!machine.ctx.terminated);
    let halted = machine.run(5);
    assert!(halted);
    assert!(machine.ctx.terminated);
}

#[test]
fn unimplemented_opcode_is_a_typed_failure() {
    let e = lowering_failure("8 4 8 8\nMUL R1 2 3\nHLT\n");
    assert!(matches!(e, CodegenFailure::Unimplemented(OpcodeKind::Mul)));
    let e = lowering_failure("8 4 8 8\nIN R1 TEXT\nHLT\n");
    assert!(matches!(e, CodegenFailure::Unimplemented(OpcodeKind::In)));
}

#[test]
fn unimplemented_port_is_a_typed_failure() {
    let e = lowering_failure("8 4 8 8\nOUT X 5\nHLT\n");
    assert!(matches!(e, CodegenFailure::UnimplementedPort(Port::X)));
}

#[test]
fn computed_jump_is_a_typed_failure() {
    let e = lowering_failure("8 4 8 8\nJMP 5\nHLT\n");
    assert!(matches!(e, CodegenFailure::UnsupportedOperand(OpcodeKind::Jmp)));
}

#[test]
fn label_used_as_value_is_a_typed_failure() {
    let e = lowering_failure("8 4 8 8\n.spot\nADD R1 spot 1\nHLT\n");
    assert!(matches!(e, CodegenFailure::UnsupportedOperand(OpcodeKind::Add)));
}

#[test]
fn undeclared_label_is_a_typed_failure() {
    let e = lowering_failure("8 4 8 8\nJMP nowhere\nHLT\n");
    assert!(matches!(e, CodegenFailure::UnknownLabel(_)));
}

#[test]
fn zero_width_is_a_typed_failure() {
    let e = lowering_failure("0 4 8 8\nHLT\n");
    assert!(matches!(e, CodegenFailure::InvalidWidth(0)));
}

#[test]
fn too_wide_word_is_a_typed_failure() {
    let e = lowering_failure("65 4 8 8\nHLT\n");
    assert!(matches!(e, CodegenFailure::InvalidWidth(65)));
}

#[test]
fn zero_register_count_is_a_typed_failure() {
    let e = lowering_failure("8 0 8 8\nHLT\n");
    assert!(matches!(e, CodegenFailure::InvalidRegisterCount(0)));
}

#[test]
fn register_beyond_declared_count_is_a_typed_failure() {
    let e = lowering_failure("8 2 8 8\nIMM R5 1\nHLT\n");
    assert!(matches!(e, CodegenFailure::RegisterOutOfRange(5)));
}

#[test]
fn duplicate_label_declarations_resolve_to_the_first() {
    let (out, _) = run_source(
        "8 4 8 8\nJMP a\nHLT\n.a\nOUT TEXT 88\nHLT\n.a\nOUT TEXT 89\nHLT\n",
        100,
    );
    assert_eq!(out, "X");
}

#[test]
fn current_instruction_tracks_execution() {
    let (ast, header) = parse("8 4 8 8\nOUT TEXT 72\nOUT TEXT 105\nHLT\n").expect("parses");
    let compiled = compile(&ast, &header).expect("lowers");
    let mut machine = Machine::new(compiled);
    machine.step();
    assert_eq!(machine.ctx.current_instruction, 0);
    machine.step();
    assert_eq!(machine.ctx.current_instruction, 1);
}

use urcljit::opcodes::{HeaderConfig, Instruction, LabelHash, Opcode, Operand, Port, Program,
    Register};
use urcljit::parser::{parse, ParseFailure, ParseFailureKind};

fn parse_failure(src: &str) -> ParseFailure {
    parse(src).expect_err("source should be rejected")
}

#[test]
fn header_is_read_into_the_configuration() {
    let (ast, header) = parse("8 4 16 32\nHLT\n").expect("parses");
    assert_eq!(
        header,
        HeaderConfig { word_width_bits: 8, register_count: 4, stack_size: 16, heap_size: 32 }
    );
    assert_eq!(ast.len(), 1);
}

#[test]
fn instructions_carry_their_operands_and_destination() {
    let (ast, _) = parse("8 4 8 8\nADD R1 R2 -7\n").expect("parses");
    assert_eq!(ast.len(), 1);
    assert_eq!(
        ast[0],
        Program::Instruction(Instruction {
            opcode: Opcode::Add(
                Operand::Register(Register::Gpr(2)),
                Operand::Immediate(-7),
            ),
            yielded: Some(Register::Gpr(1)),
        })
    );
}

#[test]
fn output_instruction_carries_its_port() {
    let (ast, _) = parse("8 4 8 8\nOUT TEXT 72\n").expect("parses");
    assert_eq!(
        ast[0],
        Program::Instruction(Instruction {
            opcode: Opcode::Out(Port::Text, Operand::Immediate(72)),
            yielded: None,
        })
    );
}

#[test]
fn same_label_name_resolves_to_same_identity() {
    // the same textual label, referenced before and after its declaration,
    // gets one identity; a different name gets another
    let (ast, _) = parse("8 4 8 8\nJMP here\n.here\nBNC here 1 2\nJMP there\n.there\n")
        .expect("parses");
    let first = match ast[0] {
        Program::Instruction(Instruction { opcode: Opcode::Jmp(Operand::Label(l)), .. }) => l,
        ref n => panic!("unexpected node {:?}", n),
    };
    let declared = match ast[1] {
        Program::Label(l) => l,
        ref n => panic!("unexpected node {:?}", n),
    };
    let back = match ast[2] {
        Program::Instruction(Instruction { opcode: Opcode::Bnc(l, _, _), .. }) => l,
        ref n => panic!("unexpected node {:?}", n),
    };
    let other = match ast[3] {
        Program::Instruction(Instruction { opcode: Opcode::Jmp(Operand::Label(l)), .. }) => l,
        ref n => panic!("unexpected node {:?}", n),
    };
    assert_eq!(first, declared);
    assert_eq!(first, back);
    assert_ne!(first, other);
    // identities are interned in first-appearance order
    assert_eq!(first, LabelHash(0));
    assert_eq!(other, LabelHash(1));
}

#[test]
fn blank_lines_and_extra_spaces_are_tolerated() {
    let (ast, header) = parse("\n\n  8   4  8 8  \n\n  HLT  \n\n").expect("parses");
    assert_eq!(header.word_width_bits, 8);
    assert_eq!(ast.len(), 1);
}

#[test]
fn unknown_mnemonic_is_a_failure_spanning_the_token() {
    // "8 4 8 8\n" is eight bytes, so FOO spans bytes 8..11
    let e = parse_failure("8 4 8 8\nFOO R1 R2 R3\nHLT\n");
    assert!(matches!(e.kind, ParseFailureKind::UnrecognizedToken { .. }));
    assert_eq!((e.start, e.end), (8, 11));
    if let ParseFailureKind::UnrecognizedToken { expected } = e.kind {
        assert!(expected.mnemonic);
        assert!(expected.label_def);
        assert!(!expected.int);
    }
}

#[test]
fn stray_byte_is_an_invalid_token() {
    let e = parse_failure("8 4 8 8\nADD R1 @ 3\n");
    assert_eq!(e.kind, ParseFailureKind::InvalidToken);
    assert_eq!((e.start, e.end), (15, 16));
}

#[test]
fn non_ascii_byte_is_an_invalid_token() {
    let e = parse_failure("8 4 8 8\nOUT TEXT é\n");
    assert_eq!(e.kind, ParseFailureKind::InvalidToken);
    assert_eq!(e.start, 17);
}

#[test]
fn oversized_integer_literal_is_an_invalid_token() {
    let e = parse_failure("8 4 8 8\nIMM R1 99999999999999999999\n");
    assert_eq!(e.kind, ParseFailureKind::InvalidToken);
    assert_eq!((e.start, e.end), (15, 35));
}

#[test]
fn oversized_register_index_is_an_invalid_token() {
    let e = parse_failure("8 4 8 8\nIMM R300 1\n");
    assert_eq!(e.kind, ParseFailureKind::InvalidToken);
    assert_eq!((e.start, e.end), (12, 16));
}

#[test]
fn missing_operand_at_end_of_input() {
    let e = parse_failure("8 4 8 8\nADD R1 1");
    match e.kind {
        ParseFailureKind::UnexpectedEndOfInput { expected } => {
            assert!(expected.int && expected.minus && expected.reg && expected.sp
                && expected.ident);
        },
        ref k => panic!("unexpected kind {:?}", k),
    }
    // the failure points at the very end of the source
    assert_eq!((e.start, e.end), (16, 16));
}

#[test]
fn missing_operand_at_end_of_line() {
    let e = parse_failure("8 4 8 8\nADD R1 1\nHLT\n");
    assert!(matches!(e.kind, ParseFailureKind::UnrecognizedToken { .. }));
    // the newline after "ADD R1 1" is the offending token
    assert_eq!((e.start, e.end), (16, 17));
}

#[test]
fn short_header_is_rejected() {
    let e = parse_failure("8 4\nHLT\n");
    assert!(matches!(e.kind, ParseFailureKind::UnrecognizedToken { .. }));
}

#[test]
fn negative_header_value_is_rejected() {
    let e = parse_failure("8 -4 8 8\nHLT\n");
    match e.kind {
        ParseFailureKind::UnrecognizedToken { expected } => {
            assert!(expected.int);
            assert!(!expected.minus);
        },
        ref k => panic!("unexpected kind {:?}", k),
    }
}

#[test]
fn extra_token_on_a_line_is_unexpected() {
    let e = parse_failure("8 4 8 8\nHLT 5\n");
    assert_eq!(e.kind, ParseFailureKind::UnexpectedToken);
    assert_eq!((e.start, e.end), (12, 13));
}

#[test]
fn branch_target_must_be_a_label_reference() {
    let e = parse_failure("8 4 8 8\nBNC 5 1 2\n");
    match e.kind {
        ParseFailureKind::UnrecognizedToken { expected } => {
            assert!(expected.ident);
            assert!(!expected.int);
        },
        ref k => panic!("unexpected kind {:?}", k),
    }
}

#[test]
fn out_needs_a_port_name() {
    let e = parse_failure("8 4 8 8\nOUT R1 5\n");
    match e.kind {
        ParseFailureKind::UnrecognizedToken { expected } => {
            assert!(expected.port);
        },
        ref k => panic!("unexpected kind {:?}", k),
    }
}

#[test]
fn dot_without_a_name_is_invalid() {
    let e = parse_failure("8 4 8 8\n.\n");
    assert_eq!(e.kind, ParseFailureKind::InvalidToken);
    assert_eq!((e.start, e.end), (8, 9));
}

#[test]
fn empty_source_is_missing_its_header() {
    let e = parse_failure("");
    assert!(matches!(e.kind, ParseFailureKind::UnexpectedEndOfInput { .. }));
    assert_eq!((e.start, e.end), (0, 0));
}

#[test]
fn all_ports_are_recognized() {
    for port in ["TEXT", "X", "Y", "COLOUR", "NUMB"] {
        let src = format!("8 4 8 8\nOUT {} 1\n", port);
        assert!(parse(&src).is_ok(), "port {} should parse", port);
    }
}

#[test]
fn all_mnemonics_are_recognized() {
    let sources = [
        "ADD R1 1 2", "SUB R1 1 2", "MUL R1 1 2", "DIV R1 1 2", "MOD R1 1 2",
        "NOR R1 1 2", "MOV R1 R2", "IMM R1 7", "RSH R1 R2", "LSH R1 R2", "LOD R1 R2",
        "STR R1 R2", "JMP spot", "BGE spot 1 2", "BRC spot 1 2", "BNC spot 1 2",
        "IN R1 TEXT", "OUT TEXT 1", "HLT",
    ];
    for line in sources {
        let src = format!("8 4 8 8\n.spot\n{}\n", line);
        assert!(parse(&src).is_ok(), "line {:?} should parse", line);
    }
}

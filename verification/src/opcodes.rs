//! The shared program model: registers, operands, label identities, ports,
//! opcodes, instructions, and the node sequence a parsed program consists of.

use vstd::prelude::*;

verus! {

/// A storage location named by a source program: the stack pointer or a
/// general-purpose register. Register identity is purely by index.
/// General-purpose register 0 is hard-wired to zero: reads yield zero and
/// writes are discarded (see the lowering pass).
#[derive(Debug, Clone, Copy, PartialEq, Eq, Structural)]
pub enum Register {
    Sp,
    Gpr(u8),
}

/// A stable identity for a textual label. The parser interns label names:
/// the first distinct name seen is given identity 0, the next 1, and so on,
/// so the same textual label resolves to the same identity wherever it is
/// referenced (including forward references) and distinct names never
/// collide.
#[derive(Debug, Clone, Copy, PartialEq, Eq, Structural)]
pub struct LabelHash(pub u64);

/// An instruction operand, immutable once parsed.
#[derive(Debug, Clone, Copy, PartialEq, Eq, Structural)]
pub enum Operand {
    Register(Register),
    Immediate(i64),
    Label(LabelHash),
}

/// A named I/O channel through which a running program communicates with
/// the host.
#[derive(Debug, Clone, Copy, PartialEq, Eq, Structural)]
pub enum Port {
    Text,
    X,
    Y,
    Colour,
    Numb,
}

/// One opcode together with its operands. Conditional branches carry their
/// target label and two comparison operands.
#[derive(Debug, Clone, Copy, PartialEq, Eq, Structural)]
pub enum Opcode {
    Add(Operand, Operand),
    Sub(Operand, Operand),
    Mul(Operand, Operand),
    Div(Operand, Operand),
    Mod(Operand, Operand),
    Mov(Operand),
    Imm(Operand),
    Jmp(Operand),
    Rsh(Operand),
    Lsh(Operand),
    Lod(Operand),
    Str(Operand, Operand),
    Bge(LabelHash, Operand, Operand),
    Nor(Operand, Operand),
    In(Port),
    Out(Port, Operand),
    Brc(LabelHash, Operand, Operand),
    Bnc(LabelHash, Operand, Operand),
    Hlt,
}

/// An instruction: an opcode plus the register its result is written to,
/// or `None` for instructions that yield no result (branches, halt,
/// output).
#[derive(Debug, Clone, Copy, PartialEq, Eq, Structural)]
pub struct Instruction {
    pub opcode: Opcode,
    pub yielded: Option<Register>,
}

/// One node of a parsed program: a label marker or an instruction. The
/// node order is both program order and fallthrough order.
#[derive(Debug, Clone, Copy, PartialEq, Eq, Structural)]
pub enum Program {
    Label(LabelHash),
    Instruction(Instruction),
}

/// The header configuration declared at the top of a source program: the
/// bit width every value is computed at, the number of addressable
/// general-purpose registers, and the declared stack and heap sizes.
#[derive(Debug, Clone, Copy, PartialEq, Eq, Structural)]
pub struct HeaderConfig {
    pub word_width_bits: usize,
    pub register_count: usize,
    pub stack_size: usize,
    pub heap_size: usize,
}

} // verus!

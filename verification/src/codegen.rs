//! The lowering pass. A parsed program is lowered into a flat stream of
//! executable instructions: label nodes disappear (a label marks the
//! position of the next instruction, so fallthrough order is preserved),
//! branch and jump targets are resolved to instruction indices (forward
//! and backward references alike), immediates are reduced to the declared
//! word width, reads of register 0 become the zero constant and writes to
//! register 0 become no writes at all. Any opcode, port or operand form
//! without a defined lowering is reported as a typed failure, never as an
//! abort.

use vstd::arithmetic::power2::{lemma2_to64, lemma2_to64_rest, lemma_pow2_adds, lemma_pow2_pos,
    lemma_pow2_strictly_increases, pow2};
use vstd::arithmetic::div_mod::{lemma_fundamental_div_mod, lemma_mod_multiples_vanish,
    lemma_small_mod};
use vstd::prelude::*;

use crate::opcodes::{HeaderConfig, Instruction, LabelHash, Opcode, Operand, Port, Program,
    Register};

verus! {

/// The widest word the executor supports: values are carried in 64 bits.
pub const MAX_WORD_WIDTH: usize = 64;

/// The bare kind of an opcode, with its operands stripped; used to name an
/// opcode in a lowering failure.
#[derive(Debug, Clone, Copy, PartialEq, Eq, Structural)]
pub enum OpcodeKind {
    Add,
    Sub,
    Mul,
    Div,
    Mod,
    Mov,
    Imm,
    Jmp,
    Rsh,
    Lsh,
    Lod,
    Str,
    Bge,
    Nor,
    In,
    Out,
    Brc,
    Bnc,
    Hlt,
}

/// Why lowering a program failed. Lowering failures are ordinary values:
/// the caller decides what to do with them, the library never aborts.
#[derive(Debug, Clone, Copy, PartialEq, Eq, Structural)]
pub enum CodegenFailure {
    /// The opcode has no lowering defined.
    Unimplemented(OpcodeKind),
    /// The port has no lowering defined.
    UnimplementedPort(Port),
    /// An operand form the opcode has no lowering for (a label used as a
    /// value, or a computed jump).
    UnsupportedOperand(OpcodeKind),
    /// A referenced label identity is declared nowhere in the program.
    UnknownLabel(LabelHash),
    /// The declared word width is zero or wider than `MAX_WORD_WIDTH`.
    InvalidWidth(usize),
    /// The declared register count is zero; register 0 must always exist.
    InvalidRegisterCount(usize),
    /// A general-purpose register index at or beyond the declared count.
    RegisterOutOfRange(u8),
}

/// A lowered operand: a constant already reduced to the word width, or a
/// storage location. Register 0 never appears here: its reads were lowered
/// to the zero constant.
#[derive(Debug, Clone, Copy, PartialEq, Eq, Structural)]
pub enum Val {
    Const(u64),
    Reg(Register),
}

/// The comparison a lowered conditional branch is taken on.
#[derive(Debug, Clone, Copy, PartialEq, Eq, Structural)]
pub enum Cond {
    /// Taken when the width-wide sum of the operands produces no carry.
    CarryClear,
    /// Taken when the width-wide sum of the operands produces a carry.
    CarrySet,
    /// Taken when the first operand is signed-greater-or-equal to the
    /// second, both read as two's-complement values of the word width.
    SignedGe,
}

/// One lowered instruction. `dst` is `None` when the source instruction
/// yields no result or writes to register 0 (such writes are discarded).
/// Branch and jump targets are indices into the lowered stream; a target
/// equal to the stream length is the implicit halt at the end.
#[derive(Debug, Clone, Copy, PartialEq, Eq, Structural)]
pub enum LInstr {
    Add { dst: Option<Register>, a: Val, b: Val },
    Sub { dst: Option<Register>, a: Val, b: Val },
    Move { dst: Option<Register>, a: Val },
    Jump { target: usize },
    Branch { cond: Cond, target: usize, a: Val, b: Val },
    PutText { a: Val },
    PutNumb { a: Val },
    Halt,
}

/// The value of an immediate at the declared word width: the unique value
/// in `[0, 2^w)` congruent to `i` modulo `2^w`.
pub open spec fn imm_val(i: i64, w: nat) -> u64 {
    ((i as int) % (pow2(w) as int)) as u64
}

/// How a source operand lowers: register 0 reads synthesize the zero
/// constant, other registers load their storage, immediates are reduced to
/// the word width. A label has no lowering as a value.
pub open spec fn lower_operand(o: Operand, w: nat) -> Option<Val> {
    match o {
        Operand::Register(Register::Gpr(n)) => if n == 0 {
            Some(Val::Const(0))
        } else {
            Some(Val::Reg(Register::Gpr(n)))
        },
        Operand::Register(Register::Sp) => Some(Val::Reg(Register::Sp)),
        Operand::Immediate(i) => Some(Val::Const(imm_val(i, w))),
        Operand::Label(_) => None,
    }
}

/// The general-purpose register index an operand names beyond the declared
/// count, if any. Register 0 is always addressable.
pub open spec fn gpr_err(o: Operand, regs: nat) -> Option<u8> {
    match o {
        Operand::Register(Register::Gpr(n)) => if n == 0 || (n as nat) < regs {
            None
        } else {
            Some(n)
        },
        _ => None,
    }
}

/// How a destination lowers: writes targeting register 0 are discarded
/// (lowered to no write), any other register must be within the declared
/// count.
pub open spec fn lower_dst(y: Option<Register>, regs: nat) -> Result<
    Option<Register>,
    CodegenFailure,
> {
    match y {
        None => Ok(None),
        Some(Register::Sp) => Ok(Some(Register::Sp)),
        Some(Register::Gpr(n)) => if n == 0 {
            Ok(None)
        } else if (n as nat) < regs {
            Ok(Some(Register::Gpr(n)))
        } else {
            Err(CodegenFailure::RegisterOutOfRange(n))
        },
    }
}

/// Lower a pair of value operands, checking register ranges first.
pub open spec fn lower_operands2(kind: OpcodeKind, a: Operand, b: Operand, w: nat, regs: nat)
    -> Result<(Val, Val), CodegenFailure> {
    match gpr_err(a, regs) {
        Some(n) => Err(CodegenFailure::RegisterOutOfRange(n)),
        None => match gpr_err(b, regs) {
            Some(n) => Err(CodegenFailure::RegisterOutOfRange(n)),
            None => match (lower_operand(a, w), lower_operand(b, w)) {
                (Some(va), Some(vb)) => Ok((va, vb)),
                _ => Err(CodegenFailure::UnsupportedOperand(kind)),
            },
        },
    }
}

/// Lower a single value operand, checking its register range first.
pub open spec fn lower_operand1(kind: OpcodeKind, a: Operand, w: nat, regs: nat) -> Result<
    Val,
    CodegenFailure,
> {
    match gpr_err(a, regs) {
        Some(n) => Err(CodegenFailure::RegisterOutOfRange(n)),
        None => match lower_operand(a, w) {
            Some(va) => Ok(va),
            None => Err(CodegenFailure::UnsupportedOperand(kind)),
        },
    }
}

/// The number of instruction nodes of `prog` from node `i` on.
pub open spec fn instr_count_from(prog: Seq<Program>, i: int) -> nat
    decreases prog.len() - i,
{
    if i < 0 || i >= prog.len() {
        0
    } else {
        (match prog[i] {
            Program::Instruction(_) => 1nat,
            Program::Label(_) => 0nat,
        }) + instr_count_from(prog, i + 1)
    }
}

/// The number of instruction nodes of `prog`; the length of the lowered
/// stream.
pub open spec fn instr_count(prog: Seq<Program>) -> nat {
    instr_count_from(prog, 0)
}

/// Scan `prog` from node `i` for the first `Label(l)` node, counting the
/// instruction nodes passed over into `count`: the resolved target of `l`
/// is the index its following instruction gets in the lowered stream.
pub open spec fn resolve_from(prog: Seq<Program>, l: LabelHash, i: int, count: nat) -> Option<nat>
    decreases prog.len() - i,
{
    if i < 0 || i >= prog.len() {
        None
    } else if prog[i] == Program::Label(l) {
        Some(count)
    } else {
        resolve_from(
            prog,
            l,
            i + 1,
            count + (match prog[i] {
                Program::Instruction(_) => 1nat,
                Program::Label(_) => 0nat,
            }),
        )
    }
}

/// Where label `l` resolves to in the lowered stream: the number of
/// instruction nodes before its first declaration, or `None` if it is
/// declared nowhere.
pub open spec fn resolve_label(prog: Seq<Program>, l: LabelHash) -> Option<nat> {
    resolve_from(prog, l, 0, 0)
}

/// How one source instruction lowers against the program it stands in
/// (label targets resolve against the whole program, forward references
/// included).
pub open spec fn lower_instruction(prog: Seq<Program>, w: nat, regs: nat, ins: Instruction)
    -> Result<LInstr, CodegenFailure> {
    match ins.opcode {
        Opcode::Add(a, b) => match lower_operands2(OpcodeKind::Add, a, b, w, regs) {
            Err(e) => Err(e),
            Ok((va, vb)) => match lower_dst(ins.yielded, regs) {
                Err(e) => Err(e),
                Ok(dst) => Ok(LInstr::Add { dst, a: va, b: vb }),
            },
        },
        Opcode::Sub(a, b) => match lower_operands2(OpcodeKind::Sub, a, b, w, regs) {
            Err(e) => Err(e),
            Ok((va, vb)) => match lower_dst(ins.yielded, regs) {
                Err(e) => Err(e),
                Ok(dst) => Ok(LInstr::Sub { dst, a: va, b: vb }),
            },
        },
        Opcode::Mov(a) => match lower_operand1(OpcodeKind::Mov, a, w, regs) {
            Err(e) => Err(e),
            Ok(va) => match lower_dst(ins.yielded, regs) {
                Err(e) => Err(e),
                Ok(dst) => Ok(LInstr::Move { dst, a: va }),
            },
        },
        Opcode::Imm(a) => match lower_operand1(OpcodeKind::Imm, a, w, regs) {
            Err(e) => Err(e),
            Ok(va) => match lower_dst(ins.yielded, regs) {
                Err(e) => Err(e),
                Ok(dst) => Ok(LInstr::Move { dst, a: va }),
            },
        },
        Opcode::Jmp(a) => match a {
            Operand::Label(l) => match resolve_label(prog, l) {
                Some(t) => Ok(LInstr::Jump { target: t as usize }),
                None => Err(CodegenFailure::UnknownLabel(l)),
            },
            _ => Err(CodegenFailure::UnsupportedOperand(OpcodeKind::Jmp)),
        },
        Opcode::Bge(l, a, b) => match lower_operands2(OpcodeKind::Bge, a, b, w, regs) {
            Err(e) => Err(e),
            Ok((va, vb)) => match resolve_label(prog, l) {
                Some(t) => Ok(
                    LInstr::Branch { cond: Cond::SignedGe, target: t as usize, a: va, b: vb },
                ),
                None => Err(CodegenFailure::UnknownLabel(l)),
            },
        },
        Opcode::Brc(l, a, b) => match lower_operands2(OpcodeKind::Brc, a, b, w, regs) {
            Err(e) => Err(e),
            Ok((va, vb)) => match resolve_label(prog, l) {
                Some(t) => Ok(
                    LInstr::Branch { cond: Cond::CarrySet, target: t as usize, a: va, b: vb },
                ),
                None => Err(CodegenFailure::UnknownLabel(l)),
            },
        },
        Opcode::Bnc(l, a, b) => match lower_operands2(OpcodeKind::Bnc, a, b, w, regs) {
            Err(e) => Err(e),
            Ok((va, vb)) => match resolve_label(prog, l) {
                Some(t) => Ok(
                    LInstr::Branch { cond: Cond::CarryClear, target: t as usize, a: va, b: vb },
                ),
                None => Err(CodegenFailure::UnknownLabel(l)),
            },
        },
        Opcode::Out(p, a) => match p {
            Port::Text => match lower_operand1(OpcodeKind::Out, a, w, regs) {
                Err(e) => Err(e),
                Ok(va) => Ok(LInstr::PutText { a: va }),
            },
            Port::Numb => match lower_operand1(OpcodeKind::Out, a, w, regs) {
                Err(e) => Err(e),
                Ok(va) => Ok(LInstr::PutNumb { a: va }),
            },
            _ => Err(CodegenFailure::UnimplementedPort(p)),
        },
        Opcode::Hlt => Ok(LInstr::Halt),
        Opcode::In(_) => Err(CodegenFailure::Unimplemented(OpcodeKind::In)),
        Opcode::Mul(..) => Err(CodegenFailure::Unimplemented(OpcodeKind::Mul)),
        Opcode::Div(..) => Err(CodegenFailure::Unimplemented(OpcodeKind::Div)),
        Opcode::Mod(..) => Err(CodegenFailure::Unimplemented(OpcodeKind::Mod)),
        Opcode::Rsh(..) => Err(CodegenFailure::Unimplemented(OpcodeKind::Rsh)),
        Opcode::Lsh(..) => Err(CodegenFailure::Unimplemented(OpcodeKind::Lsh)),
        Opcode::Lod(..) => Err(CodegenFailure::Unimplemented(OpcodeKind::Lod)),
        Opcode::Str(..) => Err(CodegenFailure::Unimplemented(OpcodeKind::Str)),
        Opcode::Nor(..) => Err(CodegenFailure::Unimplemented(OpcodeKind::Nor)),
    }
}

/// The lowered stream for the nodes of `prog` from node `i` on, or the
/// first lowering failure in node order.
pub open spec fn compile_from(prog: Seq<Program>, w: nat, regs: nat, i: int) -> Result<
    Seq<LInstr>,
    CodegenFailure,
>
    decreases prog.len() - i,
{
    if i < 0 || i >= prog.len() {
        Ok(Seq::empty())
    } else {
        match prog[i] {
            Program::Label(_) => compile_from(prog, w, regs, i + 1),
            Program::Instruction(ins) => match lower_instruction(prog, w, regs, ins) {
                Err(e) => Err(e),
                Ok(li) => match compile_from(prog, w, regs, i + 1) {
                    Err(e) => Err(e),
                    Ok(rest) => Ok(seq![li] + rest),
                },
            },
        }
    }
}

/// What lowering a whole program yields: the header is validated, then
/// every node is lowered in program order.
pub open spec fn spec_compile(prog: Seq<Program>, h: HeaderConfig) -> Result<
    Seq<LInstr>,
    CodegenFailure,
> {
    if h.word_width_bits < 1 || h.word_width_bits > MAX_WORD_WIDTH {
        Err(CodegenFailure::InvalidWidth(h.word_width_bits))
    } else if h.register_count < 1 {
        Err(CodegenFailure::InvalidRegisterCount(h.register_count))
    } else {
        compile_from(prog, h.word_width_bits as nat, h.register_count as nat, 0)
    }
}

/// A lowered value fit for execution at width `w` with `regs` registers:
/// constants carry at most `w` bits and register reads stay in range
/// (never register 0, whose reads were lowered away).
pub open spec fn wf_val(v: Val, regs: nat, w: nat) -> bool {
    match v {
        Val::Const(c) => (c as nat) < pow2(w),
        Val::Reg(Register::Sp) => true,
        Val::Reg(Register::Gpr(n)) => 1 <= n && (n as nat) < regs,
    }
}

/// A lowered destination fit for execution: in range and never register 0.
pub open spec fn wf_dst(d: Option<Register>, regs: nat) -> bool {
    match d {
        None => true,
        Some(Register::Sp) => true,
        Some(Register::Gpr(n)) => 1 <= n && (n as nat) < regs,
    }
}

/// A lowered instruction fit for execution in a stream of `n` instructions.
/// A branch or jump target of exactly `n` is the implicit halt at the end.
pub open spec fn wf_linstr(li: LInstr, regs: nat, w: nat, n: nat) -> bool {
    match li {
        LInstr::Add { dst, a, b } => wf_dst(dst, regs) && wf_val(a, regs, w) && wf_val(b, regs, w),
        LInstr::Sub { dst, a, b } => wf_dst(dst, regs) && wf_val(a, regs, w) && wf_val(b, regs, w),
        LInstr::Move { dst, a } => wf_dst(dst, regs) && wf_val(a, regs, w),
        LInstr::Jump { target } => target <= n,
        LInstr::Branch { cond: _, target, a, b } => target <= n && wf_val(a, regs, w) && wf_val(
            b,
            regs,
            w,
        ),
        LInstr::PutText { a } => wf_val(a, regs, w),
        LInstr::PutNumb { a } => wf_val(a, regs, w),
        LInstr::Halt => true,
    }
}

/// A lowered program ready to execute: the validated header data, the
/// word modulus `2^word_width_bits` it was validated against, and the flat
/// instruction stream.
#[derive(Debug)]
pub struct CompiledProgram {
    pub word_width_bits: usize,
    pub register_count: usize,
    pub modulus: u128,
    pub code: Vec<LInstr>,
}

impl CompiledProgram {
    /// Everything execution relies on: a positive width of at most
    /// `MAX_WORD_WIDTH` bits with its modulus, at least one register, and
    /// a stream whose every instruction is fit for execution.
    pub open spec fn wf(self) -> bool {
        &&& 1 <= self.word_width_bits <= MAX_WORD_WIDTH
        &&& 1 <= self.register_count
        &&& self.modulus == pow2(self.word_width_bits as nat)
        &&& forall|j: int|
            0 <= j < self.code@.len() ==> wf_linstr(
                #[trigger] self.code@[j],
                self.register_count as nat,
                self.word_width_bits as nat,
                self.code@.len() as nat,
            )
    }
}

/// `2^w` for a word width of at most `MAX_WORD_WIDTH` bits.
fn pow2_exec(w: usize) -> (r: u128)
    requires
        w <= MAX_WORD_WIDTH,
    ensures
        r as nat == pow2(w as nat),
{
    proof {
        lemma2_to64();
    }
    let mut r: u128 = 1;
    let mut i: usize = 0;
    while i < w
        invariant
            i <= w <= 64,
            r as nat == pow2(i as nat),
        decreases w - i,
    {
        proof {
            lemma_pow2_adds(i as nat, 1);
            lemma2_to64();
            lemma_pow2_strictly_increases(i as nat, 64);
            lemma2_to64_rest();
        }
        r = r * 2;
        i = i + 1;
    }
    r
}

/// A resolved target never exceeds the count of instruction nodes: it
/// indexes into (or just past) the lowered stream.
proof fn lemma_resolve_bound(prog: Seq<Program>, l: LabelHash, i: int, count: nat)
    requires
        resolve_from(prog, l, i, count) is Some,
    ensures
        resolve_from(prog, l, i, count).unwrap() <= count + instr_count_from(prog, i),
    decreases prog.len() - i,
{
    if i < 0 || i >= prog.len() {
    } else if prog[i] == Program::Label(l) {
    } else {
        lemma_resolve_bound(
            prog,
            l,
            i + 1,
            count + (match prog[i] {
                Program::Instruction(_) => 1nat,
                Program::Label(_) => 0nat,
            }),
        );
    }
}

/// The value of an immediate at the declared word width.
fn imm_value(i: i64, m: u128, w: usize) -> (r: u64)
    requires
        1 <= w <= MAX_WORD_WIDTH,
        m == pow2(w as nat),
    ensures
        r == imm_val(i, w as nat),
{
    proof {
        lemma_pow2_pos(w as nat);
        lemma2_to64_rest();
        if w < 64 {
            lemma_pow2_strictly_increases(w as nat, 64);
        }
    }
    if i >= 0 {
        let v: u128 = i as u128;
        let r = (v % m) as u64;
        assert(r == imm_val(i, w as nat));
        r
    } else {
        let ni: u128 = (-(i as i128)) as u128;
        let rem: u128 = ni % m;
        proof {
            let mi = m as int;
            let nii = ni as int;
            let q = nii / mi;
            lemma_fundamental_div_mod(nii, mi);
            assert(i as int == -nii);
            if rem == 0 {
                assert(i as int == mi * (-q) + 0) by (nonlinear_arith)
                    requires
                        nii == mi * q + (rem as int),
                        rem == 0,
                        i as int == -nii,
                ;
                lemma_mod_multiples_vanish(-q, 0, mi);
                lemma_small_mod(0, m as nat);
            } else {
                assert(i as int == mi * (-q - 1) + (mi - (rem as int))) by (nonlinear_arith)
                    requires
                        nii == mi * q + (rem as int),
                        i as int == -nii,
                ;
                lemma_mod_multiples_vanish(-q - 1, mi - (rem as int), mi);
                lemma_small_mod((m - rem) as nat, m as nat);
            }
        }
        if rem == 0 {
            0
        } else {
            (m - rem) as u64
        }
    }
}

/// Lower one value operand; mirrors `lower_operand` with the register
/// range already checked.
fn lower_operand_exec(o: &Operand, m: u128, w: usize) -> (r: Option<Val>)
    requires
        1 <= w <= MAX_WORD_WIDTH,
        m == pow2(w as nat),
    ensures
        r == lower_operand(*o, w as nat),
{
    match o {
        Operand::Register(Register::Gpr(n)) => if *n == 0 {
            Some(Val::Const(0))
        } else {
            Some(Val::Reg(Register::Gpr(*n)))
        },
        Operand::Register(Register::Sp) => Some(Val::Reg(Register::Sp)),
        Operand::Immediate(i) => Some(Val::Const(imm_value(*i, m, w))),
        Operand::Label(_) => None,
    }
}

/// The register-range check of one operand; mirrors `gpr_err`.
fn gpr_err_exec(o: &Operand, regs: usize) -> (r: Option<u8>)
    ensures
        r == gpr_err(*o, regs as nat),
{
    match o {
        Operand::Register(Register::Gpr(n)) => if *n == 0 || (*n as usize) < regs {
            None
        } else {
            Some(*n)
        },
        _ => None,
    }
}

/// Lower a destination; mirrors `lower_dst`.
fn lower_dst_exec(y: &Option<Register>, regs: usize) -> (r: Result<
    Option<Register>,
    CodegenFailure,
>)
    ensures
        r == lower_dst(*y, regs as nat),
{
    match y {
        None => Ok(None),
        Some(Register::Sp) => Ok(Some(Register::Sp)),
        Some(Register::Gpr(n)) => if *n == 0 {
            Ok(None)
        } else if (*n as usize) < regs {
            Ok(Some(Register::Gpr(*n)))
        } else {
            Err(CodegenFailure::RegisterOutOfRange(*n))
        },
    }
}

/// Lower a pair of value operands; mirrors `lower_operands2`.
fn lower_operands2_exec(kind: OpcodeKind, a: &Operand, b: &Operand, m: u128, w: usize, regs: usize)
    -> (r: Result<(Val, Val), CodegenFailure>)
    requires
        1 <= w <= MAX_WORD_WIDTH,
        m == pow2(w as nat),
    ensures
        r == lower_operands2(kind, *a, *b, w as nat, regs as nat),
{
    match gpr_err_exec(a, regs) {
        Some(n) => Err(CodegenFailure::RegisterOutOfRange(n)),
        None => match gpr_err_exec(b, regs) {
            Some(n) => Err(CodegenFailure::RegisterOutOfRange(n)),
            None => match (lower_operand_exec(a, m, w), lower_operand_exec(b, m, w)) {
                (Some(va), Some(vb)) => Ok((va, vb)),
                _ => Err(CodegenFailure::UnsupportedOperand(kind)),
            },
        },
    }
}

/// Lower a single value operand; mirrors `lower_operand1`.
fn lower_operand1_exec(kind: OpcodeKind, a: &Operand, m: u128, w: usize, regs: usize) -> (r: Result<
    Val,
    CodegenFailure,
>)
    requires
        1 <= w <= MAX_WORD_WIDTH,
        m == pow2(w as nat),
    ensures
        r == lower_operand1(kind, *a, w as nat, regs as nat),
{
    match gpr_err_exec(a, regs) {
        Some(n) => Err(CodegenFailure::RegisterOutOfRange(n)),
        None => match lower_operand_exec(a, m, w) {
            Some(va) => Ok(va),
            None => Err(CodegenFailure::UnsupportedOperand(kind)),
        },
    }
}

/// Resolve a label to its index in the lowered stream; mirrors
/// `resolve_label`. The pre-scan the lowering pass rests on: it sees the
/// whole program, so references forward and backward resolve alike.
fn resolve_label_exec(prog: &Vec<Program>, l: LabelHash) -> (r: Option<usize>)
    ensures
        match resolve_label(prog@, l) {
            Some(t) => r == Some(t as usize),
            None => r is None,
        },
{
    let mut i: usize = 0;
    let mut count: usize = 0;
    while i < prog.len()
        invariant
            i <= prog@.len(),
            count <= i,
            resolve_from(prog@, l, 0, 0) == resolve_from(prog@, l, i as int, count as nat),
        decreases prog@.len() - i,
    {
        match prog[i] {
            Program::Label(m) => if m == l {
                return Some(count);
            },
            Program::Instruction(_) => {
                count = count + 1;
            },
        }
        i = i + 1;
    }
    None
}

/// Lower one source instruction; mirrors `lower_instruction`. On success
/// the result is fit for execution in a stream of `instr_count(prog@)`
/// instructions.
fn lower_instruction_exec(prog: &Vec<Program>, m: u128, w: usize, regs: usize, ins: &Instruction)
    -> (r: Result<LInstr, CodegenFailure>)
    requires
        1 <= w <= MAX_WORD_WIDTH,
        1 <= regs,
        m == pow2(w as nat),
    ensures
        r == lower_instruction(prog@, w as nat, regs as nat, *ins),
        r matches Ok(li) ==> wf_linstr(li, regs as nat, w as nat, instr_count(prog@)),
{
    proof {
        lemma_pow2_pos(w as nat);
    }
    match ins.opcode {
        Opcode::Add(a, b) => match lower_operands2_exec(OpcodeKind::Add, &a, &b, m, w, regs) {
            Err(e) => Err(e),
            Ok((va, vb)) => match lower_dst_exec(&ins.yielded, regs) {
                Err(e) => Err(e),
                Ok(dst) => Ok(LInstr::Add { dst, a: va, b: vb }),
            },
        },
        Opcode::Sub(a, b) => match lower_operands2_exec(OpcodeKind::Sub, &a, &b, m, w, regs) {
            Err(e) => Err(e),
            Ok((va, vb)) => match lower_dst_exec(&ins.yielded, regs) {
                Err(e) => Err(e),
                Ok(dst) => Ok(LInstr::Sub { dst, a: va, b: vb }),
            },
        },
        Opcode::Mov(a) => match lower_operand1_exec(OpcodeKind::Mov, &a, m, w, regs) {
            Err(e) => Err(e),
            Ok(va) => match lower_dst_exec(&ins.yielded, regs) {
                Err(e) => Err(e),
                Ok(dst) => Ok(LInstr::Move { dst, a: va }),
            },
        },
        Opcode::Imm(a) => match lower_operand1_exec(OpcodeKind::Imm, &a, m, w, regs) {
            Err(e) => Err(e),
            Ok(va) => match lower_dst_exec(&ins.yielded, regs) {
                Err(e) => Err(e),
                Ok(dst) => Ok(LInstr::Move { dst, a: va }),
            },
        },
        Opcode::Jmp(a) => match a {
            Operand::Label(l) => match resolve_label_exec(prog, l) {
                Some(t) => {
                    proof {
                        lemma_resolve_bound(prog@, l, 0, 0);
                    }
                    Ok(LInstr::Jump { target: t })
                },
                None => Err(CodegenFailure::UnknownLabel(l)),
            },
            _ => Err(CodegenFailure::UnsupportedOperand(OpcodeKind::Jmp)),
        },
        Opcode::Bge(l, a, b) => match lower_operands2_exec(OpcodeKind::Bge, &a, &b, m, w, regs) {
            Err(e) => Err(e),
            Ok((va, vb)) => match resolve_label_exec(prog, l) {
                Some(t) => {
                    proof {
                        lemma_resolve_bound(prog@, l, 0, 0);
                    }
                    Ok(LInstr::Branch { cond: Cond::SignedGe, target: t, a: va, b: vb })
                },
                None => Err(CodegenFailure::UnknownLabel(l)),
            },
        },
        Opcode::Brc(l, a, b) => match lower_operands2_exec(OpcodeKind::Brc, &a, &b, m, w, regs) {
            Err(e) => Err(e),
            Ok((va, vb)) => match resolve_label_exec(prog, l) {
                Some(t) => {
                    proof {
                        lemma_resolve_bound(prog@, l, 0, 0);
                    }
                    Ok(LInstr::Branch { cond: Cond::CarrySet, target: t, a: va, b: vb })
                },
                None => Err(CodegenFailure::UnknownLabel(l)),
            },
        },
        Opcode::Bnc(l, a, b) => match lower_operands2_exec(OpcodeKind::Bnc, &a, &b, m, w, regs) {
            Err(e) => Err(e),
            Ok((va, vb)) => match resolve_label_exec(prog, l) {
                Some(t) => {
                    proof {
                        lemma_resolve_bound(prog@, l, 0, 0);
                    }
                    Ok(LInstr::Branch { cond: Cond::CarryClear, target: t, a: va, b: vb })
                },
                None => Err(CodegenFailure::UnknownLabel(l)),
            },
        },
        Opcode::Out(p, a) => match p {
            Port::Text => match lower_operand1_exec(OpcodeKind::Out, &a, m, w, regs) {
                Err(e) => Err(e),
                Ok(va) => Ok(LInstr::PutText { a: va }),
            },
            Port::Numb => match lower_operand1_exec(OpcodeKind::Out, &a, m, w, regs) {
                Err(e) => Err(e),
                Ok(va) => Ok(LInstr::PutNumb { a: va }),
            },
            _ => Err(CodegenFailure::UnimplementedPort(p)),
        },
        Opcode::Hlt => Ok(LInstr::Halt),
        Opcode::In(_) => Err(CodegenFailure::Unimplemented(OpcodeKind::In)),
        Opcode::Mul(..) => Err(CodegenFailure::Unimplemented(OpcodeKind::Mul)),
        Opcode::Div(..) => Err(CodegenFailure::Unimplemented(OpcodeKind::Div)),
        Opcode::Mod(..) => Err(CodegenFailure::Unimplemented(OpcodeKind::Mod)),
        Opcode::Rsh(..) => Err(CodegenFailure::Unimplemented(OpcodeKind::Rsh)),
        Opcode::Lsh(..) => Err(CodegenFailure::Unimplemented(OpcodeKind::Lsh)),
        Opcode::Lod(..) => Err(CodegenFailure::Unimplemented(OpcodeKind::Lod)),
        Opcode::Str(..) => Err(CodegenFailure::Unimplemented(OpcodeKind::Str)),
        Opcode::Nor(..) => Err(CodegenFailure::Unimplemented(OpcodeKind::Nor)),
    }
}

/// Lower a whole program: validate the header, pre-resolve every label
/// against the full node sequence, and lower the nodes in program order.
/// Returns exactly what `spec_compile` says, and on success a stream fit
/// for execution, one lowered instruction per instruction node. On failure
/// nothing is returned: a partially lowered program never escapes.
pub fn compile(prog: &Vec<Program>, h: &HeaderConfig) -> (r: Result<
    CompiledProgram,
    CodegenFailure,
>)
    ensures
        match spec_compile(prog@, *h) {
            Ok(c) => r matches Ok(cp) && cp.code@ == c && cp.word_width_bits == h.word_width_bits
                && cp.register_count == h.register_count && cp.wf() && c.len() == instr_count(
                prog@,
            ),
            Err(e) => r == Err::<CompiledProgram, CodegenFailure>(e),
        },
{
    if h.word_width_bits < 1 || h.word_width_bits > MAX_WORD_WIDTH {
        return Err(CodegenFailure::InvalidWidth(h.word_width_bits));
    }
    if h.register_count < 1 {
        return Err(CodegenFailure::InvalidRegisterCount(h.register_count));
    }
    let w = h.word_width_bits;
    let regs = h.register_count;
    let m = pow2_exec(w);
    let mut code: Vec<LInstr> = Vec::new();
    let mut i: usize = 0;
    while i < prog.len()
        invariant
            1 <= w <= MAX_WORD_WIDTH,
            1 <= regs,
            w == h.word_width_bits,
            regs == h.register_count,
            m == pow2(w as nat),
            i <= prog@.len(),
            compile_from(prog@, w as nat, regs as nat, 0) is Ok ==> compile_from(
                prog@,
                w as nat,
                regs as nat,
                i as int,
            ) is Ok && compile_from(prog@, w as nat, regs as nat, 0)->Ok_0 == code@ + compile_from(
                prog@,
                w as nat,
                regs as nat,
                i as int,
            )->Ok_0,
            compile_from(prog@, w as nat, regs as nat, 0) is Err ==> compile_from(
                prog@,
                w as nat,
                regs as nat,
                i as int,
            ) == compile_from(prog@, w as nat, regs as nat, 0),
            code@.len() + instr_count_from(prog@, i as int) == instr_count(prog@),
            forall|j: int|
                0 <= j < code@.len() ==> wf_linstr(
                    #[trigger] code@[j],
                    regs as nat,
                    w as nat,
                    instr_count(prog@),
                ),
        decreases prog@.len() - i,
    {
        let node = prog[i];
        match node {
            Program::Label(_) => {},
            Program::Instruction(ins) => match lower_instruction_exec(prog, m, w, regs, &ins) {
                Err(e) => {
                    proof {
                        assert(compile_from(prog@, w as nat, regs as nat, i as int) == Err::<
                            Seq<LInstr>,
                            CodegenFailure,
                        >(e));
                        if compile_from(prog@, w as nat, regs as nat, 0) is Ok {
                            assert(compile_from(prog@, w as nat, regs as nat, i as int) is Ok);
                            assert(false);
                        }
                        assert(spec_compile(prog@, *h) == Err::<Seq<LInstr>, CodegenFailure>(e));
                    }
                    return Err(e);
                },
                Ok(li) => {
                    proof {
                        if compile_from(prog@, w as nat, regs as nat, 0) is Ok {
                            let rest = compile_from(
                                prog@,
                                w as nat,
                                regs as nat,
                                i as int,
                            ).unwrap();
                            let rest2 = compile_from(
                                prog@,
                                w as nat,
                                regs as nat,
                                i as int + 1,
                            ).unwrap();
                            assert(rest == seq![li] + rest2);
                            assert(code@ + rest == (code@ + seq![li]) + rest2) by {
                                assert(code@ + (seq![li] + rest2) =~= (code@ + seq![li]) + rest2);
                            }
                            assert(code@.push(li) =~= code@ + seq![li]);
                        }
                    }
                    code.push(li);
                },
            },
        }
        i = i + 1;
    }
    proof {
        if compile_from(prog@, w as nat, regs as nat, 0) is Ok {
            assert(compile_from(prog@, w as nat, regs as nat, i as int) == Ok::<
                Seq<LInstr>,
                CodegenFailure,
            >(Seq::empty()));
            assert(compile_from(prog@, w as nat, regs as nat, 0).unwrap() =~= code@);
        }
    }
    Ok(CompiledProgram { word_width_bits: w, register_count: regs, modulus: m, code })
}

} // verus!

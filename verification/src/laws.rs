//! The guarantees the toolchain is built around, each proved once and for
//! all states and programs: register 0 is hard-wired to zero, arithmetic
//! wraps at exactly the declared width, carry branches test the exact sum,
//! a lone halt terminates at once with no output, output instructions
//! append exactly what they owe, and label references resolve by identity
//! wherever the label is declared.

use vstd::arithmetic::power2::{lemma2_to64_rest, lemma_pow2_pos, lemma_pow2_strictly_increases,
    pow2};
use vstd::prelude::*;

use crate::codegen::{CodegenFailure, Cond, LInstr, Val, MAX_WORD_WIDTH, compile_from,
    instr_count, instr_count_from, lower_dst, lower_instruction, lower_operand, resolve_from,
    resolve_label, spec_compile};
use crate::io::{char_of_word, dec_rep};
use crate::machine::{MachineView, branch_taken, run_spec, step_spec, store, val_eval};
use crate::opcodes::{HeaderConfig, Instruction, LabelHash, Opcode, Operand, Program, Register};

verus! {

/// Register 0 is hard-wired to zero. Reading it lowers to the zero
/// constant, which evaluates to zero in every state; writing it lowers to
/// no write at all, and storing through no destination leaves every
/// storage location — and the whole state — unchanged.
pub proof fn lemma_register_zero_hardwired(w: nat, regs: nat, v: u64, s: MachineView)
    ensures
        lower_operand(Operand::Register(Register::Gpr(0)), w) == Some(Val::Const(0u64)),
        val_eval(Val::Const(0u64), s.regs, s.sp) == 0,
        lower_dst(Some(Register::Gpr(0)), regs) == Ok::<Option<Register>, CodegenFailure>(
            None::<Register>,
        ),
        store(s, None::<Register>, v) == s,
{
}

/// Adding into a register and reading it back yields the sum of the
/// operands modulo `2^w`: wraparound at exactly the declared width.
pub proof fn lemma_add_then_read_back(code: Seq<LInstr>, w: nat, s: MachineView, n: u8, a: Val, b: Val)
    requires
        1 <= w <= MAX_WORD_WIDTH as nat,
        !s.halted,
        s.pc < code.len(),
        code[s.pc as int] == (LInstr::Add { dst: Some(Register::Gpr(n)), a, b }),
        0 <= n < s.regs.len(),
    ensures
        ({
            let after = step_spec(code, w, s);
            val_eval(Val::Reg(Register::Gpr(n)), after.regs, after.sp) == (val_eval(a, s.regs, s.sp)
                + val_eval(b, s.regs, s.sp)) % (pow2(w) as int)
        }),
{
    lemma_pow2_pos(w);
    lemma2_to64_rest();
    if w < 64 {
        lemma_pow2_strictly_increases(w, 64);
    }
    let va = val_eval(a, s.regs, s.sp);
    let vb = val_eval(b, s.regs, s.sp);
    assert(0 <= ((va + vb) as int) % (pow2(w) as int) < pow2(64));
}

/// A no-carry branch transfers control to its target exactly when the
/// exact sum of its operands is at most `2^w - 1`, and otherwise falls
/// through to the next instruction.
pub proof fn lemma_branch_no_carry(
    code: Seq<LInstr>,
    w: nat,
    s: MachineView,
    target: usize,
    a: Val,
    b: Val,
)
    requires
        !s.halted,
        s.pc < code.len(),
        code[s.pc as int] == (LInstr::Branch { cond: Cond::CarryClear, target, a, b }),
    ensures
        val_eval(a, s.regs, s.sp) + val_eval(b, s.regs, s.sp) <= pow2(w) - 1 ==> step_spec(
            code,
            w,
            s,
        ).pc == target as nat,
        val_eval(a, s.regs, s.sp) + val_eval(b, s.regs, s.sp) > pow2(w) - 1 ==> step_spec(
            code,
            w,
            s,
        ).pc == s.pc + 1,
{
}

/// Every conditional branch transfers control to its target exactly when
/// its condition holds of the exact sum or the signed order of its
/// operands, and otherwise falls through — and either way it writes no
/// storage and no output.
pub proof fn lemma_branch_transfers(
    code: Seq<LInstr>,
    w: nat,
    s: MachineView,
    cond: Cond,
    target: usize,
    a: Val,
    b: Val,
)
    requires
        !s.halted,
        s.pc < code.len(),
        code[s.pc as int] == (LInstr::Branch { cond, target, a, b }),
    ensures
        step_spec(code, w, s).pc == if branch_taken(
            cond,
            val_eval(a, s.regs, s.sp),
            val_eval(b, s.regs, s.sp),
            w,
        ) {
            target as nat
        } else {
            (s.pc + 1) as nat
        },
        step_spec(code, w, s).regs == s.regs,
        step_spec(code, w, s).sp == s.sp,
        step_spec(code, w, s).out == s.out,
{
}

/// A program consisting solely of a halt instruction lowers successfully
/// under any valid header, terminates on its very first step, and
/// produces no output however much fuel it is given.
pub proof fn lemma_halt_program(h: HeaderConfig, s: MachineView, fuel: nat)
    requires
        1 <= h.word_width_bits <= MAX_WORD_WIDTH,
        1 <= h.register_count,
        s.pc == 0,
        !s.halted,
        s.out == Seq::<char>::empty(),
        fuel >= 1,
    ensures
        ({
            let prog = seq![
                Program::Instruction(Instruction { opcode: Opcode::Hlt, yielded: None }),
            ];
            let compiled = spec_compile(prog, h);
            compiled is Ok && compiled->Ok_0 == seq![LInstr::Halt] && run_spec(
                compiled->Ok_0,
                h.word_width_bits as nat,
                s,
                fuel,
            ).halted && run_spec(compiled->Ok_0, h.word_width_bits as nat, s, fuel).out
                == Seq::<char>::empty()
        }),
{
    let prog = seq![Program::Instruction(Instruction { opcode: Opcode::Hlt, yielded: None })];
    let w = h.word_width_bits as nat;
    let regs = h.register_count as nat;
    assert(lower_instruction(prog, w, regs, Instruction { opcode: Opcode::Hlt, yielded: None })
        == Ok::<LInstr, CodegenFailure>(LInstr::Halt));
    assert(compile_from(prog, w, regs, 1) == Ok::<Seq<LInstr>, CodegenFailure>(Seq::empty()));
    assert(compile_from(prog, w, regs, 0) == Ok::<Seq<LInstr>, CodegenFailure>(
        seq![LInstr::Halt] + Seq::empty(),
    ));
    assert(seq![LInstr::Halt] + Seq::<LInstr>::empty() =~= seq![LInstr::Halt]);
    let code = seq![LInstr::Halt];
    let s1 = step_spec(code, w, s);
    assert(s1.halted && s1.out == s.out);
    assert(run_spec(code, w, s, fuel) == run_spec(code, w, s1, (fuel - 1) as nat));
    assert(run_spec(code, w, s1, (fuel - 1) as nat) == s1);
}

/// A text-port output appends exactly one character per execution: the
/// character code of its operand; a number-port output appends exactly
/// the decimal representation of its operand, with no separator.
pub proof fn lemma_out_appends(code: Seq<LInstr>, w: nat, s: MachineView, a: Val)
    requires
        !s.halted,
        s.pc < code.len(),
    ensures
        code[s.pc as int] == (LInstr::PutText { a }) ==> step_spec(code, w, s).out == s.out.push(
            char_of_word(val_eval(a, s.regs, s.sp)),
        ) && step_spec(code, w, s).out.len() == s.out.len() + 1,
        code[s.pc as int] == (LInstr::PutNumb { a }) ==> step_spec(code, w, s).out == s.out
            + dec_rep(val_eval(a, s.regs, s.sp) as nat),
{
}

/// Scanning for a label's first declaration resolves it to the number of
/// instruction nodes before that declaration, wherever in the program the
/// references stand.
proof fn lemma_resolve_first(prog: Seq<Program>, l: LabelHash, i: int, count: nat, p: int)
    requires
        0 <= i <= p < prog.len(),
        prog[p] == Program::Label(l),
        forall|q: int| i <= q < p ==> prog[q] != Program::Label(l),
    ensures
        resolve_from(prog, l, i, count) is Some,
        resolve_from(prog, l, i, count).unwrap() + instr_count_from(prog, p) == count
            + instr_count_from(prog, i),
    decreases p - i,
{
    if i == p {
    } else {
        lemma_resolve_first(
            prog,
            l,
            i + 1,
            count + (match prog[i] {
                Program::Instruction(_) => 1nat,
                Program::Label(_) => 0nat,
            }),
            p,
        );
    }
}

/// Label references resolve by identity alone: whether a reference stands
/// before or after the declaration, label `l`, first declared at node `p`,
/// resolves to the index its following instruction gets in the lowered
/// stream — the number of instruction nodes before node `p`. Together with
/// `step_spec` on `Jump`, a jump to a label declared later in the source
/// transfers control to exactly that point.
pub proof fn lemma_label_resolution(prog: Seq<Program>, l: LabelHash, p: int)
    requires
        0 <= p < prog.len(),
        prog[p] == Program::Label(l),
        forall|q: int| 0 <= q < p ==> prog[q] != Program::Label(l),
    ensures
        resolve_label(prog, l) is Some,
        resolve_label(prog, l).unwrap() + instr_count_from(prog, p) == instr_count(prog),
{
    lemma_resolve_first(prog, l, 0, 0, p);
}

/// A jump transfers control to exactly its resolved target.
pub proof fn lemma_jump_transfers(code: Seq<LInstr>, w: nat, s: MachineView, target: usize)
    requires
        !s.halted,
        s.pc < code.len(),
        code[s.pc as int] == (LInstr::Jump { target }),
    ensures
        step_spec(code, w, s).pc == target as nat,
        step_spec(code, w, s).out == s.out,
        step_spec(code, w, s).regs == s.regs,
{
}

} // verus!

//! The executor for lowered programs. One storage location per register
//! plus one for the stack pointer, each holding a value of the declared
//! word width; a program counter into the flat instruction stream; and the
//! host I/O bridge. Execution is a small-step machine: arithmetic wraps at
//! exactly the declared width, conditional branches test the carry or the
//! signed order of a width-wide sum, output goes through the bridge, and
//! running past the end of the stream is the implicit halt.

use vstd::arithmetic::power2::{lemma2_to64, lemma2_to64_rest, lemma_pow2_adds, lemma_pow2_pos,
    lemma_pow2_strictly_increases, pow2};
use vstd::arithmetic::div_mod::lemma_mod_multiples_vanish;
use vstd::prelude::*;

use crate::codegen::{CompiledProgram, Cond, LInstr, Val, MAX_WORD_WIDTH, wf_dst, wf_linstr,
    wf_val};
use crate::io::{ExecContext, char_of_word, dec_rep};
use crate::opcodes::Register;

verus! {

/// The mathematical state of a running machine: register values, stack
/// pointer, program counter, whether it has halted, and the bridge state
/// (accumulated output, instruction index being executed, termination
/// flag).
pub struct MachineView {
    pub regs: Seq<u64>,
    pub sp: u64,
    pub pc: nat,
    pub halted: bool,
    pub out: Seq<char>,
    pub current_instruction: u64,
    pub terminated: bool,
}

/// What a lowered operand evaluates to in a state.
pub open spec fn val_eval(v: Val, regs: Seq<u64>, sp: u64) -> u64 {
    match v {
        Val::Const(c) => c,
        Val::Reg(Register::Sp) => sp,
        Val::Reg(Register::Gpr(n)) => regs[n as int],
    }
}

/// Writing a result: no destination stores nothing, the others overwrite
/// exactly one storage location.
pub open spec fn store(s: MachineView, dst: Option<Register>, v: u64) -> MachineView {
    match dst {
        None => s,
        Some(Register::Sp) => MachineView { sp: v, ..s },
        Some(Register::Gpr(n)) => MachineView { regs: s.regs.update(n as int, v), ..s },
    }
}

/// The sum of two width-wide values, wrapped at the declared width.
pub open spec fn word_add(a: u64, b: u64, w: nat) -> u64 {
    (((a + b) as int) % (pow2(w) as int)) as u64
}

/// The difference of two width-wide values, wrapped at the declared width.
pub open spec fn word_sub(a: u64, b: u64, w: nat) -> u64 {
    (((a - b) as int) % (pow2(w) as int)) as u64
}

/// A width-wide value read as a two's-complement signed number.
pub open spec fn signed_val(x: u64, w: nat) -> int {
    if (x as nat) < pow2((w - 1) as nat) {
        x as int
    } else {
        x - pow2(w)
    }
}

/// Whether a conditional branch is taken: the carry conditions test
/// whether the exact sum of the operands exceeds the largest value
/// representable at the width, the signed condition compares the operands
/// as two's-complement numbers.
pub open spec fn branch_taken(cond: Cond, a: u64, b: u64, w: nat) -> bool {
    match cond {
        Cond::CarryClear => a + b < pow2(w),
        Cond::CarrySet => a + b >= pow2(w),
        Cond::SignedGe => signed_val(a, w) >= signed_val(b, w),
    }
}

/// Move to the next instruction in fallthrough order.
pub open spec fn advance(s: MachineView) -> MachineView {
    MachineView { pc: s.pc + 1, ..s }
}

/// One step of execution at width `w`. A halted machine stays put; a
/// program counter past the end of the stream is the implicit halt;
/// otherwise the bridge's position counter is set to the executing index
/// and the instruction's semantics apply.
pub open spec fn step_spec(code: Seq<LInstr>, w: nat, s: MachineView) -> MachineView {
    if s.halted {
        s
    } else if s.pc >= code.len() {
        MachineView { halted: true, terminated: true, ..s }
    } else {
        let s0 = MachineView { current_instruction: s.pc as u64, ..s };
        match code[s.pc as int] {
            LInstr::Add { dst, a, b } => advance(
                store(s0, dst, word_add(val_eval(a, s.regs, s.sp), val_eval(b, s.regs, s.sp), w)),
            ),
            LInstr::Sub { dst, a, b } => advance(
                store(s0, dst, word_sub(val_eval(a, s.regs, s.sp), val_eval(b, s.regs, s.sp), w)),
            ),
            LInstr::Move { dst, a } => advance(store(s0, dst, val_eval(a, s.regs, s.sp))),
            LInstr::Jump { target } => MachineView { pc: target as nat, ..s0 },
            LInstr::Branch { cond, target, a, b } => if branch_taken(
                cond,
                val_eval(a, s.regs, s.sp),
                val_eval(b, s.regs, s.sp),
                w,
            ) {
                MachineView { pc: target as nat, ..s0 }
            } else {
                advance(s0)
            },
            LInstr::PutText { a } => advance(
                MachineView { out: s0.out.push(char_of_word(val_eval(a, s.regs, s.sp))), ..s0 },
            ),
            LInstr::PutNumb { a } => advance(
                MachineView {
                    out: s0.out + dec_rep(val_eval(a, s.regs, s.sp) as nat),
                    ..s0
                },
            ),
            LInstr::Halt => MachineView { halted: true, terminated: true, ..s0 },
        }
    }
}

/// At most `fuel` steps of execution, stopping early once halted.
pub open spec fn run_spec(code: Seq<LInstr>, w: nat, s: MachineView, fuel: nat) -> MachineView
    decreases fuel,
{
    if fuel == 0 || s.halted {
        s
    } else {
        run_spec(code, w, step_spec(code, w, s), (fuel - 1) as nat)
    }
}

/// A machine executing one lowered program.
pub struct Machine {
    pub prog: CompiledProgram,
    pub regs: Vec<u64>,
    pub sp: u64,
    pub pc: usize,
    pub halted: bool,
    pub ctx: ExecContext,
}

impl View for Machine {
    type V = MachineView;

    open spec fn view(&self) -> MachineView {
        MachineView {
            regs: self.regs@,
            sp: self.sp,
            pc: self.pc as nat,
            halted: self.halted,
            out: self.ctx.text_io_buffer@,
            current_instruction: self.ctx.current_instruction,
            terminated: self.ctx.terminated,
        }
    }
}

impl Machine {
    /// Everything a step relies on: a well-formed program, one storage
    /// location per declared register all holding width-wide values (with
    /// register 0 holding zero), a width-wide stack pointer, and a program
    /// counter no further than just past the end of the stream.
    pub open spec fn wf(self) -> bool {
        &&& self.prog.wf()
        &&& self.regs@.len() == self.prog.register_count
        &&& forall|j: int|
            0 <= j < self.regs@.len() ==> (#[trigger] self.regs@[j] as nat) < pow2(
                self.prog.word_width_bits as nat,
            )
        &&& self.regs@[0] == 0
        &&& (self.sp as nat) < pow2(self.prog.word_width_bits as nat)
        &&& self.pc <= self.prog.code@.len()
    }

    /// A fresh machine over a lowered program: every storage location
    /// zero, the counter at the entry, nothing output, not halted.
    pub fn new(prog: CompiledProgram) -> (r: Machine)
        requires
            prog.wf(),
        ensures
            r.wf(),
            r.prog == prog,
            r@.regs == Seq::new(prog.register_count as nat, |j: int| 0u64),
            r@.sp == 0,
            r@.pc == 0,
            !r@.halted,
            r@.out == Seq::<char>::empty(),
            r@.current_instruction == 0,
            !r@.terminated,
    {
        proof {
            lemma_pow2_pos(prog.word_width_bits as nat);
        }
        let count = prog.register_count;
        let mut regs: Vec<u64> = Vec::new();
        let mut j: usize = 0;
        while j < count
            invariant
                j <= count,
                regs@.len() == j,
                forall|k: int| 0 <= k < j ==> regs@[k] == 0,
            decreases count - j,
        {
            regs.push(0);
            j = j + 1;
        }
        proof {
            assert(regs@ =~= Seq::new(count as nat, |j: int| 0u64));
        }
        Machine { prog, regs, sp: 0, pc: 0, halted: false, ctx: ExecContext::new() }
    }

    /// Read a lowered operand.
    fn read_val(&self, v: Val) -> (r: u64)
        requires
            self.wf(),
            wf_val(v, self.prog.register_count as nat, self.prog.word_width_bits as nat),
        ensures
            r == val_eval(v, self.regs@, self.sp),
            (r as nat) < pow2(self.prog.word_width_bits as nat),
    {
        match v {
            Val::Const(c) => c,
            Val::Reg(Register::Sp) => self.sp,
            Val::Reg(Register::Gpr(n)) => self.regs[n as usize],
        }
    }

    /// Store a result into its destination, if it has one.
    fn write_reg(&mut self, dst: Option<Register>, v: u64)
        requires
            old(self).wf(),
            wf_dst(dst, old(self).prog.register_count as nat),
            (v as nat) < pow2(old(self).prog.word_width_bits as nat),
        ensures
            final(self).wf(),
            final(self).prog == old(self).prog,
            final(self).pc == old(self).pc,
            final(self).halted == old(self).halted,
            final(self).ctx == old(self).ctx,
            final(self)@ == store(old(self)@, dst, v),
    {
        match dst {
            None => {},
            Some(Register::Sp) => {
                self.sp = v;
            },
            Some(Register::Gpr(n)) => {
                let idx = n as usize;
                self.regs.set(idx, v);
            },
        }
    }

    /// One step of execution; does exactly what `step_spec` says.
    pub fn step(&mut self)
        requires
            old(self).wf(),
        ensures
            final(self).wf(),
            final(self).prog == old(self).prog,
            final(self)@ == step_spec(
                old(self).prog.code@,
                old(self).prog.word_width_bits as nat,
                old(self)@,
            ),
    {
        if self.halted {
            return ;
        }
        if self.pc >= self.prog.code.len() {
            self.halted = true;
            self.ctx.set_terminated();
            return ;
        }
        let w = self.prog.word_width_bits;
        let m = self.prog.modulus;
        self.ctx.set_current_instruction(self.pc as u64);
        let li = self.prog.code[self.pc];
        assert(wf_linstr(
            li,
            self.prog.register_count as nat,
            w as nat,
            self.prog.code@.len() as nat,
        ));
        match li {
            LInstr::Add { dst, a, b } => {
                let va = self.read_val(a);
                let vb = self.read_val(b);
                let v = word_add_exec(va, vb, m, w);
                self.write_reg(dst, v);
                self.pc = self.pc + 1;
            },
            LInstr::Sub { dst, a, b } => {
                let va = self.read_val(a);
                let vb = self.read_val(b);
                let v = word_sub_exec(va, vb, m, w);
                self.write_reg(dst, v);
                self.pc = self.pc + 1;
            },
            LInstr::Move { dst, a } => {
                let va = self.read_val(a);
                self.write_reg(dst, va);
                self.pc = self.pc + 1;
            },
            LInstr::Jump { target } => {
                self.pc = target;
            },
            LInstr::Branch { cond, target, a, b } => {
                let va = self.read_val(a);
                let vb = self.read_val(b);
                if branch_taken_exec(cond, va, vb, m, w) {
                    self.pc = target;
                } else {
                    self.pc = self.pc + 1;
                }
            },
            LInstr::PutText { a } => {
                let va = self.read_val(a);
                self.ctx.putc(va);
                self.pc = self.pc + 1;
            },
            LInstr::PutNumb { a } => {
                let va = self.read_val(a);
                self.ctx.putnumber(va);
                self.pc = self.pc + 1;
            },
            LInstr::Halt => {
                self.halted = true;
                self.ctx.set_terminated();
            },
        }
    }

    /// Run for at most `fuel` steps, stopping early once halted; does
    /// exactly what `run_spec` says. A program that has not halted within
    /// the fuel can be resumed by calling `run` again.
    pub fn run(&mut self, fuel: u64) -> (halted: bool)
        requires
            old(self).wf(),
        ensures
            final(self).wf(),
            final(self).prog == old(self).prog,
            final(self)@ == run_spec(
                old(self).prog.code@,
                old(self).prog.word_width_bits as nat,
                old(self)@,
                fuel as nat,
            ),
            halted == final(self)@.halted,
    {
        let mut f = fuel;
        while f > 0 && !self.halted
            invariant
                self.wf(),
                self.prog == old(self).prog,
                run_spec(
                    old(self).prog.code@,
                    old(self).prog.word_width_bits as nat,
                    old(self)@,
                    fuel as nat,
                ) == run_spec(
                    self.prog.code@,
                    self.prog.word_width_bits as nat,
                    self@,
                    f as nat,
                ),
            decreases f,
        {
            self.step();
            f = f - 1;
        }
        self.halted
    }
}

/// The wrapped sum at width `w`, computed through the word modulus.
fn word_add_exec(a: u64, b: u64, m: u128, w: usize) -> (r: u64)
    requires
        1 <= w <= MAX_WORD_WIDTH,
        m == pow2(w as nat),
        (a as nat) < pow2(w as nat),
        (b as nat) < pow2(w as nat),
    ensures
        r == word_add(a, b, w as nat),
        (r as nat) < pow2(w as nat),
{
    proof {
        lemma_pow2_pos(w as nat);
        lemma2_to64_rest();
        if w < 64 {
            lemma_pow2_strictly_increases(w as nat, 64);
        }
    }
    let s: u128 = a as u128 + b as u128;
    (s % m) as u64
}

/// The wrapped difference at width `w`, computed through the word modulus.
fn word_sub_exec(a: u64, b: u64, m: u128, w: usize) -> (r: u64)
    requires
        1 <= w <= MAX_WORD_WIDTH,
        m == pow2(w as nat),
        (a as nat) < pow2(w as nat),
        (b as nat) < pow2(w as nat),
    ensures
        r == word_sub(a, b, w as nat),
        (r as nat) < pow2(w as nat),
{
    proof {
        lemma_pow2_pos(w as nat);
        lemma2_to64_rest();
        if w < 64 {
            lemma_pow2_strictly_increases(w as nat, 64);
        }
        lemma_mod_multiples_vanish(1, (a as int) - (b as int), m as int);
    }
    let s: u128 = a as u128 + m - b as u128;
    (s % m) as u64
}

/// Whether a conditional branch is taken, computed through the word
/// modulus.
fn branch_taken_exec(cond: Cond, a: u64, b: u64, m: u128, w: usize) -> (r: bool)
    requires
        1 <= w <= MAX_WORD_WIDTH,
        m == pow2(w as nat),
        (a as nat) < pow2(w as nat),
        (b as nat) < pow2(w as nat),
    ensures
        r == branch_taken(cond, a, b, w as nat),
{
    match cond {
        Cond::CarryClear => (a as u128) + (b as u128) < m,
        Cond::CarrySet => (a as u128) + (b as u128) >= m,
        Cond::SignedGe => {
            proof {
                lemma_pow2_adds((w - 1) as nat, 1);
                lemma2_to64();
            }
            let half: u128 = m / 2;
            assert(half == pow2((w - 1) as nat));
            let a_neg = (a as u128) >= half;
            let b_neg = (b as u128) >= half;
            if a_neg == b_neg {
                a >= b
            } else {
                b_neg
            }
        },
    }
}

} // verus!

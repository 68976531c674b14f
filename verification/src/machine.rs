//! The mathematical model of the machine: states, the meaning of one
//! fetch-decode-execute step, reachability along successful steps, and the
//! laws the interpreter obeys (skip distances, call/return symmetry, the
//! halt program).

use vstd::prelude::*;
use crate::decode::op_class;
use crate::decode::op_d;
use crate::decode::op_kk;
use crate::decode::op_nnn;
use crate::decode::op_x;
use crate::decode::op_y;

verus! {

/// A fault that ends a run, reported to the caller rather than masked.
#[derive(Clone, Copy, Debug, PartialEq, Eq, Structural)]
pub enum ExecFault {
    /// The program counter does not address a full two-byte window.
    OutOfBoundsFetch {
        /// The out-of-range program counter.
        pc: usize,
    },
    /// A CALL was executed with the call stack already at capacity.
    StackOverflow,
    /// A RET was executed with the call stack empty.
    StackUnderflow,
    /// The decoded tuple is not in the recognized operation table.
    UnknownOpcode {
        /// The offending instruction word.
        word: u16,
        /// The address the word was fetched from.
        addr: usize,
    },
}

/// What one successful step of the interpreter reported.
#[derive(Clone, Copy, Debug, PartialEq, Eq, Structural)]
pub enum StepOutcome {
    /// An ordinary instruction executed; the machine can step again.
    Proceeded,
    /// The halt word executed; the run loop stops.
    Halted,
}

/// How a run ended, when it did not fault.
#[derive(Clone, Copy, Debug, PartialEq, Eq, Structural)]
pub enum RunOutcome {
    /// The halt word executed; the run is over.
    Halted,
    /// The step budget ran out first; the machine can run further.
    OutOfSteps,
}

/// A machine state, as the contracts speak of it: the register file and
/// memory as sequences of bytes, the call stack as a sequence of return
/// addresses, and the two counters as unbounded integers.
#[verifier::ext_equal]
pub struct State {
    /// The sixteen 8-bit registers; index 15 is the arithmetic flag.
    pub regs: Seq<u8>,
    /// The 4096 bytes of flat memory.
    pub mem: Seq<u8>,
    /// The program counter: the address of the next instruction word.
    pub pc: int,
    /// The sixteen call-stack slots.
    pub stack: Seq<u16>,
    /// The stack pointer: the index of the next free stack slot.
    pub sp: int,
}

/// Well-formed: the storage has its fixed sizes, the stack pointer is
/// within the stack, and the program counter fits in a 16-bit address.
pub open spec fn state_wf(s: State) -> bool {
    &&& s.regs.len() == 16
    &&& s.mem.len() == 4096
    &&& s.stack.len() == 16
    &&& 0 <= s.sp <= 16
    &&& 0 <= s.pc <= 0xFFFF
}

/// The instruction word at the program counter: the two bytes there,
/// combined big-endian.
pub open spec fn word_at(s: State) -> u16 {
    ((s.mem[s.pc] as u16) << 8) | (s.mem[s.pc + 1] as u16)
}

/// The low byte of an 8-bit sum.
pub open spec fn add_result(a: u8, b: u8) -> u8 {
    ((a + b) % 256) as u8
}

/// Whether an 8-bit addition overflowed.
pub open spec fn add_carry(a: u8, b: u8) -> bool {
    a + b > 255
}

/// The 8-bit difference, wrapping on underflow.
pub open spec fn sub_result(a: u8, b: u8) -> u8 {
    ((a - b + 256) % 256) as u8
}

/// Whether an 8-bit subtraction underflowed.
pub open spec fn sub_borrow(a: u8, b: u8) -> bool {
    a < b
}

/// The register file after a flag-setting arithmetic operation: the result
/// goes to register `x`, then the overflow bit, as 0 or 1, to register 15 —
/// in that order, so the flag wins when `x` is 15 itself.
pub open spec fn arith_flag_regs(regs: Seq<u8>, x: int, val: u8, carry: bool) -> Seq<u8> {
    regs.update(x, val).update(15, if carry { 1u8 } else { 0u8 })
}

/// The meaning of one step from state `s`: fetch the word at the program
/// counter, advance the counter by two, decode, and apply the recognized
/// operation — or fault, leaving the state as it stands.
pub enum SpecStep {
    /// The halt word: the run loop stops in this state (only the program
    /// counter has moved, past the halt word).
    Halted(State),
    /// An ordinary instruction: the machine moves to this state.
    Stepped(State),
    /// A fault: the machine does not move.
    Faulted(ExecFault),
}

/// One fetch-decode-execute step from `s`, as a mathematical function.
pub open spec fn step_spec(s: State) -> SpecStep {
    if !(s.pc + 1 < s.mem.len()) {
        SpecStep::Faulted(ExecFault::OutOfBoundsFetch { pc: s.pc as usize })
    } else {
        let w: u16 = word_at(s);
        let c: u8 = op_class(w);
        let x: int = op_x(w) as int;
        let y: int = op_y(w) as int;
        let d: u8 = op_d(w);
        let nnn: u16 = op_nnn(w);
        let kk: u8 = op_kk(w);
        let pc2: int = s.pc + 2;
        if c == 0 && op_x(w) == 0 && op_y(w) == 0 && d == 0 {
            SpecStep::Halted(State { pc: pc2, ..s })
        } else if c == 0 && op_x(w) == 0 && op_y(w) == 0xE && d == 0xE {
            if s.sp == 0 {
                SpecStep::Faulted(ExecFault::StackUnderflow)
            } else {
                SpecStep::Stepped(State { pc: s.stack[s.sp - 1] as int, sp: s.sp - 1, ..s })
            }
        } else if c == 1 {
            SpecStep::Stepped(State { pc: nnn as int, ..s })
        } else if c == 2 {
            if s.sp >= 16 {
                SpecStep::Faulted(ExecFault::StackOverflow)
            } else {
                SpecStep::Stepped(
                    State { pc: nnn as int, stack: s.stack.update(s.sp, pc2 as u16), sp: s.sp + 1, ..s },
                )
            }
        } else if c == 3 {
            SpecStep::Stepped(State { pc: if s.regs[x] == kk { pc2 + 2 } else { pc2 }, ..s })
        } else if c == 4 {
            SpecStep::Stepped(State { pc: if s.regs[x] != kk { pc2 + 2 } else { pc2 }, ..s })
        } else if c == 5 && d == 0 {
            SpecStep::Stepped(State { pc: if s.regs[x] == s.regs[y] { pc2 + 2 } else { pc2 }, ..s })
        } else if c == 6 {
            SpecStep::Stepped(State { pc: pc2, regs: s.regs.update(x, kk), ..s })
        } else if c == 7 {
            SpecStep::Stepped(State { pc: pc2, regs: s.regs.update(x, add_result(s.regs[x], kk)), ..s })
        } else if c == 8 && d == 0 {
            SpecStep::Stepped(State { pc: pc2, regs: s.regs.update(x, s.regs[y]), ..s })
        } else if c == 8 && d == 1 {
            SpecStep::Stepped(State { pc: pc2, regs: s.regs.update(x, s.regs[x] | s.regs[y]), ..s })
        } else if c == 8 && d == 2 {
            SpecStep::Stepped(State { pc: pc2, regs: s.regs.update(x, s.regs[x] & s.regs[y]), ..s })
        } else if c == 8 && d == 3 {
            SpecStep::Stepped(State { pc: pc2, regs: s.regs.update(x, s.regs[x] ^ s.regs[y]), ..s })
        } else if c == 8 && d == 4 {
            SpecStep::Stepped(
                State {
                    pc: pc2,
                    regs: arith_flag_regs(
                        s.regs,
                        x,
                        add_result(s.regs[x], s.regs[y]),
                        add_carry(s.regs[x], s.regs[y]),
                    ),
                    ..s
                },
            )
        } else if c == 8 && d == 5 {
            SpecStep::Stepped(
                State {
                    pc: pc2,
                    regs: arith_flag_regs(
                        s.regs,
                        x,
                        sub_result(s.regs[x], s.regs[y]),
                        sub_borrow(s.regs[x], s.regs[y]),
                    ),
                    ..s
                },
            )
        } else {
            SpecStep::Faulted(ExecFault::UnknownOpcode { word: w, addr: s.pc as usize })
        }
    }
}

/// How one executable step must relate the state before, the state after
/// and the returned value: the step's result is exactly what `step_spec`
/// says, and a faulting step does not move the machine.
pub open spec fn step_result_ok(pre: State, post: State, r: Result<StepOutcome, ExecFault>) -> bool {
    match step_spec(pre) {
        SpecStep::Halted(s2) => post == s2 && r == Ok::<StepOutcome, ExecFault>(StepOutcome::Halted),
        SpecStep::Stepped(s2) => post == s2 && r == Ok::<StepOutcome, ExecFault>(
            StepOutcome::Proceeded,
        ),
        SpecStep::Faulted(f) => post == pre && r == Err::<StepOutcome, ExecFault>(f),
    }
}

/// `s1` follows from `s0` by exactly `n` ordinary (non-halt, non-fault)
/// steps.
pub open spec fn steps_to(s0: State, n: nat, s1: State) -> bool
    decreases n,
{
    if n == 0 {
        s0 == s1
    } else {
        step_spec(s0) matches SpecStep::Stepped(sm) && steps_to(sm, (n - 1) as nat, s1)
    }
}

/// `s1` follows from `s0` by some number of ordinary steps.
pub open spec fn reaches(s0: State, s1: State) -> bool {
    exists|n: nat| steps_to(s0, n, s1)
}

/// A chain of `n` ordinary steps extends by one more.
pub proof fn lemma_steps_to_extend(s0: State, n: nat, s1: State, s2: State)
    requires
        steps_to(s0, n, s1),
        step_spec(s1) == SpecStep::Stepped(s2),
    ensures
        steps_to(s0, n + 1, s2),
    decreases n,
{
    if n == 0 {
        assert(steps_to(s2, 0, s2));
    } else {
        match step_spec(s0) {
            SpecStep::Stepped(sm) => {
                lemma_steps_to_extend(sm, (n - 1) as nat, s1, s2);
            },
            _ => {
                assert(false);
            },
        }
    }
}

/// The state after one ordinary step — the same state where the step is a
/// halt or a fault.
pub open spec fn step_target(s: State) -> State {
    match step_spec(s) {
        SpecStep::Stepped(s2) => s2,
        _ => s,
    }
}

/// The state reached after `n` steps from `s`.
pub open spec fn run_from(s: State, n: nat) -> State
    decreases n,
{
    if n == 0 {
        s
    } else {
        step_target(run_from(s, (n - 1) as nat))
    }
}

/// Whether the first `n` steps from `s` are all ordinary steps.
pub open spec fn trace_ok(s: State, n: nat) -> bool
    decreases n,
{
    n == 0 || (trace_ok(s, (n - 1) as nat) && step_spec(run_from(s, (n - 1) as nat))
        is Stepped)
}

/// A trace of `n` ordinary steps is exactly an `n`-step chain to its
/// endpoint, so the endpoint is reachable.
pub proof fn lemma_trace_steps_to(s: State, n: nat)
    requires
        trace_ok(s, n),
    ensures
        steps_to(s, n, run_from(s, n)),
        reaches(s, run_from(s, n)),
    decreases n,
{
    if n > 0 {
        let m = (n - 1) as nat;
        lemma_trace_steps_to(s, m);
        match step_spec(run_from(s, m)) {
            SpecStep::Stepped(st) => {
                lemma_steps_to_extend(s, m, run_from(s, m), st);
            },
            _ => {
                assert(false);
            },
        }
    }
    assert(steps_to(s, n, run_from(s, n)));
}

/// An ordinary step preserves well-formedness.
pub proof fn lemma_step_wf(s: State, s2: State)
    requires
        state_wf(s),
        step_spec(s) == SpecStep::Stepped(s2),
    ensures
        state_wf(s2),
{
    crate::decode::lemma_fields_bounded(word_at(s));
}

/// An ordinary step writes the stack only at the current stack pointer,
/// lowers the stack pointer by at most one, and when it lowers it the
/// step was a return to the address stored just below it.
pub proof fn lemma_step_stack_frame(s: State, s2: State, k: int)
    requires
        state_wf(s),
        step_spec(s) == SpecStep::Stepped(s2),
        0 <= k < s.sp,
    ensures
        s2.stack.len() == s.stack.len(),
        s2.stack[k] == s.stack[k],
        s2.sp >= s.sp - 1,
        s2.sp < s.sp ==> s2.sp == s.sp - 1 && s2.pc == s.stack[s.sp - 1] as int,
{
}

/// While the stack pointer stays above `k`, stack slot `k` is preserved,
/// and well-formedness is kept, along a whole trace.
pub proof fn lemma_stack_slot_preserved(s: State, k: int, n: nat)
    requires
        state_wf(s),
        trace_ok(s, n),
        0 <= k < s.stack.len(),
        forall|i: nat| i < n ==> (#[trigger] run_from(s, i)).sp > k,
    ensures
        state_wf(run_from(s, n)),
        run_from(s, n).stack[k] == s.stack[k],
    decreases n,
{
    if n > 0 {
        let m = (n - 1) as nat;
        lemma_stack_slot_preserved(s, k, m);
        let sm = run_from(s, m);
        assert(run_from(s, m).sp > k);
        match step_spec(sm) {
            SpecStep::Stepped(st) => {
                lemma_step_wf(sm, st);
                lemma_step_stack_frame(sm, st, k);
            },
            _ => {
                assert(false);
            },
        }
    }
}

/// The effect of a CALL instruction: with room on the stack it pushes the
/// fall-through address and jumps to the call target, and at capacity it
/// faults with a stack overflow — so nesting to the stack's capacity
/// succeeds and one call more fails.
pub proof fn lemma_call_effect(s: State)
    requires
        state_wf(s),
        s.pc + 1 < s.mem.len(),
        op_class(word_at(s)) == 2,
    ensures
        s.sp < 16 ==> step_spec(s) == SpecStep::Stepped(
            State {
                pc: op_nnn(word_at(s)) as int,
                stack: s.stack.update(s.sp, (s.pc + 2) as u16),
                sp: s.sp + 1,
                ..s
            },
        ),
        s.sp == 16 ==> step_spec(s) == SpecStep::Faulted(ExecFault::StackOverflow),
{
}

/// Call/return symmetry: after a CALL, the first time execution brings
/// the stack pointer back down to its pre-call depth, the step that did
/// so was a return to the instruction immediately after the call, and the
/// stack below the pre-call depth stands as it did before the call.
pub proof fn lemma_call_return_symmetry(s: State, n: nat)
    requires
        state_wf(s),
        s.pc + 1 < s.mem.len(),
        op_class(word_at(s)) == 2,
        s.sp < 16,
        trace_ok(step_target(s), n),
        forall|i: nat| i < n ==> (#[trigger] run_from(step_target(s), i)).sp > s.sp,
        run_from(step_target(s), n).sp == s.sp,
    ensures
        run_from(step_target(s), n).pc == s.pc + 2,
        forall|k: int| 0 <= k < s.sp ==> run_from(step_target(s), n).stack[k] == s.stack[k],
{
    lemma_call_effect(s);
    let s2 = step_target(s);
    assert(s2.sp == s.sp + 1);
    if n == 0 {
        assert(false);
    } else {
        let m = (n - 1) as nat;
        let sm = run_from(s2, m);
        lemma_stack_slot_preserved(s2, s.sp, m);
        assert(run_from(s2, m).sp > s.sp);
        match step_spec(sm) {
            SpecStep::Stepped(st) => {
                lemma_step_stack_frame(sm, st, s.sp);
                assert(st == run_from(s2, n));
                assert(st.pc == sm.stack[sm.sp - 1] as int);
                assert(sm.stack[s.sp] == s2.stack[s.sp]);
                assert(s2.stack[s.sp] == (s.pc + 2) as u16);
            },
            _ => {
                assert(false);
            },
        }
        assert forall|k: int| 0 <= k < s.sp implies run_from(s2, n).stack[k] == s.stack[k] by {
            lemma_stack_slot_preserved(s2, k, n);
            assert(s2.stack[k] == s.stack[k]);
        }
    }
}

/// Skip semantics for SKIP_EQ_IMM: relative to the instruction's own
/// address, the program counter advances by exactly 4 when register `x`
/// equals the immediate and by exactly 2 otherwise.
pub proof fn lemma_skip_eq_imm(s: State)
    requires
        state_wf(s),
        s.pc + 1 < s.mem.len(),
        op_class(word_at(s)) == 3,
    ensures
        s.regs[op_x(word_at(s)) as int] == op_kk(word_at(s)) ==> step_spec(s)
            == SpecStep::Stepped(State { pc: s.pc + 4, ..s }),
        s.regs[op_x(word_at(s)) as int] != op_kk(word_at(s)) ==> step_spec(s)
            == SpecStep::Stepped(State { pc: s.pc + 2, ..s }),
{
}

/// Skip semantics for SKIP_NEQ_IMM: the program counter advances by 4
/// when register `x` differs from the immediate and by 2 otherwise.
pub proof fn lemma_skip_neq_imm(s: State)
    requires
        state_wf(s),
        s.pc + 1 < s.mem.len(),
        op_class(word_at(s)) == 4,
    ensures
        s.regs[op_x(word_at(s)) as int] != op_kk(word_at(s)) ==> step_spec(s)
            == SpecStep::Stepped(State { pc: s.pc + 4, ..s }),
        s.regs[op_x(word_at(s)) as int] == op_kk(word_at(s)) ==> step_spec(s)
            == SpecStep::Stepped(State { pc: s.pc + 2, ..s }),
{
}

/// Skip semantics for SKIP_EQ_REG: the program counter advances by 4 when
/// registers `x` and `y` are equal and by 2 otherwise.
pub proof fn lemma_skip_eq_reg(s: State)
    requires
        state_wf(s),
        s.pc + 1 < s.mem.len(),
        op_class(word_at(s)) == 5,
        op_d(word_at(s)) == 0,
    ensures
        s.regs[op_x(word_at(s)) as int] == s.regs[op_y(word_at(s)) as int] ==> step_spec(s)
            == SpecStep::Stepped(State { pc: s.pc + 4, ..s }),
        s.regs[op_x(word_at(s)) as int] != s.regs[op_y(word_at(s)) as int] ==> step_spec(s)
            == SpecStep::Stepped(State { pc: s.pc + 2, ..s }),
{
}

/// Executing the halt word stops the run loop, moving nothing but the
/// program counter, which steps past the halt word.
pub proof fn lemma_halt_step(s: State)
    requires
        state_wf(s),
        s.pc + 1 < s.mem.len(),
        word_at(s) == 0,
    ensures
        step_spec(s) == SpecStep::Halted(State { pc: s.pc + 2, ..s }),
{
    assert(op_class(0u16) == 0 && op_x(0u16) == 0 && op_y(0u16) == 0 && op_d(0u16) == 0)
        by (bit_vector);
}

/// A program that is nothing but the halt word halts at once: from a
/// state whose memory is all zero, no state but the start is reachable,
/// and its one step is the halt, which leaves registers, memory and stack
/// untouched.
pub proof fn lemma_halt_program(s: State, sh: State)
    requires
        state_wf(s),
        s.pc + 1 < s.mem.len(),
        forall|i: int| 0 <= i < s.mem.len() ==> s.mem[i] == 0,
        reaches(s, sh),
    ensures
        sh == s,
        step_spec(sh) == SpecStep::Halted(State { pc: s.pc + 2, ..s }),
{
    assert(s.mem[s.pc] == 0 && s.mem[s.pc + 1] == 0);
    assert(((0u8 as u16) << 8) | (0u8 as u16) == 0u16) by (bit_vector);
    assert(word_at(s) == 0);
    lemma_halt_step(s);
    let n = choose|n: nat| steps_to(s, n, sh);
    if n > 0 {
        assert(false);
    }
}

} // verus!

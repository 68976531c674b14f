//! The executable machine: an owned register file, memory and call stack,
//! with a verified fetch-decode-execute step and run loop.

use vstd::prelude::*;
use crate::decode::decode;
use crate::machine::ExecFault;
use crate::machine::SpecStep;
use crate::machine::State;
use crate::machine::RunOutcome;
use crate::machine::StepOutcome;
use crate::machine::add_carry;
use crate::machine::add_result;
use crate::machine::arith_flag_regs;
use crate::machine::lemma_steps_to_extend;
use crate::machine::reaches;
use crate::machine::state_wf;
use crate::machine::step_result_ok;
use crate::machine::step_spec;
use crate::machine::steps_to;
use crate::machine::sub_borrow;
use crate::machine::sub_result;
use crate::machine::word_at;

verus! {

/// A vector of `n` zero bytes.
fn zero_bytes(n: usize) -> (v: Vec<u8>)
    ensures
        v@.len() == n,
        forall|i: int| 0 <= i < n ==> v@[i] == 0,
{
    let mut v: Vec<u8> = Vec::new();
    let mut i: usize = 0;
    while i < n
        invariant
            i <= n,
            v@.len() == i,
            forall|j: int| 0 <= j < i ==> v@[j] == 0,
        decreases n - i,
    {
        v.push(0);
        i = i + 1;
    }
    v
}

/// A vector of `n` zero 16-bit words.
fn zero_words(n: usize) -> (v: Vec<u16>)
    ensures
        v@.len() == n,
        forall|i: int| 0 <= i < n ==> v@[i] == 0,
{
    let mut v: Vec<u16> = Vec::new();
    let mut i: usize = 0;
    while i < n
        invariant
            i <= n,
            v@.len() == i,
            forall|j: int| 0 <= j < i ==> v@[j] == 0,
        decreases n - i,
    {
        v.push(0);
        i = i + 1;
    }
    v
}

/// The machine: sixteen 8-bit registers, 4096 bytes of flat memory, a
/// sixteen-slot call stack, a program counter and a stack pointer. It is
/// the sole owner of all its storage.
pub struct CPU {
    /// The register file, indexed 0x0 to 0xF; register 0xF doubles as the
    /// arithmetic flag. A caller may preset it before a run and inspect it
    /// after.
    pub registers: Vec<u8>,
    /// The flat memory, addresses 0x000 to 0xFFF, with no code/data
    /// distinction. A caller loads a program here before a run.
    pub memory: Vec<u8>,
    position_in_memory: usize,
    stack: Vec<u16>,
    stack_pointer: usize,
}

impl View for CPU {
    type V = State;

    closed spec fn view(&self) -> State {
        State {
            regs: self.registers@,
            mem: self.memory@,
            pc: self.position_in_memory as int,
            stack: self.stack@,
            sp: self.stack_pointer as int,
        }
    }
}

impl CPU {
    /// Well-formed: the storage has its fixed sizes and the counters are
    /// in range. Construction establishes this and every method keeps it.
    pub open spec fn wf(&self) -> bool {
        state_wf(self@)
    }

    /// A machine with every register, memory byte and stack slot zero and
    /// both counters zero.
    pub fn new() -> (cpu: CPU)
        ensures
            cpu.wf(),
            cpu@.pc == 0,
            cpu@.sp == 0,
            forall|i: int| 0 <= i < 16 ==> cpu@.regs[i] == 0,
            forall|i: int| 0 <= i < 4096 ==> cpu@.mem[i] == 0,
            forall|i: int| 0 <= i < 16 ==> cpu@.stack[i] == 0,
    {
        CPU {
            registers: zero_bytes(16),
            memory: zero_bytes(4096),
            position_in_memory: 0,
            stack: zero_words(16),
            stack_pointer: 0,
        }
    }

    /// The program counter: the address the next fetch reads from.
    pub fn pc(&self) -> (r: usize)
        ensures
            r == self@.pc,
    {
        self.position_in_memory
    }

    /// How many return addresses the call stack holds.
    pub fn stack_depth(&self) -> (r: usize)
        ensures
            r == self@.sp,
    {
        self.stack_pointer
    }

    /// Fetch: read the two bytes at the program counter and combine them
    /// big-endian into one instruction word. Does not advance the counter;
    /// fails, reading nothing, when the counter does not address a full
    /// two-byte window.
    pub fn read_opcode(&self) -> (r: Result<u16, ExecFault>)
        requires
            self.wf(),
        ensures
            self@.pc + 1 < self@.mem.len() ==> r == Ok::<u16, ExecFault>(word_at(self@)),
            !(self@.pc + 1 < self@.mem.len()) ==> r == Err::<u16, ExecFault>(
                ExecFault::OutOfBoundsFetch { pc: self@.pc as usize },
            ),
    {
        let p: usize = self.position_in_memory;
        if p >= self.memory.len() - 1 {
            return Err(ExecFault::OutOfBoundsFetch { pc: p });
        }
        let op_byte1: u16 = self.memory[p] as u16;
        let op_byte2: u16 = self.memory[p + 1] as u16;
        Ok(op_byte1 << 8 | op_byte2)
    }

    /// One flag-setting arithmetic step, parametrized by the arithmetic
    /// operation, which is passed as a capability: write the operation's
    /// result to register `x` and its overflow bit, as 0 or 1, to register
    /// 0xF — in that order, so the flag wins when `x` is 0xF itself.
    fn perform_op<F: Fn(u8, u8) -> (u8, bool)>(&mut self, x: u8, y: u8, f: F)
        requires
            old(self).wf(),
            x < 16,
            y < 16,
            forall|a: u8, b: u8| call_requires(f, (a, b)),
        ensures
            final(self).wf(),
            exists|r: (u8, bool)|
                #[trigger] call_ensures(
                    f,
                    (old(self)@.regs[x as int], old(self)@.regs[y as int]),
                    r,
                ) && final(self)@ == (State {
                    regs: arith_flag_regs(old(self)@.regs, x as int, r.0, r.1),
                    ..old(self)@
                }),
    {
        let arg1: u8 = self.registers[x as usize];
        let arg2: u8 = self.registers[y as usize];
        let r: (u8, bool) = f(arg1, arg2);
        self.registers[x as usize] = r.0;
        if r.1 {
            self.registers[0xF] = 1;
        } else {
            self.registers[0xF] = 0;
        }
    }

    /// ADD_REG: wrapping add of register `y` into register `x`; register
    /// 0xF records the carry — 1 exactly when the true sum exceeds 255.
    pub fn add_xy(&mut self, x: u8, y: u8)
        requires
            old(self).wf(),
            x < 16,
            y < 16,
        ensures
            final(self).wf(),
            final(self)@ == (State {
                regs: arith_flag_regs(
                    old(self)@.regs,
                    x as int,
                    add_result(old(self)@.regs[x as int], old(self)@.regs[y as int]),
                    add_carry(old(self)@.regs[x as int], old(self)@.regs[y as int]),
                ),
                ..old(self)@
            }),
            final(self)@.regs[15] == (if old(self)@.regs[x as int] + old(self)@.regs[y as int]
                > 255 {
                1u8
            } else {
                0u8
            }),
            x != 15 ==> final(self)@.regs[x as int] == ((old(self)@.regs[x as int] + old(self)@.regs[y as int]) % 256) as u8,
    {
        self.perform_op(x, y, add_with_carry);
    }

    /// SUB_REG: wrapping subtraction of register `y` from register `x`;
    /// register 0xF records the borrow — 1 exactly when the subtrahend was
    /// the larger.
    pub fn sub_xy(&mut self, x: u8, y: u8)
        requires
            old(self).wf(),
            x < 16,
            y < 16,
        ensures
            final(self).wf(),
            final(self)@ == (State {
                regs: arith_flag_regs(
                    old(self)@.regs,
                    x as int,
                    sub_result(old(self)@.regs[x as int], old(self)@.regs[y as int]),
                    sub_borrow(old(self)@.regs[x as int], old(self)@.regs[y as int]),
                ),
                ..old(self)@
            }),
            final(self)@.regs[15] == (if old(self)@.regs[x as int] < old(self)@.regs[y as int] {
                1u8
            } else {
                0u8
            }),
            x != 15 ==> final(self)@.regs[x as int] == ((old(self)@.regs[x as int] - old(self)@.regs[y as int] + 256) % 256) as u8,
    {
        self.perform_op(x, y, sub_with_borrow);
    }

    /// JMP: set the program counter to `addr`; nothing else moves.
    pub fn jmp(&mut self, addr: u16)
        requires
            old(self).wf(),
        ensures
            final(self).wf(),
            final(self)@ == (State { pc: addr as int, ..old(self)@ }),
    {
        self.position_in_memory = addr as usize;
    }

    /// CALL: push the current program counter — the return address — onto
    /// the stack and jump to `addr`. With the stack at capacity nothing
    /// changes and the call reports a stack overflow.
    pub fn call(&mut self, addr: u16) -> (r: Result<(), ExecFault>)
        requires
            old(self).wf(),
        ensures
            final(self).wf(),
            old(self)@.sp < 16 ==> r == Ok::<(), ExecFault>(()) && final(self)@ == (State {
                pc: addr as int,
                stack: old(self)@.stack.update(old(self)@.sp, old(self)@.pc as u16),
                sp: old(self)@.sp + 1,
                ..old(self)@
            }),
            old(self)@.sp == 16 ==> r == Err::<(), ExecFault>(ExecFault::StackOverflow) && final(self)@ == old(self)@,
    {
        let sp: usize = self.stack_pointer;
        if sp >= self.stack.len() {
            return Err(ExecFault::StackOverflow);
        }
        self.stack[sp] = self.position_in_memory as u16;
        self.stack_pointer = sp + 1;
        self.position_in_memory = addr as usize;
        Ok(())
    }

    /// RET: pop the top return address into the program counter. With the
    /// stack empty nothing changes and the return reports an underflow.
    pub fn ret(&mut self) -> (r: Result<(), ExecFault>)
        requires
            old(self).wf(),
        ensures
            final(self).wf(),
            old(self)@.sp == 0 ==> r == Err::<(), ExecFault>(ExecFault::StackUnderflow) && final(self)@ == old(self)@,
            old(self)@.sp > 0 ==> r == Ok::<(), ExecFault>(()) && final(self)@ == (State {
                pc: old(self)@.stack[old(self)@.sp - 1] as int,
                sp: old(self)@.sp - 1,
                ..old(self)@
            }),
    {
        if self.stack_pointer == 0 {
            return Err(ExecFault::StackUnderflow);
        }
        self.stack_pointer = self.stack_pointer - 1;
        let call_addr: u16 = self.stack[self.stack_pointer];
        self.position_in_memory = call_addr as usize;
        Ok(())
    }

    /// One fetch-decode-execute step: fetch the word at the program
    /// counter, advance the counter by two, decode, and apply the
    /// recognized operation. The result is exactly what `step_spec` says
    /// of the old state; on a fault the machine does not move.
    pub fn step(&mut self) -> (r: Result<StepOutcome, ExecFault>)
        requires
            old(self).wf(),
        ensures
            final(self).wf(),
            step_result_ok(old(self)@, final(self)@, r),
    {
        let word: u16 = match self.read_opcode() {
            Ok(w) => w,
            Err(f) => {
                return Err(f);
            },
        };
        let instr = decode(word);
        let next_pc: usize = self.position_in_memory + 2;
        match (instr.c, instr.x, instr.y, instr.d) {
            (0, 0, 0, 0) => {
                self.position_in_memory = next_pc;
                Ok(StepOutcome::Halted)
            },
            (0, 0, 0xE, 0xE) => {
                match self.ret() {
                    Ok(_) => Ok(StepOutcome::Proceeded),
                    Err(f) => Err(f),
                }
            },
            (0x1, _, _, _) => {
                self.jmp(instr.nnn);
                Ok(StepOutcome::Proceeded)
            },
            (0x2, _, _, _) => {
                if self.stack_pointer >= self.stack.len() {
                    Err(ExecFault::StackOverflow)
                } else {
                    self.position_in_memory = next_pc;
                    match self.call(instr.nnn) {
                        Ok(_) => Ok(StepOutcome::Proceeded),
                        Err(f) => Err(f),
                    }
                }
            },
            (0x3, _, _, _) => {
                if self.registers[instr.x as usize] == instr.kk {
                    self.position_in_memory = next_pc + 2;
                } else {
                    self.position_in_memory = next_pc;
                }
                Ok(StepOutcome::Proceeded)
            },
            (0x4, _, _, _) => {
                if self.registers[instr.x as usize] != instr.kk {
                    self.position_in_memory = next_pc + 2;
                } else {
                    self.position_in_memory = next_pc;
                }
                Ok(StepOutcome::Proceeded)
            },
            (0x5, _, _, 0) => {
                if self.registers[instr.x as usize] == self.registers[instr.y as usize] {
                    self.position_in_memory = next_pc + 2;
                } else {
                    self.position_in_memory = next_pc;
                }
                Ok(StepOutcome::Proceeded)
            },
            (0x6, _, _, _) => {
                self.registers[instr.x as usize] = instr.kk;
                self.position_in_memory = next_pc;
                Ok(StepOutcome::Proceeded)
            },
            (0x7, _, _, _) => {
                let r: (u8, bool) = add_with_carry(self.registers[instr.x as usize], instr.kk);
                self.registers[instr.x as usize] = r.0;
                self.position_in_memory = next_pc;
                Ok(StepOutcome::Proceeded)
            },
            (0x8, _, _, 0) => {
                let v: u8 = self.registers[instr.y as usize];
                self.registers[instr.x as usize] = v;
                self.position_in_memory = next_pc;
                Ok(StepOutcome::Proceeded)
            },
            (0x8, _, _, 1) => {
                let v: u8 = self.registers[instr.x as usize] | self.registers[instr.y as usize];
                self.registers[instr.x as usize] = v;
                self.position_in_memory = next_pc;
                Ok(StepOutcome::Proceeded)
            },
            (0x8, _, _, 2) => {
                let v: u8 = self.registers[instr.x as usize] & self.registers[instr.y as usize];
                self.registers[instr.x as usize] = v;
                self.position_in_memory = next_pc;
                Ok(StepOutcome::Proceeded)
            },
            (0x8, _, _, 3) => {
                let v: u8 = self.registers[instr.x as usize] ^ self.registers[instr.y as usize];
                self.registers[instr.x as usize] = v;
                self.position_in_memory = next_pc;
                Ok(StepOutcome::Proceeded)
            },
            (0x8, _, _, 0x4) => {
                self.position_in_memory = next_pc;
                self.add_xy(instr.x, instr.y);
                Ok(StepOutcome::Proceeded)
            },
            (0x8, _, _, 0x5) => {
                self.position_in_memory = next_pc;
                self.sub_xy(instr.x, instr.y);
                Ok(StepOutcome::Proceeded)
            },
            _ => Err(ExecFault::UnknownOpcode { word, addr: self.position_in_memory }),
        }
    }

    /// The run loop: step until the halt word stops it, a fault ends the
    /// run with the machine as of the last completed instruction, or the
    /// host's step budget `max_steps` runs out — the one cancellation
    /// hook the core offers an embedding.
    ///
    /// On `Ok(Halted)` some state reachable from the starting one
    /// executed the halt word, leaving the machine in the returned state.
    /// On `Ok(OutOfSteps)` the machine took exactly `max_steps` ordinary
    /// steps. On `Err` the machine stands at a reachable state whose next
    /// step is exactly that fault.
    pub fn run(&mut self, max_steps: usize) -> (r: Result<RunOutcome, ExecFault>)
        requires
            old(self).wf(),
        ensures
            final(self).wf(),
            match r {
                Ok(RunOutcome::Halted) => exists|sh: State|
                    #[trigger] reaches(old(self)@, sh) && step_spec(sh) == SpecStep::Halted(
                        final(self)@,
                    ),
                Ok(RunOutcome::OutOfSteps) => steps_to(
                    old(self)@,
                    max_steps as nat,
                    final(self)@,
                ),
                Err(f) => reaches(old(self)@, final(self)@) && step_spec(final(self)@)
                    == SpecStep::Faulted(f),
            },
    {
        let mut steps_left: usize = max_steps;
        loop
            invariant
                self.wf(),
                steps_left <= max_steps,
                steps_to(old(self)@, (max_steps - steps_left) as nat, self@),
            decreases steps_left,
        {
            if steps_left == 0 {
                return Ok(RunOutcome::OutOfSteps);
            }
            let ghost pre: State = self@;
            let ghost taken: nat = (max_steps - steps_left) as nat;
            steps_left = steps_left - 1;
            match self.step() {
                Ok(StepOutcome::Halted) => {
                    proof {
                        assert(reaches(old(self)@, pre) && step_spec(pre) == SpecStep::Halted(
                            self@,
                        ));
                    }
                    return Ok(RunOutcome::Halted);
                },
                Ok(StepOutcome::Proceeded) => {
                    proof {
                        lemma_steps_to_extend(old(self)@, taken, pre, self@);
                    }
                },
                Err(f) => {
                    proof {
                        assert(reaches(old(self)@, self@));
                    }
                    return Err(f);
                },
            }
        }
    }
}

/// Wrapping 8-bit addition together with its overflow bit.
fn add_with_carry(a: u8, b: u8) -> (r: (u8, bool))
    ensures
        r.0 == add_result(a, b),
        r.1 == add_carry(a, b),
{
    let s: u16 = a as u16 + b as u16;
    (((s % 256) as u8), s > 255)
}

/// Wrapping 8-bit subtraction together with its underflow bit.
fn sub_with_borrow(a: u8, b: u8) -> (r: (u8, bool))
    ensures
        r.0 == sub_result(a, b),
        r.1 == sub_borrow(a, b),
{
    let d: u16 = (a as u16 + 256) - b as u16;
    (((d % 256) as u8), a < b)
}

} // verus!

//! End-to-end and per-operation tests of the interpreter.

use chip_8::CPU;
use chip_8::ExecFault;
use chip_8::RunOutcome;
use chip_8::StepOutcome;

/// Write one big-endian instruction word at `addr`.
fn put_word(cpu: &mut CPU, addr: usize, word: u16) {
    cpu.memory[addr] = (word >> 8) as u8;
    cpu.memory[addr + 1] = (word & 0xFF) as u8;
}

#[test]
fn decode_extracts_bit_fields() {
    let i = chip_8::decode::decode(0x8124);
    assert_eq!(i.c, 0x8);
    assert_eq!(i.x, 0x1);
    assert_eq!(i.y, 0x2);
    assert_eq!(i.d, 0x4);
    assert_eq!(i.nnn, 0x124);
    assert_eq!(i.kk, 0x24);

    let i = chip_8::decode::decode(0xABCD);
    assert_eq!((i.c, i.x, i.y, i.d), (0xA, 0xB, 0xC, 0xD));
    assert_eq!(i.nnn, 0xBCD);
    assert_eq!(i.kk, 0xCD);

    let i = chip_8::decode::decode(0x0000);
    assert_eq!((i.c, i.x, i.y, i.d, i.nnn, i.kk), (0, 0, 0, 0, 0, 0));

    let i = chip_8::decode::decode(0xFFFF);
    assert_eq!((i.c, i.x, i.y, i.d), (0xF, 0xF, 0xF, 0xF));
    assert_eq!(i.nnn, 0xFFF);
    assert_eq!(i.kk, 0xFF);
}

#[test]
fn read_opcode_combines_big_endian() {
    let mut cpu = CPU::new();
    cpu.memory[0] = 0xAB;
    cpu.memory[1] = 0xCD;
    assert_eq!(cpu.read_opcode(), Ok(0xABCD));
}

#[test]
fn read_opcode_rejects_out_of_bounds_fetch() {
    let mut cpu = CPU::new();
    cpu.jmp(0xFFF);
    assert_eq!(cpu.read_opcode(), Err(ExecFault::OutOfBoundsFetch { pc: 0xFFF }));
}

#[test]
fn add_xy_wraps_and_sets_carry() {
    let mut cpu = CPU::new();
    cpu.registers[0] = 200;
    cpu.registers[1] = 100;
    cpu.add_xy(0, 1);
    assert_eq!(cpu.registers[0], 44); // (200 + 100) mod 256
    assert_eq!(cpu.registers[0xF], 1);
}

#[test]
fn add_xy_without_overflow_clears_carry() {
    let mut cpu = CPU::new();
    cpu.registers[0xF] = 1; // a stale flag must be cleared
    cpu.registers[2] = 5;
    cpu.registers[3] = 10;
    cpu.add_xy(2, 3);
    assert_eq!(cpu.registers[2], 15);
    assert_eq!(cpu.registers[0xF], 0);
}

#[test]
fn add_xy_boundary_at_255() {
    let mut cpu = CPU::new();
    cpu.registers[0] = 255;
    cpu.registers[1] = 0;
    cpu.add_xy(0, 1);
    assert_eq!(cpu.registers[0], 255);
    assert_eq!(cpu.registers[0xF], 0);

    let mut cpu = CPU::new();
    cpu.registers[0] = 255;
    cpu.registers[1] = 1;
    cpu.add_xy(0, 1);
    assert_eq!(cpu.registers[0], 0);
    assert_eq!(cpu.registers[0xF], 1);
}

#[test]
fn add_xy_into_flag_register_keeps_the_flag() {
    // With x == 0xF the flag is written after the sum and wins.
    let mut cpu = CPU::new();
    cpu.registers[0xF] = 200;
    cpu.registers[1] = 100;
    cpu.add_xy(0xF, 1);
    assert_eq!(cpu.registers[0xF], 1);
}

#[test]
fn sub_xy_wraps_and_sets_borrow() {
    let mut cpu = CPU::new();
    cpu.registers[0] = 10;
    cpu.registers[1] = 20;
    cpu.sub_xy(0, 1);
    assert_eq!(cpu.registers[0], 246); // (10 - 20) mod 256
    assert_eq!(cpu.registers[0xF], 1);
}

#[test]
fn sub_xy_without_underflow_clears_borrow() {
    let mut cpu = CPU::new();
    cpu.registers[0xF] = 1;
    cpu.registers[0] = 20;
    cpu.registers[1] = 20;
    cpu.sub_xy(0, 1);
    assert_eq!(cpu.registers[0], 0);
    assert_eq!(cpu.registers[0xF], 0);
}

#[test]
fn jmp_redirects_the_program_counter() {
    let mut cpu = CPU::new();
    cpu.jmp(0x0ABC);
    assert_eq!(cpu.pc(), 0xABC);
}

#[test]
fn call_then_ret_restores_pc_and_depth() {
    let mut cpu = CPU::new();
    // CALL 0x100 at address 0; RET at 0x100.
    put_word(&mut cpu, 0x000, 0x2100);
    put_word(&mut cpu, 0x100, 0x00EE);
    assert_eq!(cpu.step(), Ok(StepOutcome::Proceeded));
    assert_eq!(cpu.pc(), 0x100);
    assert_eq!(cpu.stack_depth(), 1);
    assert_eq!(cpu.step(), Ok(StepOutcome::Proceeded));
    // Back at the instruction immediately after the CALL.
    assert_eq!(cpu.pc(), 0x002);
    assert_eq!(cpu.stack_depth(), 0);
}

#[test]
fn call_nests_to_capacity_and_one_more_overflows() {
    let mut cpu = CPU::new();
    for i in 0..16usize {
        assert_eq!(cpu.call(0x200), Ok(()));
        assert_eq!(cpu.stack_depth(), i + 1);
    }
    assert_eq!(cpu.call(0x200), Err(ExecFault::StackOverflow));
    // The failing call moved nothing.
    assert_eq!(cpu.stack_depth(), 16);
    assert_eq!(cpu.pc(), 0x200);
}

#[test]
fn ret_on_empty_stack_underflows() {
    let mut cpu = CPU::new();
    assert_eq!(cpu.ret(), Err(ExecFault::StackUnderflow));
    assert_eq!(cpu.pc(), 0);
}

#[test]
fn skip_eq_imm_advances_four_when_equal() {
    let mut cpu = CPU::new();
    put_word(&mut cpu, 0, 0x3005); // SKIP_EQ_IMM r0, 0x05
    cpu.registers[0] = 5;
    assert_eq!(cpu.step(), Ok(StepOutcome::Proceeded));
    assert_eq!(cpu.pc(), 4);
}

#[test]
fn skip_eq_imm_advances_two_when_unequal() {
    let mut cpu = CPU::new();
    put_word(&mut cpu, 0, 0x3005);
    cpu.registers[0] = 6;
    assert_eq!(cpu.step(), Ok(StepOutcome::Proceeded));
    assert_eq!(cpu.pc(), 2);
}

#[test]
fn skip_neq_imm_advances_four_when_unequal() {
    let mut cpu = CPU::new();
    put_word(&mut cpu, 0, 0x4005); // SKIP_NEQ_IMM r0, 0x05
    cpu.registers[0] = 6;
    assert_eq!(cpu.step(), Ok(StepOutcome::Proceeded));
    assert_eq!(cpu.pc(), 4);
}

#[test]
fn skip_neq_imm_advances_two_when_equal() {
    let mut cpu = CPU::new();
    put_word(&mut cpu, 0, 0x4005);
    cpu.registers[0] = 5;
    assert_eq!(cpu.step(), Ok(StepOutcome::Proceeded));
    assert_eq!(cpu.pc(), 2);
}

#[test]
fn skip_eq_reg_advances_four_when_equal() {
    let mut cpu = CPU::new();
    put_word(&mut cpu, 0, 0x5120); // SKIP_EQ_REG r1, r2
    cpu.registers[1] = 9;
    cpu.registers[2] = 9;
    assert_eq!(cpu.step(), Ok(StepOutcome::Proceeded));
    assert_eq!(cpu.pc(), 4);
}

#[test]
fn skip_eq_reg_advances_two_when_unequal() {
    let mut cpu = CPU::new();
    put_word(&mut cpu, 0, 0x5120);
    cpu.registers[1] = 9;
    cpu.registers[2] = 8;
    assert_eq!(cpu.step(), Ok(StepOutcome::Proceeded));
    assert_eq!(cpu.pc(), 2);
}

#[test]
fn skip_advances_relative_to_the_instruction_address() {
    let mut cpu = CPU::new();
    put_word(&mut cpu, 0x200, 0x3107); // SKIP_EQ_IMM r1, 0x07
    cpu.registers[1] = 7;
    cpu.jmp(0x200);
    assert_eq!(cpu.step(), Ok(StepOutcome::Proceeded));
    assert_eq!(cpu.pc(), 0x204);
}

#[test]
fn load_imm_writes_the_register() {
    let mut cpu = CPU::new();
    put_word(&mut cpu, 0, 0x6A42); // LOAD_IMM rA, 0x42
    assert_eq!(cpu.step(), Ok(StepOutcome::Proceeded));
    assert_eq!(cpu.registers[0xA], 0x42);
    assert_eq!(cpu.pc(), 2);
}

#[test]
fn add_imm_wraps_without_touching_the_flag() {
    let mut cpu = CPU::new();
    put_word(&mut cpu, 0, 0x70FF); // ADD_IMM r0, 0xFF
    cpu.registers[0] = 5;
    cpu.registers[0xF] = 9; // must stay 9: ADD_IMM has no flag side effect
    assert_eq!(cpu.step(), Ok(StepOutcome::Proceeded));
    assert_eq!(cpu.registers[0], 4); // (5 + 255) mod 256
    assert_eq!(cpu.registers[0xF], 9);
}

#[test]
fn copy_or_and_xor_write_the_destination() {
    let mut cpu = CPU::new();
    put_word(&mut cpu, 0, 0x8120); // COPY r1 <- r2
    put_word(&mut cpu, 2, 0x8341); // OR   r3 |= r4
    put_word(&mut cpu, 4, 0x8562); // AND  r5 &= r6
    put_word(&mut cpu, 6, 0x8783); // XOR  r7 ^= r8
    cpu.registers[2] = 0xAA;
    cpu.registers[3] = 0b1100;
    cpu.registers[4] = 0b1010;
    cpu.registers[5] = 0b1100;
    cpu.registers[6] = 0b1010;
    cpu.registers[7] = 0b1100;
    cpu.registers[8] = 0b1010;
    for _ in 0..4usize {
        assert_eq!(cpu.step(), Ok(StepOutcome::Proceeded));
    }
    assert_eq!(cpu.registers[1], 0xAA);
    assert_eq!(cpu.registers[3], 0b1110);
    assert_eq!(cpu.registers[5], 0b1000);
    assert_eq!(cpu.registers[7], 0b0110);
    assert_eq!(cpu.pc(), 8);
}

#[test]
fn halt_word_stops_the_run_and_moves_nothing() {
    let mut cpu = CPU::new();
    cpu.registers[3] = 77;
    // Memory stays all zero: the program is nothing but the halt word.
    assert_eq!(cpu.run(10), Ok(RunOutcome::Halted));
    assert_eq!(cpu.pc(), 2);
    assert_eq!(cpu.registers[3], 77);
    for i in 0..16usize {
        if i != 3 {
            assert_eq!(cpu.registers[i], 0);
        }
    }
    for i in 0..4096usize {
        assert_eq!(cpu.memory[i], 0);
    }
}

#[test]
fn unknown_opcode_reports_word_and_address() {
    let mut cpu = CPU::new();
    put_word(&mut cpu, 0, 0x6005); // LOAD_IMM r0, 5
    put_word(&mut cpu, 2, 0xE0A1); // not in the recognized table
    assert_eq!(
        cpu.run(10),
        Err(ExecFault::UnknownOpcode { word: 0xE0A1, addr: 2 })
    );
    // The machine stands as of the last completed instruction.
    assert_eq!(cpu.pc(), 2);
    assert_eq!(cpu.registers[0], 5);
}

#[test]
fn skip_eq_reg_with_nonzero_literal_nibble_is_unknown() {
    let mut cpu = CPU::new();
    put_word(&mut cpu, 0, 0x5121); // only d == 0 is in the table for class 5
    assert_eq!(cpu.step(), Err(ExecFault::UnknownOpcode { word: 0x5121, addr: 0 }));
    assert_eq!(cpu.pc(), 0);
}

#[test]
fn arithmetic_class_with_unrecognized_nibble_is_unknown() {
    let mut cpu = CPU::new();
    put_word(&mut cpu, 0, 0x8126); // class 8 recognizes d in 0..5 only
    assert_eq!(cpu.step(), Err(ExecFault::UnknownOpcode { word: 0x8126, addr: 0 }));
}

#[test]
fn ret_instruction_on_empty_stack_faults_the_run() {
    let mut cpu = CPU::new();
    put_word(&mut cpu, 0, 0x00EE);
    assert_eq!(cpu.run(10), Err(ExecFault::StackUnderflow));
    assert_eq!(cpu.pc(), 0);
}

#[test]
fn fetch_past_the_end_faults() {
    let mut cpu = CPU::new();
    put_word(&mut cpu, 0, 0x1FFF); // JMP 0xFFF: no full word at 0xFFF
    assert_eq!(cpu.run(10), Err(ExecFault::OutOfBoundsFetch { pc: 0xFFF }));
    assert_eq!(cpu.pc(), 0xFFF);
}

#[test]
fn run_stops_when_the_step_budget_runs_out() {
    let mut cpu = CPU::new();
    put_word(&mut cpu, 0, 0x1000); // JMP 0: spin forever
    assert_eq!(cpu.run(5), Ok(RunOutcome::OutOfSteps));
    assert_eq!(cpu.pc(), 0);
}

#[test]
fn two_calls_of_a_double_add_subroutine() {
    // The reference demo: r0 = 5, r1 = 10; CALL 0x100 twice, then halt;
    // the subroutine adds r1 into r0 twice and returns.
    let mut cpu = CPU::new();
    cpu.registers[0] = 5;
    cpu.registers[1] = 10;

    put_word(&mut cpu, 0x000, 0x2100); // CALL 0x100
    put_word(&mut cpu, 0x002, 0x2100); // CALL 0x100
    put_word(&mut cpu, 0x004, 0x0000); // HALT
    put_word(&mut cpu, 0x100, 0x8014); // ADD_REG r0, r1
    put_word(&mut cpu, 0x102, 0x8014); // ADD_REG r0, r1
    put_word(&mut cpu, 0x104, 0x00EE); // RET

    assert_eq!(cpu.run(100), Ok(RunOutcome::Halted));
    assert_eq!(cpu.registers[0], 45);
    assert_eq!(cpu.stack_depth(), 0);
}

use virpc::cpu::CPU;
use virpc::edit::{CommitError, StagedEdit};
use virpc::memory::Memory;
use virpc::opcodes::{ArgumentSize, Op};

fn put_int(mem: &mut Memory, at: u32, byte: u8, operands: &[u32]) {
    mem.write_byte(at, byte);
    let mut a = at + 1;
    for v in operands {
        mem.write_int_le(a, *v);
        a += 4;
    }
}

fn dump(mem: &Memory, from: u32, n: u32) -> Vec<u8> {
    (0..n).map(|i| mem.read_byte(from + i)).collect()
}

fn item(cpu: &mut CPU, name: &str, value: u32) -> u32 {
    CPU::add_new_item(&mut cpu.data, CPU::new_item(name.to_string(), " ".to_string(), value))
}

#[test]
fn set_opcode_without_a_choice_keeps_the_byte() {
    let mut mem = Memory::new_shared();
    let mut cpu = CPU::new_shared(0);
    for b in [0x00u8, 0x2F, 0x5A, 0xC8, 0xF7, 0xFF] {
        mem.write_byte(0x100, b);
        cpu.load_opcode_data(&mut mem, 0x100);
        cpu.set_opcode(-1, -1, -1, -1);
        assert_eq!(cpu.instruction_u8, b);
    }
}

#[test]
fn set_opcode_takes_command_and_modes() {
    let mut mem = Memory::new_shared();
    let mut cpu = CPU::new_shared(0);
    mem.write_byte(0x100, 0x2D);
    cpu.load_opcode_data(&mut mem, 0x100);
    // command 3: bSUB; modes kept
    cpu.set_opcode(3, -1, -1, -1);
    assert_eq!(cpu.instruction_u8, 0x35);
    assert_eq!(cpu.instruction.opcode, Op::SUB);
    assert_eq!(cpu.instruction.addressing_type, ArgumentSize::Byte);
    assert_eq!(cpu.instruction.args, 5);
    assert_eq!(cpu.instruction.size, 3);
    // command 16: iJMP; operand 0 direct, operand 1 indirect, operand 2 kept
    cpu.set_opcode(16, 0, 1, -1);
    assert_eq!(cpu.instruction_u8, 0x0B);
    assert_eq!(cpu.instruction.opcode, Op::JMP);
    assert_eq!(cpu.instruction.addressing_type, ArgumentSize::Int);
    assert_eq!(cpu.instruction.size, 2);
    // any number but -1 and 1 means direct
    cpu.set_opcode(-1, 1, 7, 0);
    assert_eq!(cpu.instruction_u8, 0x0C);
    // only the five low bits of a command count
    cpu.set_opcode(0x7D, -1, -1, -1);
    assert_eq!(cpu.instruction_u8, 0xDC);
    cpu.set_opcode(-2, -1, -1, -1);
    assert_eq!(cpu.instruction_u8, 0xEC);
}

#[test]
fn parse_args_takes_values_of_symbols() {
    let mut cpu = CPU::new_shared(0);
    let a = item(&mut cpu, "a", 0x111) as i32;
    let b = item(&mut cpu, "b", 0x222) as i32;
    cpu.instruction.arg = [1, 2, 3];
    cpu.parse_args(a, -1, b);
    assert_eq!(cpu.instruction.arg, [0x111, 2, 0x222]);
    // a built-in entry, the heading and an index past the end change nothing
    cpu.parse_args(0, 4, 7);
    assert_eq!(cpu.instruction.arg, [0x111, 2, 0x222]);
    cpu.parse_args(3, b, i32::MAX);
    assert_eq!(cpu.instruction.arg, [0x111, 0x222, 0x222]);
    cpu.parse_args(i32::MIN, -5, a);
    assert_eq!(cpu.instruction.arg, [0x111, 0x222, 0x111]);
}

#[test]
fn assemble_writes_at_the_program_counter() {
    let mut mem = Memory::new_shared();
    let mut cpu = CPU::new_shared(0);
    cpu.instruction.opcode = Op::XOR;
    cpu.instruction.addressing_type = ArgumentSize::Int;
    cpu.instruction.args = 0b101;
    cpu.instruction.size = 3;
    cpu.instruction.arg = [0x11223344, 0x55, 0xAABBCCDD];
    cpu.set_pc(&mut mem, 0x400);
    cpu.assemble(&mut mem);
    assert_eq!(
        dump(&mem, 0x400, 14),
        vec![0xAD, 0x44, 0x33, 0x22, 0x11, 0x55, 0, 0, 0, 0xDD, 0xCC, 0xBB, 0xAA, 0]
    );
    assert_eq!(cpu.instruction_u8, 0xAD);
    assert_eq!(cpu.get_pc(&mem), 0x40D);
    cpu.instruction.addressing_type = ArgumentSize::Byte;
    cpu.instruction.opcode = Op::CMP;
    cpu.instruction.size = 2;
    cpu.set_pc(&mut mem, 0x500);
    cpu.assemble(&mut mem);
    assert_eq!(dump(&mem, 0x500, 4), vec![0xF5, 0x44, 0x55, 0]);
    assert_eq!(cpu.get_pc(&mem), 0x503);
}

#[test]
fn commit_without_a_choice_leaves_memory_unchanged() {
    let mut mem = Memory::new_shared();
    for a in 0..0x40u32 {
        mem.write_byte(0xF0 + a, (a * 37 + 11) as u8);
    }
    for b in 0..=255u8 {
        mem.write_byte(0x100, b);
        let mut cpu = CPU::new_shared(0);
        let mut edit = StagedEdit::new();
        let next = cpu.disassemble(&mut mem, 0x100);
        let before = dump(&mem, 0xF0, 0x40);
        assert_eq!(cpu.commit(&mut mem, &mut edit), Ok(()));
        assert_eq!(dump(&mem, 0xF0, 0x40), before);
        assert_eq!(cpu.get_pc(&mem), next);
    }
}

#[test]
fn commit_without_a_choice_with_the_counter_in_memory() {
    let mut mem = Memory::new_shared();
    for a in 0..0x40u32 {
        mem.write_byte(0xF0 + a, (a * 41 + 3) as u8);
    }
    for b in [0x00u8, 0x1F, 0x28, 0x77, 0xC8, 0xD0, 0xEE, 0xFF] {
        mem.write_byte(0x100, b);
        let mut cpu = CPU::new_shared(0xFF00);
        let mut edit = StagedEdit::new();
        let next = cpu.disassemble(&mut mem, 0x100);
        let before = dump(&mem, 0, 0x10000);
        assert_eq!(cpu.commit(&mut mem, &mut edit), Ok(()));
        assert_eq!(dump(&mem, 0, 0x10000), before);
        assert_eq!(mem.read_int_le(0xFF00), next);
    }
}

#[test]
fn commit_takes_the_staged_command_and_modes() {
    let mut mem = Memory::new_shared();
    let mut cpu = CPU::new_shared(0);
    put_int(&mut mem, 0x100, 0x28, &[0x2000, 5, 7]);
    cpu.disassemble(&mut mem, 0x100);
    let mut edit = StagedEdit::new();
    edit.set_pending_opcode(19);
    edit.set_pending_addressing(1, 1);
    assert_eq!(edit.opcode, Some(19));
    assert_eq!(edit.modes, [None, Some(1), None]);
    assert_eq!(cpu.commit(&mut mem, &mut edit), Ok(()));
    assert_eq!(mem.read_byte(0x100), 0x3A);
    assert_eq!(mem.read_int_le(0x101), 0x2000);
    assert_eq!(mem.read_int_le(0x105), 5);
    assert_eq!(mem.read_int_le(0x109), 7);
    assert_eq!(cpu.instruction.opcode, Op::SUB);
    assert_eq!(cpu.instruction_u8, 0x3A);
    assert_eq!(edit.opcode, None);
    assert_eq!(edit.modes, [None, None, None]);
    assert_eq!(edit.values, [None, None, None]);
    assert_eq!(cpu.get_pc(&mem), 0x10D);
}

#[test]
fn commit_takes_the_staged_values() {
    let mut mem = Memory::new_shared();
    let mut cpu = CPU::new_shared(0);
    put_int(&mut mem, 0x100, 0x28, &[0x2000, 5, 7]);
    cpu.disassemble(&mut mem, 0x100);
    let counter = item(&mut cpu, "counter", 0xE010);
    let mut edit = StagedEdit::new();
    edit.set_pending_value(0, counter);
    edit.set_pending_value(2, 6);
    assert_eq!(cpu.commit(&mut mem, &mut edit), Ok(()));
    assert_eq!(mem.read_byte(0x100), 0x28);
    assert_eq!(mem.read_int_le(0x101), 0xE010);
    assert_eq!(mem.read_int_le(0x105), 5);
    // symbol 6 is the constant 5 of operand 1
    assert_eq!(mem.read_int_le(0x109), 5);
}

#[test]
fn commit_changes_the_width_of_the_operands() {
    let mut mem = Memory::new_shared();
    let mut cpu = CPU::new_shared(0);
    put_int(&mut mem, 0x100, 0x28, &[0x2011, 5, 7]);
    cpu.disassemble(&mut mem, 0x100);
    let mut edit = StagedEdit::new();
    edit.set_pending_opcode(2);
    assert_eq!(cpu.commit(&mut mem, &mut edit), Ok(()));
    assert_eq!(dump(&mem, 0x100, 5), vec![0x20, 0x11, 0x05, 0x07, 0x00]);
    assert_eq!(cpu.get_pc(&mem), 0x104);
}

#[test]
fn commit_refuses_a_built_in_entry() {
    let mut mem = Memory::new_shared();
    let mut cpu = CPU::new_shared(0);
    put_int(&mut mem, 0x100, 0x28, &[0x2000, 5, 7]);
    cpu.disassemble(&mut mem, 0x100);
    let before = dump(&mem, 0x100, 16);
    for entry in 0..4u32 {
        let mut edit = StagedEdit::new();
        edit.set_pending_opcode(19);
        edit.set_pending_value(1, entry);
        assert_eq!(
            cpu.commit(&mut mem, &mut edit),
            Err(CommitError::NeedsValue { slot: 1, entry })
        );
        assert_eq!(dump(&mem, 0x100, 16), before);
        assert_eq!(edit.opcode, Some(19));
        assert_eq!(edit.values, [None, Some(entry), None]);
        assert_eq!(cpu.instruction_u8, 0x28);
        assert_eq!(cpu.instruction.arg, [0x2000, 5, 7]);
    }
}

#[test]
fn commit_refuses_what_is_no_value() {
    let mut mem = Memory::new_shared();
    let mut cpu = CPU::new_shared(0);
    put_int(&mut mem, 0x100, 0x28, &[0x2000, 5, 7]);
    cpu.disassemble(&mut mem, 0x100);
    let before = dump(&mem, 0x100, 16);
    let mut edit = StagedEdit::new();
    edit.set_pending_value(2, 4);
    assert_eq!(cpu.commit(&mut mem, &mut edit), Err(CommitError::NotAValue { slot: 2, index: 4 }));
    let mut edit = StagedEdit::new();
    edit.set_pending_value(0, 8);
    assert_eq!(cpu.commit(&mut mem, &mut edit), Err(CommitError::NotAValue { slot: 0, index: 8 }));
    // the first operand at fault is the one reported
    let mut edit = StagedEdit::new();
    edit.set_pending_value(2, 1);
    edit.set_pending_value(1, 0xFFFF_FFFF);
    assert_eq!(
        cpu.commit(&mut mem, &mut edit),
        Err(CommitError::NotAValue { slot: 1, index: 0xFFFF_FFFF })
    );
    assert_eq!(dump(&mem, 0x100, 16), before);
    // index 7 is the last symbol
    let mut edit = StagedEdit::new();
    edit.set_pending_value(0, 7);
    assert_eq!(cpu.commit(&mut mem, &mut edit), Ok(()));
    assert_eq!(mem.read_int_le(0x101), 7);
}

#[test]
fn staged_choices_can_be_dropped() {
    let mut edit = StagedEdit::new();
    edit.set_pending_opcode(1);
    edit.set_pending_addressing(0, 1);
    edit.set_pending_addressing(2, 0);
    edit.set_pending_value(1, 6);
    assert_eq!(edit.modes, [Some(1), None, Some(0)]);
    assert_eq!(edit.values, [None, Some(6), None]);
    edit.reset();
    assert_eq!(edit.opcode, None);
    assert_eq!(edit.modes, [None, None, None]);
    assert_eq!(edit.values, [None, None, None]);
}

use virpc::cpu::CPU;
use virpc::opcodes::{get_instruction, get_opcode, ArgumentSize, Instruction, Op};

fn expected_op(nibble: u8) -> Op {
    match nibble {
        0x0 => Op::JMP,
        0x1 => Op::CLL,
        0x2 => Op::ADD,
        0x3 => Op::SUB,
        0x4 => Op::BSL,
        0x5 => Op::BSR,
        0x6 => Op::RR,
        0x7 => Op::RL,
        0x8 => Op::AND,
        0x9 => Op::OR,
        0xA => Op::XOR,
        0xB => Op::MUL,
        0xC => Op::STR,
        0xD => Op::LDR,
        0xE => Op::NOT,
        _ => Op::CMP,
    }
}

#[test]
fn every_byte_decodes() {
    for b in 0..=255u8 {
        let (op, size, mask, width) = get_instruction(b).unwrap();
        assert_eq!(op, expected_op(b >> 4));
        assert_eq!(mask, b & 0x07);
        let count = match op {
            Op::JMP | Op::NOT | Op::CMP => 2,
            _ => 3,
        };
        assert_eq!(size, count);
        if b & 0x08 != 0 {
            assert_eq!(width, ArgumentSize::Int);
        } else {
            assert_eq!(width, ArgumentSize::Byte);
        }
    }
}

#[test]
fn encode_inverts_decode_on_every_byte() {
    let mut cpu = CPU::new_shared(0);
    for b in 0..=255u8 {
        let (op, size, mask, width) = get_instruction(b).unwrap();
        cpu.instruction.opcode = op;
        cpu.instruction.size = size;
        cpu.instruction.args = mask;
        cpu.instruction.addressing_type = width;
        assert_eq!(get_opcode(&cpu), b);
    }
}

#[test]
fn store_and_load_nibbles() {
    assert_eq!(get_instruction(0xC0).unwrap().0, Op::STR);
    assert_eq!(get_instruction(0xD0).unwrap().0, Op::LDR);
    let mut cpu = CPU::new_shared(0);
    cpu.instruction.opcode = Op::STR;
    cpu.instruction.addressing_type = ArgumentSize::Byte;
    cpu.instruction.args = 0;
    assert_eq!(get_opcode(&cpu), 0xC0);
    cpu.instruction.opcode = Op::LDR;
    cpu.instruction.addressing_type = ArgumentSize::Int;
    cpu.instruction.args = 5;
    assert_eq!(get_opcode(&cpu), 0xDD);
}

#[test]
fn encode_ignores_high_mask_bits() {
    let mut cpu = CPU::new_shared(0);
    cpu.instruction.opcode = Op::ADD;
    cpu.instruction.addressing_type = ArgumentSize::Byte;
    cpu.instruction.args = 0xFA;
    assert_eq!(get_opcode(&cpu), 0x22);
}

#[test]
fn fresh_instruction() {
    let ins = Instruction::new();
    assert_eq!(ins.opcode, Op::CMP);
    assert_eq!(ins.size, 0);
    assert_eq!(ins.args, 0);
    assert_eq!(ins.addressing_type, ArgumentSize::Int);
    assert_eq!(ins.arg, [0, 0, 0]);
    assert_eq!(ins.arg_index, [0, 0, 0]);
}

#[test]
fn an_instruction_is_named_by_its_opcode() {
    let mut ins = Instruction::new();
    assert_eq!(ins.to_string(), "CMP");
    ins.opcode = Op::RR;
    assert_eq!(ins.to_string(), "RR");
    ins.opcode = Op::STR;
    assert_eq!(ins.to_string(), "STR");
    ins.opcode = Op::LDR;
    assert_eq!(ins.to_string(), "LDR");
}

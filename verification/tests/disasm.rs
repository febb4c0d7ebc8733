use virpc::cpu::{CPU, STACK_REG};
use virpc::memory::Memory;

fn put_int(mem: &mut Memory, at: u32, byte: u8, operands: &[u32]) {
    mem.write_byte(at, byte);
    let mut a = at + 1;
    for v in operands {
        mem.write_int_le(a, *v);
        a += 4;
    }
}

fn symbols(cpu: &CPU) -> Vec<(String, u32)> {
    cpu.data.iter().skip(5).map(|i| (i.name.clone(), i.value)).collect()
}

fn sym(name: &str, value: u32) -> (String, u32) {
    (name.to_string(), value)
}

#[test]
fn disassemble_returns_the_next_address() {
    let mut mem = Memory::new_shared();
    let mut cpu = CPU::new_shared(0);
    put_int(&mut mem, 0x100, 0x28, &[0x2000, 5, 7]);
    mem.write_byte(0x10D, 0x00);
    mem.write_byte(0x10E, 0x40);
    mem.write_byte(0x10F, 0x05);
    assert_eq!(cpu.disassemble(&mut mem, 0x100), 0x10D);
    assert_eq!(cpu.prev_pc, 0x100);
    assert_eq!(cpu.instruction_u8, 0x28);
    assert_eq!(cpu.disassemble(&mut mem, 0x10D), 0x110);
    assert_eq!(cpu.prev_pc, 0x10D);
    assert_eq!(cpu.instruction.arg[0], 0x40);
    assert_eq!(cpu.instruction.arg[1], 0x05);
    assert_eq!(cpu.get_pc(&mem), 0x110);
}

#[test]
fn load_keeps_operands_raw() {
    let mut mem = Memory::new_shared();
    let mut cpu = CPU::new_shared(0);
    put_int(&mut mem, 0x100, 0x2F, &[0x2000, 0x300, 0x304]);
    mem.write_int_le(0x300, 1111);
    cpu.load_opcode_data(&mut mem, 0x100);
    assert_eq!(cpu.instruction.arg, [0x2000, 0x300, 0x304]);
    assert_eq!(cpu.instruction.args, 7);
    assert_eq!(cpu.data.len(), 5);
}

#[test]
fn operands_of_an_ordinary_opcode_become_symbols() {
    let mut mem = Memory::new_shared();
    let mut cpu = CPU::new_shared(0);
    put_int(&mut mem, 0x100, 0x28, &[0x2000, 5, 7]);
    cpu.disassemble(&mut mem, 0x100);
    assert_eq!(
        symbols(&cpu),
        vec![sym("LABEL_00002000", 0x2000), sym("CONST_00000005", 5), sym("CONST_00000007", 7)]
    );
    assert_eq!(cpu.instruction.arg_index, [5, 6, 7]);
    assert_eq!(cpu.data[5].description, " ");
}

#[test]
fn indirect_operands_are_named_by_region() {
    let mut mem = Memory::new_shared();
    let mut cpu = CPU::new_shared(0);
    cpu.add_new_label("result".to_string(), 0x2000, 4);
    put_int(&mut mem, 0x100, 0x2B, &[0x2000, 0xE004, 0xF008]);
    cpu.disassemble(&mut mem, 0x100);
    assert_eq!(
        symbols(&cpu),
        vec![sym("result", 0x2000), sym("BSS_0000E004", 0xE004), sym("REG_0000F008", 0xF008)]
    );
    put_int(&mut mem, 0x200, 0xAB, &[0x10000, 0x80000, 0x2000]);
    cpu.disassemble(&mut mem, 0x200);
    assert_eq!(
        symbols(&cpu),
        vec![
            sym("result", 0x2000),
            sym("BSS_0000E004", 0xE004),
            sym("REG_0000F008", 0xF008),
            sym("VAR_00010000", 0x10000),
            sym("adr_00080000", 0x80000),
        ]
    );
    // the third operand is the symbol that the first instruction made
    assert_eq!(cpu.instruction.arg_index, [8, 9, 5]);
}

#[test]
fn a_repeated_operand_shares_its_symbol() {
    let mut mem = Memory::new_shared();
    let mut cpu = CPU::new_shared(0);
    put_int(&mut mem, 0x100, 0x28, &[0x2000, 5, 5]);
    cpu.disassemble(&mut mem, 0x100);
    assert_eq!(cpu.instruction.arg_index, [5, 6, 6]);
    assert_eq!(cpu.data.len(), 7);
    cpu.disassemble(&mut mem, 0x100);
    assert_eq!(cpu.instruction.arg_index, [5, 6, 6]);
    assert_eq!(cpu.data.len(), 7);
}

#[test]
fn symbols_of_a_jump() {
    let mut mem = Memory::new_shared();
    let mut cpu = CPU::new_shared(0);
    put_int(&mut mem, 0x100, 0x08, &[0x200, 0]);
    assert_eq!(cpu.disassemble(&mut mem, 0x100), 0x109);
    assert_eq!(symbols(&cpu), vec![sym("CONST_00000000", 0), sym("LABEL_00000200", 0x200)]);
    assert_eq!(cpu.instruction.arg_index[0], 6);
    assert_eq!(cpu.instruction.arg_index[1], 5);
}

#[test]
fn symbols_of_a_relative_jump() {
    let mut mem = Memory::new_shared();
    let mut cpu = CPU::new_shared(0);
    cpu.add_new_label("loop".to_string(), 0x300, 1);
    put_int(&mut mem, 0x100, 0x08, &[0x200, 9]);
    cpu.disassemble(&mut mem, 0x100);
    assert_eq!(symbols(&cpu), vec![sym("CONST_00000009", 9), sym("loop (pc+512)", 0x200)]);
    let mut cpu = CPU::new_shared(0);
    put_int(&mut mem, 0x100, 0x08, &[0x200, 16]);
    cpu.disassemble(&mut mem, 0x100);
    assert_eq!(symbols(&cpu), vec![sym("CONST_00000010", 16), sym("LABEL_00000300 (pc+512)", 0x200)]);
    // code 17 counts from the end of the instruction
    let mut cpu = CPU::new_shared(0);
    put_int(&mut mem, 0x100, 0x08, &[0x200, 17]);
    cpu.disassemble(&mut mem, 0x100);
    assert_eq!(symbols(&cpu), vec![sym("CONST_00000011", 17), sym("LABEL_00000309 (pc+512)", 0x200)]);
    let mut cpu = CPU::new_shared(0);
    put_int(&mut mem, 0x100, 0x08, &[0x200, 8]);
    cpu.disassemble(&mut mem, 0x100);
    assert_eq!(symbols(&cpu), vec![sym("CONST_00000008", 8), sym("LABEL_00000200", 0x200)]);
}

#[test]
fn symbols_of_an_indirect_jump() {
    let mut mem = Memory::new_shared();
    let mut cpu = CPU::new_shared(0);
    put_int(&mut mem, 0x100, 0x0E, &[0x200, 0x44]);
    cpu.disassemble(&mut mem, 0x100);
    assert_eq!(symbols(&cpu), vec![sym("REF_00000044", 0x44), sym("REF_[00000200]", 0x200)]);
}

#[test]
fn symbols_of_a_call() {
    let mut mem = Memory::new_shared();
    let mut cpu = CPU::new_shared(0);
    put_int(&mut mem, 0x100, 0x18, &[0x1000, 0x20, 0x3000]);
    assert_eq!(cpu.disassemble(&mut mem, 0x100), 0x10D);
    assert_eq!(symbols(&cpu), vec![sym("LABEL_00001020", 0x1000)]);
    assert_eq!(cpu.instruction.arg_index[0], 5);
    cpu.add_new_label("subr".to_string(), 0x1020, 1);
    cpu.disassemble(&mut mem, 0x100);
    assert_eq!(symbols(&cpu), vec![sym("LABEL_00001020", 0x1000), sym("subr", 0x1000)]);
    assert_eq!(cpu.instruction.arg_index[0], 6);
    // with an indirect operand the target is not known
    let mut cpu = CPU::new_shared(0);
    put_int(&mut mem, 0x100, 0x1A, &[0x1000, 0x20, 0x3000]);
    cpu.disassemble(&mut mem, 0x100);
    assert_eq!(symbols(&cpu), vec![]);
    assert_eq!(cpu.instruction.arg_index, [0, 0, 0]);
}

#[test]
fn symbols_of_store_and_load() {
    for byte in [0xC8u8, 0xD8] {
        let mut mem = Memory::new_shared();
        mem.write_int_le(STACK_REG, 0x7000);
        mem.write_int_le(0xF008, 0x20000);
        mem.write_int_le(0x500, 0x1000);
        // through the stack pointer
        let mut cpu = CPU::new_shared(0);
        put_int(&mut mem, 0x100, byte, &[0xAA, 0xFFFF_FFFC, STACK_REG]);
        cpu.disassemble(&mut mem, 0x100);
        assert_eq!(symbols(&cpu), vec![sym("LOCALVAR_00006FFC", 0xFFFF_FFFC)]);
        assert_eq!(cpu.instruction.arg_index[2], 5);
        // through a pointer above the static data
        let mut cpu = CPU::new_shared(0);
        put_int(&mut mem, 0x100, byte, &[0xAA, 4, 0xF008]);
        cpu.disassemble(&mut mem, 0x100);
        assert_eq!(symbols(&cpu), vec![sym("VAR_00020004", 4)]);
        // through any other pointer
        let mut cpu = CPU::new_shared(0);
        put_int(&mut mem, 0x100, byte, &[0xAA, 4, 0x500]);
        cpu.disassemble(&mut mem, 0x100);
        assert_eq!(symbols(&cpu), vec![sym("CONST_00001004", 4)]);
        // relative to the instruction
        let mut cpu = CPU::new_shared(0);
        put_int(&mut mem, 0x100, byte, &[0xAA, 0x20, 0]);
        cpu.disassemble(&mut mem, 0x100);
        assert_eq!(symbols(&cpu), vec![sym("LABEL_00000120", 0x20)]);
        // operand 2 indirect
        let mut cpu = CPU::new_shared(0);
        put_int(&mut mem, 0x100, byte | 0x01, &[0xAA, 0x20, 0x500]);
        cpu.disassemble(&mut mem, 0x100);
        assert_eq!(symbols(&cpu), vec![sym("LOCALVAR_00000520", 0x20)]);
        assert_eq!(cpu.instruction.arg_index[2], 5);
        // operand 1 indirect: no symbol, index 0 is noted
        let mut cpu = CPU::new_shared(0);
        cpu.instruction.arg_index = [9, 9, 9];
        put_int(&mut mem, 0x100, byte | 0x06, &[0xAA, 0x20, 0x500]);
        cpu.disassemble(&mut mem, 0x100);
        assert_eq!(symbols(&cpu), vec![]);
        assert_eq!(cpu.instruction.arg_index, [0, 0, 0]);
        let mut cpu = CPU::new_shared(0);
        cpu.instruction.arg_index = [9, 9, 9];
        put_int(&mut mem, 0x100, byte | 0x03, &[0xAA, 0x20, 0x500]);
        cpu.disassemble(&mut mem, 0x100);
        assert_eq!(cpu.instruction.arg_index, [9, 0, 9]);
    }
}

#[test]
fn text_of_an_int_instruction() {
    let mut mem = Memory::new_shared();
    let mut cpu = CPU::new_shared(0);
    put_int(&mut mem, 0x100, 0x28, &[0x2000, 5, 7]);
    cpu.disassemble(&mut mem, 0x100);
    assert_eq!(
        cpu.instruction_to_text(),
        "$0100:\t\t iADD, 8192 5 7\t 28 00200000 05000000 07000000\n"
    );
}

#[test]
fn text_shows_labels_and_brackets() {
    let mut mem = Memory::new_shared();
    let mut cpu = CPU::new_shared(0);
    cpu.add_new_label("main".to_string(), 0x100, 1);
    cpu.add_new_label("result".to_string(), 0x2000, 4);
    put_int(&mut mem, 0x100, 0x2F, &[0x2000, 0x300, 0x12345678]);
    cpu.disassemble(&mut mem, 0x100);
    assert_eq!(
        cpu.instruction_to_text(),
        "$0100:main\t iADD, [result] [LABEL_00000300] [adr_12345678]\t 2F 00200000 00030000 78563412\n"
    );
}

#[test]
fn text_of_a_byte_instruction() {
    let mut mem = Memory::new_shared();
    let mut cpu = CPU::new_shared(0);
    mem.write_byte(0x10, 0x22);
    mem.write_byte(0x11, 0x80);
    mem.write_byte(0x12, 0x90);
    mem.write_byte(0x13, 0x03);
    assert_eq!(cpu.disassemble(&mut mem, 0x10), 0x14);
    assert_eq!(cpu.instruction_to_text(), "$0010:\t\t bADD, 128 [LABEL_00000090] 3\t 22 80 90 03\n");
}

#[test]
fn text_of_a_jump() {
    let mut mem = Memory::new_shared();
    let mut cpu = CPU::new_shared(0);
    put_int(&mut mem, 0x12345, 0x08, &[0x200, 9]);
    cpu.disassemble(&mut mem, 0x12345);
    assert_eq!(cpu.instruction_to_text(), "$12345:\t\t iJMP, LABEL_00000200,9\t 08 00020000 09000000\n");
    mem.write_byte(0x20, 0x00);
    mem.write_byte(0x21, 0x40);
    mem.write_byte(0x22, 0x11);
    cpu.disassemble(&mut mem, 0x20);
    assert_eq!(cpu.instruction_to_text(), "$0020:\t\t bJMP, LABEL_00000040,17\t 00 40 11\n");
}

#[test]
fn text_of_every_mnemonic() {
    let names = [
        "JMP", "CLL", "ADD", "SUB", "BSL", "BSR", "RR", "RL", "AND", "OR", "XOR", "MUL", "STR",
        "LDR", "NOT", "CMP",
    ];
    let mut mem = Memory::new_shared();
    let mut cpu = CPU::new_shared(0);
    for n in 0..16u8 {
        mem.write_byte(0x40, n << 4);
        cpu.disassemble(&mut mem, 0x40);
        let text = cpu.instruction_to_text();
        let start = format!("$0040:\t\t b{},", names[n as usize]);
        assert!(text.starts_with(&start), "{}", text);
        assert!(text.ends_with('\n'));
    }
}

#[test]
fn disassembling_past_the_end_of_ram() {
    let mut mem = Memory::new_shared();
    let mut cpu = CPU::new_shared(0);
    assert_eq!(cpu.disassemble(&mut mem, 0x80000), 0x80003);
    assert_eq!(cpu.instruction_to_text(), "$80000:\t\t bJMP, LABEL_00000000,0\t 00 00 00\n");
    assert_eq!(cpu.disassemble(&mut mem, 0x80000), 0x80003);
    assert_eq!(cpu.data.len(), 7);
}

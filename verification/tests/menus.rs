use virpc::cpu::CPU;
use virpc::memory::Memory;
use virpc::opcodes::get_instruction;

fn pair(a: &str, b: &str) -> (String, String) {
    (a.to_string(), b.to_string())
}

#[test]
fn the_commands() {
    let cpu = CPU::new_shared(0);
    let list = cpu.get_commands_list();
    assert_eq!(list.len(), 32);
    assert_eq!(list[0], pair("bJMP", "(byte) Jump a, b=cond"));
    assert_eq!(list[1], pair("bCLL", "(byte) Call a+b, c=pc"));
    assert_eq!(list[6], pair("bRR", "(byte) Rotate right"));
    assert_eq!(list[9], pair("bOR", "(byte) Or a=b|c"));
    assert_eq!(list[12], pair("bSTR", "(byte) Store a=>[b], dec c"));
    assert_eq!(list[13], pair("bLDR", "(byte) Load a<=[b], inc c"));
    assert_eq!(list[15], pair("bCMP", "(byte) Compare a?b, c=?"));
    assert_eq!(list[16], pair("iJMP", "(int) Jump a, b=cond"));
    assert_eq!(list[28], pair("iSTR", "(int) Store a=[b], dec c"));
    assert_eq!(list[29], pair("iLDR", "(int) Load a=[b], inc c"));
    assert_eq!(list[31], pair("iCMP", "(int) Compare a?b, c=?"));
}

#[test]
fn the_place_of_a_command_is_its_encoding() {
    let mut mem = Memory::new_shared();
    let mut cpu = CPU::new_shared(0);
    let list = cpu.get_commands_list();
    for b in 0..=255u8 {
        mem.write_byte(0x100, b);
        cpu.load_opcode_data(&mut mem, 0x100);
        let index = cpu.get_instruction_index();
        assert_eq!(index, ((b >> 4) as u32) + if b & 8 != 0 { 16 } else { 0 });
        let name = &list[index as usize].0;
        let op = get_instruction(b).unwrap().0;
        assert_eq!(name[1..].to_string(), format!("{:?}", op));
        cpu.set_opcode(index as i32, -1, -1, -1);
        assert_eq!(cpu.instruction_u8, b);
    }
}

#[test]
fn the_addressing_modes() {
    let mut cpu = CPU::new_shared(0);
    assert_eq!(cpu.get_addressing_mode_list(), vec![pair("direct", " "), pair("indirect", " ")]);
    cpu.instruction_u8 = 0x2D;
    assert_eq!(cpu.argument_type(0), 1);
    assert_eq!(cpu.argument_type(1), 0);
    assert_eq!(cpu.argument_type(2), 1);
    assert_eq!(cpu.argument_type(3), 0);
    assert_eq!(cpu.argument_type(8), 0);
    assert_eq!(cpu.argument_type(0xFFFF_FFFF), 0);
    cpu.instruction_u8 = 0x2A;
    assert_eq!(cpu.argument_type(0), 0);
    assert_eq!(cpu.argument_type(1), 1);
    assert_eq!(cpu.argument_type(2), 0);
}

#[test]
fn the_jump_conditions() {
    let cpu = CPU::new_shared(0);
    let list = cpu.jmp_opts();
    assert_eq!(list.len(), 17);
    assert_eq!(list[0], pair("0 => unconditional jump", " "));
    assert_eq!(list[1], pair("1 => StatusFlag::Carry=1", " "));
    assert_eq!(list[4], pair("4 => StatusFlag::Negative=1", " "));
    assert_eq!(list[7], pair("7 => StatusFlag::Overflow=0", " "));
    assert_eq!(list[10], pair("10 => StatusFlag::Zero=1, PC relative jump", " "));
    assert_eq!(list[16], pair("16 => StatusFlag::Negative=0, PC relative jump", " "));
}

#[test]
fn the_registers() {
    let cpu = CPU::new_shared(0);
    let list = cpu.reg_opts();
    assert_eq!(list.len(), 102);
    assert_eq!(list[0], pair("0 => pc (0xF000)", " "));
    assert_eq!(list[1], pair("1 => stack (0xF004)", " "));
    assert_eq!(list[2], pair("2 => reg0 (0000F008)", " "));
    assert_eq!(list[3], pair("3 => reg1 (0000F00C)", " "));
    assert_eq!(list[12], pair("12 => reg10 (0000F030)", " "));
    assert_eq!(list[101], pair("101 => reg99 (0000F194)", " "));
}

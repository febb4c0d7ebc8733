use virpc::cpu::{BSS, CPU, MEMORY, REGISTERS, STACK};

fn tags(cpu: &CPU) -> Vec<(u32, u32, String)> {
    cpu.labels.iter().map(|l| (l.address, l.size, l.tag.clone())).collect()
}

#[test]
fn labels_are_kept_in_address_order() {
    let mut cpu = CPU::new_shared(0);
    assert_eq!(cpu.add_new_label("c".to_string(), 0x300, 4), 1);
    assert_eq!(cpu.add_new_label("a".to_string(), 0x100, 1), 2);
    assert_eq!(cpu.add_new_label("b".to_string(), 0x200, 2), 3);
    assert_eq!(cpu.add_new_label("d".to_string(), 0x400, 8), 4);
    assert_eq!(
        tags(&cpu),
        vec![
            (0x100, 1, "a".to_string()),
            (0x200, 2, "b".to_string()),
            (0x300, 4, "c".to_string()),
            (0x400, 8, "d".to_string()),
        ]
    );
}

#[test]
fn adding_at_an_address_again_replaces_in_place() {
    let mut cpu = CPU::new_shared(0);
    cpu.add_new_label("a".to_string(), 0x100, 1);
    cpu.add_new_label("b".to_string(), 0x200, 2);
    cpu.add_new_label("c".to_string(), 0x300, 4);
    assert_eq!(cpu.add_new_label("again".to_string(), 0x200, 9), 1);
    assert_eq!(
        tags(&cpu),
        vec![
            (0x100, 1, "a".to_string()),
            (0x200, 9, "again".to_string()),
            (0x300, 4, "c".to_string()),
        ]
    );
    assert_eq!(cpu.add_new_label("first".to_string(), 0x100, 3), 0);
    assert_eq!(cpu.labels.len(), 3);
}

#[test]
fn lookup_is_by_exact_address() {
    let mut cpu = CPU::new_shared(0);
    cpu.add_new_label("buf".to_string(), 0x200, 16);
    let found = cpu.get_label(0x200).unwrap();
    assert_eq!(found.address, 0x200);
    assert_eq!(found.size, 16);
    assert_eq!(found.tag, "buf");
    assert!(cpu.get_label(0x201).is_none());
    assert!(cpu.get_label(0x1FF).is_none());
    assert!(cpu.get_label(0x20F).is_none());
}

#[test]
fn names_made_up_by_region() {
    let cpu = CPU::new_shared(0);
    assert_eq!(cpu.get_mem_label(0), "LABEL_00000000");
    assert_eq!(cpu.get_mem_label(BSS - 1), "LABEL_0000DFFF");
    assert_eq!(cpu.get_mem_label(BSS), "BSS_0000E000");
    assert_eq!(cpu.get_mem_label(REGISTERS - 1), "BSS_0000EFFF");
    assert_eq!(cpu.get_mem_label(REGISTERS), "REG_0000F000");
    assert_eq!(cpu.get_mem_label(MEMORY - 1), "REG_0000FFFF");
    assert_eq!(cpu.get_mem_label(MEMORY), "VAR_00010000");
    assert_eq!(cpu.get_mem_label(STACK - 1), "VAR_0007FFFF");
    assert_eq!(cpu.get_mem_label(STACK), "adr_00080000");
    assert_eq!(cpu.get_mem_label(0xFFFF_FFFF), "adr_FFFFFFFF");
}

#[test]
fn a_label_gives_the_name() {
    let mut cpu = CPU::new_shared(0);
    cpu.add_new_label("counter".to_string(), 0xE010, 4);
    assert_eq!(cpu.get_mem_label(0xE010), "counter");
    assert_eq!(cpu.get_mem_label(0xE011), "BSS_0000E011");
    assert_eq!(cpu.get_code_label(0xE010), "counter\t");
    assert_eq!(cpu.get_code_label(0xE011), "\t\t");
}

#[test]
fn free_space_starts_at_the_region() {
    let cpu = CPU::new_shared(0);
    assert_eq!(cpu.get_free_bss(), BSS);
    assert_eq!(cpu.get_free_mem(), MEMORY);
}

#[test]
fn free_space_follows_the_highest_end() {
    let mut cpu = CPU::new_shared(0);
    cpu.add_new_label("reset".to_string(), 0, 1);
    cpu.add_new_label("big".to_string(), 0xE000, 0x100);
    cpu.add_new_label("small".to_string(), 0xE010, 4);
    cpu.add_new_label("heap".to_string(), 0x10000, 0x20);
    cpu.add_new_label("reg".to_string(), 0xF004, 4);
    // the label with the highest address ends below the one before it
    assert_eq!(cpu.get_free_bss(), 0xE100);
    assert_eq!(cpu.get_free_mem(), 0x10020);
    for l in cpu.labels.iter() {
        let free = cpu.get_free_bss() as u64;
        assert!(!(l.address as u64 <= free && free < l.address as u64 + l.size as u64));
    }
}

#[test]
fn a_full_region_gives_zero() {
    let mut cpu = CPU::new_shared(0);
    cpu.add_new_label("all".to_string(), 0xE000, 0x1000);
    assert_eq!(cpu.get_free_bss(), 0);
    let mut cpu = CPU::new_shared(0);
    cpu.add_new_label("most".to_string(), 0xE000, 0xFFF);
    assert_eq!(cpu.get_free_bss(), 0xEFFF);
    let mut cpu = CPU::new_shared(0);
    cpu.add_new_label("huge".to_string(), 0xE800, 0xFFFF_FFFF);
    assert_eq!(cpu.get_free_bss(), 0);
    let mut cpu = CPU::new_shared(0);
    cpu.add_new_label("heap".to_string(), 0x7FFF0, 0x10);
    assert_eq!(cpu.get_free_mem(), 0);
    cpu.add_new_label("heap".to_string(), 0x7FFF0, 0x0F);
    assert_eq!(cpu.get_free_mem(), 0x7FFFF);
}

#[test]
fn labels_outside_a_region_do_not_count() {
    let mut cpu = CPU::new_shared(0);
    cpu.add_new_label("code".to_string(), 0x100, 0x10);
    cpu.add_new_label("regs".to_string(), 0xF000, 0x100);
    cpu.add_new_label("stack".to_string(), 0x80000, 0x100);
    assert_eq!(cpu.get_free_bss(), BSS);
    assert_eq!(cpu.get_free_mem(), MEMORY);
}

#[test]
fn label_lists_by_region() {
    let mut cpu = CPU::new_shared(0);
    cpu.add_new_label("reset".to_string(), 0, 1);
    cpu.add_new_label("main".to_string(), 0x100, 1);
    cpu.add_new_label("data".to_string(), 0xE000, 4);
    cpu.add_new_label("heap".to_string(), 0x10000, 4);
    cpu.add_new_label("last".to_string(), 0xDFFF, 1);
    assert_eq!(
        cpu.get_code_label_list(),
        vec![
            ("reset".to_string(), "0".to_string()),
            ("main".to_string(), "256".to_string()),
            ("last".to_string(), "57343".to_string()),
        ]
    );
    assert_eq!(
        cpu.get_mem_label_list(),
        vec![
            ("data".to_string(), "57344".to_string()),
            ("heap".to_string(), "65536".to_string()),
        ]
    );
}

#[test]
fn a_processor_kept_by_its_operations_is_well_formed() {
    let mut cpu = CPU::new_shared(0);
    assert!(cpu.is_well_formed());
    cpu.add_new_label("b".to_string(), 0x200, 1);
    cpu.add_new_label("a".to_string(), 0x100, 1);
    cpu.add_new_label("c".to_string(), 0x300, 1);
    assert!(cpu.is_well_formed());
    cpu.instruction.size = 4;
    assert!(!cpu.is_well_formed());
    cpu.instruction.size = 3;
    assert!(cpu.is_well_formed());
    cpu.labels.swap(0, 2);
    assert!(!cpu.is_well_formed());
    cpu.labels.swap(0, 2);
    cpu.labels[1].address = 0x100;
    assert!(!cpu.is_well_formed());
    cpu.labels[1].address = 0x101;
    assert!(cpu.is_well_formed());
}

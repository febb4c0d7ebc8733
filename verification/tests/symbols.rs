use virpc::cpu::CPU;
use virpc::symbols::BUILTIN_ITEMS;

fn names(cpu: &CPU) -> Vec<String> {
    cpu.data.iter().map(|i| i.name.clone()).collect()
}

#[test]
fn the_list_starts_with_the_built_in_entries() {
    let list = CPU::get_variables_list();
    assert_eq!(list.len(), BUILTIN_ITEMS as usize);
    let expected = [
        "register  (0xF000)",
        "new const  (code)",
        "new label/var  (code/0x10000)",
        "new bss  (0xE000)",
        "-existing-",
    ];
    for (item, name) in list.iter().zip(expected.iter()) {
        assert_eq!(item.name, *name);
        assert_eq!(item.description, " ");
        assert_eq!(item.value, 0);
    }
    let cpu = CPU::new_shared(0xFF00);
    assert_eq!(names(&cpu), expected.to_vec());
    assert_eq!(cpu.pc_reg, 0xFF00);
    assert_eq!(cpu.p, 0);
    assert!(cpu.labels.is_empty());
}

#[test]
fn a_symbol_added_twice_keeps_its_index() {
    let mut cpu = CPU::new_shared(0);
    let first =
        CPU::add_new_item(&mut cpu.data, CPU::new_item("CONST_00000005".to_string(), " ".to_string(), 5));
    assert_eq!(first, 5);
    let other =
        CPU::add_new_item(&mut cpu.data, CPU::new_item("CONST_00000006".to_string(), " ".to_string(), 6));
    assert_eq!(other, 6);
    let again =
        CPU::add_new_item(&mut cpu.data, CPU::new_item("CONST_00000005".to_string(), " ".to_string(), 5));
    assert_eq!(again, 5);
    assert_eq!(cpu.data.len(), 7);
}

#[test]
fn the_key_is_name_and_description() {
    let mut cpu = CPU::new_shared(0);
    let a = CPU::add_new_item(&mut cpu.data, CPU::new_item("x".to_string(), " ".to_string(), 1));
    let b = CPU::add_new_item(&mut cpu.data, CPU::new_item("x".to_string(), "other".to_string(), 2));
    let c = CPU::add_new_item(&mut cpu.data, CPU::new_item("x".to_string(), " ".to_string(), 3));
    assert_eq!((a, b, c), (5, 6, 5));
    // the value of the first addition stays
    assert_eq!(cpu.get_data_value(5), 1);
    assert_eq!(cpu.get_data_value(6), 2);
    // a built-in entry is found like any other
    let d = CPU::add_new_item(&mut cpu.data, CPU::new_item("-existing-".to_string(), " ".to_string(), 9));
    assert_eq!(d, 4);
    assert_eq!(cpu.get_data_value(4), 0);
}

#[test]
fn data_list_gives_names_and_descriptions() {
    let mut cpu = CPU::new_shared(0);
    CPU::add_new_item(&mut cpu.data, CPU::new_item("x".to_string(), "y".to_string(), 1));
    let list = cpu.get_data_list();
    assert_eq!(list.len(), 6);
    assert_eq!(list[0], ("register  (0xF000)".to_string(), " ".to_string()));
    assert_eq!(list[4], ("-existing-".to_string(), " ".to_string()));
    assert_eq!(list[5], ("x".to_string(), "y".to_string()));
}

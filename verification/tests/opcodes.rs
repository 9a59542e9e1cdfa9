use chip8::processor::Processor;

#[test]
fn opcode_jp() {
    let mut cpu = Processor::new();
    cpu.execute_opcode(0x1A2A).unwrap();
    assert_eq!(cpu.get_program_counter(), 0x0A2A, "the program counter is updated");
}

#[test]
fn opcode_call() {
    let mut cpu = Processor::new();
    let addr = 0x23;
    cpu.set_program_counter(addr);

    cpu.execute_opcode(0x2ABC).unwrap();

    assert_eq!(cpu.get_program_counter(), 0x0ABC, "the program counter is updated to the new address");
    assert_eq!(cpu.get_stack_pointer(), 1, "the stack pointer is incremented");
    assert_eq!(cpu.get_stack(0), addr + 2, "the stack stores the previous address");
}

#[test]
fn opcode_se_vx_byte() {
    let mut cpu = Processor::new();
    cpu.set_register(1, 0xFE);

    // vx == kk
    cpu.execute_opcode(0x31FE).unwrap();
    assert_eq!(cpu.get_program_counter(), 4, "the stack pointer skips");

    // vx != kk
    cpu.execute_opcode(0x31FA).unwrap();
    assert_eq!(cpu.get_program_counter(), 6, "the stack pointer is incremented");
}

#[test]
fn opcode_sne_vx_byte() {
    let mut cpu = Processor::new();
    cpu.set_register(1, 0xFE);

    // vx == kk
    cpu.execute_opcode(0x41FE).unwrap();
    assert_eq!(cpu.get_program_counter(), 2, "the stack pointer is incremented");

    // vx != kk
    cpu.execute_opcode(0x41FA).unwrap();
    assert_eq!(cpu.get_program_counter(), 6, "the stack pointer skips");
}

#[test]
fn opcode_se_vx_vy() {
    let mut cpu = Processor::new();
    cpu.set_register(1, 1);
    cpu.set_register(2, 3);
    cpu.set_register(3, 3);

    // vx == vy
    cpu.execute_opcode(0x5230).unwrap();
    assert_eq!(cpu.get_program_counter(), 4, "the stack pointer skips");

    // vx != vy
    cpu.execute_opcode(0x5130).unwrap();
    assert_eq!(cpu.get_program_counter(), 6, "the stack pointer is incremented");
}

#[test]
fn opcode_sne_vx_vy() {
    let mut cpu = Processor::new();
    cpu.set_register(1, 1);
    cpu.set_register(2, 3);
    cpu.set_register(3, 3);

    // vx == vy
    cpu.execute_opcode(0x9230).unwrap();
    assert_eq!(cpu.get_program_counter(), 2, "the stack pointer is incremented");

    // vx != vy
    cpu.execute_opcode(0x9130).unwrap();
    assert_eq!(cpu.get_program_counter(), 6, "the stack pointer skips");
}

#[test]
fn opcode_add_vx_kkk() {
    let mut cpu = Processor::new();
    cpu.set_register(1, 3);

    cpu.execute_opcode(0x7101).unwrap();
    assert_eq!(cpu.get_register(1), 4, "Vx was incremented by one");
}

#[test]
fn opcode_ld_vx_vy() {
    let mut cpu = Processor::new();
    cpu.set_register(1, 3);
    cpu.set_register(0, 0);

    cpu.execute_opcode(0x8010).unwrap();
    assert_eq!(cpu.get_register(0), 3, "Vx was loaded with vy");
}

#[test]
fn opcode_or_vx_vy() {
    let mut cpu = Processor::new();
    cpu.set_register(2, 0b01101100);
    cpu.set_register(3, 0b11001110);

    cpu.execute_opcode(0x8231).unwrap();
    assert_eq!(cpu.get_register(2), 0b11101110, "Vx was loaded with vx OR vy");
}

#[test]
fn opcode_and_vx_vy() {
    let mut cpu = Processor::new();
    cpu.set_register(2, 0b01101100);
    cpu.set_register(3, 0b11001110);

    cpu.execute_opcode(0x8232).unwrap();
    assert_eq!(cpu.get_register(2), 0b01001100, "Vx was loaded with vx AND vy");
}

#[test]
fn opcode_xor_vx_vy() {
    let mut cpu = Processor::new();
    cpu.set_register(2, 0b01101100);
    cpu.set_register(3, 0b11001110);

    cpu.execute_opcode(0x8233).unwrap();
    assert_eq!(cpu.get_register(2), 0b10100010, "Vx was loaded with vx XOR vy");
}

#[test]
fn opcode_add_vx_vy() {
    let mut cpu = Processor::new();
    cpu.set_register(1, 10);
    cpu.set_register(2, 100);
    cpu.set_register(3, 250);

    cpu.execute_opcode(0x8124).unwrap();
    assert_eq!(cpu.get_register(1), 110, "Vx was loaded with vx + vy");
    assert_eq!(cpu.get_register(0xF), 0, "no overflow occurred");

    cpu.execute_opcode(0x8134).unwrap();
    assert_eq!(cpu.get_register(1), 0x68, "Vx was loaded with vx + vy");
    assert_eq!(cpu.get_register(0xF), 1, "overflow occurred");
}

#[test]
fn opcode_ld_i_vx() {
    let mut cpu = Processor::new();
    cpu.set_register(0, 5);
    cpu.set_register(1, 4);
    cpu.set_register(2, 3);
    cpu.set_register(3, 2);
    cpu.set_index_register(0x300);

    // load v0 - v2 into memory at i
    cpu.execute_opcode(0xF255).unwrap();
    assert_eq!(cpu.get_memory(cpu.get_index_register()), 5, "V0 was loaded into memory at i");
    assert_eq!(cpu.get_memory(cpu.get_index_register() + 1), 4, "V1 was loaded into memory at i + 1");
    assert_eq!(cpu.get_memory(cpu.get_index_register() + 2), 3, "V2 was loaded into memory at i + 2");
    assert_eq!(cpu.get_memory(cpu.get_index_register() + 3), 0, "i + 3 was not loaded");
}

#[test]
fn opcode_ld_b_vx() {
    let mut cpu = Processor::new();
    cpu.set_index_register(0x300);
    cpu.set_register(2, 234);

    // load v0 - v2 from memory at i
    cpu.execute_opcode(0xF233).unwrap();
    assert_eq!(cpu.get_memory(cpu.get_index_register()), 2, "hundreds");
    assert_eq!(cpu.get_memory(cpu.get_index_register() + 1), 3, "tens");
    assert_eq!(cpu.get_memory(cpu.get_index_register() + 2), 4, "digits");
}

#[test]
fn opcode_ld_vx_i() {
    let mut cpu = Processor::new();
    cpu.set_index_register(0x300);
    cpu.set_memory(0x300, 5);
    cpu.set_memory(0x301, 4);
    cpu.set_memory(0x302, 3);
    cpu.set_memory(0x303, 2);

    // load v0 - v2 from memory at i
    cpu.execute_opcode(0xF265).unwrap();
    assert_eq!(cpu.get_register(0), 5, "V0 was loaded from memory at i");
    assert_eq!(cpu.get_register(1), 4, "V1 was loaded from memory at i + 1");
    assert_eq!(cpu.get_register(2), 3, "V2 was loaded from memory at i + 2");
    assert_eq!(cpu.get_register(3), 0, "i + 3 was not loaded");
}

#[test]
fn opcode_ret() {
    let mut cpu = Processor::new();
    let addr = 0x23;
    cpu.set_program_counter(addr);

    // jump to 0x0ABC
    cpu.execute_opcode(0x2ABC).unwrap();
    // return
    cpu.execute_opcode(0x00EE).unwrap();

    assert_eq!(cpu.get_program_counter(), 0x25, "the program counter is updated to the new address");
    assert_eq!(cpu.get_stack_pointer(), 0, "the stack pointer is decremented");
}

#[test]
fn opcode_ld_i_addr() {
    let mut cpu = Processor::new();

    cpu.execute_opcode(0x61AA).unwrap();
    assert_eq!(cpu.get_register(1), 0xAA, "V1 is set");
    assert_eq!(cpu.get_program_counter(), 2, "the program counter is advanced two bytes");

    cpu.execute_opcode(0x621A).unwrap();
    assert_eq!(cpu.get_register(2), 0x1A, "V2 is set");
    assert_eq!(cpu.get_program_counter(), 4, "the program counter is advanced two bytes");

    cpu.execute_opcode(0x6A15).unwrap();
    assert_eq!(cpu.get_register(10), 0x15, "V10 is set");
    assert_eq!(cpu.get_program_counter(), 6, "the program counter is advanced two bytes");
}

#[test]
fn opcode_axxx() {
    let mut cpu = Processor::new();
    cpu.execute_opcode(0xAFAF).unwrap();

    assert_eq!(cpu.get_index_register(), 0x0FAF, "the 'i' register is updated");
    assert_eq!(cpu.get_program_counter(), 2, "the program counter is advanced two bytes");
}

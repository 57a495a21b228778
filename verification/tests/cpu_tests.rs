use rust_in_action::cpu::CPU;

fn blank_cpu() -> CPU {
    CPU {
        registers: [0; 16],
        memory: [0; 4096],
        stack: [0; 16],
        position_in_memory: 0,
        stack_pointer: 0,
    }
}

#[test]
fn call_twice_program_adds_to_45() {
    let mut cpu = blank_cpu();
    cpu.registers[0] = 5;
    cpu.registers[1] = 10;
    let mem = &mut cpu.memory;
    mem[0x000] = 0x21;
    mem[0x001] = 0x00;
    mem[0x002] = 0x21;
    mem[0x003] = 0x00;
    mem[0x004] = 0x00;
    mem[0x005] = 0x00;
    mem[0x100] = 0x80;
    mem[0x101] = 0x14;
    mem[0x102] = 0x80;
    mem[0x103] = 0x14;
    mem[0x104] = 0x00;
    mem[0x105] = 0xEE;
    cpu.run();
    assert_eq!(cpu.registers[0], 45);
    assert_eq!(cpu.registers[0xF], 0);
    assert_eq!(cpu.stack_pointer, 0);
    assert_eq!(cpu.position_in_memory, 6);
}

#[test]
fn read_opcode_is_big_endian() {
    let mut cpu = blank_cpu();
    cpu.memory[10] = 0x12;
    cpu.memory[11] = 0x34;
    cpu.position_in_memory = 10;
    assert_eq!(cpu.read_opcode(), 0x1234);
}

#[test]
fn call_then_ret_restores_pc() {
    let mut cpu = blank_cpu();
    cpu.position_in_memory = 0x42;
    cpu.call(0x300);
    assert_eq!(cpu.position_in_memory, 0x300);
    assert_eq!(cpu.stack_pointer, 1);
    assert_eq!(cpu.stack[0], 0x42);
    cpu.ret();
    assert_eq!(cpu.position_in_memory, 0x42);
    assert_eq!(cpu.stack_pointer, 0);
}

#[test]
fn add_sets_carry_flag() {
    let mut cpu = blank_cpu();
    cpu.registers[2] = 200;
    cpu.registers[3] = 100;
    cpu.add_xy(2, 3);
    assert_eq!(cpu.registers[2], 44);
    assert_eq!(cpu.registers[0xF], 1);
    cpu.add_xy(2, 3);
    assert_eq!(cpu.registers[2], 144);
    assert_eq!(cpu.registers[0xF], 0);
}

#[test]
fn halt_right_away() {
    let mut cpu = blank_cpu();
    cpu.run();
    assert_eq!(cpu.position_in_memory, 2);
    assert_eq!(cpu.registers, [0; 16]);
}

#[test]
fn underflowing_return_faults() {
    let mut cpu = blank_cpu();
    cpu.memory[0] = 0x00;
    cpu.memory[1] = 0xEE;
    assert!(!cpu.run_until_done());
}

#[test]
fn unknown_opcode_faults() {
    let mut cpu = blank_cpu();
    cpu.memory[0] = 0x80;
    cpu.memory[1] = 0x14;
    cpu.memory[2] = 0x12;
    cpu.memory[3] = 0x34;
    assert!(!cpu.run_until_done());
}

#[test]
fn endless_calls_overflow_the_stack() {
    let mut cpu = blank_cpu();
    cpu.memory[0x10] = 0x20;
    cpu.memory[0x11] = 0x10;
    cpu.position_in_memory = 0x10;
    assert!(!cpu.run_until_done());
    assert_eq!(cpu.stack_pointer, 16);
}

#[test]
fn running_off_memory_faults() {
    let mut cpu = blank_cpu();
    cpu.position_in_memory = 4095;
    assert_eq!(cpu.cycle(), rust_in_action::cpu::Cycle::Fault);
}

#[test]
fn call_twice_program_with_checked_run() {
    let mut cpu = blank_cpu();
    cpu.registers[0] = 5;
    cpu.registers[1] = 10;
    cpu.memory[0x000] = 0x21;
    cpu.memory[0x002] = 0x21;
    cpu.memory[0x100] = 0x80;
    cpu.memory[0x101] = 0x14;
    cpu.memory[0x102] = 0x80;
    cpu.memory[0x103] = 0x14;
    cpu.memory[0x105] = 0xEE;
    assert!(cpu.run_until_done());
    assert_eq!(cpu.registers[0], 45);
}

#[test]
fn same_state_runs_to_same_end() {
    let build = || {
        let mut cpu = blank_cpu();
        cpu.registers[4] = 250;
        cpu.registers[5] = 7;
        cpu.memory[0x000] = 0x23;
        cpu.memory[0x001] = 0x00;
        cpu.memory[0x300] = 0x84;
        cpu.memory[0x301] = 0x54;
        cpu.memory[0x303] = 0xEE;
        cpu
    };
    let mut a = build();
    let mut b = build();
    a.run();
    assert!(b.run_until_done());
    assert_eq!(a.registers, b.registers);
    assert_eq!(a.position_in_memory, b.position_in_memory);
    assert_eq!(a.registers[4], 1);
    assert_eq!(a.registers[0xF], 1);
}

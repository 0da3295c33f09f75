use jazz80::components::devices::{Device, Keypad, SevenSegmentDisplay};
use jazz80::components::mem_64k::Mem64k;
use jazz80::cpu::{Flag, RegisterPair, Z80A, GPR};

#[test]
fn test_wake_from_halt_on_interrupt() {
    let mut cpu = Z80A::new(Mem64k::new());

    cpu.attach_device(Device::Keypad(Keypad::new(0x01)));

    cpu.memory.write(0x0000, 0xFB);
    cpu.memory.write(0x0001, 0x76);
    cpu.memory.write(0x0002, 0x00);

    cpu.tick();
    assert_eq!(cpu.get_pc(), 0x0001);
    assert!(!cpu.get_iff1());

    cpu.tick();
    assert_eq!(cpu.get_pc(), 0x0002);

    assert!(cpu.is_halted(), "CPU should be halted");
    assert!(
        cpu.get_iff1(),
        "Interrupts should be enabled after HALT instruction finishes delay"
    );

    cpu.tick();
    assert!(cpu.is_halted(), "CPU should remain halted if no interrupt");

    if let Device::Keypad(k) = &mut cpu.devices[0] {
        k.press_key(0x42);
    }

    cpu.tick();

    assert!(!cpu.is_halted(), "CPU should wake up");
    assert_eq!(cpu.get_pc(), 0x0038);

    cpu.memory.write(0x0038, 0xDB);
    cpu.memory.write(0x0039, 0x01);
    cpu.memory.write(0x003A, 0xD3);
    cpu.memory.write(0x003B, 0x02);
    cpu.memory.write(0x003C, 0xED);
    cpu.memory.write(0x003D, 0x4D);

    cpu.attach_device(Device::Display(SevenSegmentDisplay::new(0x02)));

    cpu.tick();
    assert_eq!(cpu.get_pc(), 0x003A);
    assert_eq!(cpu.get_register(GPR::A), 0x42);

    cpu.tick();
    assert_eq!(cpu.get_pc(), 0x003C);
    let shown = match &cpu.devices[1] {
        Device::Display(d) => d.get_value(),
        _ => panic!("display missing"),
    };
    assert_eq!(shown, 0x42);

    cpu.tick();
    assert_eq!(cpu.get_pc(), 0x0002);
}

fn run(bytes: &[u8], steps: usize) -> Z80A {
    let mut cpu = Z80A::new(Mem64k::new());
    for (i, b) in bytes.iter().enumerate() {
        cpu.memory.write(i as u16, *b);
    }
    for _ in 0..steps {
        cpu.tick();
    }
    cpu
}

#[test]
fn arithmetic_sets_flags() {
    // LD A, 0x0F ; ADD A, 0x01
    let cpu = run(&[0x3E, 0x0F, 0xC6, 0x01], 2);
    assert_eq!(cpu.get_register(GPR::A), 0x10);
    assert!(cpu.get_flag(Flag::H));
    assert!(!cpu.get_flag(Flag::Z));
    // LD A, 0xFF ; INC A
    let cpu = run(&[0x3E, 0xFF, 0x3C], 2);
    assert_eq!(cpu.get_register(GPR::A), 0x00);
    assert!(cpu.get_flag(Flag::Z));
    // LD A, 0x09 ; ADD A, 0x08 ; DAA
    let cpu = run(&[0x3E, 0x09, 0xC6, 0x08, 0x27], 3);
    assert_eq!(cpu.get_register(GPR::A), 0x17);
}

#[test]
fn push_then_pop_restores_the_pair() {
    // LD SP, 0x8000 ; LD BC, 0x1234 ; PUSH BC ; POP DE
    let cpu = run(&[0x31, 0x00, 0x80, 0x01, 0x34, 0x12, 0xC5, 0xD1], 4);
    assert_eq!(cpu.get_register_pair(RegisterPair::DE), 0x1234);
    assert_eq!(cpu.get_sp(), 0x8000);
    assert_eq!(cpu.memory.read(0x7FFE), 0x34);
    assert_eq!(cpu.memory.read(0x7FFF), 0x12);
}

#[test]
fn block_copy_moves_bytes() {
    // LD HL, 0x100 ; LD DE, 0x200 ; LD BC, 3 ; LDIR
    let mut cpu = Z80A::new(Mem64k::new());
    let prog = [0x21, 0x00, 0x01, 0x11, 0x00, 0x02, 0x01, 0x03, 0x00, 0xED, 0xB0];
    for (i, b) in prog.iter().enumerate() {
        cpu.memory.write(i as u16, *b);
    }
    cpu.memory.write(0x100, 7);
    cpu.memory.write(0x101, 8);
    cpu.memory.write(0x102, 9);
    for _ in 0..6 {
        cpu.tick();
    }
    assert_eq!(cpu.memory.read(0x200), 7);
    assert_eq!(cpu.memory.read(0x201), 8);
    assert_eq!(cpu.memory.read(0x202), 9);
    assert_eq!(cpu.get_register_pair(RegisterPair::BC), 0);
    assert_eq!(cpu.get_pc(), 11);
}

#[test]
fn call_and_return() {
    // LD SP, 0x9000 ; CALL 0x0010 ; HALT ... at 0x10: LD A, 5 ; RET
    let mut cpu = Z80A::new(Mem64k::new());
    let prog = [0x31, 0x00, 0x90, 0xCD, 0x10, 0x00, 0x76];
    for (i, b) in prog.iter().enumerate() {
        cpu.memory.write(i as u16, *b);
    }
    cpu.memory.write(0x10, 0x3E);
    cpu.memory.write(0x11, 0x05);
    cpu.memory.write(0x12, 0xC9);
    for _ in 0..4 {
        cpu.tick();
    }
    assert_eq!(cpu.get_register(GPR::A), 5);
    assert_eq!(cpu.get_pc(), 6);
    assert_eq!(cpu.get_sp(), 0x9000);
}

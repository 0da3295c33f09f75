use jazz80::components::devices::{
    device_definitions, Device, DeviceKind, GenericInterruptDevice, Keypad, LcdDisplay,
    SevenSegmentDisplay, VirtualTerminal,
};
use jazz80::components::dos::VirtualDOS;
use jazz80::components::mem_64k::Mem64k;

fn write_argument(dos: &mut VirtualDOS, argument: &str) {
    for byte in argument.bytes() {
        assert!(dos.write_out(0x20, byte));
    }
}

#[test]
fn virtual_dos_routes_commands_and_preserves_handled_results() {
    let mut dos = VirtualDOS::new(0x20);

    assert!(!dos.write_out(0x21 + 0x10, 0));
    write_argument(&mut dos, "docs");
    assert!(dos.write_out(0x21, 1));
    assert_eq!(dos.read_in(0x22), Some(0));

    assert!(dos.write_out(0x21, 0xFF));
    assert_eq!(dos.read_in(0x22), Some(0));

    assert!(dos.write_out(0x21, 0));
    write_argument(&mut dos, "docs");
    assert!(dos.write_out(0x21, 2));
    assert_eq!(dos.cwd(), b"/docs".to_vec());

    assert!(dos.write_out(0x21, 0));
    write_argument(&mut dos, "missing");
    assert!(dos.write_out(0x21, 2));
    assert_eq!(dos.read_in(0x22), Some(1));
}

#[test]
fn virtual_dos_file_command_buffers_data_and_clears_status_after_reads() {
    let mut dos = VirtualDOS::new(0x20);
    dos.add_file(b"/readme".to_vec(), vec![b'O', b'K']);

    write_argument(&mut dos, "readme");
    assert!(dos.write_out(0x21, 4));
    assert_eq!(dos.read_in(0x22), Some(2));
    assert_eq!(dos.read_in(0x20), Some(b'O'));
    assert_eq!(dos.read_in(0x22), Some(2));
    assert_eq!(dos.read_in(0x20), Some(b'K'));
    assert_eq!(dos.read_in(0x22), Some(0));

    assert!(dos.write_out(0x21, 0));
    assert_eq!(dos.read_in(0x22), Some(0));
}

#[test]
fn test_mem_64k_read_write() {
    let mut memory = Mem64k::new();
    memory.write(0x1234, 0xAB);
    assert_eq!(memory.read(0x1234), 0xAB);

    memory.write_word(0x1234, 0xCDEF);
    assert_eq!(memory.read_word(0x1234), 0xCDEF);

    memory.write_word(0x2000, 0x3412);
    assert_eq!(memory.read(0x2000), 0x12);
    assert_eq!(memory.read(0x2001), 0x34);

    memory.write(0x3000, 0x78);
    memory.write(0x3001, 0x56);
    assert_eq!(memory.read_word(0x3000), 0x5678);
}

#[test]
fn memory_words_wrap_at_the_top() {
    let mut memory = Mem64k::new();
    memory.write_word(0xFFFF, 0xBEEF);
    assert_eq!(memory.read(0xFFFF), 0xEF);
    assert_eq!(memory.read(0x0000), 0xBE);
    assert_eq!(memory.read_word(0xFFFF), 0xBEEF);
}

fn drain(dos: &mut VirtualDOS) -> String {
    let mut listing = Vec::new();
    while dos.read_in(0x22) == Some(2) {
        listing.push(dos.read_in(0x20).unwrap());
    }
    String::from_utf8(listing).unwrap()
}

#[test]
fn virtual_dos_lists_and_makes_directories() {
    let mut dos = VirtualDOS::new(0x20);
    write_argument(&mut dos, "docs");
    assert!(dos.write_out(0x21, 1));
    assert!(dos.write_out(0x21, 0));
    dos.add_file(b"/a.txt".to_vec(), vec![1]);
    assert!(dos.write_out(0x21, 3));
    assert_eq!(dos.read_in(0x22), Some(2));
    assert_eq!(drain(&mut dos), "[DIR]  docs\r\n[FILE] a.txt\r\n");
    assert_eq!(dos.status(), 0);

    write_argument(&mut dos, "docs");
    assert!(dos.write_out(0x21, 2));
    assert_eq!(dos.cwd(), b"/docs".to_vec());
    assert!(dos.write_out(0x21, 3));
    assert_eq!(drain(&mut dos), "Empty\r\n");

    assert!(dos.write_out(0x21, 0));
    write_argument(&mut dos, "..");
    assert!(dos.write_out(0x21, 2));
    assert_eq!(dos.cwd(), b"/".to_vec());
}

#[test]
fn virtual_dos_reading_a_missing_file_is_an_error() {
    let mut dos = VirtualDOS::new(0x40);
    write_argument_at(&mut dos, 0x40, "nothing");
    assert!(dos.write_out(0x41, 4));
    assert_eq!(dos.read_in(0x42), Some(1));
    assert_eq!(dos.read_in(0x40), Some(0));
}

fn write_argument_at(dos: &mut VirtualDOS, port: u16, argument: &str) {
    for byte in argument.bytes() {
        assert!(dos.write_out(port, byte));
    }
}

#[test]
fn keypad_reports_pressed_key_and_interrupts() {
    let mut k = Keypad::new(0x01);
    assert!(!k.poll_interrupt());
    k.press_key(0x42);
    assert_eq!(k.get_last_key(), 0x42);
    assert!(k.poll_interrupt());
    assert_eq!(k.read_in(0x01), Some(0x42));
    assert_eq!(k.read_in(0x02), None);
    assert_eq!(k.get_port(), 0x01);
}

#[test]
fn display_latches_written_value() {
    let mut d = SevenSegmentDisplay::new(0x02);
    assert!(d.write_out(0x02, 0x7F));
    assert!(!d.write_out(0x03, 0x01));
    assert_eq!(d.get_value(), 0x7F);
    assert_eq!(d.get_port(), 0x02);
}

#[test]
fn interrupt_device_raises_once_triggered() {
    let mut g = GenericInterruptDevice::new(0x10);
    assert!(!g.poll_interrupt());
    g.trigger();
    assert!(g.poll_interrupt());
    g.ack_interrupt();
    assert!(!g.poll_interrupt());
}

#[test]
fn lcd_and_terminal_collect_text() {
    let mut lcd = LcdDisplay::new(0x30);
    for b in b"Hi" {
        lcd.write_out(0x30, *b);
    }
    let t: String = lcd.display_text().into_iter().collect();
    assert!(t.starts_with("Hi"));
    let mut term = VirtualTerminal::new(0x50);
    term.write_out(0x50, b'o');
    term.write_out(0x50, b'k');
    let out: String = term.output_text().into_iter().collect();
    assert_eq!(out, "ok");
    term.send_input(&vec![b'x']);
    assert_eq!(term.read_in(0x50), Some(b'x'));
}

#[test]
fn device_definitions_create_their_kinds() {
    let defs = device_definitions();
    assert_eq!(defs.len(), 7);
    assert_eq!(defs[0].menu_name, "Add Keypad");
    assert_eq!(defs[5].default_port, "20");
    for def in &defs {
        let d = def.create(u16::from_str_radix(def.default_port, 16).unwrap());
        let kind_matches = match (def.kind, &d) {
            (DeviceKind::Keypad, Device::Keypad(_)) => true,
            (DeviceKind::Display, Device::Display(_)) => true,
            (DeviceKind::LcdDisplay, Device::Lcd(_)) => true,
            (DeviceKind::InterruptController, Device::Interrupt(_)) => true,
            (DeviceKind::VirtualTerminal, Device::Terminal(_)) => true,
            (DeviceKind::VirtualFileSystem, Device::Dos(_)) => true,
            (DeviceKind::NmiTrigger, Device::Nmi(_)) => true,
            _ => false,
        };
        assert!(kind_matches);
    }
}

#[test]
fn devices_name_their_windows_by_port() {
    assert_eq!(Keypad::new(0x01).get_name(), "Keypad (Port 0x01)");
    assert_eq!(Keypad::new(0x1234).get_name(), "Keypad (Port 0x1234)");
    assert_eq!(
        SevenSegmentDisplay::new(0x2A).get_name(),
        "Seven Segment Display (Port 0x2A)"
    );
    assert_eq!(GenericInterruptDevice::new(0).get_name(), "Int Controller (Port 0x00)");
    assert_eq!(LcdDisplay::new(3).get_name(), "LCD Display (Port 0x03)");
    assert_eq!(VirtualTerminal::new(0x1FF).get_name(), "OS Terminal (Ports 0xFF-0x00)");
    assert_eq!(VirtualDOS::new(0x120).get_name(), "DOS Controller (Port 0x20)");
    let mut k = Keypad::new(1);
    assert!(k.get_window_open_state());
    k.set_window_open_state(false);
    assert!(!k.get_window_open_state());
}

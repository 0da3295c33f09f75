use vstd::prelude::*;

use crate::formatting::{hex_min2, hex_min2_string, with_hex};
use super::dos::{fs_unique, dos_read, dos_write, root_path, DosView, InodeView, VirtualDOS};



verus! {

/// True when an I/O port selects a device: only the low eight bits of a
/// port address are decoded.
pub open spec fn port_selects(port: u16, own: u16) -> bool {
    port % 256 == own % 256
}

/// The character that a display shows for a byte: printable ASCII and the
/// newline stand for themselves, anything else is shown as a dot.
pub open spec fn lcd_char(data: u8) -> char {
    if data == 10 || (32 <= data <= 126) {
        data as char
    } else {
        '.'
    }
}

/// The character that the terminal shows for a byte: printable ASCII, the
/// newline and the carriage return stand for themselves, anything else is a dot.
pub open spec fn terminal_char(data: u8) -> char {
    if data == 10 || data == 13 || (32 <= data <= 126) {
        data as char
    } else {
        '.'
    }
}

/// The byte sequence that clears the terminal screen: `ESC [ 2 J ESC [ H`.
pub open spec fn clear_screen_seq() -> Seq<u8> {
    seq![0x1Bu8, 0x5Bu8, 0x32u8, 0x4Au8, 0x1Bu8, 0x5Bu8, 0x48u8]
}

/// A seven-segment display that latches the last byte written to its port.
#[derive(Clone, Copy, Debug, PartialEq, Eq, Structural)]
pub struct SevenSegmentDisplay {
    pub port: u16,
    pub value: u8,
    pub is_open: bool,
}

impl SevenSegmentDisplay {
    /// A display on `port` that shows zero.
    pub fn new(port: u16) -> (d: Self)
        ensures
            d.port == port,
            d.value == 0,
            d.is_open,
    {
        SevenSegmentDisplay { port, value: 0, is_open: true }
    }

    /// The byte on display.
    pub fn get_value(&self) -> (v: u8)
        ensures
            v == self.value,
    {
        self.value
    }

    /// The port the display listens on.
    pub fn get_port(&self) -> (p: u16)
        ensures
            p == self.port,
    {
        self.port
    }

    /// The display cannot be read.
    pub fn read_in(&mut self, port: u16) -> (r: Option<u8>)
        ensures
            r is None,
            *final(self) == *old(self),
    {
        None
    }

    /// A write to the display's port latches the byte and is handled;
    /// writes to other ports are left alone.
    pub fn write_out(&mut self, port: u16, data: u8) -> (handled: bool)
        ensures
            handled == port_selects(port, old(self).port),
            *final(self) == (if handled { SevenSegmentDisplay { value: data, ..*old(self) } } else { *old(self) }),
    {
        if port % 256 == self.port % 256 {
            self.value = data;
            true
        } else {
            false
        }
    }
}

/// A hexadecimal keypad: a key press latches the key code and raises an interrupt.
#[derive(Clone, Copy, Debug, PartialEq, Eq, Structural)]
pub struct Keypad {
    pub port: u16,
    pub current_key: u8,
    pub interrupt_pending: bool,
    pub is_open: bool,
}

impl Keypad {
    /// A keypad on `port` with no key pressed.
    pub fn new(port: u16) -> (k: Self)
        ensures
            k.port == port,
            k.current_key == 0,
            !k.interrupt_pending,
            k.is_open,
    {
        Keypad { port, current_key: 0, interrupt_pending: false, is_open: true }
    }

    /// Presses `key`: it becomes the last key and an interrupt is requested.
    pub fn press_key(&mut self, key: u8)
        ensures
            *final(self) == (Keypad { current_key: key, interrupt_pending: true, ..*old(self) }),
    {
        self.current_key = key;
        self.interrupt_pending = true;
    }

    /// The last key pressed.
    pub fn get_last_key(&self) -> (k: u8)
        ensures
            k == self.current_key,
    {
        self.current_key
    }

    /// The port the keypad answers on.
    pub fn get_port(&self) -> (p: u16)
        ensures
            p == self.port,
    {
        self.port
    }

    /// Reading the keypad's port gives the last key and clears the pending interrupt.
    pub fn read_in(&mut self, port: u16) -> (r: Option<u8>)
        ensures
            port_selects(port, old(self).port) ==> r == Some(old(self).current_key)
                && *final(self) == (Keypad { interrupt_pending: false, ..*old(self) }),
            !port_selects(port, old(self).port) ==> r is None && *final(self) == *old(self),
    {
        if port % 256 == self.get_port() % 256 {
            self.interrupt_pending = false;
            Some(self.get_last_key())
        } else {
            None
        }
    }

    /// The keypad ignores writes.
    pub fn write_out(&mut self, port: u16, data: u8) -> (handled: bool)
        ensures
            !handled,
            *final(self) == *old(self),
    {
        false
    }

    /// Whether a key press is waiting to be acknowledged.
    pub fn poll_interrupt(&self) -> (p: bool)
        ensures
            p == self.interrupt_pending,
    {
        self.interrupt_pending
    }

    /// Acknowledges the interrupt; the keypad puts `0xFF` (RST 38h) on the bus.
    pub fn ack_interrupt(&mut self) -> (v: u8)
        ensures
            v == 0xFF,
            *final(self) == (Keypad { interrupt_pending: false, ..*old(self) }),
    {
        self.interrupt_pending = false;
        0xFF
    }
}

/// A device that raises a maskable interrupt on demand and supplies a
/// programmable vector when it is acknowledged.
#[derive(Clone, Copy, Debug, PartialEq, Eq, Structural)]
pub struct GenericInterruptDevice {
    pub port: u16,
    pub vector: u8,
    pub interrupt_pending: bool,
    pub is_open: bool,
}

impl GenericInterruptDevice {
    /// An idle controller on `port` whose vector is `0xFF` (RST 38h).
    pub fn new(port: u16) -> (d: Self)
        ensures
            d.port == port,
            d.vector == 0xFF,
            !d.interrupt_pending,
            d.is_open,
    {
        GenericInterruptDevice { port, vector: 0xFF, interrupt_pending: false, is_open: true }
    }

    /// Requests an interrupt.
    pub fn trigger(&mut self)
        ensures
            *final(self) == (GenericInterruptDevice { interrupt_pending: true, ..*old(self) }),
    {
        self.interrupt_pending = true;
    }

    /// Sets the vector from hexadecimal text; text that is not a byte in
    /// hexadecimal leaves the vector as it was.
    pub fn set_vector_text(&mut self, text: &Vec<char>)
        ensures
            *final(self) == (match crate::text::spec_parse_hex_u8(text@) {
                Some(v) => GenericInterruptDevice { vector: v, ..*old(self) },
                None => *old(self),
            }),
    {
        match crate::text::parse_hex_u8(text) {
            Some(v) => {
                self.vector = v;
            },
            None => {},
        }
    }

    /// The controller cannot be read.
    pub fn read_in(&mut self, port: u16) -> (r: Option<u8>)
        ensures
            r is None,
            *final(self) == *old(self),
    {
        None
    }

    /// The controller ignores writes.
    pub fn write_out(&mut self, port: u16, data: u8) -> (handled: bool)
        ensures
            !handled,
            *final(self) == *old(self),
    {
        false
    }

    /// Whether an interrupt is waiting to be acknowledged.
    pub fn poll_interrupt(&self) -> (p: bool)
        ensures
            p == self.interrupt_pending,
    {
        self.interrupt_pending
    }

    /// Acknowledges the interrupt and supplies the vector.
    pub fn ack_interrupt(&mut self) -> (v: u8)
        ensures
            v == old(self).vector,
            *final(self) == (GenericInterruptDevice { interrupt_pending: false, ..*old(self) }),
    {
        self.interrupt_pending = false;
        self.vector
    }
}

/// A push button wired to the non-maskable interrupt line.
#[derive(Clone, Copy, Debug, PartialEq, Eq, Structural)]
pub struct NmiTrigger {
    pub nmi_pending: bool,
    pub is_open: bool,
}

impl NmiTrigger {
    /// A trigger that has not been pressed.
    pub fn new() -> (t: Self)
        ensures
            !t.nmi_pending,
            t.is_open,
    {
        NmiTrigger { nmi_pending: false, is_open: true }
    }

    /// Presses the button: a non-maskable interrupt is requested.
    pub fn trigger(&mut self)
        ensures
            *final(self) == (NmiTrigger { nmi_pending: true, ..*old(self) }),
    {
        self.nmi_pending = true;
    }
}

/// What an LCD display holds.
#[verifier::ext_equal]
pub struct LcdView {
    pub port: u16,
    pub display: Seq<char>,
    pub input: Seq<u8>,
    pub input_index: nat,
    pub is_open: bool,
}

/// A character display: bytes written to it are appended to its text, and
/// reads deliver a fixed input string one byte at a time.
pub struct LcdDisplay {
    port: u16,
    display_buffer: Vec<char>,
    input_buffer: Vec<u8>,
    input_index: usize,
    is_open: bool,
}

impl View for LcdDisplay {
    type V = LcdView;

    closed spec fn view(&self) -> LcdView {
        LcdView {
            port: self.port,
            display: self.display_buffer@,
            input: self.input_buffer@,
            input_index: self.input_index as nat,
            is_open: self.is_open,
        }
    }
}

/// The input text an LCD display starts with: "Hello Input".
pub open spec fn lcd_default_input() -> Seq<u8> {
    seq![72u8, 101u8, 108u8, 108u8, 111u8, 32u8, 73u8, 110u8, 112u8, 117u8, 116u8]
}

/// The state of an LCD display after a read of `port`, and what the read returns.
pub open spec fn lcd_read(d: LcdView, port: u16) -> (LcdView, Option<u8>) {
    if !port_selects(port, d.port) {
        (d, None)
    } else if d.input_index < d.input.len() {
        (LcdView { input_index: d.input_index + 1, ..d }, Some(d.input[d.input_index as int]))
    } else {
        (d, Some(0u8))
    }
}

/// The state of an LCD display after a write to `port`, and whether it was handled.
pub open spec fn lcd_write(d: LcdView, port: u16, data: u8) -> (LcdView, bool) {
    if port_selects(port, d.port) {
        (LcdView { display: d.display.push(lcd_char(data)), ..d }, true)
    } else {
        (d, false)
    }
}

impl LcdDisplay {
    /// An empty display on `port` whose input is "Hello Input".
    pub fn new(port: u16) -> (d: Self)
        ensures
            d@ == (LcdView {
                port,
                display: Seq::empty(),
                input: lcd_default_input(),
                input_index: 0,
                is_open: true,
            }),
    {
        let input_buffer: Vec<u8> = vec![72u8, 101u8, 108u8, 108u8, 111u8, 32u8, 73u8, 110u8, 112u8, 117u8, 116u8];
        let d = LcdDisplay {
            port,
            display_buffer: Vec::new(),
            input_buffer,
            input_index: 0,
            is_open: true,
        };
        assert(d@.input =~= lcd_default_input());
        d
    }

    /// The text written to the display so far.
    pub fn display_text(&self) -> (t: Vec<char>)
        ensures
            t@ == self@.display,
    {
        self.display_buffer.clone()
    }

    /// Reads the next input byte (zero once the input is used up).
    pub fn read_in(&mut self, port: u16) -> (r: Option<u8>)
        ensures
            (final(self)@, r) == lcd_read(old(self)@, port),
    {
        if port % 256 == self.port % 256 {
            let val = if self.input_index < self.input_buffer.len() {
                let v = self.input_buffer[self.input_index];
                self.input_index = self.input_index + 1;
                v
            } else {
                0
            };
            Some(val)
        } else {
            None
        }
    }

    /// Appends the character for `data` to the display.
    pub fn write_out(&mut self, port: u16, data: u8) -> (handled: bool)
        ensures
            (final(self)@, handled) == lcd_write(old(self)@, port, data),
    {
        if port % 256 == self.port % 256 {
            let ch = if data == 10 || (32 <= data && data <= 126) {
                data as char
            } else {
                '.'
            };
            self.display_buffer.push(ch);
            true
        } else {
            false
        }
    }

    /// Empties the display and restarts the input.
    pub fn clear(&mut self)
        ensures
            final(self)@ == (LcdView { display: Seq::empty(), input_index: 0, ..old(self)@ }),
    {
        self.display_buffer = Vec::new();
        self.input_index = 0;
    }
}

} // verus!

verus! {

/// What a virtual terminal holds.
#[verifier::ext_equal]
pub struct TerminalView {
    pub port: u16,
    pub rx: Seq<u8>,
    pub tx: Seq<char>,
    pub control: Seq<u8>,
    pub is_open: bool,
}

/// `s` is a prefix of the clear-screen sequence.
pub open spec fn is_clear_prefix(s: Seq<u8>) -> bool {
    s.len() <= clear_screen_seq().len() && s == clear_screen_seq().subrange(0, s.len() as int)
}

/// The terminal after showing one byte.
pub open spec fn term_append(t: TerminalView, data: u8) -> TerminalView {
    TerminalView { tx: t.tx.push(terminal_char(data)), ..t }
}

/// The terminal after `data` arrives on its data port: bytes of the
/// clear-screen sequence are held back until the sequence is complete (then
/// the screen is cleared) or broken (then the held bytes are shown).
pub open spec fn term_write_byte(t: TerminalView, data: u8) -> TerminalView {
    if t.control.len() == 0 && data != 0x1B {
        term_append(t, data)
    } else {
        let cs = t.control.push(data);
        if cs == clear_screen_seq() {
            TerminalView { tx: Seq::empty(), control: Seq::empty(), ..t }
        } else if !is_clear_prefix(cs) {
            TerminalView {
                tx: t.tx + cs.map_values(|b: u8| terminal_char(b)),
                control: Seq::empty(),
                ..t
            }
        } else {
            TerminalView { control: cs, ..t }
        }
    }
}

/// The terminal's status port: one above its data port, within the low eight bits.
pub open spec fn term_status_port(t: TerminalView) -> int {
    (t.port % 256 + 1) % 256
}

/// The terminal after a read of `port`, and what the read returns: the data
/// port delivers the next input byte (zero when there is none), the status
/// port reports "ready to send" (bit 1) and "input waiting" (bit 0).
pub open spec fn term_read(t: TerminalView, port: u16) -> (TerminalView, Option<u8>) {
    let p = port % 256;
    if p == t.port % 256 {
        if t.rx.len() > 0 {
            (TerminalView { rx: t.rx.drop_first(), ..t }, Some(t.rx[0]))
        } else {
            (t, Some(0u8))
        }
    } else if p == term_status_port(t) {
        (t, Some(if t.rx.len() > 0 { 3u8 } else { 2u8 }))
    } else {
        (t, None)
    }
}

/// The terminal after a write to `port`, and whether it was handled; writes to
/// the status port are accepted and ignored.
pub open spec fn term_write(t: TerminalView, port: u16, data: u8) -> (TerminalView, bool) {
    let p = port % 256;
    if p == t.port % 256 {
        (term_write_byte(t, data), true)
    } else if p == term_status_port(t) {
        (t, true)
    } else {
        (t, false)
    }
}

/// A serial terminal for an operating system running on the CPU: a data port
/// and a status port, with a queue of typed input.
pub struct VirtualTerminal {
    port: u16,
    rx_queue: std::collections::VecDeque<u8>,
    tx_buffer: Vec<char>,
    control_sequence: Vec<u8>,
    is_open: bool,
}

impl View for VirtualTerminal {
    type V = TerminalView;

    closed spec fn view(&self) -> TerminalView {
        TerminalView {
            port: self.port,
            rx: self.rx_queue@,
            tx: self.tx_buffer@,
            control: self.control_sequence@,
            is_open: self.is_open,
        }
    }
}

fn clear_screen_bytes() -> (v: Vec<u8>)
    ensures
        v@ == clear_screen_seq(),
{
    let v: Vec<u8> = vec![0x1Bu8, 0x5Bu8, 0x32u8, 0x4Au8, 0x1Bu8, 0x5Bu8, 0x48u8];
    assert(v@ =~= clear_screen_seq());
    v
}

fn terminal_char_of(data: u8) -> (c: char)
    ensures
        c == terminal_char(data),
{
    if data == 10 || data == 13 || (32 <= data && data <= 126) {
        data as char
    } else {
        '.'
    }
}

impl VirtualTerminal {
    /// An empty terminal whose data port is `port`.
    pub fn new(port: u16) -> (t: Self)
        ensures
            t@ == (TerminalView {
                port,
                rx: Seq::empty(),
                tx: Seq::empty(),
                control: Seq::empty(),
                is_open: true,
            }),
    {
        VirtualTerminal {
            port,
            rx_queue: std::collections::VecDeque::new(),
            tx_buffer: Vec::new(),
            control_sequence: Vec::new(),
            is_open: true,
        }
    }

    /// The text shown so far.
    pub fn output_text(&self) -> (t: Vec<char>)
        ensures
            t@ == self@.tx,
    {
        self.tx_buffer.clone()
    }

    /// Queues typed input followed by a carriage return.
    pub fn send_input(&mut self, bytes: &Vec<u8>)
        ensures
            final(self)@ == (TerminalView { rx: old(self)@.rx + bytes@ + seq![13u8], ..old(self)@ }),
    {
        let mut i: usize = 0;
        while i < bytes.len()
            invariant
                i <= bytes@.len(),
                self@ == (TerminalView { rx: old(self)@.rx + bytes@.subrange(0, i as int), ..old(self)@ }),
            decreases bytes@.len() - i,
        {
            self.rx_queue.push_back(bytes[i]);
            i = i + 1;
            assert(old(self)@.rx + bytes@.subrange(0, i as int) =~= (old(self)@.rx + bytes@.subrange(
                0,
                i - 1,
            )).push(bytes@[i - 1]));
        }
        assert(bytes@.subrange(0, i as int) =~= bytes@);
        self.rx_queue.push_back(13u8);
        assert(self@.rx =~= old(self)@.rx + bytes@ + seq![13u8]);
    }

    /// Empties the screen.
    pub fn clear_output(&mut self)
        ensures
            final(self)@ == (TerminalView { tx: Seq::empty(), ..old(self)@ }),
    {
        self.tx_buffer = Vec::new();
    }

    fn append_display_byte(&mut self, data: u8)
        ensures
            final(self)@ == term_append(old(self)@, data),
    {
        self.tx_buffer.push(terminal_char_of(data));
    }

    fn write_terminal_byte(&mut self, data: u8)
        ensures
            final(self)@ == term_write_byte(old(self)@, data),
    {
        if self.control_sequence.len() == 0 && data != 0x1B {
            self.append_display_byte(data);
            return;
        }
        self.control_sequence.push(data);
        let clear = clear_screen_bytes();
        let cs_len = self.control_sequence.len();
        let mut is_prefix = cs_len <= clear.len();
        let mut i: usize = 0;
        while i < cs_len && is_prefix
            invariant
                cs_len == self.control_sequence@.len(),
                clear@ == clear_screen_seq(),
                i <= cs_len,
                is_prefix ==> cs_len <= clear@.len(),
                is_prefix ==> forall|j: int| 0 <= j < i ==> self.control_sequence@[j] == clear@[j],
                !is_prefix ==> !is_clear_prefix(self.control_sequence@),
            decreases cs_len - i,
        {
            if self.control_sequence[i] != clear[i] {
                is_prefix = false;
            }
            i = i + 1;
        }
        if is_prefix {
            assert(self.control_sequence@ =~= clear@.subrange(0, cs_len as int));
        }
        if is_prefix && cs_len == clear.len() {
            assert(self.control_sequence@ =~= clear_screen_seq());
            self.tx_buffer = Vec::new();
            self.control_sequence = Vec::new();
        } else if !is_prefix {
            let ghost cs = self.control_sequence@;
            let ghost tx0 = self.tx_buffer@;
            let mut k: usize = 0;
            while k < cs_len
                invariant
                    cs_len == cs.len(),
                    cs == self.control_sequence@,
                    k <= cs_len,
                    self@.rx == old(self)@.rx,
                    self@.port == old(self)@.port,
                    self@.is_open == old(self)@.is_open,
                    cs == old(self)@.control.push(data),
                    tx0 == old(self)@.tx,
                    self.tx_buffer@ =~= tx0 + cs.subrange(0, k as int).map_values(|b: u8| terminal_char(b)),
                decreases cs_len - k,
            {
                let b = self.control_sequence[k];
                self.append_display_byte(b);
                k = k + 1;
                assert(cs.subrange(0, k as int).map_values(|b: u8| terminal_char(b)) =~= cs.subrange(
                    0,
                    k - 1,
                ).map_values(|b: u8| terminal_char(b)).push(terminal_char(cs[k - 1])));
            }
            assert(cs.subrange(0, cs_len as int) =~= cs);
            self.control_sequence = Vec::new();
        } else {
            if cs_len == clear.len() {
            }
            assert(self.control_sequence@ != clear_screen_seq());
        }
    }

    /// Reads the data port or the status port.
    pub fn read_in(&mut self, port: u16) -> (r: Option<u8>)
        ensures
            (final(self)@, r) == term_read(old(self)@, port),
    {
        let p = port % 256;
        let base = self.port % 256;
        let status_port = (base + 1) % 256;
        if p == base {
            match self.rx_queue.pop_front() {
                Some(b) => Some(b),
                None => Some(0),
            }
        } else if p == status_port {
            let mut status: u8 = 0x02;
            if self.rx_queue.len() > 0 {
                status = 0x03;
            }
            Some(status)
        } else {
            None
        }
    }

    /// Writes the data port (shows the byte) or the status port (ignored).
    pub fn write_out(&mut self, port: u16, data: u8) -> (handled: bool)
        ensures
            (final(self)@, handled) == term_write(old(self)@, port, data),
    {
        let p = port % 256;
        let base = self.port % 256;
        let status_port = (base + 1) % 256;
        if p == base {
            self.write_terminal_byte(data);
            true
        } else if p == status_port {
            true
        } else {
            false
        }
    }
}

} // verus!

verus! {

/// The kinds of device that can be added to a machine.
#[derive(Clone, Copy, Debug, PartialEq, Eq, Structural)]
pub enum DeviceKind {
    Keypad,
    Display,
    LcdDisplay,
    InterruptController,
    VirtualTerminal,
    VirtualFileSystem,
    NmiTrigger,
}

/// A device attached to the CPU's I/O bus.
pub enum Device {
    Keypad(Keypad),
    Display(SevenSegmentDisplay),
    Lcd(LcdDisplay),
    Interrupt(GenericInterruptDevice),
    Terminal(VirtualTerminal),
    Dos(VirtualDOS),
    Nmi(NmiTrigger),
}

/// What a device holds.
pub enum DeviceView {
    Keypad(Keypad),
    Display(SevenSegmentDisplay),
    Lcd(LcdView),
    Interrupt(GenericInterruptDevice),
    Terminal(TerminalView),
    Dos(DosView),
    Nmi(NmiTrigger),
}

impl View for Device {
    type V = DeviceView;

    open spec fn view(&self) -> DeviceView {
        match self {
            Device::Keypad(k) => DeviceView::Keypad(*k),
            Device::Display(d) => DeviceView::Display(*d),
            Device::Lcd(l) => DeviceView::Lcd(l@),
            Device::Interrupt(g) => DeviceView::Interrupt(*g),
            Device::Terminal(t) => DeviceView::Terminal(t@),
            Device::Dos(d) => DeviceView::Dos(d@),
            Device::Nmi(n) => DeviceView::Nmi(*n),
        }
    }
}

/// A device after a read of `port`, and what it puts on the bus (`None`: the
/// read is not for this device).
pub open spec fn dev_read(d: DeviceView, port: u16) -> (DeviceView, Option<u8>) {
    match d {
        DeviceView::Keypad(k) => if port_selects(port, k.port) {
            (DeviceView::Keypad(Keypad { interrupt_pending: false, ..k }), Some(k.current_key))
        } else {
            (d, None)
        },
        DeviceView::Lcd(l) => {
            let (l2, r) = lcd_read(l, port);
            (DeviceView::Lcd(l2), r)
        },
        DeviceView::Terminal(t) => {
            let (t2, r) = term_read(t, port);
            (DeviceView::Terminal(t2), r)
        },
        DeviceView::Dos(x) => {
            let (x2, r) = dos_read(x, port);
            (DeviceView::Dos(x2), r)
        },
        _ => (d, None),
    }
}

/// A device after a write of `data` to `port`, and whether it took the write.
pub open spec fn dev_write(d: DeviceView, port: u16, data: u8) -> (DeviceView, bool) {
    match d {
        DeviceView::Display(s) => if port_selects(port, s.port) {
            (DeviceView::Display(SevenSegmentDisplay { value: data, ..s }), true)
        } else {
            (d, false)
        },
        DeviceView::Lcd(l) => {
            let (l2, r) = lcd_write(l, port, data);
            (DeviceView::Lcd(l2), r)
        },
        DeviceView::Terminal(t) => {
            let (t2, r) = term_write(t, port, data);
            (DeviceView::Terminal(t2), r)
        },
        DeviceView::Dos(x) => {
            let (x2, r) = dos_write(x, port, data);
            (DeviceView::Dos(x2), r)
        },
        _ => (d, false),
    }
}

/// Whether a device requests a maskable interrupt.
pub open spec fn dev_poll_interrupt(d: DeviceView) -> bool {
    match d {
        DeviceView::Keypad(k) => k.interrupt_pending,
        DeviceView::Interrupt(g) => g.interrupt_pending,
        _ => false,
    }
}

/// A device after its interrupt is acknowledged, and the byte it puts on the bus.
pub open spec fn dev_ack_interrupt(d: DeviceView) -> (DeviceView, u8) {
    match d {
        DeviceView::Keypad(k) => (DeviceView::Keypad(Keypad { interrupt_pending: false, ..k }), 0xFFu8),
        DeviceView::Interrupt(g) => (
            DeviceView::Interrupt(GenericInterruptDevice { interrupt_pending: false, ..g }),
            g.vector,
        ),
        _ => (d, 0xFFu8),
    }
}

/// Whether a device requests a non-maskable interrupt.
pub open spec fn dev_poll_nmi(d: DeviceView) -> bool {
    match d {
        DeviceView::Nmi(n) => n.nmi_pending,
        _ => false,
    }
}

/// A device after its non-maskable interrupt is taken.
pub open spec fn dev_ack_nmi(d: DeviceView) -> DeviceView {
    match d {
        DeviceView::Nmi(n) => DeviceView::Nmi(NmiTrigger { nmi_pending: false, ..n }),
        _ => d,
    }
}

/// A well-formed device: a DOS controller names each path at most once.
pub open spec fn dev_wf(d: DeviceView) -> bool {
    match d {
        DeviceView::Dos(x) => fs_unique(x.fs),
        _ => true,
    }
}

impl Device {
    /// A new device of the given kind on `port` (the NMI trigger has no port).
    pub fn create(kind: DeviceKind, port: u16) -> (d: Device)
        ensures
            dev_wf(d@),
            d@ == Device::create_spec(kind, port),
    {
        match kind {
            DeviceKind::Keypad => create_keypad(port),
            DeviceKind::Display => create_display(port),
            DeviceKind::LcdDisplay => create_lcd_display(port),
            DeviceKind::InterruptController => create_interrupt_controller(port),
            DeviceKind::VirtualTerminal => create_virtual_terminal(port),
            DeviceKind::VirtualFileSystem => create_virtual_file_system(port),
            DeviceKind::NmiTrigger => create_nmi_trigger(port),
        }
    }

    /// Offers a read of `port` to the device.
    pub fn read_in(&mut self, port: u16) -> (r: Option<u8>)
        requires
            dev_wf(old(self)@),
        ensures
            (final(self)@, r) == dev_read(old(self)@, port),
            dev_wf(final(self)@),
    {
        match self {
            Device::Keypad(k) => k.read_in(port),
            Device::Display(d) => d.read_in(port),
            Device::Lcd(l) => l.read_in(port),
            Device::Interrupt(g) => g.read_in(port),
            Device::Terminal(t) => t.read_in(port),
            Device::Dos(x) => x.read_in(port),
            Device::Nmi(_) => None,
        }
    }

    /// Offers a write of `data` to `port` to the device.
    pub fn write_out(&mut self, port: u16, data: u8) -> (handled: bool)
        requires
            dev_wf(old(self)@),
        ensures
            (final(self)@, handled) == dev_write(old(self)@, port, data),
            dev_wf(final(self)@),
    {
        match self {
            Device::Keypad(k) => k.write_out(port, data),
            Device::Display(d) => d.write_out(port, data),
            Device::Lcd(l) => l.write_out(port, data),
            Device::Interrupt(g) => g.write_out(port, data),
            Device::Terminal(t) => t.write_out(port, data),
            Device::Dos(x) => x.write_out(port, data),
            Device::Nmi(_) => false,
        }
    }

    /// Whether the device requests a maskable interrupt.
    pub fn poll_interrupt(&self) -> (p: bool)
        ensures
            p == dev_poll_interrupt(self@),
    {
        match self {
            Device::Keypad(k) => k.poll_interrupt(),
            Device::Interrupt(g) => g.poll_interrupt(),
            _ => false,
        }
    }

    /// Acknowledges the device's maskable interrupt.
    pub fn ack_interrupt(&mut self) -> (v: u8)
        requires
            dev_wf(old(self)@),
        ensures
            (final(self)@, v) == dev_ack_interrupt(old(self)@),
            dev_wf(final(self)@),
    {
        match self {
            Device::Keypad(k) => k.ack_interrupt(),
            Device::Interrupt(g) => g.ack_interrupt(),
            _ => 0xFF,
        }
    }

    /// Whether the device requests a non-maskable interrupt.
    pub fn poll_nmi(&self) -> (p: bool)
        ensures
            p == dev_poll_nmi(self@),
    {
        match self {
            Device::Nmi(n) => n.nmi_pending,
            _ => false,
        }
    }

    /// Takes the device's non-maskable interrupt request.
    pub fn ack_nmi(&mut self)
        requires
            dev_wf(old(self)@),
        ensures
            final(self)@ == dev_ack_nmi(old(self)@),
            dev_wf(final(self)@),
    {
        match self {
            Device::Nmi(n) => {
                n.nmi_pending = false;
            },
            _ => {},
        }
    }
}

impl Keypad {
    /// A keypad on `port` with no key pressed.
    pub open spec fn new_spec(port: u16) -> Keypad {
        Keypad { port, current_key: 0, interrupt_pending: false, is_open: true }
    }
}

fn create_keypad(port: u16) -> (d: Device)
    ensures
        d@ == DeviceView::Keypad(Keypad::new_spec(port)),
{
    Device::Keypad(Keypad::new(port))
}

fn create_display(port: u16) -> (d: Device)
    ensures
        d@ == DeviceView::Display(SevenSegmentDisplay { port, value: 0, is_open: true }),
{
    Device::Display(SevenSegmentDisplay::new(port))
}

fn create_lcd_display(port: u16) -> (d: Device)
    ensures
        d@ == DeviceView::Lcd(LcdView {
            port,
            display: Seq::empty(),
            input: lcd_default_input(),
            input_index: 0,
            is_open: true,
        }),
{
    Device::Lcd(LcdDisplay::new(port))
}

fn create_interrupt_controller(port: u16) -> (d: Device)
    ensures
        d@ == DeviceView::Interrupt(
            GenericInterruptDevice { port, vector: 0xFF, interrupt_pending: false, is_open: true },
        ),
{
    Device::Interrupt(GenericInterruptDevice::new(port))
}

fn create_virtual_terminal(port: u16) -> (d: Device)
    ensures
        d@ == DeviceView::Terminal(TerminalView {
            port,
            rx: Seq::empty(),
            tx: Seq::empty(),
            control: Seq::empty(),
            is_open: true,
        }),
{
    Device::Terminal(VirtualTerminal::new(port))
}

fn create_virtual_file_system(port: u16) -> (d: Device)
    ensures
        d@ == DeviceView::Dos(DosView {
            port,
            fs: seq![(root_path(), InodeView::Directory)],
            cwd: root_path(),
            arg: Seq::empty(),
            out: Seq::empty(),
            status: 0,
            is_open: true,
        }),
        dev_wf(d@),
{
    Device::Dos(VirtualDOS::new(port))
}

fn create_nmi_trigger(_port: u16) -> (d: Device)
    ensures
        d@ == DeviceView::Nmi(NmiTrigger { nmi_pending: false, is_open: true }),
{
    Device::Nmi(NmiTrigger::new())
}

/// An entry of the "add device" menu: its label, the port it suggests, and
/// the kind of device it creates.
pub struct DeviceDefinition {
    pub menu_name: &'static str,
    pub default_port: &'static str,
    pub kind: DeviceKind,
}

impl DeviceDefinition {
    /// Creates the device this entry stands for, on `port`.
    pub fn create(&self, port: u16) -> (d: Device)
        ensures
            d@ == Device::create_spec(self.kind, port),
            dev_wf(d@),
    {
        Device::create(self.kind, port)
    }
}

impl Device {
    /// The device that [`Device::create`] makes.
    pub open spec fn create_spec(kind: DeviceKind, port: u16) -> DeviceView {
        match kind {
            DeviceKind::Keypad => DeviceView::Keypad(Keypad::new_spec(port)),
            DeviceKind::Display => DeviceView::Display(SevenSegmentDisplay { port, value: 0, is_open: true }),
            DeviceKind::LcdDisplay => DeviceView::Lcd(LcdView {
                port,
                display: Seq::empty(),
                input: lcd_default_input(),
                input_index: 0,
                is_open: true,
            }),
            DeviceKind::InterruptController => DeviceView::Interrupt(
                GenericInterruptDevice { port, vector: 0xFF, interrupt_pending: false, is_open: true },
            ),
            DeviceKind::VirtualTerminal => DeviceView::Terminal(TerminalView {
                port,
                rx: Seq::empty(),
                tx: Seq::empty(),
                control: Seq::empty(),
                is_open: true,
            }),
            DeviceKind::VirtualFileSystem => DeviceView::Dos(DosView {
                port,
                fs: seq![(root_path(), InodeView::Directory)],
                cwd: root_path(),
                arg: Seq::empty(),
                out: Seq::empty(),
                status: 0,
                is_open: true,
            }),
            DeviceKind::NmiTrigger => DeviceView::Nmi(NmiTrigger { nmi_pending: false, is_open: true }),
        }
    }
}

/// The "add device" menu, in order: keypad (port 1), display (2), LCD display
/// (3), interrupt controller (0), virtual terminal (0), DOS controller (20),
/// NMI trigger (0).
pub fn device_definitions() -> (defs: Vec<DeviceDefinition>)
    ensures
        defs@.len() == 7,
        defs@[0].menu_name@ == "Add Keypad"@ && defs@[0].default_port@ == "1"@ && defs@[0].kind == DeviceKind::Keypad,
        defs@[1].menu_name@ == "Add Display"@ && defs@[1].default_port@ == "2"@ && defs@[1].kind == DeviceKind::Display,
        defs@[2].menu_name@ == "Add LCD Display"@ && defs@[2].default_port@ == "3"@ && defs@[2].kind == DeviceKind::LcdDisplay,
        defs@[3].menu_name@ == "Add Interrupt Controller"@ && defs@[3].default_port@ == "0"@ && defs@[3].kind == DeviceKind::InterruptController,
        defs@[4].menu_name@ == "Add Virtual Terminal"@ && defs@[4].default_port@ == "0"@ && defs@[4].kind == DeviceKind::VirtualTerminal,
        defs@[5].menu_name@ == "Add DOS Controller"@ && defs@[5].default_port@ == "20"@ && defs@[5].kind == DeviceKind::VirtualFileSystem,
        defs@[6].menu_name@ == "Add NMI Trigger"@ && defs@[6].default_port@ == "0"@ && defs@[6].kind == DeviceKind::NmiTrigger,
{
    let mut defs: Vec<DeviceDefinition> = Vec::new();
    defs.push(DeviceDefinition { menu_name: "Add Keypad", default_port: "1", kind: DeviceKind::Keypad });
    defs.push(DeviceDefinition { menu_name: "Add Display", default_port: "2", kind: DeviceKind::Display });
    defs.push(DeviceDefinition { menu_name: "Add LCD Display", default_port: "3", kind: DeviceKind::LcdDisplay });
    defs.push(DeviceDefinition { menu_name: "Add Interrupt Controller", default_port: "0", kind: DeviceKind::InterruptController });
    defs.push(DeviceDefinition { menu_name: "Add Virtual Terminal", default_port: "0", kind: DeviceKind::VirtualTerminal });
    defs.push(DeviceDefinition { menu_name: "Add DOS Controller", default_port: "20", kind: DeviceKind::VirtualFileSystem });
    defs.push(DeviceDefinition { menu_name: "Add NMI Trigger", default_port: "0", kind: DeviceKind::NmiTrigger });
    defs
}

impl SevenSegmentDisplay {
    /// The title of the device's window.
    pub fn get_name(&self) -> (n: String)
        ensures
            n@ == "Seven Segment Display (Port 0x"@ + hex_min2(self.port as nat) + ")"@,
    {
        with_hex("Seven Segment Display (Port 0x", self.port, ")")
    }

    /// Whether the device's window is open.
    pub fn get_window_open_state(&self) -> (b: bool)
        ensures
            b == self.is_open,
    {
        self.is_open
    }

    /// Opens or closes the device's window.
    pub fn set_window_open_state(&mut self, open: bool)
        ensures
            *final(self) == (SevenSegmentDisplay { is_open: open, ..*old(self) }),
    {
        self.is_open = open;
    }
}

impl Keypad {
    /// The title of the device's window.
    pub fn get_name(&self) -> (n: String)
        ensures
            n@ == "Keypad (Port 0x"@ + hex_min2(self.port as nat) + ")"@,
    {
        with_hex("Keypad (Port 0x", self.port, ")")
    }

    /// Whether the device's window is open.
    pub fn get_window_open_state(&self) -> (b: bool)
        ensures
            b == self.is_open,
    {
        self.is_open
    }

    /// Opens or closes the device's window.
    pub fn set_window_open_state(&mut self, open: bool)
        ensures
            *final(self) == (Keypad { is_open: open, ..*old(self) }),
    {
        self.is_open = open;
    }
}

impl GenericInterruptDevice {
    /// The title of the device's window.
    pub fn get_name(&self) -> (n: String)
        ensures
            n@ == "Int Controller (Port 0x"@ + hex_min2(self.port as nat) + ")"@,
    {
        with_hex("Int Controller (Port 0x", self.port, ")")
    }

    /// Whether the device's window is open.
    pub fn get_window_open_state(&self) -> (b: bool)
        ensures
            b == self.is_open,
    {
        self.is_open
    }

    /// Opens or closes the device's window.
    pub fn set_window_open_state(&mut self, open: bool)
        ensures
            *final(self) == (GenericInterruptDevice { is_open: open, ..*old(self) }),
    {
        self.is_open = open;
    }
}

impl LcdDisplay {
    /// The title of the display's window.
    pub fn get_name(&self) -> (n: String)
        ensures
            n@ == "LCD Display (Port 0x"@ + hex_min2(self@.port as nat) + ")"@,
    {
        with_hex("LCD Display (Port 0x", self.port, ")")
    }

    /// Whether the display's window is open.
    pub fn get_window_open_state(&self) -> (b: bool)
        ensures
            b == self@.is_open,
    {
        self.is_open
    }

    /// Opens or closes the display's window.
    pub fn set_window_open_state(&mut self, open: bool)
        ensures
            final(self)@ == (LcdView { is_open: open, ..old(self)@ }),
    {
        self.is_open = open;
    }
}

impl VirtualTerminal {
    /// The title of the terminal's window: its data and status ports.
    pub fn get_name(&self) -> (n: String)
        ensures
            n@ == "OS Terminal (Ports 0x"@ + hex_min2((self@.port % 256) as nat) + "-0x"@ + hex_min2(
                ((self@.port + 1) % 256) as nat,
            ) + ")"@,
    {
        let data = self.port % 256;
        let status = self.port.wrapping_add(1) % 256;
        let mut n = with_hex("OS Terminal (Ports 0x", data, "-0x");
        let h = hex_min2_string(status);
        n.append(h.as_str());
        n.append(")");
        assert(n@ =~= "OS Terminal (Ports 0x"@ + hex_min2((self@.port % 256) as nat) + "-0x"@ + hex_min2(
            ((self@.port + 1) % 256) as nat,
        ) + ")"@);
        n
    }

    /// Whether the terminal's window is open.
    pub fn get_window_open_state(&self) -> (b: bool)
        ensures
            b == self@.is_open,
    {
        self.is_open
    }

    /// Opens or closes the terminal's window.
    pub fn set_window_open_state(&mut self, open: bool)
        ensures
            final(self)@ == (TerminalView { is_open: open, ..old(self)@ }),
    {
        self.is_open = open;
    }
}

/// Reading the terminal's status port (one above its data port, in the low
/// eight bits) changes nothing and gives a byte whose bit 1 (ready to send)
/// is always set and whose bit 0 is set exactly when input is waiting, with
/// no other bit set. Reading the data port gives the oldest waiting input
/// byte and removes it, or zero when none waits.
pub proof fn lemma_terminal_ports(t: TerminalView, port: u16)
    ensures
        port % 256 == (t.port % 256 + 1) % 256 ==> {
            &&& term_read(t, port).0 == t
            &&& term_read(t, port).1 is Some
            &&& (term_read(t, port).1->0 / 2) % 2 == 1
            &&& (term_read(t, port).1->0 % 2 == 1 <==> t.rx.len() > 0)
            &&& term_read(t, port).1->0 < 4
        },
        port % 256 == t.port % 256 && t.rx.len() > 0 ==> term_read(t, port).1 == Some(t.rx[0])
            && term_read(t, port).0.rx == t.rx.subrange(1, t.rx.len() as int) && term_read(t, port).0.tx
            == t.tx,
        port % 256 == t.port % 256 && t.rx.len() == 0 ==> term_read(t, port) == (t, Some(0u8)),
{
    assert(t.rx.drop_first() =~= t.rx.subrange(1, t.rx.len() as int));
}

/// Writing to the terminal's data port, with no escape sequence pending, a
/// byte other than ESC shows that byte's character at the end of the output
/// and changes nothing else; a write to the status port is accepted and
/// changes nothing; a write to any other port is refused and changes nothing.
pub proof fn lemma_terminal_output(t: TerminalView, port: u16, data: u8)
    ensures
        port % 256 == t.port % 256 && t.control.len() == 0 && data != 0x1B ==> {
            &&& term_write(t, port, data).1
            &&& term_write(t, port, data).0.tx == t.tx.push(terminal_char(data))
            &&& term_write(t, port, data).0.rx == t.rx
            &&& term_write(t, port, data).0.control == t.control
        },
        port % 256 != t.port % 256 && port % 256 == (t.port % 256 + 1) % 256 ==> term_write(t, port, data) == (
        t, true),
        port % 256 != t.port % 256 && port % 256 != (t.port % 256 + 1) % 256 ==> term_write(t, port, data) == (
        t, false),
{
}

} // verus!

use vstd::prelude::*;

use crate::components::devices::{
    dev_ack_interrupt, dev_ack_nmi, dev_poll_interrupt, dev_poll_nmi, dev_read, dev_wf, dev_write,
    Device, DeviceView,
};
use crate::components::mem_64k::{
    high_byte, low_byte, make_word, next_addr, spec_make_word, spec_word, spec_write_word, Mem64k,
};

pub mod alu;
pub mod block_instructions;
pub mod decoding;

use self::alu::{
    add16, adc16, alu, byte_flags, byte_to_flags, dec8, flags_byte, flags_to_byte, inc8, sbc16,
    spec_adc16, spec_add16, spec_alu, spec_dec8, spec_inc8, spec_sbc16, ALUOperation, Flags,
};

verus! {

/// The 8-bit registers of the main set.
#[derive(Clone, Copy, Debug, PartialEq, Eq, Structural)]
pub enum GPR {
    A,
    F,
    B,
    C,
    D,
    E,
    H,
    L,
}

/// The flags of the F register.
#[derive(Clone, Copy, Debug, PartialEq, Eq, Structural)]
pub enum Flag {
    S,
    Z,
    Y,
    H,
    X,
    PV,
    N,
    C,
}

/// The 16-bit register pairs and index registers.
#[derive(Clone, Copy, Debug, PartialEq, Eq, Structural)]
pub enum RegisterPair {
    AF,
    BC,
    DE,
    HL,
    SP,
    IX,
    IY,
}

/// The eight branch conditions, in opcode order.
#[derive(Clone, Copy, Debug, PartialEq, Eq, Structural)]
pub enum Condition {
    NZ,
    Z,
    NC,
    C,
    PO,
    PE,
    P,
    M,
}

/// Which register stands for HL in an instruction: HL itself, or IX/IY
/// after a DD/FD prefix.
#[derive(Clone, Copy, Debug, PartialEq, Eq, Structural)]
pub enum PrefixAddressing {
    HL,
    IX,
    IY,
}

/// An 8-bit operand location.
#[derive(Clone, Copy, Debug, PartialEq, Eq, Structural)]
pub enum Loc8 {
    Reg(GPR),
    IXH,
    IXL,
    IYH,
    IYL,
    Mem(u16),
    Imm(u8),
    I,
    R,
}

/// The register file and the control state of the CPU.
#[derive(Clone, Copy, Debug, PartialEq, Eq, Structural)]
pub struct Registers {
    pub a: u8,
    pub flags: Flags,
    pub b: u8,
    pub c: u8,
    pub d: u8,
    pub e: u8,
    pub h: u8,
    pub l: u8,
    pub a_alt: u8,
    pub flags_alt: Flags,
    pub b_alt: u8,
    pub c_alt: u8,
    pub d_alt: u8,
    pub e_alt: u8,
    pub h_alt: u8,
    pub l_alt: u8,
    pub ix: u16,
    pub iy: u16,
    pub sp: u16,
    pub pc: u16,
    pub i: u8,
    pub r: u8,
    pub iff1: bool,
    pub iff2: bool,
    /// Instructions left before an `EI` takes effect.
    pub iff_delay: u8,
    pub interrupt_mode: u8,
    pub halted: bool,
    pub nmi_pending: bool,
    /// The level of the maskable interrupt line driven from outside.
    pub int_line: bool,
}

/// The whole state of the CPU: registers, memory and the attached devices.
#[verifier::ext_equal]
pub struct CpuState {
    pub regs: Registers,
    pub mem: Seq<u8>,
    pub devs: Seq<DeviceView>,
}

/// A Z80 CPU with 64 KiB of memory and devices on its I/O bus.
pub struct Z80A {
    pub memory: Mem64k,
    pub regs: Registers,
    pub devices: Vec<Device>,
}

/// The devices as they are seen.
pub open spec fn devs_view(v: Seq<Device>) -> Seq<DeviceView> {
    v.map_values(|d: Device| d@)
}

impl View for Z80A {
    type V = CpuState;

    open spec fn view(&self) -> CpuState {
        CpuState { regs: self.regs, mem: self.memory@, devs: devs_view(self.devices@) }
    }
}

/// A well-formed state: 64 KiB of memory and well-formed devices.
pub open spec fn state_wf(s: CpuState) -> bool {
    &&& s.mem.len() == 0x10000
    &&& forall|i: int| 0 <= i < s.devs.len() ==> dev_wf(#[trigger] s.devs[i])
}

/// The registers after power-on: everything zero, the stack pointer at the
/// top of memory, interrupt mode 0, interrupts disabled.
pub open spec fn reset_registers() -> Registers {
    let f = Flags { s: false, z: false, y: false, h: false, x: false, pv: false, n: false, c: false };
    Registers {
        a: 0,
        flags: f,
        b: 0,
        c: 0,
        d: 0,
        e: 0,
        h: 0,
        l: 0,
        a_alt: 0,
        flags_alt: f,
        b_alt: 0,
        c_alt: 0,
        d_alt: 0,
        e_alt: 0,
        h_alt: 0,
        l_alt: 0,
        ix: 0,
        iy: 0,
        sp: 0xFFFF,
        pc: 0,
        i: 0,
        r: 0,
        iff1: false,
        iff2: false,
        iff_delay: 0,
        interrupt_mode: 0,
        halted: false,
        nmi_pending: false,
        int_line: false,
    }
}

// ----- registers -----

/// The value of an 8-bit register.
pub open spec fn reg8(r: Registers, g: GPR) -> u8 {
    match g {
        GPR::A => r.a,
        GPR::F => flags_byte(r.flags),
        GPR::B => r.b,
        GPR::C => r.c,
        GPR::D => r.d,
        GPR::E => r.e,
        GPR::H => r.h,
        GPR::L => r.l,
    }
}

/// The registers after setting an 8-bit register.
pub open spec fn with_reg8(r: Registers, g: GPR, v: u8) -> Registers {
    match g {
        GPR::A => Registers { a: v, ..r },
        GPR::F => Registers { flags: byte_flags(v), ..r },
        GPR::B => Registers { b: v, ..r },
        GPR::C => Registers { c: v, ..r },
        GPR::D => Registers { d: v, ..r },
        GPR::E => Registers { e: v, ..r },
        GPR::H => Registers { h: v, ..r },
        GPR::L => Registers { l: v, ..r },
    }
}

/// The value of an 8-bit register of the alternate set.
pub open spec fn shadow8(r: Registers, g: GPR) -> u8 {
    match g {
        GPR::A => r.a_alt,
        GPR::F => flags_byte(r.flags_alt),
        GPR::B => r.b_alt,
        GPR::C => r.c_alt,
        GPR::D => r.d_alt,
        GPR::E => r.e_alt,
        GPR::H => r.h_alt,
        GPR::L => r.l_alt,
    }
}

/// The value of a register pair.
pub open spec fn pair(r: Registers, rp: RegisterPair) -> u16 {
    match rp {
        RegisterPair::AF => spec_make_word(r.a, flags_byte(r.flags)),
        RegisterPair::BC => spec_make_word(r.b, r.c),
        RegisterPair::DE => spec_make_word(r.d, r.e),
        RegisterPair::HL => spec_make_word(r.h, r.l),
        RegisterPair::SP => r.sp,
        RegisterPair::IX => r.ix,
        RegisterPair::IY => r.iy,
    }
}

/// The registers after setting a register pair.
pub open spec fn with_pair(r: Registers, rp: RegisterPair, v: u16) -> Registers {
    let hi = (v / 256) as u8;
    let lo = (v % 256) as u8;
    match rp {
        RegisterPair::AF => Registers { a: hi, flags: byte_flags(lo), ..r },
        RegisterPair::BC => Registers { b: hi, c: lo, ..r },
        RegisterPair::DE => Registers { d: hi, e: lo, ..r },
        RegisterPair::HL => Registers { h: hi, l: lo, ..r },
        RegisterPair::SP => Registers { sp: v, ..r },
        RegisterPair::IX => Registers { ix: v, ..r },
        RegisterPair::IY => Registers { iy: v, ..r },
    }
}

/// The value of a flag.
pub open spec fn flag_of(f: Flags, fl: Flag) -> bool {
    match fl {
        Flag::S => f.s,
        Flag::Z => f.z,
        Flag::Y => f.y,
        Flag::H => f.h,
        Flag::X => f.x,
        Flag::PV => f.pv,
        Flag::N => f.n,
        Flag::C => f.c,
    }
}

/// The flags after setting one of them.
pub open spec fn with_flag(f: Flags, fl: Flag, v: bool) -> Flags {
    match fl {
        Flag::S => Flags { s: v, ..f },
        Flag::Z => Flags { z: v, ..f },
        Flag::Y => Flags { y: v, ..f },
        Flag::H => Flags { h: v, ..f },
        Flag::X => Flags { x: v, ..f },
        Flag::PV => Flags { pv: v, ..f },
        Flag::N => Flags { n: v, ..f },
        Flag::C => Flags { c: v, ..f },
    }
}

/// Whether a branch condition holds.
pub open spec fn cond_holds(f: Flags, c: Condition) -> bool {
    match c {
        Condition::NZ => !f.z,
        Condition::Z => f.z,
        Condition::NC => !f.c,
        Condition::C => f.c,
        Condition::PO => !f.pv,
        Condition::PE => f.pv,
        Condition::P => !f.s,
        Condition::M => f.s,
    }
}

/// The address of an indexed operand `(base + d)`.
pub open spec fn index_addr(base: u16, d: i8) -> u16 {
    ((base as int + d as int + 0x10000) % 0x10000) as u16
}

/// `a + 1` in 16 bits.
pub open spec fn inc16(a: u16) -> u16 {
    ((a as int + 1) % 0x10000) as u16
}

/// `a - 1` in 16 bits.
pub open spec fn dec16(a: u16) -> u16 {
    ((a as int + 0xFFFF) % 0x10000) as u16
}

/// `a - 2` in 16 bits.
pub open spec fn sub2_16(a: u16) -> u16 {
    ((a as int + 0xFFFE) % 0x10000) as u16
}

// ----- state transitions -----

/// The state with new registers.
pub open spec fn with_regs(s: CpuState, r: Registers) -> CpuState {
    CpuState { regs: r, ..s }
}

/// The value at an 8-bit location.
pub open spec fn rd8(s: CpuState, loc: Loc8) -> u8 {
    match loc {
        Loc8::Reg(g) => reg8(s.regs, g),
        Loc8::IXH => (s.regs.ix / 256) as u8,
        Loc8::IXL => (s.regs.ix % 256) as u8,
        Loc8::IYH => (s.regs.iy / 256) as u8,
        Loc8::IYL => (s.regs.iy % 256) as u8,
        Loc8::Mem(a) => s.mem[a as int],
        Loc8::Imm(n) => n,
        Loc8::I => s.regs.i,
        Loc8::R => s.regs.r,
    }
}

/// The state after storing `v` at an 8-bit location (an immediate is no place to store to).
pub open spec fn wr8(s: CpuState, loc: Loc8, v: u8) -> CpuState {
    match loc {
        Loc8::Reg(g) => with_regs(s, with_reg8(s.regs, g, v)),
        Loc8::IXH => with_regs(s, Registers { ix: spec_make_word(v, (s.regs.ix % 256) as u8), ..s.regs }),
        Loc8::IXL => with_regs(s, Registers { ix: spec_make_word((s.regs.ix / 256) as u8, v), ..s.regs }),
        Loc8::IYH => with_regs(s, Registers { iy: spec_make_word(v, (s.regs.iy % 256) as u8), ..s.regs }),
        Loc8::IYL => with_regs(s, Registers { iy: spec_make_word((s.regs.iy / 256) as u8, v), ..s.regs }),
        Loc8::Mem(a) => CpuState { mem: s.mem.update(a as int, v), ..s },
        Loc8::Imm(_) => s,
        Loc8::I => with_regs(s, Registers { i: v, ..s.regs }),
        Loc8::R => with_regs(s, Registers { r: v, ..s.regs }),
    }
}

/// Fetches the byte at PC and advances PC.
pub open spec fn fetch8(s: CpuState) -> (CpuState, u8) {
    (with_regs(s, Registers { pc: inc16(s.regs.pc), ..s.regs }), s.mem[s.regs.pc as int])
}

/// Fetches a little-endian word at PC and advances PC past it.
pub open spec fn fetch16(s: CpuState) -> (CpuState, u16) {
    let (s1, lo) = fetch8(s);
    let (s2, hi) = fetch8(s1);
    (s2, spec_make_word(hi, lo))
}

/// Fetches a signed displacement byte.
pub open spec fn fetch_disp(s: CpuState) -> (CpuState, i8) {
    let (s1, b) = fetch8(s);
    (s1, b as i8)
}

/// Pushes a word: SP goes down by two and the word is stored there.
pub open spec fn push16(s: CpuState, v: u16) -> CpuState {
    let sp = sub2_16(s.regs.sp);
    CpuState { regs: Registers { sp, ..s.regs }, mem: spec_write_word(s.mem, sp, v), ..s }
}

/// Pops a word from the stack.
pub open spec fn pop16(s: CpuState) -> (CpuState, u16) {
    let sp2 = ((s.regs.sp as int + 2) % 0x10000) as u16;
    (with_regs(s, Registers { sp: sp2, ..s.regs }), spec_word(s.mem, s.regs.sp))
}

/// Popping right after pushing gives back the word pushed and leaves every
/// register as it was before the push.
pub proof fn lemma_push_pop(s: CpuState, v: u16)
    requires
        s.mem.len() == 0x10000,
    ensures
        pop16(push16(s, v)).1 == v,
        pop16(push16(s, v)).0.regs == s.regs,
        pop16(push16(s, v)).0.devs == s.devs,
{
    crate::components::mem_64k::lemma_word_roundtrip(s.mem, sub2_16(s.regs.sp), v);
}

/// Offers a read of `port` to the devices from index `i` on; the first that
/// answers supplies the byte.
pub open spec fn bus_read(devs: Seq<DeviceView>, i: int, port: u16) -> (Seq<DeviceView>, Option<u8>)
    decreases devs.len() - i,
{
    if i < 0 || i >= devs.len() {
        (devs, None)
    } else {
        let (d, r) = dev_read(devs[i], port);
        let devs2 = devs.update(i, d);
        if r is Some {
            (devs2, r)
        } else {
            bus_read(devs2, i + 1, port)
        }
    }
}

/// Offers a write to the devices from index `i` on, until one takes it.
pub open spec fn bus_write(devs: Seq<DeviceView>, i: int, port: u16, v: u8) -> Seq<DeviceView>
    decreases devs.len() - i,
{
    if i < 0 || i >= devs.len() {
        devs
    } else {
        let (d, handled) = dev_write(devs[i], port, v);
        let devs2 = devs.update(i, d);
        if handled {
            devs2
        } else {
            bus_write(devs2, i + 1, port, v)
        }
    }
}

/// `IN`: the byte the bus delivers for `port`; an unanswered read gives `0xFF`.
pub open spec fn io_read(s: CpuState, port: u16) -> (CpuState, u8) {
    let (devs, r) = bus_read(s.devs, 0, port);
    (CpuState { devs, ..s }, match r {
        Some(v) => v,
        None => 0xFFu8,
    })
}

/// `OUT`: the state after writing `v` to `port`.
pub open spec fn io_write(s: CpuState, port: u16, v: u8) -> CpuState {
    CpuState { devs: bus_write(s.devs, 0, port, v), ..s }
}

/// The first device from index `i` on that requests a maskable interrupt.
pub open spec fn first_int(devs: Seq<DeviceView>, i: int) -> Option<int>
    decreases devs.len() - i,
{
    if i < 0 || i >= devs.len() {
        None
    } else if dev_poll_interrupt(devs[i]) {
        Some(i)
    } else {
        first_int(devs, i + 1)
    }
}

/// The first device from index `i` on that requests a non-maskable interrupt.
pub open spec fn first_nmi(devs: Seq<DeviceView>, i: int) -> Option<int>
    decreases devs.len() - i,
{
    if i < 0 || i >= devs.len() {
        None
    } else if dev_poll_nmi(devs[i]) {
        Some(i)
    } else {
        first_nmi(devs, i + 1)
    }
}

/// The state after an instruction that changes only the flags.
pub open spec fn with_flags(s: CpuState, f: Flags) -> CpuState {
    with_regs(s, Registers { flags: f, ..s.regs })
}

/// Jumps to `target` after pushing the return address.
pub open spec fn call_to(s: CpuState, target: u16) -> CpuState {
    let s1 = push16(s, s.regs.pc);
    with_regs(s1, Registers { pc: target, ..s1.regs })
}

/// The state after a non-maskable interrupt is taken: the return address is
/// pushed, IFF1 is saved in IFF2 and cleared, and execution goes to 0x66.
pub open spec fn take_nmi(s: CpuState) -> CpuState {
    let s1 = with_regs(
        s,
        Registers { halted: false, iff2: s.regs.iff1, iff1: false, iff_delay: 0, ..s.regs },
    );
    call_to(s1, 0x66)
}

/// The state after a maskable interrupt is taken with `vector` on the bus:
/// mode 0 runs the restart the vector encodes, mode 1 restarts at 0x38,
/// mode 2 jumps through the table entry at `I * 256 + vector` (bit 0 cleared).
pub open spec fn take_int(s: CpuState, vector: u8) -> CpuState {
    let s1 = with_regs(s, Registers { halted: false, iff1: false, iff2: false, iff_delay: 0, ..s.regs });
    let target: u16 = if s.regs.interrupt_mode == 2 {
        spec_word(s.mem, spec_make_word(s.regs.i, ((vector / 2) * 2) as u8))
    } else if s.regs.interrupt_mode == 1 {
        0x38
    } else {
        ((vector / 8) % 8 * 8) as u16
    };
    call_to(s1, target)
}

/// The refresh register after an opcode fetch: the low seven bits count up,
/// bit 7 stays.
pub open spec fn refresh(r: u8) -> u8 {
    ((r / 128) * 128 + (r % 128 + 1) % 128) as u8
}

/// One step of the `EI` delay after an instruction: when the count runs out,
/// interrupts become enabled.
pub open spec fn ei_countdown(s: CpuState) -> CpuState {
    if s.regs.iff_delay > 0 {
        let d = (s.regs.iff_delay - 1) as u8;
        if d == 0 {
            with_regs(s, Registers { iff_delay: 0, iff1: true, iff2: true, ..s.regs })
        } else {
            with_regs(s, Registers { iff_delay: d, ..s.regs })
        }
    } else {
        s
    }
}

proof fn lemma_update_wf(s: Seq<DeviceView>, i: int, d: DeviceView)
    requires
        0 <= i < s.len(),
        forall|j: int| 0 <= j < s.len() ==> dev_wf(#[trigger] s[j]),
        dev_wf(d),
    ensures
        forall|j: int| 0 <= j < s.update(i, d).len() ==> dev_wf(#[trigger] s.update(i, d)[j]),
{
    assert forall|j: int| 0 <= j < s.update(i, d).len() implies dev_wf(#[trigger] s.update(i, d)[j]) by {
        if j == i {
        } else {
            assert(s.update(i, d)[j] == s[j]);
        }
    }
}

/// The flags with one of them set to `v`.
pub fn set_flag_in(f: Flags, fl: Flag, v: bool) -> (g: Flags)
    ensures
        g == with_flag(f, fl, v),
{
    match fl {
        Flag::S => Flags { s: v, ..f },
        Flag::Z => Flags { z: v, ..f },
        Flag::Y => Flags { y: v, ..f },
        Flag::H => Flags { h: v, ..f },
        Flag::X => Flags { x: v, ..f },
        Flag::PV => Flags { pv: v, ..f },
        Flag::N => Flags { n: v, ..f },
        Flag::C => Flags { c: v, ..f },
    }
}

/// The registers with a register pair set to `v`.
pub fn set_pair_in(r: Registers, rp: RegisterPair, v: u16) -> (g: Registers)
    ensures
        g == with_pair(r, rp, v),
{
    let hi = high_byte(v);
    let lo = low_byte(v);
    match rp {
        RegisterPair::AF => Registers { a: hi, flags: byte_to_flags(lo), ..r },
        RegisterPair::BC => Registers { b: hi, c: lo, ..r },
        RegisterPair::DE => Registers { d: hi, e: lo, ..r },
        RegisterPair::HL => Registers { h: hi, l: lo, ..r },
        RegisterPair::SP => Registers { sp: v, ..r },
        RegisterPair::IX => Registers { ix: v, ..r },
        RegisterPair::IY => Registers { iy: v, ..r },
    }
}

impl Z80A {
    /// Well-formed: see [`state_wf`].
    pub open spec fn wf(&self) -> bool {
        &&& self.memory.wf()
        &&& forall|i: int| 0 <= i < self.devices@.len() ==> dev_wf(#[trigger] self.devices@[i]@)
    }

    /// A CPU after reset, with `memory` and no devices.
    pub fn new(memory: Mem64k) -> (cpu: Z80A)
        requires
            memory.wf(),
        ensures
            cpu.wf(),
            cpu@ == (CpuState { regs: reset_registers(), mem: memory@, devs: Seq::empty() }),
    {
        let f = Flags { s: false, z: false, y: false, h: false, x: false, pv: false, n: false, c: false };
        let regs = Registers {
            a: 0,
            flags: f,
            b: 0,
            c: 0,
            d: 0,
            e: 0,
            h: 0,
            l: 0,
            a_alt: 0,
            flags_alt: f,
            b_alt: 0,
            c_alt: 0,
            d_alt: 0,
            e_alt: 0,
            h_alt: 0,
            l_alt: 0,
            ix: 0,
            iy: 0,
            sp: 0xFFFF,
            pc: 0,
            i: 0,
            r: 0,
            iff1: false,
            iff2: false,
            iff_delay: 0,
            interrupt_mode: 0,
            halted: false,
            nmi_pending: false,
            int_line: false,
        };
        let cpu = Z80A { memory, regs, devices: Vec::new() };
        assert(devs_view(cpu.devices@) =~= Seq::<DeviceView>::empty());
        cpu
    }

    /// Attaches a device to the I/O bus, after the ones already there.
    pub fn attach_device(&mut self, device: Device)
        requires
            old(self).wf(),
            dev_wf(device@),
        ensures
            final(self).wf(),
            final(self)@ == (CpuState { devs: old(self)@.devs.push(device@), ..old(self)@ }),
    {
        let ghost d = device@;
        self.devices.push(device);
        assert(devs_view(self.devices@) =~= devs_view(old(self).devices@).push(d));
    }

    // ----- register access -----

    /// The value of an 8-bit register.
    pub fn get_register(&self, g: GPR) -> (v: u8)
        ensures
            v == reg8(self.regs, g),
    {
        match g {
            GPR::A => self.regs.a,
            GPR::F => flags_to_byte(self.regs.flags),
            GPR::B => self.regs.b,
            GPR::C => self.regs.c,
            GPR::D => self.regs.d,
            GPR::E => self.regs.e,
            GPR::H => self.regs.h,
            GPR::L => self.regs.l,
        }
    }

    /// Sets an 8-bit register.
    pub fn set_register(&mut self, g: GPR, v: u8)
        ensures
            final(self).regs == with_reg8(old(self).regs, g, v),
            final(self).memory == old(self).memory,
            final(self).devices == old(self).devices,
    {
        match g {
            GPR::A => self.regs.a = v,
            GPR::F => self.regs.flags = byte_to_flags(v),
            GPR::B => self.regs.b = v,
            GPR::C => self.regs.c = v,
            GPR::D => self.regs.d = v,
            GPR::E => self.regs.e = v,
            GPR::H => self.regs.h = v,
            GPR::L => self.regs.l = v,
        }
    }

    /// The value of an 8-bit register of the alternate set.
    pub fn get_shadow_register(&self, g: GPR) -> (v: u8)
        ensures
            v == shadow8(self.regs, g),
    {
        match g {
            GPR::A => self.regs.a_alt,
            GPR::F => flags_to_byte(self.regs.flags_alt),
            GPR::B => self.regs.b_alt,
            GPR::C => self.regs.c_alt,
            GPR::D => self.regs.d_alt,
            GPR::E => self.regs.e_alt,
            GPR::H => self.regs.h_alt,
            GPR::L => self.regs.l_alt,
        }
    }

    /// The value of a register pair.
    pub fn get_register_pair(&self, rp: RegisterPair) -> (v: u16)
        ensures
            v == pair(self.regs, rp),
    {
        match rp {
            RegisterPair::AF => make_word(self.regs.a, flags_to_byte(self.regs.flags)),
            RegisterPair::BC => make_word(self.regs.b, self.regs.c),
            RegisterPair::DE => make_word(self.regs.d, self.regs.e),
            RegisterPair::HL => make_word(self.regs.h, self.regs.l),
            RegisterPair::SP => self.regs.sp,
            RegisterPair::IX => self.regs.ix,
            RegisterPair::IY => self.regs.iy,
        }
    }

    /// Sets a register pair.
    pub fn set_register_pair(&mut self, rp: RegisterPair, v: u16)
        ensures
            final(self).regs == with_pair(old(self).regs, rp, v),
            final(self).memory == old(self).memory,
            final(self).devices == old(self).devices,
    {
        let r = set_pair_in(self.regs, rp, v);
        self.regs = r;
    }

    /// The value of a flag.
    pub fn get_flag(&self, fl: Flag) -> (b: bool)
        ensures
            b == flag_of(self.regs.flags, fl),
    {
        match fl {
            Flag::S => self.regs.flags.s,
            Flag::Z => self.regs.flags.z,
            Flag::Y => self.regs.flags.y,
            Flag::H => self.regs.flags.h,
            Flag::X => self.regs.flags.x,
            Flag::PV => self.regs.flags.pv,
            Flag::N => self.regs.flags.n,
            Flag::C => self.regs.flags.c,
        }
    }

    /// Sets or clears a flag.
    pub fn set_flag(&mut self, v: bool, fl: Flag)
        ensures
            final(self).regs == (Registers { flags: with_flag(old(self).regs.flags, fl, v), ..old(self).regs }),
            final(self).memory == old(self).memory,
            final(self).devices == old(self).devices,
    {
        let f = set_flag_in(self.regs.flags, fl, v);
        self.regs.flags = f;
    }

    /// The program counter.
    pub fn get_pc(&self) -> (v: u16)
        ensures
            v == self.regs.pc,
    {
        self.regs.pc
    }

    /// Sets the program counter.
    pub fn set_pc(&mut self, v: u16)
        ensures
            final(self).regs == (Registers { pc: v, ..old(self).regs }),
            final(self).memory == old(self).memory,
            final(self).devices == old(self).devices,
    {
        self.regs.pc = v;
    }

    /// The stack pointer.
    pub fn get_sp(&self) -> (v: u16)
        ensures
            v == self.regs.sp,
    {
        self.regs.sp
    }

    /// Sets the stack pointer.
    pub fn set_sp(&mut self, v: u16)
        ensures
            final(self).regs == (Registers { sp: v, ..old(self).regs }),
            final(self).memory == old(self).memory,
            final(self).devices == old(self).devices,
    {
        self.regs.sp = v;
    }

    /// The IX index register.
    pub fn get_ix(&self) -> (v: u16)
        ensures
            v == self.regs.ix,
    {
        self.regs.ix
    }

    /// Sets the IX index register.
    pub fn set_ix(&mut self, v: u16)
        ensures
            final(self).regs == (Registers { ix: v, ..old(self).regs }),
            final(self).memory == old(self).memory,
            final(self).devices == old(self).devices,
    {
        self.regs.ix = v;
    }

    /// The IY index register.
    pub fn get_iy(&self) -> (v: u16)
        ensures
            v == self.regs.iy,
    {
        self.regs.iy
    }

    /// Sets the IY index register.
    pub fn set_iy(&mut self, v: u16)
        ensures
            final(self).regs == (Registers { iy: v, ..old(self).regs }),
            final(self).memory == old(self).memory,
            final(self).devices == old(self).devices,
    {
        self.regs.iy = v;
    }

    /// Interrupt enable flip-flop 1.
    pub fn get_iff1(&self) -> (v: bool)
        ensures
            v == self.regs.iff1,
    {
        self.regs.iff1
    }

    /// Interrupt enable flip-flop 2.
    pub fn get_iff2(&self) -> (v: bool)
        ensures
            v == self.regs.iff2,
    {
        self.regs.iff2
    }

    /// The interrupt mode (0, 1 or 2).
    pub fn get_interrupt_mode(&self) -> (v: u8)
        ensures
            v == self.regs.interrupt_mode,
    {
        self.regs.interrupt_mode
    }

    /// Whether the CPU is halted.
    pub fn is_halted(&self) -> (v: bool)
        ensures
            v == self.regs.halted,
    {
        self.regs.halted
    }

    /// Halts or resumes the CPU.
    pub fn set_halted(&mut self, v: bool)
        ensures
            final(self).regs == (Registers { halted: v, ..old(self).regs }),
            final(self).memory == old(self).memory,
            final(self).devices == old(self).devices,
    {
        self.regs.halted = v;
    }

    /// Requests a non-maskable interrupt; it is taken at the next step.
    pub fn nmi(&mut self)
        ensures
            final(self).regs == (Registers { nmi_pending: true, ..old(self).regs }),
            final(self).memory == old(self).memory,
            final(self).devices == old(self).devices,
    {
        self.regs.nmi_pending = true;
    }

    /// Drives the maskable interrupt line.
    pub fn set_interrupt(&mut self, v: bool)
        ensures
            final(self).regs == (Registers { int_line: v, ..old(self).regs }),
            final(self).memory == old(self).memory,
            final(self).devices == old(self).devices,
    {
        self.regs.int_line = v;
    }

    // ----- operand access -----

    /// Reads an 8-bit location.
    pub fn read_8(&self, loc: Loc8) -> (v: u8)
        requires
            self.wf(),
        ensures
            v == rd8(self@, loc),
    {
        match loc {
            Loc8::Reg(g) => self.get_register(g),
            Loc8::IXH => high_byte(self.regs.ix),
            Loc8::IXL => low_byte(self.regs.ix),
            Loc8::IYH => high_byte(self.regs.iy),
            Loc8::IYL => low_byte(self.regs.iy),
            Loc8::Mem(a) => self.memory.read(a),
            Loc8::Imm(n) => n,
            Loc8::I => self.regs.i,
            Loc8::R => self.regs.r,
        }
    }

    /// Writes an 8-bit location.
    pub fn write_8(&mut self, loc: Loc8, v: u8)
        requires
            old(self).wf(),
        ensures
            final(self).wf(),
            final(self)@ == wr8(old(self)@, loc, v),
    {
        match loc {
            Loc8::Reg(g) => self.set_register(g, v),
            Loc8::IXH => {
                let lo = low_byte(self.regs.ix);
                self.regs.ix = make_word(v, lo);
            },
            Loc8::IXL => {
                let hi = high_byte(self.regs.ix);
                self.regs.ix = make_word(hi, v);
            },
            Loc8::IYH => {
                let lo = low_byte(self.regs.iy);
                self.regs.iy = make_word(v, lo);
            },
            Loc8::IYL => {
                let hi = high_byte(self.regs.iy);
                self.regs.iy = make_word(hi, v);
            },
            Loc8::Mem(a) => self.memory.write(a, v),
            Loc8::Imm(_) => {},
            Loc8::I => self.regs.i = v,
            Loc8::R => self.regs.r = v,
        }
    }

    /// Fetches the byte at PC and advances PC.
    pub fn fetch(&mut self) -> (b: u8)
        requires
            old(self).wf(),
        ensures
            final(self).wf(),
            (final(self)@, b) == fetch8(old(self)@),
    {
        let b = self.memory.read(self.regs.pc);
        self.regs.pc = self.regs.pc.wrapping_add(1);
        b
    }

    /// Fetches a little-endian word at PC.
    pub fn fetch_word(&mut self) -> (w: u16)
        requires
            old(self).wf(),
        ensures
            final(self).wf(),
            (final(self)@, w) == fetch16(old(self)@),
    {
        let lo = self.fetch();
        let hi = self.fetch();
        make_word(hi, lo)
    }

    /// Fetches a signed displacement.
    pub fn fetch_displacement(&mut self) -> (d: i8)
        requires
            old(self).wf(),
        ensures
            final(self).wf(),
            (final(self)@, d) == fetch_disp(old(self)@),
    {
        let b = self.fetch();
        b as i8
    }

    /// Pushes a word on the stack.
    pub fn push(&mut self, v: u16)
        requires
            old(self).wf(),
        ensures
            final(self).wf(),
            final(self)@ == push16(old(self)@, v),
    {
        let sp = self.regs.sp.wrapping_sub(2);
        self.regs.sp = sp;
        self.memory.write_word(sp, v);
    }

    /// Pops a word from the stack.
    pub fn pop(&mut self) -> (v: u16)
        requires
            old(self).wf(),
        ensures
            final(self).wf(),
            (final(self)@, v) == pop16(old(self)@),
    {
        let v = self.memory.read_word(self.regs.sp);
        self.regs.sp = self.regs.sp.wrapping_add(2);
        v
    }

    /// Reads an I/O port: the first device that answers supplies the byte,
    /// `0xFF` when none does.
    pub fn read_io(&mut self, port: u16) -> (v: u8)
        requires
            old(self).wf(),
        ensures
            final(self).wf(),
            (final(self)@, v) == io_read(old(self)@, port),
    {
        let n = self.devices.len();
        let mut i: usize = 0;
        while i < n
            invariant
                n == self.devices@.len(),
                i <= n,
                self.wf(),
                self.regs == old(self).regs,
                self.memory == old(self).memory,
                bus_read(self@.devs, i as int, port) == bus_read(old(self)@.devs, 0, port),
            decreases n - i,
        {
            let ghost devs0 = self@.devs;
            let r = self.devices[i].read_in(port);
            proof {
                assert(self@.devs =~= devs0.update(i as int, self@.devs[i as int]));
                lemma_update_wf(devs0, i as int, self@.devs[i as int]);
            }
            i = i + 1;
            match r {
                Some(v) => {
                    return v;
                },
                None => {},
            }
        }
        0xFF
    }

    /// Writes an I/O port: devices are offered the write in turn until one takes it.
    pub fn write_io(&mut self, port: u16, v: u8)
        requires
            old(self).wf(),
        ensures
            final(self).wf(),
            final(self)@ == io_write(old(self)@, port, v),
    {
        let n = self.devices.len();
        let mut i: usize = 0;
        while i < n
            invariant
                n == self.devices@.len(),
                i <= n,
                self.wf(),
                self.regs == old(self).regs,
                self.memory == old(self).memory,
                bus_write(self@.devs, i as int, port, v) == bus_write(old(self)@.devs, 0, port, v),
            decreases n - i,
        {
            let ghost devs0 = self@.devs;
            let handled = self.devices[i].write_out(port, v);
            proof {
                assert(self@.devs =~= devs0.update(i as int, self@.devs[i as int]));
                lemma_update_wf(devs0, i as int, self@.devs[i as int]);
            }
            i = i + 1;
            if handled {
                return;
            }
        }
    }
}

} // verus!

verus! {

// ----- decoding tables -----

/// The 8-bit register with opcode field `y` (`y` = 6 is the memory operand, not a register).
pub open spec fn r_reg(y: u8) -> GPR {
    if y == 0 {
        GPR::B
    } else if y == 1 {
        GPR::C
    } else if y == 2 {
        GPR::D
    } else if y == 3 {
        GPR::E
    } else if y == 4 {
        GPR::H
    } else if y == 5 {
        GPR::L
    } else {
        GPR::A
    }
}

/// The register that HL stands for under a prefix.
pub open spec fn hl_pair(prefix: PrefixAddressing) -> RegisterPair {
    match prefix {
        PrefixAddressing::HL => RegisterPair::HL,
        PrefixAddressing::IX => RegisterPair::IX,
        PrefixAddressing::IY => RegisterPair::IY,
    }
}

/// The register pair with opcode field `p` in the `rp` table.
pub open spec fn rp_of(p: u8, prefix: PrefixAddressing) -> RegisterPair {
    if p == 0 {
        RegisterPair::BC
    } else if p == 1 {
        RegisterPair::DE
    } else if p == 2 {
        hl_pair(prefix)
    } else {
        RegisterPair::SP
    }
}

/// The register pair with opcode field `p` in the `rp2` table (AF in place of SP).
pub open spec fn rp2_of(p: u8, prefix: PrefixAddressing) -> RegisterPair {
    if p == 3 {
        RegisterPair::AF
    } else {
        rp_of(p, prefix)
    }
}

/// The condition with opcode field `y`.
pub open spec fn cc_of(y: u8) -> Condition {
    if y == 0 {
        Condition::NZ
    } else if y == 1 {
        Condition::Z
    } else if y == 2 {
        Condition::NC
    } else if y == 3 {
        Condition::C
    } else if y == 4 {
        Condition::PO
    } else if y == 5 {
        Condition::PE
    } else if y == 6 {
        Condition::P
    } else {
        Condition::M
    }
}

/// The 8-bit operand with opcode field `y` under a prefix: field 6 is the
/// memory at HL, or at IX/IY plus a displacement fetched now; fields 4 and 5
/// are the halves of IX/IY when `halves` allows it.
pub open spec fn operand_r(s: CpuState, y: u8, prefix: PrefixAddressing, halves: bool) -> (CpuState, Loc8) {
    if y == 6 {
        match prefix {
            PrefixAddressing::HL => (s, Loc8::Mem(pair(s.regs, RegisterPair::HL))),
            PrefixAddressing::IX => {
                let (s1, d) = fetch_disp(s);
                (s1, Loc8::Mem(index_addr(s.regs.ix, d)))
            },
            PrefixAddressing::IY => {
                let (s1, d) = fetch_disp(s);
                (s1, Loc8::Mem(index_addr(s.regs.iy, d)))
            },
        }
    } else if y == 4 && halves && prefix != PrefixAddressing::HL {
        (s, if prefix == PrefixAddressing::IX {
            Loc8::IXH
        } else {
            Loc8::IYH
        })
    } else if y == 5 && halves && prefix != PrefixAddressing::HL {
        (s, if prefix == PrefixAddressing::IX {
            Loc8::IXL
        } else {
            Loc8::IYL
        })
    } else {
        (s, Loc8::Reg(r_reg(y)))
    }
}

// ----- instruction semantics -----

/// `LD dest, src` on bytes.
pub open spec fn s_ld8(s: CpuState, dest: Loc8, src: Loc8) -> CpuState {
    wr8(s, dest, rd8(s, src))
}

/// An accumulator operation with operand `v`.
pub open spec fn s_alu(s: CpuState, op: ALUOperation, v: u8) -> CpuState {
    let (a, f) = spec_alu(op, s.regs.a, v, s.regs.flags);
    with_regs(s, Registers { a, flags: f, ..s.regs })
}

/// `INC` of an 8-bit location.
pub open spec fn s_inc8(s: CpuState, loc: Loc8) -> CpuState {
    let (r, f) = spec_inc8(rd8(s, loc), s.regs.flags);
    with_flags(wr8(s, loc, r), f)
}

/// `DEC` of an 8-bit location.
pub open spec fn s_dec8(s: CpuState, loc: Loc8) -> CpuState {
    let (r, f) = spec_dec8(rd8(s, loc), s.regs.flags);
    with_flags(wr8(s, loc, r), f)
}

/// `ADD`/`ADC`/`SBC` of register pairs into `dest`.
pub open spec fn s_arith16(s: CpuState, dest: RegisterPair, src: RegisterPair, kind: u8) -> CpuState {
    let a = pair(s.regs, dest);
    let b = pair(s.regs, src);
    let (r, f) = if kind == 0 {
        spec_add16(a, b, s.regs.flags)
    } else if kind == 1 {
        spec_adc16(a, b, s.regs.flags.c)
    } else {
        spec_sbc16(a, b, s.regs.flags.c)
    };
    with_regs(s, Registers { flags: f, ..with_pair(s.regs, dest, r) })
}

/// Sets a register pair.
pub open spec fn s_set_pair(s: CpuState, rp: RegisterPair, v: u16) -> CpuState {
    with_regs(s, with_pair(s.regs, rp, v))
}

/// Sets PC.
pub open spec fn s_jump(s: CpuState, target: u16) -> CpuState {
    with_regs(s, Registers { pc: target, ..s.regs })
}

/// Sets the accumulator.
pub open spec fn s_set_a(s: CpuState, v: u8) -> CpuState {
    with_regs(s, Registers { a: v, ..s.regs })
}

/// Stores a word in memory.
pub open spec fn s_store16(s: CpuState, addr: u16, v: u16) -> CpuState {
    CpuState { mem: spec_write_word(s.mem, addr, v), ..s }
}

impl Z80A {
    /// `LD dest, src` on bytes.
    pub fn ld(&mut self, dest: Loc8, src: Loc8)
        requires
            old(self).wf(),
        ensures
            final(self).wf(),
            final(self)@ == s_ld8(old(self)@, dest, src),
    {
        let v = self.read_8(src);
        self.write_8(dest, v);
    }

    /// Runs an accumulator operation on `v`.
    pub fn alu_op(&mut self, op: ALUOperation, v: u8)
        requires
            old(self).wf(),
        ensures
            final(self).wf(),
            final(self)@ == s_alu(old(self)@, op, v),
    {
        let (a, f) = alu(op, self.regs.a, v, self.regs.flags);
        self.regs.a = a;
        self.regs.flags = f;
    }

    /// `INC` of an 8-bit location.
    pub fn inc_op(&mut self, loc: Loc8)
        requires
            old(self).wf(),
        ensures
            final(self).wf(),
            final(self)@ == s_inc8(old(self)@, loc),
    {
        let v = self.read_8(loc);
        let (r, f) = inc8(v, self.regs.flags);
        self.write_8(loc, r);
        self.regs.flags = f;
    }

    /// `DEC` of an 8-bit location.
    pub fn dec_op(&mut self, loc: Loc8)
        requires
            old(self).wf(),
        ensures
            final(self).wf(),
            final(self)@ == s_dec8(old(self)@, loc),
    {
        let v = self.read_8(loc);
        let (r, f) = dec8(v, self.regs.flags);
        self.write_8(loc, r);
        self.regs.flags = f;
    }

    /// 16-bit `ADD` (kind 0), `ADC` (1) or `SBC` (2) into `dest`.
    pub fn arith_16(&mut self, dest: RegisterPair, src: RegisterPair, kind: u8)
        requires
            old(self).wf(),
        ensures
            final(self).wf(),
            final(self)@ == s_arith16(old(self)@, dest, src, kind),
    {
        let a = self.get_register_pair(dest);
        let b = self.get_register_pair(src);
        let (r, f) = if kind == 0 {
            add16(a, b, self.regs.flags)
        } else if kind == 1 {
            adc16(a, b, self.regs.flags.c)
        } else {
            sbc16(a, b, self.regs.flags.c)
        };
        self.set_register_pair(dest, r);
        self.regs.flags = f;
    }

    /// Whether a branch condition holds.
    pub fn evaluate_condition(&self, c: Condition) -> (b: bool)
        ensures
            b == cond_holds(self.regs.flags, c),
    {
        match c {
            Condition::NZ => !self.regs.flags.z,
            Condition::Z => self.regs.flags.z,
            Condition::NC => !self.regs.flags.c,
            Condition::C => self.regs.flags.c,
            Condition::PO => !self.regs.flags.pv,
            Condition::PE => self.regs.flags.pv,
            Condition::P => !self.regs.flags.s,
            Condition::M => self.regs.flags.s,
        }
    }

    /// The 8-bit operand with opcode field `y` (see [`operand_r`]).
    pub fn operand_r(&mut self, y: u8, prefix: PrefixAddressing, halves: bool) -> (loc: Loc8)
        requires
            old(self).wf(),
        ensures
            final(self).wf(),
            (final(self)@, loc) == operand_r(old(self)@, y, prefix, halves),
    {
        if y == 6 {
            match prefix {
                PrefixAddressing::HL => Loc8::Mem(self.get_register_pair(RegisterPair::HL)),
                PrefixAddressing::IX => {
                    let base = self.regs.ix;
                    let d = self.fetch_displacement();
                    Loc8::Mem(index_address(base, d))
                },
                PrefixAddressing::IY => {
                    let base = self.regs.iy;
                    let d = self.fetch_displacement();
                    Loc8::Mem(index_address(base, d))
                },
            }
        } else if y == 4 && halves && prefix != PrefixAddressing::HL {
            if prefix == PrefixAddressing::IX {
                Loc8::IXH
            } else {
                Loc8::IYH
            }
        } else if y == 5 && halves && prefix != PrefixAddressing::HL {
            if prefix == PrefixAddressing::IX {
                Loc8::IXL
            } else {
                Loc8::IYL
            }
        } else {
            Loc8::Reg(table_r(y))
        }
    }

    /// `EX AF, AF'`.
    pub fn ex_af_af_prime(&mut self)
        requires
            old(self).wf(),
        ensures
            final(self).wf(),
            final(self)@ == with_regs(old(self)@, Registers {
                a: old(self).regs.a_alt,
                flags: old(self).regs.flags_alt,
                a_alt: old(self).regs.a,
                flags_alt: old(self).regs.flags,
                ..old(self).regs
            }),
    {
        let a = self.regs.a;
        let f = self.regs.flags;
        self.regs.a = self.regs.a_alt;
        self.regs.flags = self.regs.flags_alt;
        self.regs.a_alt = a;
        self.regs.flags_alt = f;
    }

    /// `EXX`: swaps BC, DE and HL with their alternates.
    pub fn exx(&mut self)
        requires
            old(self).wf(),
        ensures
            final(self).wf(),
            final(self)@ == with_regs(old(self)@, exx_regs(old(self).regs)),
    {
        let r = self.regs;
        self.regs = Registers {
            b: r.b_alt,
            c: r.c_alt,
            d: r.d_alt,
            e: r.e_alt,
            h: r.h_alt,
            l: r.l_alt,
            b_alt: r.b,
            c_alt: r.c,
            d_alt: r.d,
            e_alt: r.e,
            h_alt: r.h,
            l_alt: r.l,
            ..r
        };
    }
}

/// The registers after `EXX`.
pub open spec fn exx_regs(r: Registers) -> Registers {
    Registers {
        b: r.b_alt,
        c: r.c_alt,
        d: r.d_alt,
        e: r.e_alt,
        h: r.h_alt,
        l: r.l_alt,
        b_alt: r.b,
        c_alt: r.c,
        d_alt: r.d,
        e_alt: r.e,
        h_alt: r.h,
        l_alt: r.l,
        ..r
    }
}

/// The address `base + d` in 16 bits.
pub fn index_address(base: u16, d: i8) -> (a: u16)
    ensures
        a == index_addr(base, d),
{
    ((base as i32 + d as i32 + 0x10000) % 0x10000) as u16
}

/// The register with opcode field `y`.
pub fn table_r(y: u8) -> (g: GPR)
    ensures
        g == r_reg(y),
{
    if y == 0 {
        GPR::B
    } else if y == 1 {
        GPR::C
    } else if y == 2 {
        GPR::D
    } else if y == 3 {
        GPR::E
    } else if y == 4 {
        GPR::H
    } else if y == 5 {
        GPR::L
    } else {
        GPR::A
    }
}

/// The register HL stands for under a prefix.
pub fn table_hl(prefix: PrefixAddressing) -> (rp: RegisterPair)
    ensures
        rp == hl_pair(prefix),
{
    match prefix {
        PrefixAddressing::HL => RegisterPair::HL,
        PrefixAddressing::IX => RegisterPair::IX,
        PrefixAddressing::IY => RegisterPair::IY,
    }
}

/// The `rp` table.
pub fn table_rp(p: u8, prefix: PrefixAddressing) -> (rp: RegisterPair)
    ensures
        rp == rp_of(p, prefix),
{
    if p == 0 {
        RegisterPair::BC
    } else if p == 1 {
        RegisterPair::DE
    } else if p == 2 {
        table_hl(prefix)
    } else {
        RegisterPair::SP
    }
}

/// The `rp2` table.
pub fn table_rp2(p: u8, prefix: PrefixAddressing) -> (rp: RegisterPair)
    ensures
        rp == rp2_of(p, prefix),
{
    if p == 3 {
        RegisterPair::AF
    } else {
        table_rp(p, prefix)
    }
}

/// The condition table.
pub fn table_cc(y: u8) -> (c: Condition)
    ensures
        c == cc_of(y),
{
    if y == 0 {
        Condition::NZ
    } else if y == 1 {
        Condition::Z
    } else if y == 2 {
        Condition::NC
    } else if y == 3 {
        Condition::C
    } else if y == 4 {
        Condition::PO
    } else if y == 5 {
        Condition::PE
    } else if y == 6 {
        Condition::P
    } else {
        Condition::M
    }
}

} // verus!

verus! {

/// `a + 1` in 16 bits.
pub fn inc_word(a: u16) -> (r: u16)
    ensures
        r == inc16(a),
{
    a.wrapping_add(1)
}

/// `a - 1` in 16 bits.
pub fn dec_word(a: u16) -> (r: u16)
    ensures
        r == dec16(a),
{
    a.wrapping_sub(1)
}

} // verus!

verus! {

/// The effect of fetching and running one instruction (the R register counts
/// the opcode fetch). A DD or FD prefix followed by another prefix acts as a
/// no-op, and the following prefix starts the next instruction.
pub open spec fn spec_execute(s: CpuState) -> CpuState {
    let s0 = with_regs(s, Registers { r: refresh(s.regs.r), ..s.regs });
    let (s1, op) = fetch8(s0);
    if op == 0xCB {
        let (s2, op2) = fetch8(s1);
        decoding::spec_cb(s2, op2)
    } else if op == 0xED {
        let (s2, op2) = fetch8(s1);
        decoding::spec_ed(s2, op2)
    } else if op == 0xDD || op == 0xFD {
        let prefix = if op == 0xDD {
            PrefixAddressing::IX
        } else {
            PrefixAddressing::IY
        };
        let (s2, op2) = fetch8(s1);
        if op2 == 0xCB {
            let base = if op == 0xDD {
                s2.regs.ix
            } else {
                s2.regs.iy
            };
            let (s3, d) = fetch_disp(s2);
            let (s4, op3) = fetch8(s3);
            decoding::spec_indexed_cb(s4, index_addr(base, d), op3)
        } else if op2 == 0xDD || op2 == 0xFD || op2 == 0xED {
            with_regs(s2, Registers { pc: dec16(s2.regs.pc), ..s2.regs })
        } else {
            decoding::spec_unprefixed(s2, op2, prefix)
        }
    } else {
        decoding::spec_unprefixed(s1, op, PrefixAddressing::HL)
    }
}

/// One step of the CPU: a pending non-maskable interrupt is taken first (a
/// request made by calling `nmi` before one from a device), then an enabled
/// maskable interrupt (the first requesting device supplies the vector;
/// the external line alone supplies `0xFF`); a halted CPU otherwise does
/// nothing; else one instruction runs and the `EI` delay counts down.
#[verifier::opaque]
pub open spec fn spec_tick(s: CpuState) -> CpuState {
    if s.regs.nmi_pending {
        take_nmi(with_regs(s, Registers { nmi_pending: false, ..s.regs }))
    } else if first_nmi(s.devs, 0) is Some {
        let i = first_nmi(s.devs, 0)->0;
        take_nmi(CpuState { devs: s.devs.update(i, dev_ack_nmi(s.devs[i])), ..s })
    } else if s.regs.iff1 && (s.regs.int_line || first_int(s.devs, 0) is Some) {
        match first_int(s.devs, 0) {
            Some(i) => {
                let (d, v) = dev_ack_interrupt(s.devs[i]);
                take_int(CpuState { devs: s.devs.update(i, d), ..s }, v)
            },
            None => take_int(s, 0xFF),
        }
    } else if s.regs.halted {
        s
    } else {
        ei_countdown(spec_execute(s))
    }
}

/// A halted CPU with no non-maskable interrupt pending and no maskable
/// interrupt it accepts stays exactly as it is.
pub proof fn lemma_halted_waits(s: CpuState)
    requires
        s.regs.halted,
        !s.regs.nmi_pending,
        first_nmi(s.devs, 0) is None,
        !(s.regs.iff1 && (s.regs.int_line || first_int(s.devs, 0) is Some)),
    ensures
        spec_tick(s) == s,
{
    reveal(spec_tick);
}

/// A pending non-maskable interrupt is taken at the next step, halted or
/// not: execution continues at 0x66, IFF1 is saved in IFF2 and cleared, and
/// the interrupted address is on top of the stack.
pub proof fn lemma_nmi_taken(s: CpuState)
    requires
        s.mem.len() == 0x10000,
        s.regs.nmi_pending,
    ensures
        spec_tick(s).regs.pc == 0x66,
        !spec_tick(s).regs.halted,
        !spec_tick(s).regs.iff1,
        spec_tick(s).regs.iff2 == s.regs.iff1,
        spec_tick(s).regs.sp == sub2_16(s.regs.sp),
        spec_word(spec_tick(s).mem, spec_tick(s).regs.sp) == s.regs.pc,
{
    reveal(spec_tick);
    crate::components::mem_64k::lemma_word_roundtrip(s.mem, sub2_16(s.regs.sp), s.regs.pc);
}

/// A maskable interrupt accepted in mode 1 wakes the CPU, disables
/// interrupts, and continues at 0x38 with the interrupted address on top of
/// the stack.
pub proof fn lemma_mode1_interrupt_taken(s: CpuState)
    requires
        s.mem.len() == 0x10000,
        !s.regs.nmi_pending,
        first_nmi(s.devs, 0) is None,
        s.regs.iff1,
        s.regs.int_line || first_int(s.devs, 0) is Some,
        s.regs.interrupt_mode == 1,
    ensures
        spec_tick(s).regs.pc == 0x38,
        !spec_tick(s).regs.halted,
        !spec_tick(s).regs.iff1,
        !spec_tick(s).regs.iff2,
        spec_word(spec_tick(s).mem, spec_tick(s).regs.sp) == s.regs.pc,
{
    reveal(spec_tick);
    crate::components::mem_64k::lemma_word_roundtrip(s.mem, sub2_16(s.regs.sp), s.regs.pc);
}

proof fn lemma_first_range(devs: Seq<DeviceView>, i: int)
    ensures
        first_int(devs, i) matches Some(k) ==> i <= k < devs.len() && dev_poll_interrupt(devs[k]),
        first_nmi(devs, i) matches Some(k) ==> i <= k < devs.len() && dev_poll_nmi(devs[k]),
    decreases devs.len() - i,
{
    if 0 <= i < devs.len() {
        lemma_first_range(devs, i + 1);
    }
}

impl Z80A {
    fn find_nmi_source(&self) -> (r: Option<usize>)
        ensures
            match r {
                Some(i) => first_nmi(self@.devs, 0) == Some(i as int),
                None => first_nmi(self@.devs, 0) is None,
            },
    {
        let n = self.devices.len();
        let mut i: usize = 0;
        while i < n
            invariant
                n == self.devices@.len(),
                i <= n,
                first_nmi(self@.devs, 0) == first_nmi(self@.devs, i as int),
            decreases n - i,
        {
            if self.devices[i].poll_nmi() {
                return Some(i);
            }
            i = i + 1;
        }
        None
    }

    fn find_int_source(&self) -> (r: Option<usize>)
        ensures
            match r {
                Some(i) => first_int(self@.devs, 0) == Some(i as int),
                None => first_int(self@.devs, 0) is None,
            },
    {
        let n = self.devices.len();
        let mut i: usize = 0;
        while i < n
            invariant
                n == self.devices@.len(),
                i <= n,
                first_int(self@.devs, 0) == first_int(self@.devs, i as int),
            decreases n - i,
        {
            if self.devices[i].poll_interrupt() {
                return Some(i);
            }
            i = i + 1;
        }
        None
    }

    fn take_nmi(&mut self)
        requires
            old(self).wf(),
        ensures
            final(self).wf(),
            final(self)@ == take_nmi(old(self)@),
    {
        self.regs.halted = false;
        self.regs.iff2 = self.regs.iff1;
        self.regs.iff1 = false;
        self.regs.iff_delay = 0;
        let pc = self.regs.pc;
        self.push(pc);
        self.regs.pc = 0x66;
    }

    fn take_int(&mut self, vector: u8)
        requires
            old(self).wf(),
        ensures
            final(self).wf(),
            final(self)@ == take_int(old(self)@, vector),
    {
        let target: u16 = if self.regs.interrupt_mode == 2 {
            let entry = make_word(self.regs.i, (vector / 2) * 2);
            self.memory.read_word(entry)
        } else if self.regs.interrupt_mode == 1 {
            0x38
        } else {
            ((vector / 8) % 8 * 8) as u16
        };
        self.regs.halted = false;
        self.regs.iff1 = false;
        self.regs.iff2 = false;
        self.regs.iff_delay = 0;
        let pc = self.regs.pc;
        self.push(pc);
        self.regs.pc = target;
    }

    fn ei_countdown(&mut self)
        requires
            old(self).wf(),
        ensures
            final(self).wf(),
            final(self)@ == ei_countdown(old(self)@),
    {
        if self.regs.iff_delay > 0 {
            let d = self.regs.iff_delay - 1;
            self.regs.iff_delay = d;
            if d == 0 {
                self.regs.iff1 = true;
                self.regs.iff2 = true;
            }
        }
    }

    fn execute_instruction(&mut self)
        requires
            old(self).wf(),
        ensures
            final(self).wf(),
            final(self)@ == spec_execute(old(self)@),
    {
        let r = self.regs.r;
        self.regs.r = (r / 128) * 128 + (r % 128 + 1) % 128;
        let op = self.fetch();
        if op == 0xCB {
            let op2 = self.fetch();
            decoding::decode_cb(self, op2);
        } else if op == 0xED {
            let op2 = self.fetch();
            decoding::decode_ed(self, op2);
        } else if op == 0xDD || op == 0xFD {
            let prefix = if op == 0xDD {
                PrefixAddressing::IX
            } else {
                PrefixAddressing::IY
            };
            let op2 = self.fetch();
            if op2 == 0xCB {
                let base = if op == 0xDD {
                    self.regs.ix
                } else {
                    self.regs.iy
                };
                let d = self.fetch_displacement();
                let op3 = self.fetch();
                decoding::decode_indexed_cb(self, index_address(base, d), op3);
            } else if op2 == 0xDD || op2 == 0xFD || op2 == 0xED {
                self.regs.pc = dec_word(self.regs.pc);
            } else {
                decoding::decode_unprefixed(self, op2, prefix);
            }
        } else {
            decoding::decode_unprefixed(self, op, PrefixAddressing::HL);
        }
    }

    /// Runs one step (see [`spec_tick`]).
    pub fn tick(&mut self)
        requires
            old(self).wf(),
        ensures
            final(self).wf(),
            final(self)@ == spec_tick(old(self)@),
    {
        proof {
            reveal(spec_tick);
            lemma_first_range(self@.devs, 0);
        }
        if self.regs.nmi_pending {
            self.regs.nmi_pending = false;
            self.take_nmi();
            return;
        }
        match self.find_nmi_source() {
            Some(i) => {
                let ghost devs0 = self@.devs;
                self.devices[i].ack_nmi();
                proof {
                    assert(self@.devs =~= devs0.update(i as int, dev_ack_nmi(devs0[i as int])));
                    lemma_update_wf(devs0, i as int, self@.devs[i as int]);
                }
                self.take_nmi();
                return;
            },
            None => {},
        }
        let source = self.find_int_source();
        if self.regs.iff1 && (self.regs.int_line || source.is_some()) {
            match source {
                Some(i) => {
                    let ghost devs0 = self@.devs;
                    let v = self.devices[i].ack_interrupt();
                    proof {
                        assert(self@.devs =~= devs0.update(i as int, self@.devs[i as int]));
                        lemma_update_wf(devs0, i as int, self@.devs[i as int]);
                    }
                    self.take_int(v);
                },
                None => {
                    self.take_int(0xFF);
                },
            }
            return;
        }
        if self.regs.halted {
            return;
        }
        self.execute_instruction();
        self.ei_countdown();
    }
}

} // verus!

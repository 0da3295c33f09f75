use vstd::prelude::*;

verus! {

/// The eight flag bits of the F register.
#[derive(Clone, Copy, Debug, PartialEq, Eq, Structural)]
pub struct Flags {
    pub s: bool,
    pub z: bool,
    pub y: bool,
    pub h: bool,
    pub x: bool,
    pub pv: bool,
    pub n: bool,
    pub c: bool,
}

/// Bit 3 of a number.
pub open spec fn bit3(v: int) -> bool {
    (v / 8) % 2 == 1
}

/// Bit 5 of a number.
pub open spec fn bit5(v: int) -> bool {
    (v / 32) % 2 == 1
}

/// A byte read as a two's-complement number.
pub open spec fn signed8(v: u8) -> int {
    if v >= 128 {
        v - 256
    } else {
        v as int
    }
}

/// A word read as a two's-complement number.
pub open spec fn signed16(v: u16) -> int {
    if v >= 32768 {
        v - 65536
    } else {
        v as int
    }
}

/// The number of one bits of a byte.
pub open spec fn ones(v: u8) -> int {
    v % 2 + (v / 2) % 2 + (v / 4) % 2 + (v / 8) % 2 + (v / 16) % 2 + (v / 32) % 2 + (v / 64) % 2 + (v
        / 128) % 2
}

/// Even parity: an even number of one bits.
pub open spec fn parity_even(v: u8) -> bool {
    ones(v) % 2 == 0
}

/// The value of a flag as a number.
pub open spec fn b2i(b: bool) -> int {
    if b {
        1
    } else {
        0
    }
}

/// The F register byte of a set of flags: S Z Y H X P/V N C from bit 7 down.
pub open spec fn flags_byte(f: Flags) -> u8 {
    (b2i(f.s) * 128 + b2i(f.z) * 64 + b2i(f.y) * 32 + b2i(f.h) * 16 + b2i(f.x) * 8 + b2i(f.pv) * 4
        + b2i(f.n) * 2 + b2i(f.c)) as u8
}

/// The flags of an F register byte.
pub open spec fn byte_flags(b: u8) -> Flags {
    Flags {
        s: (b / 128) % 2 == 1,
        z: (b / 64) % 2 == 1,
        y: (b / 32) % 2 == 1,
        h: (b / 16) % 2 == 1,
        x: (b / 8) % 2 == 1,
        pv: (b / 4) % 2 == 1,
        n: (b / 2) % 2 == 1,
        c: b % 2 == 1,
    }
}

/// Flags as an F register byte.
pub fn flags_to_byte(f: Flags) -> (b: u8)
    ensures
        b == flags_byte(f),
{
    let mut v: u8 = 0;
    if f.s {
        v = v + 128;
    }
    if f.z {
        v = v + 64;
    }
    if f.y {
        v = v + 32;
    }
    if f.h {
        v = v + 16;
    }
    if f.x {
        v = v + 8;
    }
    if f.pv {
        v = v + 4;
    }
    if f.n {
        v = v + 2;
    }
    if f.c {
        v = v + 1;
    }
    v
}

/// An F register byte as flags.
pub fn byte_to_flags(b: u8) -> (f: Flags)
    ensures
        f == byte_flags(b),
{
    Flags {
        s: (b / 128) % 2 == 1,
        z: (b / 64) % 2 == 1,
        y: (b / 32) % 2 == 1,
        h: (b / 16) % 2 == 1,
        x: (b / 8) % 2 == 1,
        pv: (b / 4) % 2 == 1,
        n: (b / 2) % 2 == 1,
        c: b % 2 == 1,
    }
}

/// Storing flags into F and reading them back gives the same flags.
pub proof fn lemma_flags_byte_roundtrip(f: Flags)
    ensures
        byte_flags(flags_byte(f)) == f,
{
}

/// Whether a byte has even parity.
pub fn parity(v: u8) -> (p: bool)
    ensures
        p == parity_even(v),
{
    let n: u8 = v % 2 + (v / 2) % 2 + (v / 4) % 2 + (v / 8) % 2 + (v / 16) % 2 + (v / 32) % 2 + (v
        / 64) % 2 + (v / 128) % 2;
    n % 2 == 0
}

/// 8-bit addition with carry in: the result and the flags it sets.
pub open spec fn spec_add8(a: u8, b: u8, cin: bool) -> (u8, Flags) {
    let sum = a + b + b2i(cin);
    let r = (sum % 256) as u8;
    let sv = signed8(a) + signed8(b) + b2i(cin);
    (r, Flags {
        s: r >= 128,
        z: r == 0,
        y: bit5(r as int),
        h: a % 16 + b % 16 + b2i(cin) >= 16,
        x: bit3(r as int),
        pv: sv < -128 || sv > 127,
        n: false,
        c: sum >= 256,
    })
}

/// 8-bit subtraction with borrow in: the result and the flags it sets.
pub open spec fn spec_sub8(a: u8, b: u8, cin: bool) -> (u8, Flags) {
    let diff = a - b - b2i(cin);
    let r = (if diff < 0 {
        diff + 256
    } else {
        diff
    }) as u8;
    let sv = signed8(a) - signed8(b) - b2i(cin);
    (r, Flags {
        s: r >= 128,
        z: r == 0,
        y: bit5(r as int),
        h: a % 16 < b % 16 + b2i(cin),
        x: bit3(r as int),
        pv: sv < -128 || sv > 127,
        n: true,
        c: diff < 0,
    })
}

/// The flags of a logical operation with result `r`.
pub open spec fn logic_flags(r: u8, h: bool) -> Flags {
    Flags {
        s: r >= 128,
        z: r == 0,
        y: bit5(r as int),
        h,
        x: bit3(r as int),
        pv: parity_even(r),
        n: false,
        c: false,
    }
}

/// 8-bit addition with carry in.
pub fn add8(a: u8, b: u8, cin: bool) -> (r: (u8, Flags))
    ensures
        r == spec_add8(a, b, cin),
{
    let ci: u16 = if cin {
        1
    } else {
        0
    };
    let sum: u16 = a as u16 + b as u16 + ci;
    let r = (sum % 256) as u8;
    let sa: i16 = if a >= 128 {
        a as i16 - 256
    } else {
        a as i16
    };
    let sb: i16 = if b >= 128 {
        b as i16 - 256
    } else {
        b as i16
    };
    let sv: i16 = sa + sb + ci as i16;
    (r, Flags {
        s: r >= 128,
        z: r == 0,
        y: (r / 32) % 2 == 1,
        h: (a % 16) as u16 + (b % 16) as u16 + ci >= 16,
        x: (r / 8) % 2 == 1,
        pv: sv < -128 || sv > 127,
        n: false,
        c: sum >= 256,
    })
}

/// 8-bit subtraction with borrow in.
pub fn sub8(a: u8, b: u8, cin: bool) -> (r: (u8, Flags))
    ensures
        r == spec_sub8(a, b, cin),
{
    let ci: i16 = if cin {
        1
    } else {
        0
    };
    let diff: i16 = a as i16 - b as i16 - ci;
    let r = (if diff < 0 {
        diff + 256
    } else {
        diff
    }) as u8;
    let sa: i16 = if a >= 128 {
        a as i16 - 256
    } else {
        a as i16
    };
    let sb: i16 = if b >= 128 {
        b as i16 - 256
    } else {
        b as i16
    };
    let sv: i16 = sa - sb - ci;
    (r, Flags {
        s: r >= 128,
        z: r == 0,
        y: (r / 32) % 2 == 1,
        h: ((a % 16) as i16) < (b % 16) as i16 + ci,
        x: (r / 8) % 2 == 1,
        pv: sv < -128 || sv > 127,
        n: true,
        c: diff < 0,
    })
}

/// The flags of a logical operation.
pub fn logic(r: u8, h: bool) -> (f: Flags)
    ensures
        f == logic_flags(r, h),
{
    Flags {
        s: r >= 128,
        z: r == 0,
        y: (r / 32) % 2 == 1,
        h,
        x: (r / 8) % 2 == 1,
        pv: parity(r),
        n: false,
        c: false,
    }
}

/// The eight arithmetic and logical operations on the accumulator, in
/// opcode order.
#[derive(Clone, Copy, Debug, PartialEq, Eq, Structural)]
pub enum ALUOperation {
    ADD,
    ADC,
    SUB,
    SBC,
    AND,
    XOR,
    OR,
    CP,
}

/// The operation with opcode field `y`.
pub open spec fn spec_alu_of(y: u8) -> ALUOperation {
    if y == 0 {
        ALUOperation::ADD
    } else if y == 1 {
        ALUOperation::ADC
    } else if y == 2 {
        ALUOperation::SUB
    } else if y == 3 {
        ALUOperation::SBC
    } else if y == 4 {
        ALUOperation::AND
    } else if y == 5 {
        ALUOperation::XOR
    } else if y == 6 {
        ALUOperation::OR
    } else {
        ALUOperation::CP
    }
}

/// The opcode field of an operation.
pub open spec fn spec_alu_code(op: ALUOperation) -> u8 {
    match op {
        ALUOperation::ADD => 0,
        ALUOperation::ADC => 1,
        ALUOperation::SUB => 2,
        ALUOperation::SBC => 3,
        ALUOperation::AND => 4,
        ALUOperation::XOR => 5,
        ALUOperation::OR => 6,
        ALUOperation::CP => 7,
    }
}

/// The operation with opcode field `y` (only the low three bits count).
pub fn alu_of(y: u8) -> (op: ALUOperation)
    ensures
        op == spec_alu_of(y),
{
    if y == 0 {
        ALUOperation::ADD
    } else if y == 1 {
        ALUOperation::ADC
    } else if y == 2 {
        ALUOperation::SUB
    } else if y == 3 {
        ALUOperation::SBC
    } else if y == 4 {
        ALUOperation::AND
    } else if y == 5 {
        ALUOperation::XOR
    } else if y == 6 {
        ALUOperation::OR
    } else {
        ALUOperation::CP
    }
}

/// The opcode field of an operation.
pub fn alu_code(op: ALUOperation) -> (c: u8)
    ensures
        c == spec_alu_code(op),
        c < 8,
{
    match op {
        ALUOperation::ADD => 0,
        ALUOperation::ADC => 1,
        ALUOperation::SUB => 2,
        ALUOperation::SBC => 3,
        ALUOperation::AND => 4,
        ALUOperation::XOR => 5,
        ALUOperation::OR => 6,
        ALUOperation::CP => 7,
    }
}

/// The accumulator and flags after `op` with operand `v`: compare leaves the
/// accumulator alone and takes flags 3 and 5 from the operand.
pub open spec fn spec_alu(op: ALUOperation, a: u8, v: u8, f: Flags) -> (u8, Flags) {
    match op {
        ALUOperation::ADD => spec_add8(a, v, false),
        ALUOperation::ADC => spec_add8(a, v, f.c),
        ALUOperation::SUB => spec_sub8(a, v, false),
        ALUOperation::SBC => spec_sub8(a, v, f.c),
        ALUOperation::AND => ((a & v), logic_flags(a & v, true)),
        ALUOperation::XOR => ((a ^ v), logic_flags(a ^ v, false)),
        ALUOperation::OR => ((a | v), logic_flags(a | v, false)),
        ALUOperation::CP => {
            let (_, fl) = spec_sub8(a, v, false);
            (a, Flags { y: bit5(v as int), x: bit3(v as int), ..fl })
        },
    }
}

/// `CP` leaves the accumulator alone and compares: Z is set exactly when the
/// operand equals A, C exactly when it is larger.
pub proof fn lemma_cp_compares(a: u8, v: u8, f: Flags)
    ensures
        spec_alu(ALUOperation::CP, a, v, f).0 == a,
        spec_alu(ALUOperation::CP, a, v, f).1.z <==> a == v,
        spec_alu(ALUOperation::CP, a, v, f).1.c <==> a < v,
        spec_alu(ALUOperation::CP, a, v, f).1.n,
{
}

/// Subtracting what was added gives back the starting byte, for every
/// carry into the addition.
pub proof fn lemma_sub_undoes_add(a: u8, b: u8, cin: bool)
    ensures
        spec_sub8(spec_add8(a, b, cin).0, b, cin).0 == a,
{
}

/// Runs an accumulator operation.
pub fn alu(op: ALUOperation, a: u8, v: u8, f: Flags) -> (r: (u8, Flags))
    ensures
        r == spec_alu(op, a, v, f),
{
    match op {
        ALUOperation::ADD => add8(a, v, false),
        ALUOperation::ADC => add8(a, v, f.c),
        ALUOperation::SUB => sub8(a, v, false),
        ALUOperation::SBC => sub8(a, v, f.c),
        ALUOperation::AND => {
            let r = a & v;
            (r, logic(r, true))
        },
        ALUOperation::XOR => {
            let r = a ^ v;
            (r, logic(r, false))
        },
        ALUOperation::OR => {
            let r = a | v;
            (r, logic(r, false))
        },
        ALUOperation::CP => {
            let (_, fl) = sub8(a, v, false);
            (a, Flags { y: (v / 32) % 2 == 1, x: (v / 8) % 2 == 1, ..fl })
        },
    }
}

/// Increment of an 8-bit operand; the carry is kept.
pub open spec fn spec_inc8(v: u8, f: Flags) -> (u8, Flags) {
    let r = ((v + 1) % 256) as u8;
    (r, Flags {
        s: r >= 128,
        z: r == 0,
        y: bit5(r as int),
        h: v % 16 == 15,
        x: bit3(r as int),
        pv: v == 127,
        n: false,
        c: f.c,
    })
}

/// Decrement of an 8-bit operand; the carry is kept.
pub open spec fn spec_dec8(v: u8, f: Flags) -> (u8, Flags) {
    let r = ((v + 255) % 256) as u8;
    (r, Flags {
        s: r >= 128,
        z: r == 0,
        y: bit5(r as int),
        h: v % 16 == 0,
        x: bit3(r as int),
        pv: v == 128,
        n: true,
        c: f.c,
    })
}

/// Increments an 8-bit operand.
pub fn inc8(v: u8, f: Flags) -> (r: (u8, Flags))
    ensures
        r == spec_inc8(v, f),
{
    let r = ((v as u16 + 1) % 256) as u8;
    (r, Flags {
        s: r >= 128,
        z: r == 0,
        y: (r / 32) % 2 == 1,
        h: v % 16 == 15,
        x: (r / 8) % 2 == 1,
        pv: v == 127,
        n: false,
        c: f.c,
    })
}

/// Decrements an 8-bit operand.
pub fn dec8(v: u8, f: Flags) -> (r: (u8, Flags))
    ensures
        r == spec_dec8(v, f),
{
    let r = ((v as u16 + 255) % 256) as u8;
    (r, Flags {
        s: r >= 128,
        z: r == 0,
        y: (r / 32) % 2 == 1,
        h: v % 16 == 0,
        x: (r / 8) % 2 == 1,
        pv: v == 128,
        n: true,
        c: f.c,
    })
}

/// `ADD HL, rr`: 16-bit addition that sets H, N and C (and flags 3 and 5
/// from the high byte) and keeps S, Z and P/V.
pub open spec fn spec_add16(a: u16, b: u16, f: Flags) -> (u16, Flags) {
    let sum = a + b;
    let r = (sum % 65536) as u16;
    (r, Flags {
        y: bit5((r / 256) as int),
        h: a % 4096 + b % 4096 >= 4096,
        x: bit3((r / 256) as int),
        n: false,
        c: sum >= 65536,
        ..f
    })
}

/// `ADC HL, rr`: 16-bit addition with carry that sets every flag.
pub open spec fn spec_adc16(a: u16, b: u16, cin: bool) -> (u16, Flags) {
    let sum = a + b + b2i(cin);
    let r = (sum % 65536) as u16;
    let sv = signed16(a) + signed16(b) + b2i(cin);
    (r, Flags {
        s: r >= 32768,
        z: r == 0,
        y: bit5((r / 256) as int),
        h: a % 4096 + b % 4096 + b2i(cin) >= 4096,
        x: bit3((r / 256) as int),
        pv: sv < -32768 || sv > 32767,
        n: false,
        c: sum >= 65536,
    })
}

/// `SBC HL, rr`: 16-bit subtraction with borrow that sets every flag.
pub open spec fn spec_sbc16(a: u16, b: u16, cin: bool) -> (u16, Flags) {
    let diff = a - b - b2i(cin);
    let r = (if diff < 0 {
        diff + 65536
    } else {
        diff
    }) as u16;
    let sv = signed16(a) - signed16(b) - b2i(cin);
    (r, Flags {
        s: r >= 32768,
        z: r == 0,
        y: bit5((r / 256) as int),
        h: a % 4096 < b % 4096 + b2i(cin),
        x: bit3((r / 256) as int),
        pv: sv < -32768 || sv > 32767,
        n: true,
        c: diff < 0,
    })
}

/// `ADD HL, rr`.
pub fn add16(a: u16, b: u16, f: Flags) -> (r: (u16, Flags))
    ensures
        r == spec_add16(a, b, f),
{
    let sum: u32 = a as u32 + b as u32;
    let r = (sum % 65536) as u16;
    let hi = r / 256;
    (r, Flags {
        y: (hi / 32) % 2 == 1,
        h: (a % 4096) as u32 + (b % 4096) as u32 >= 4096,
        x: (hi / 8) % 2 == 1,
        n: false,
        c: sum >= 65536,
        ..f
    })
}

/// `ADC HL, rr`.
pub fn adc16(a: u16, b: u16, cin: bool) -> (r: (u16, Flags))
    ensures
        r == spec_adc16(a, b, cin),
{
    let ci: u32 = if cin {
        1
    } else {
        0
    };
    let sum: u32 = a as u32 + b as u32 + ci;
    let r = (sum % 65536) as u16;
    let hi = r / 256;
    let sa: i32 = if a >= 32768 {
        a as i32 - 65536
    } else {
        a as i32
    };
    let sb: i32 = if b >= 32768 {
        b as i32 - 65536
    } else {
        b as i32
    };
    let sv: i32 = sa + sb + ci as i32;
    (r, Flags {
        s: r >= 32768,
        z: r == 0,
        y: (hi / 32) % 2 == 1,
        h: (a % 4096) as u32 + (b % 4096) as u32 + ci >= 4096,
        x: (hi / 8) % 2 == 1,
        pv: sv < -32768 || sv > 32767,
        n: false,
        c: sum >= 65536,
    })
}

/// `SBC HL, rr`.
pub fn sbc16(a: u16, b: u16, cin: bool) -> (r: (u16, Flags))
    ensures
        r == spec_sbc16(a, b, cin),
{
    let ci: i32 = if cin {
        1
    } else {
        0
    };
    let diff: i32 = a as i32 - b as i32 - ci;
    let r = (if diff < 0 {
        diff + 65536
    } else {
        diff
    }) as u16;
    let hi = r / 256;
    let sa: i32 = if a >= 32768 {
        a as i32 - 65536
    } else {
        a as i32
    };
    let sb: i32 = if b >= 32768 {
        b as i32 - 65536
    } else {
        b as i32
    };
    let sv: i32 = sa - sb - ci;
    (r, Flags {
        s: r >= 32768,
        z: r == 0,
        y: (hi / 32) % 2 == 1,
        h: ((a % 4096) as i32) < (b % 4096) as i32 + ci,
        x: (hi / 8) % 2 == 1,
        pv: sv < -32768 || sv > 32767,
        n: true,
        c: diff < 0,
    })
}

/// The eight rotate and shift operations of the CB page, in opcode order.
#[derive(Clone, Copy, Debug, PartialEq, Eq, Structural)]
pub enum RotOperation {
    RLC,
    RRC,
    RL,
    RR,
    SLA,
    SRA,
    SLL,
    SRL,
}

/// The rotate or shift with opcode field `y`.
pub open spec fn spec_rot_of(y: u8) -> RotOperation {
    if y == 0 {
        RotOperation::RLC
    } else if y == 1 {
        RotOperation::RRC
    } else if y == 2 {
        RotOperation::RL
    } else if y == 3 {
        RotOperation::RR
    } else if y == 4 {
        RotOperation::SLA
    } else if y == 5 {
        RotOperation::SRA
    } else if y == 6 {
        RotOperation::SLL
    } else {
        RotOperation::SRL
    }
}

/// The opcode field of a rotate or shift.
pub open spec fn spec_rot_code(op: RotOperation) -> u8 {
    match op {
        RotOperation::RLC => 0,
        RotOperation::RRC => 1,
        RotOperation::RL => 2,
        RotOperation::RR => 3,
        RotOperation::SLA => 4,
        RotOperation::SRA => 5,
        RotOperation::SLL => 6,
        RotOperation::SRL => 7,
    }
}

/// The rotate or shift with opcode field `y`.
pub fn rot_of(y: u8) -> (op: RotOperation)
    ensures
        op == spec_rot_of(y),
{
    if y == 0 {
        RotOperation::RLC
    } else if y == 1 {
        RotOperation::RRC
    } else if y == 2 {
        RotOperation::RL
    } else if y == 3 {
        RotOperation::RR
    } else if y == 4 {
        RotOperation::SLA
    } else if y == 5 {
        RotOperation::SRA
    } else if y == 6 {
        RotOperation::SLL
    } else {
        RotOperation::SRL
    }
}

/// The opcode field of a rotate or shift.
pub fn rot_code(op: RotOperation) -> (c: u8)
    ensures
        c == spec_rot_code(op),
        c < 8,
{
    match op {
        RotOperation::RLC => 0,
        RotOperation::RRC => 1,
        RotOperation::RL => 2,
        RotOperation::RR => 3,
        RotOperation::SLA => 4,
        RotOperation::SRA => 5,
        RotOperation::SLL => 6,
        RotOperation::SRL => 7,
    }
}

/// The result of a rotate or shift and the bit shifted out into the carry.
pub open spec fn spec_rot(op: RotOperation, v: u8, cin: bool) -> (u8, bool) {
    match op {
        RotOperation::RLC => (((v * 2) % 256 + v / 128) as u8, v >= 128),
        RotOperation::RRC => ((v / 2 + (v % 2) * 128) as u8, v % 2 == 1),
        RotOperation::RL => (((v * 2) % 256 + b2i(cin)) as u8, v >= 128),
        RotOperation::RR => ((v / 2 + b2i(cin) * 128) as u8, v % 2 == 1),
        RotOperation::SLA => (((v * 2) % 256) as u8, v >= 128),
        RotOperation::SRA => ((v / 2 + (if v >= 128 {
            128int
        } else {
            0
        })) as u8, v % 2 == 1),
        RotOperation::SLL => (((v * 2) % 256 + 1) as u8, v >= 128),
        RotOperation::SRL => ((v / 2) as u8, v % 2 == 1),
    }
}

/// Rotates or shifts a byte.
pub fn rot(op: RotOperation, v: u8, cin: bool) -> (r: (u8, bool))
    ensures
        r == spec_rot(op, v, cin),
{
    let w = v as u16;
    let ci: u16 = if cin {
        1
    } else {
        0
    };
    match op {
        RotOperation::RLC => (((w * 2) % 256 + w / 128) as u8, v >= 128),
        RotOperation::RRC => ((w / 2 + (w % 2) * 128) as u8, v % 2 == 1),
        RotOperation::RL => (((w * 2) % 256 + ci) as u8, v >= 128),
        RotOperation::RR => ((w / 2 + ci * 128) as u8, v % 2 == 1),
        RotOperation::SLA => (((w * 2) % 256) as u8, v >= 128),
        RotOperation::SRA => ((w / 2 + (if v >= 128 {
            128
        } else {
            0
        })) as u8, v % 2 == 1),
        RotOperation::SLL => (((w * 2) % 256 + 1) as u8, v >= 128),
        RotOperation::SRL => ((w / 2) as u8, v % 2 == 1),
    }
}

/// `DAA`: the decimal adjustment of the accumulator after a BCD addition or
/// subtraction, and its flags.
pub open spec fn spec_daa(a: u8, f: Flags) -> (u8, Flags) {
    let low = a % 16;
    let corr = (if f.h || low > 9 {
        6int
    } else {
        0
    }) + (if f.c || a > 0x99 {
        0x60int
    } else {
        0
    });
    let raw = if f.n {
        a - corr
    } else {
        a + corr
    };
    let r = (if raw < 0 {
        raw + 256
    } else {
        raw % 256
    }) as u8;
    (r, Flags {
        s: r >= 128,
        z: r == 0,
        y: bit5(r as int),
        h: if f.n {
            f.h && low < 6
        } else {
            low > 9
        },
        x: bit3(r as int),
        pv: parity_even(r),
        n: f.n,
        c: f.c || a > 0x99,
    })
}

/// Adjusts the accumulator to packed decimal.
pub fn daa(a: u8, f: Flags) -> (r: (u8, Flags))
    ensures
        r == spec_daa(a, f),
{
    let low = a % 16;
    let corr: i16 = (if f.h || low > 9 {
        6
    } else {
        0
    }) + (if f.c || a > 0x99 {
        0x60
    } else {
        0
    });
    let raw: i16 = if f.n {
        a as i16 - corr
    } else {
        a as i16 + corr
    };
    let r = (if raw < 0 {
        raw + 256
    } else {
        raw % 256
    }) as u8;
    (r, Flags {
        s: r >= 128,
        z: r == 0,
        y: (r / 32) % 2 == 1,
        h: if f.n {
            f.h && low < 6
        } else {
            low > 9
        },
        x: (r / 8) % 2 == 1,
        pv: parity(r),
        n: f.n,
        c: f.c || a > 0x99,
    })
}

} // verus!

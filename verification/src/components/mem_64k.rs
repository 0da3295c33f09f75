use vstd::prelude::*;

verus! {

/// The size of the Z80 address space in bytes.
pub open spec fn address_space() -> nat {
    0x10000
}

/// Sixty-four kilobytes of flat, byte-addressed memory.
pub struct Mem64k {
    data: Vec<u8>,
}

impl View for Mem64k {
    type V = Seq<u8>;

    closed spec fn view(&self) -> Seq<u8> {
        self.data@
    }
}

impl Mem64k {
    /// Well-formed memory holds exactly one byte for every 16-bit address.
    pub open spec fn wf(&self) -> bool {
        self@.len() == address_space()
    }

    /// Fresh memory: every byte is zero.
    pub fn new() -> (m: Self)
        ensures
            m@ == Seq::new(address_space(), |_i: int| 0u8),
            m.wf(),
    {
        let mut data: Vec<u8> = Vec::new();
        let mut i: usize = 0;
        while i < 0x10000
            invariant
                i <= 0x10000,
                data@ == Seq::new(i as nat, |_i: int| 0u8),
            decreases 0x10000 - i,
        {
            data.push(0u8);
            i = i + 1;
        }
        Mem64k { data }
    }

    /// The byte stored at `address`.
    pub fn read(&self, address: u16) -> (b: u8)
        requires
            self.wf(),
        ensures
            b == self@[address as int],
    {
        self.data[address as usize]
    }

    /// Stores `value` at `address`; every other byte is unchanged.
    pub fn write(&mut self, address: u16, value: u8)
        requires
            old(self).wf(),
        ensures
            final(self)@ == old(self)@.update(address as int, value),
            final(self).wf(),
    {
        self.data.set(address as usize, value);
    }

    /// The little-endian word at `address` (the high byte comes from `address + 1`,
    /// wrapping around at the top of memory).
    pub fn read_word(&self, address: u16) -> (w: u16)
        requires
            self.wf(),
        ensures
            w == spec_word(self@, address),
    {
        let lo = self.read(address);
        let hi = self.read(address.wrapping_add(1));
        make_word(hi, lo)
    }

    /// Stores `value` little-endian at `address` and `address + 1` (wrapping).
    pub fn write_word(&mut self, address: u16, value: u16)
        requires
            old(self).wf(),
        ensures
            final(self)@ == spec_write_word(old(self)@, address, value),
            final(self).wf(),
    {
        self.write(address, low_byte(value));
        self.write(address.wrapping_add(1), high_byte(value));
    }
}

/// The address that follows `a`, wrapping at the top of memory.
pub open spec fn next_addr(a: u16) -> u16 {
    ((a as int + 1) % 0x10000) as u16
}

/// The word made of a high and a low byte.
pub open spec fn spec_make_word(hi: u8, lo: u8) -> u16 {
    (hi as int * 256 + lo as int) as u16
}

/// The little-endian word of `mem` at `address`.
pub open spec fn spec_word(mem: Seq<u8>, address: u16) -> u16 {
    spec_make_word(mem[next_addr(address) as int], mem[address as int])
}

/// `mem` after storing `value` little-endian at `address`.
pub open spec fn spec_write_word(mem: Seq<u8>, address: u16, value: u16) -> Seq<u8> {
    mem.update(address as int, (value % 256) as u8).update(next_addr(address) as int, (value / 256) as u8)
}

/// Joins a high and a low byte into a word.
pub fn make_word(hi: u8, lo: u8) -> (w: u16)
    ensures
        w == spec_make_word(hi, lo),
{
    (hi as u16) * 256 + (lo as u16)
}

/// The low byte of a word.
pub fn low_byte(w: u16) -> (b: u8)
    ensures
        b == w % 256,
{
    (w % 256) as u8
}

/// The high byte of a word.
pub fn high_byte(w: u16) -> (b: u8)
    ensures
        b == w / 256,
{
    (w / 256) as u8
}

/// Reading a word right after writing it gives back the word written, also
/// where its two bytes wrap around the top of memory.
pub proof fn lemma_word_roundtrip(mem: Seq<u8>, address: u16, value: u16)
    requires
        mem.len() == address_space(),
    ensures
        spec_word(spec_write_word(mem, address, value), address) == value,
{
    assert(next_addr(address) != address);
}

/// Writing a word stores its low byte at `address` and its high byte at the
/// next address, and leaves every other byte as it was.
pub proof fn lemma_write_word_layout(mem: Seq<u8>, address: u16, value: u16, other: u16)
    requires
        mem.len() == address_space(),
    ensures
        spec_write_word(mem, address, value)[address as int] == (value % 256) as u8,
        spec_write_word(mem, address, value)[next_addr(address) as int] == (value / 256) as u8,
        other != address && other != next_addr(address) ==> spec_write_word(mem, address, value)[other as int]
            == mem[other as int],
        spec_write_word(mem, address, value).len() == address_space(),
{
    assert(next_addr(address) != address);
}

} // verus!

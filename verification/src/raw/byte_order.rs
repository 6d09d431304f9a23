//! The two byte orders of a TIFF file.
use vstd::prelude::*;

verus! {

/// How the bytes of a number are laid out.
#[derive(Debug, Clone, Copy, PartialEq, Eq, Structural)]
pub enum ByteOrder {
    /// The lowest byte comes first.
    Little,
    /// The highest byte comes first.
    Big,
}

/// The 16-bit number whose two bytes start at `at`.
pub open spec fn u16_at(order: ByteOrder, s: Seq<u8>, at: int) -> int {
    match order {
        ByteOrder::Little => s[at] + 0x100 * s[at + 1],
        ByteOrder::Big => 0x100 * s[at] + s[at + 1],
    }
}

/// The 32-bit number whose four bytes start at `at`.
pub open spec fn u32_at(order: ByteOrder, s: Seq<u8>, at: int) -> int {
    match order {
        ByteOrder::Little => u16_at(order, s, at) + 0x1_0000 * u16_at(order, s, at + 2),
        ByteOrder::Big => 0x1_0000 * u16_at(order, s, at) + u16_at(order, s, at + 2),
    }
}

/// The 64-bit number whose eight bytes start at `at`, highest first.
pub open spec fn be64_at(s: Seq<u8>, at: int) -> int {
    0x1_0000_0000 * u32_at(ByteOrder::Big, s, at) + u32_at(ByteOrder::Big, s, at + 4)
}

impl ByteOrder {
    /// The number in the first two bytes.
    pub fn u16(self, b: &[u8]) -> (r: u16)
        requires
            b@.len() >= 2,
        ensures
            r == u16_at(self, b@, 0),
    {
        self.u16_from(b, 0)
    }

    /// The number in the first four bytes.
    pub fn u32(self, b: &[u8]) -> (r: u32)
        requires
            b@.len() >= 4,
        ensures
            r == u32_at(self, b@, 0),
    {
        self.u32_from(b, 0)
    }

    /// The number in the two bytes at `at`.
    pub fn u16_from(self, b: &[u8], at: usize) -> (r: u16)
        requires
            at + 2 <= b@.len(),
        ensures
            r == u16_at(self, b@, at as int),
    {
        let first: u16 = b[at] as u16;
        let second: u16 = b[at + 1] as u16;
        match self {
            ByteOrder::Little => first + 0x100 * second,
            ByteOrder::Big => 0x100 * first + second,
        }
    }

    /// The number in the four bytes at `at`.
    pub fn u32_from(self, b: &[u8], at: usize) -> (r: u32)
        requires
            at + 4 <= b@.len(),
        ensures
            r == u32_at(self, b@, at as int),
    {
        assert(b@.len() == b.len());
        let first: u32 = self.u16_from(b, at) as u32;
        let second: u32 = self.u16_from(b, at + 2) as u32;
        match self {
            ByteOrder::Little => first + 0x1_0000 * second,
            ByteOrder::Big => 0x1_0000 * first + second,
        }
    }

    /// The two bytes of a number.
    pub fn u16_bytes(self, v: u16) -> (r: [u8; 2])
        ensures
            r@ == u16_seq(self, v as int),
    {
        let low: u8 = (v % 0x100) as u8;
        let high: u8 = (v / 0x100) as u8;
        let r: [u8; 2] = match self {
            ByteOrder::Little => [low, high],
            ByteOrder::Big => [high, low],
        };
        assert(r@ =~= u16_seq(self, v as int));
        r
    }

    /// The four bytes of a number.
    pub fn u32_bytes(self, v: u32) -> (r: [u8; 4])
        ensures
            r@ == u32_seq(self, v as int),
    {
        let low = self.u16_bytes((v % 0x1_0000) as u16);
        let high = self.u16_bytes((v / 0x1_0000) as u16);
        let r: [u8; 4] = match self {
            ByteOrder::Little => [low[0], low[1], high[0], high[1]],
            ByteOrder::Big => [high[0], high[1], low[0], low[1]],
        };
        assert(r@ =~= u32_seq(self, v as int));
        r
    }
}

/// The bytes of a 16-bit number.
pub open spec fn u16_seq(order: ByteOrder, v: int) -> Seq<u8> {
    match order {
        ByteOrder::Little => seq![(v % 0x100) as u8, (v / 0x100) as u8],
        ByteOrder::Big => seq![(v / 0x100) as u8, (v % 0x100) as u8],
    }
}

/// The bytes of a 32-bit number.
pub open spec fn u32_seq(order: ByteOrder, v: int) -> Seq<u8> {
    match order {
        ByteOrder::Little => u16_seq(order, v % 0x1_0000) + u16_seq(order, v / 0x1_0000),
        ByteOrder::Big => u16_seq(order, v / 0x1_0000) + u16_seq(order, v % 0x1_0000),
    }
}

/// The 64-bit number in the eight bytes at `at`, highest first.
pub fn be64_from(b: &[u8], at: usize) -> (r: u64)
    requires
        at + 8 <= b@.len(),
    ensures
        r == be64_at(b@, at as int),
{
    assert(b@.len() == b.len());
    let high: u64 = ByteOrder::Big.u32_from(b, at) as u64;
    let low: u64 = ByteOrder::Big.u32_from(b, at + 4) as u64;
    0x1_0000_0000 * high + low
}

/// A 16-bit number read back from its bytes is the number.
pub proof fn law_u16_bytes_read_back(order: ByteOrder, v: u16)
    ensures
        u16_at(order, u16_seq(order, v as int), 0) == v,
        u16_seq(order, v as int).len() == 2,
{
}

/// A 32-bit number read back from its bytes is the number.
pub proof fn law_u32_bytes_read_back(order: ByteOrder, v: u32)
    ensures
        u32_at(order, u32_seq(order, v as int), 0) == v,
        u32_seq(order, v as int).len() == 4,
{
    let s = u32_seq(order, v as int);
    let low = v as int % 0x1_0000;
    let high = v as int / 0x1_0000;
    law_u16_bytes_read_back(order, low as u16);
    law_u16_bytes_read_back(order, high as u16);
    match order {
        ByteOrder::Little => {
            assert(s[0] == u16_seq(order, low)[0] && s[1] == u16_seq(order, low)[1]);
            assert(s[2] == u16_seq(order, high)[0] && s[3] == u16_seq(order, high)[1]);
        },
        ByteOrder::Big => {
            assert(s[0] == u16_seq(order, high)[0] && s[1] == u16_seq(order, high)[1]);
            assert(s[2] == u16_seq(order, low)[0] && s[3] == u16_seq(order, low)[1]);
        },
    }
}

/// The bytes written for the number that two bytes hold are those bytes.
pub proof fn law_u16_read_and_written(order: ByteOrder, s: Seq<u8>)
    requires
        s.len() == 2,
    ensures
        u16_seq(order, u16_at(order, s, 0)) == s,
{
    assert(u16_seq(order, u16_at(order, s, 0)) =~= s);
}

/// A number read at an offset of a longer sequence is the number read from
/// the bytes there.
pub proof fn lemma_u32_of_subrange(order: ByteOrder, s: Seq<u8>, at: int)
    requires
        0 <= at,
        at + 4 <= s.len(),
    ensures
        u32_at(order, s.subrange(at, at + 4), 0) == u32_at(order, s, at),
{
}

} // verus!

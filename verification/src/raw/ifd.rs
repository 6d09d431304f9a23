//! Image file directories (IFDs): lists of 12-byte entries, each with a tag.
use vstd::prelude::*;
use vstd::slice::slice_subrange;

use crate::raw::byte_order;
use crate::raw::byte_order::ByteOrder;
use crate::raw::source::Source;

verus! {

/// The file is untrusted input: an IFD with more entries than this is not
/// read.
pub const MAX_ENTRIES: usize = 1024;
/// No more child IFDs than this are followed from one entry.
pub const MAX_SUB_IFDS: usize = 16;

pub const TIFF_MAGIC: u16 = 42;

pub const TAG_ORIENTATION: u16 = 0x0112;
pub const TAG_EXIF_IFD: u16 = 0x8769;
pub const TAG_GPS_IFD: u16 = 0x8825;
pub const TAG_INTEROP_IFD: u16 = 0xA005;

pub const TYPE_SHORT: u16 = 3;
pub const TYPE_LONG: u16 = 4;
pub const TYPE_IFD: u16 = 13;

/// One 12-byte IFD entry.
pub struct Entry<'a> {
    pub order: ByteOrder,
    pub bytes: &'a [u8],
}

/// The tag of an entry.
pub open spec fn tag_of(order: ByteOrder, e: Seq<u8>) -> int {
    byte_order::u16_at(order, e, 0)
}

/// The type of an entry's value.
pub open spec fn kind_of(order: ByteOrder, e: Seq<u8>) -> int {
    byte_order::u16_at(order, e, 2)
}

/// How many items an entry's value has.
pub open spec fn count_of(order: ByteOrder, e: Seq<u8>) -> int {
    byte_order::u32_at(order, e, 4)
}

/// The four value bytes of an entry as a number.
pub open spec fn value_of(order: ByteOrder, e: Seq<u8>) -> int {
    byte_order::u32_at(order, e, 8)
}

/// How many bytes one item of a type takes. Zero for a type TIFF does not
/// define.
pub open spec fn unit_size(kind: int) -> int {
    if kind == 1 || kind == 2 || kind == 6 || kind == 7 {
        1
    } else if kind == 3 || kind == 8 {
        2
    } else if kind == 4 || kind == 9 || kind == 11 || kind == 13 {
        4
    } else if kind == 5 || kind == 10 || kind == 12 {
        8
    } else {
        0
    }
}

/// How many bytes an entry's value takes.
pub open spec fn size_of_value(order: ByteOrder, e: Seq<u8>) -> int {
    unit_size(kind_of(order, e)) * count_of(order, e)
}

/// The value of an entry that has a single SHORT, LONG or IFD value.
pub open spec fn single_of(order: ByteOrder, e: Seq<u8>) -> Option<int> {
    if count_of(order, e) != 1 {
        None
    } else if kind_of(order, e) == TYPE_SHORT {
        Some(byte_order::u16_at(order, e, 8))
    } else if kind_of(order, e) == TYPE_LONG || kind_of(order, e) == TYPE_IFD {
        Some(value_of(order, e))
    } else {
        None
    }
}

impl<'a> Entry<'a> {
    /// An entry has twelve bytes.
    pub open spec fn wf(&self) -> bool {
        self.bytes@.len() == 12
    }

    pub fn tag(&self) -> (r: u16)
        requires
            self.wf(),
        ensures
            r == tag_of(self.order, self.bytes@),
    {
        self.order.u16_from(self.bytes, 0)
    }

    pub fn kind(&self) -> (r: u16)
        requires
            self.wf(),
        ensures
            r == kind_of(self.order, self.bytes@),
    {
        self.order.u16_from(self.bytes, 2)
    }

    pub fn count(&self) -> (r: u32)
        requires
            self.wf(),
        ensures
            r == count_of(self.order, self.bytes@),
    {
        self.order.u32_from(self.bytes, 4)
    }

    /// The four value bytes as a number: the value itself when it fits,
    /// else the offset of the value.
    pub fn value_or_offset(&self) -> (r: u32)
        requires
            self.wf(),
        ensures
            r == value_of(self.order, self.bytes@),
    {
        self.order.u32_from(self.bytes, 8)
    }

    /// How many bytes the value takes. More than four means the entry
    /// holds the value's offset. Zero for a type TIFF does not define.
    pub fn value_size(&self) -> (r: u64)
        requires
            self.wf(),
        ensures
            r == size_of_value(self.order, self.bytes@),
    {
        let count: u64 = self.count() as u64;
        match self.kind() {
            1 | 2 | 6 | 7 => count,
            3 | 8 => 2 * count,
            4 | 9 | 11 | 13 => 4 * count,
            5 | 10 | 12 => 8 * count,
            _ => 0,
        }
    }

    /// A single SHORT or LONG value. A SHORT sits in the first two of the
    /// four value bytes.
    pub fn single(&self) -> (r: Option<u32>)
        requires
            self.wf(),
        ensures
            match r {
                Some(v) => single_of(self.order, self.bytes@) == Some(v as int),
                None => single_of(self.order, self.bytes@) is None,
            },
    {
        if self.count() != 1 {
            return None;
        }
        let kind: u16 = self.kind();
        if kind == TYPE_SHORT {
            Some(self.order.u16_from(self.bytes, 8) as u32)
        } else if kind == TYPE_LONG || kind == TYPE_IFD {
            Some(self.value_or_offset())
        } else {
            None
        }
    }
}

/// The `i`-th entry of a list of entries.
pub open spec fn entry_at(entries: Seq<u8>, i: int) -> Seq<u8> {
    entries.subrange(12 * i, 12 * i + 12)
}

/// How many entries the body of an IFD has. The body ends with the four
/// bytes of the next IFD's offset.
pub open spec fn entry_count(body: Seq<u8>) -> int {
    (body.len() - 4) / 12
}

/// The offset of the next IFD in the chain.
pub open spec fn next_ifd(order: ByteOrder, body: Seq<u8>) -> int {
    byte_order::u32_at(order, body, 12 * entry_count(body))
}

/// The last of the first `n` entries that has the tag.
pub open spec fn last_tagged(order: ByteOrder, entries: Seq<u8>, tag: int, n: nat) -> Option<Seq<u8>>
    decreases n,
{
    if n == 0 {
        None
    } else if tag_of(order, entry_at(entries, n - 1)) == tag {
        Some(entry_at(entries, n - 1))
    } else {
        last_tagged(order, entries, tag, (n - 1) as nat)
    }
}

/// The first of the first `n` entries that has the tag.
pub open spec fn first_tagged(order: ByteOrder, entries: Seq<u8>, tag: int, n: nat) -> Option<Seq<u8>>
    decreases n,
{
    if n == 0 {
        None
    } else {
        match first_tagged(order, entries, tag, (n - 1) as nat) {
            Some(e) => Some(e),
            None => if tag_of(order, entry_at(entries, n - 1)) == tag {
                Some(entry_at(entries, n - 1))
            } else {
                None
            },
        }
    }
}

/// The single value of the last entry of an IFD that has the tag.
pub open spec fn last_single(order: ByteOrder, body: Seq<u8>, tag: int, n: nat) -> Option<int> {
    match last_tagged(order, body, tag, n) {
        Some(e) => single_of(order, e),
        None => None,
    }
}

/// The `i`-th entry of a list of entries.
pub fn entry_from<'a>(order: ByteOrder, entries: &'a [u8], i: usize) -> (r: Entry<'a>)
    requires
        12 * i + 12 <= entries@.len(),
    ensures
        r.wf(),
        r.order == order,
        r.bytes@ == entry_at(entries@, i as int),
{
    assert(entries@.len() == entries.len());
    Entry { order, bytes: slice_subrange(entries, 12 * i, 12 * i + 12) }
}

/// The first entry with a tag among whole entries.
pub fn find_entry<'a>(order: ByteOrder, entries: &'a [u8], n: usize, tag: u16) -> (r: Option<Entry<'a>>)
    requires
        12 * n <= entries@.len(),
    ensures
        match r {
            Some(e) => e.wf() && e.order == order && first_tagged(
                order,
                entries@,
                tag as int,
                n as nat,
            ) == Some(e.bytes@),
            None => first_tagged(order, entries@, tag as int, n as nat) is None,
        },
{
    let mut i: usize = 0;
    while i < n
        invariant
            i <= n,
            12 * n <= entries@.len(),
            first_tagged(order, entries@, tag as int, i as nat) is None,
        decreases n - i,
    {
        let entry = entry_from(order, entries, i);
        if entry.tag() == tag {
            proof {
                lemma_first_tagged_stays(order, entries@, tag as int, (i + 1) as nat, n as nat);
            }
            return Some(entry);
        }
        i += 1;
    }
    None
}

/// The first entry with a tag stays the first when more entries follow.
proof fn lemma_first_tagged_stays(order: ByteOrder, entries: Seq<u8>, tag: int, m: nat, n: nat)
    requires
        m <= n,
        first_tagged(order, entries, tag, m) is Some,
    ensures
        first_tagged(order, entries, tag, n) == first_tagged(order, entries, tag, m),
    decreases n,
{
    if m < n {
        lemma_first_tagged_stays(order, entries, tag, m, (n - 1) as nat);
    }
}

/// The byte order and the offset of IFD0 that a TIFF header names.
pub open spec fn header_spec(block: Seq<u8>) -> Option<(ByteOrder, int)> {
    if block.len() < 8 {
        None
    } else {
        match order_mark(block) {
            Some(order) => if byte_order::u16_at(order, block, 2) == TIFF_MAGIC {
                Some((order, byte_order::u32_at(order, block, 4)))
            } else {
                None
            },
            None => None,
        }
    }
}

/// The byte order that the two letters at the start stand for: "II" or "MM".
pub open spec fn order_mark(block: Seq<u8>) -> Option<ByteOrder> {
    if block[0] == 0x49 && block[1] == 0x49 {
        Some(ByteOrder::Little)
    } else if block[0] == 0x4D && block[1] == 0x4D {
        Some(ByteOrder::Big)
    } else {
        None
    }
}

/// The byte order that the first two bytes stand for.
pub fn read_order_mark(block: &[u8]) -> (r: Option<ByteOrder>)
    requires
        block@.len() >= 2,
    ensures
        r == order_mark(block@),
{
    if block[0] == 0x49 && block[1] == 0x49 {
        Some(ByteOrder::Little)
    } else if block[0] == 0x4D && block[1] == 0x4D {
        Some(ByteOrder::Big)
    } else {
        None
    }
}

/// The byte order and the offset of IFD0 from the header of a TIFF block
/// in memory. `None` when the block does not start with a TIFF header.
pub fn header_of(block: &[u8]) -> (r: Option<(ByteOrder, u32)>)
    ensures
        match r {
            Some((order, at)) => header_spec(block@) == Some((order, at as int)),
            None => header_spec(block@) is None,
        },
{
    if block.len() < 8 {
        return None;
    }
    match read_order_mark(block) {
        Some(order) => {
            if order.u16_from(block, 2) == TIFF_MAGIC {
                Some((order, order.u32_from(block, 4)))
            } else {
                None
            }
        },
        None => None,
    }
}

/// The entries of the IFD at an offset of a block, when all of them are
/// inside the block.
pub open spec fn entries_spec(block: Seq<u8>, order: ByteOrder, offset: int) -> Option<Seq<u8>> {
    if offset + 2 > block.len() {
        None
    } else {
        let count = byte_order::u16_at(order, block, offset);
        if offset + 2 + 12 * count > block.len() {
            None
        } else {
            Some(block.subrange(offset + 2, offset + 2 + 12 * count))
        }
    }
}

/// The entries of the IFD at `offset` in a TIFF block in memory, 12 bytes
/// each. `None` when they do not fit inside the block.
pub fn entries_of<'a>(block: &'a [u8], order: ByteOrder, offset: u32) -> (r: Option<&'a [u8]>)
    ensures
        match r {
            Some(entries) => entries_spec(block@, order, offset as int) == Some(entries@)
                && entries@.len() % 12 == 0,
            None => entries_spec(block@, order, offset as int) is None,
        },
{
    let len: usize = block.len();
    if len < 2 || ((len - 2) as u64) < (offset as u64) {
        return None;
    }
    let start: usize = offset as usize;
    let count: usize = order.u16_from(block, start) as usize;
    if len - start - 2 < 12 * count {
        return None;
    }
    let entries = slice_subrange(block, start + 2, start + 2 + 12 * count);
    assert(entries@.len() == 12 * count);
    Some(entries)
}

/// The body of the IFD at an offset of a file: its entries and the four
/// bytes with the offset of the next IFD. `None` for an IFD without entries,
/// with more than `MAX_ENTRIES`, or not wholly inside the file.
pub open spec fn ifd_body(file: Seq<u8>, order: ByteOrder, offset: int) -> Option<Seq<u8>> {
    if offset + 2 > file.len() {
        None
    } else {
        let count = byte_order::u16_at(order, file, offset);
        if count == 0 || count > MAX_ENTRIES || offset + 2 + 12 * count + 4 > file.len() {
            None
        } else {
            Some(file.subrange(offset + 2, offset + 2 + 12 * count + 4))
        }
    }
}

/// Whether the bytes are an IFD's body: whole entries and four bytes more.
pub open spec fn is_body(body: Seq<u8>) -> bool {
    &&& body.len() >= 16
    &&& body.len() % 12 == 4
    &&& body.len() <= 12 * MAX_ENTRIES + 4
}

/// The entries of the IFD at `offset`, 12 bytes each, followed by the
/// four bytes with the offset of the next IFD in the chain. `None` when
/// there is no readable IFD at `offset`.
pub fn read_ifd<'a>(source: &Source<'a>, order: ByteOrder, offset: u64) -> (r: Option<&'a [u8]>)
    ensures
        match r {
            Some(body) => ifd_body(source@, order, offset as int) == Some(body@) && is_body(
                body@,
            ) && offset + 2 + body@.len() <= source@.len(),
            None => ifd_body(source@, order, offset as int) is None,
        },
{
    if !source.contains(offset, 2) {
        return None;
    }
    let head = source.bytes_at(offset, 2);
    let count: usize = order.u16_from(head, 0) as usize;
    if count == 0 || count > MAX_ENTRIES {
        return None;
    }
    let len: usize = 12 * count + 4;
    if !source.contains(offset + 2, len as u64) {
        return None;
    }
    let body = source.bytes_at(offset + 2, len);
    Some(body)
}

/// How many entries a body has.
pub fn count_entries(body: &[u8]) -> (r: usize)
    requires
        is_body(body@),
    ensures
        r == entry_count(body@),
        12 * r + 4 == body@.len(),
{
    (body.len() - 4) / 12
}

} // verus!

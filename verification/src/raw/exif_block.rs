//! The part of a TIFF-based RAW file that an EXIF parser reads.
use vstd::prelude::*;
use vstd::slice::slice_to_vec;

use crate::raw::byte_order;
use crate::raw::byte_order::ByteOrder;
use crate::raw::ifd;
use crate::raw::ifd::{
    count_entries, entry_from, read_ifd, TAG_EXIF_IFD, TAG_GPS_IFD, TAG_INTEROP_IFD, TIFF_MAGIC,
};
use crate::raw::source::Source;
use crate::raw::tiff::TiffHeader;

verus! {

/// The most that is read from the start of a file for its EXIF.
pub const MAX_EXIF_PREFIX: u64 = 4 * 1024 * 1024;
/// A value larger than this is not worth extending the read for. An RW2
/// has its embedded JPEG and its sensor data as tag values in IFD0.
pub const MAX_EXIF_VALUE: u64 = 128 * 1024;
/// IFD0 and the three it leads to, and no more than that whatever a broken
/// file points at.
pub const EXIF_IFDS: usize = 4;

/// Whether an entry points to the Exif, the GPS or the interoperability IFD.
pub open spec fn is_pointer(order: ByteOrder, e: Seq<u8>) -> bool {
    let tag = ifd::tag_of(order, e);
    tag == TAG_EXIF_IFD || tag == TAG_GPS_IFD || tag == TAG_INTEROP_IFD
}

/// The IFDs that the first `n` entries point to.
pub open spec fn pointers_of(order: ByteOrder, body: Seq<u8>, n: nat) -> Seq<u64>
    decreases n,
{
    if n == 0 {
        Seq::empty()
    } else {
        let before = pointers_of(order, body, (n - 1) as nat);
        let e = ifd::entry_at(body, n - 1);
        match ifd::single_of(order, e) {
            Some(v) if is_pointer(order, e) => before.push(v as u64),
            _ => before,
        }
    }
}

/// Whether an entry's value is outside the entry, inside the file and small
/// enough to be worth reading.
pub open spec fn has_value_outside(file: Seq<u8>, order: ByteOrder, e: Seq<u8>) -> bool {
    let size = ifd::size_of_value(order, e);
    4 < size <= MAX_EXIF_VALUE && ifd::value_of(order, e) + size <= file.len()
}

/// How far the values of the first `n` entries reach, and no less than `end`.
pub open spec fn values_end(file: Seq<u8>, order: ByteOrder, body: Seq<u8>, n: nat, end: int) -> int
    decreases n,
{
    if n == 0 {
        end
    } else {
        let before = values_end(file, order, body, (n - 1) as nat, end);
        let e = ifd::entry_at(body, n - 1);
        let reach = ifd::value_of(order, e) + ifd::size_of_value(order, e);
        if has_value_outside(file, order, e) && reach > before {
            reach
        } else {
            before
        }
    }
}

/// How far the IFDs that are still to be looked at reach, with their values
/// and the IFDs that they point to. The last one is next, and no more than
/// `rounds` are looked at.
pub open spec fn ifds_end(file: Seq<u8>, order: ByteOrder, ifds: Seq<u64>, rounds: nat, end: int) -> int
    decreases rounds,
{
    if rounds == 0 || ifds.len() == 0 {
        end
    } else {
        let offset = ifds.last();
        let rest = ifds.drop_last();
        match ifd::ifd_body(file, order, offset as int) {
            None => ifds_end(file, order, rest, (rounds - 1) as nat, end),
            Some(body) => {
                let n = ifd::entry_count(body) as nat;
                let own = offset + 2 + body.len();
                ifds_end(
                    file,
                    order,
                    rest + pointers_of(order, body, n),
                    (rounds - 1) as nat,
                    values_end(file, order, body, n, if own > end { own } else { end }),
                )
            },
        }
    }
}

/// How many bytes of the file the EXIF block is.
pub open spec fn prefix_len(file: Seq<u8>, header: TiffHeader) -> int {
    let end = ifds_end(file, header.order, seq![header.ifd0], EXIF_IFDS as nat, 8);
    let capped = if end < MAX_EXIF_PREFIX { end } else { MAX_EXIF_PREFIX as int };
    if capped < file.len() { capped } else { file.len() as int }
}

/// The EXIF block of a TIFF-based file: its start, with the TIFF magic number
/// in place of the file's own.
pub open spec fn exif_block_of(file: Seq<u8>, header: TiffHeader) -> Seq<u8> {
    let block = file.take(prefix_len(file, header));
    if header.magic != TIFF_MAGIC && block.len() >= 4 {
        let magic = byte_order::u16_seq(header.order, TIFF_MAGIC as int);
        block.update(2, magic[0]).update(3, magic[1])
    } else {
        block
    }
}

/// The start of the file, long enough to hold IFD0, the Exif, GPS and
/// interoperability IFDs and every value their entries point to. Offsets
/// in a TIFF file count from the start of the file, so this prefix is a
/// TIFF block that an EXIF parser reads as it is. An RW2 and an ORF get
/// the TIFF magic number in place of their own.
///
/// Values may lie behind image data, so the prefix can contain a
/// thumbnail. It stops at `MAX_EXIF_PREFIX`, and the parser skips a value
/// that is cut off or was left out for its size.
pub fn exif_block(source: &Source, tiff: TiffHeader) -> (r: Vec<u8>)
    ensures
        r@ == exif_block_of(source@, tiff),
{
    let order = tiff.order;
    let mut end: u64 = 8;
    let mut ifds: Vec<u64> = Vec::new();
    ifds.push(tiff.ifd0);
    assert(ifds@ =~= seq![tiff.ifd0]);
    let mut round: usize = 0;
    while round < EXIF_IFDS && ifds.len() > 0
        invariant
            round <= EXIF_IFDS,
            order == tiff.order,
            ifds_end(source@, order, ifds@, (EXIF_IFDS - round) as nat, end as int) == ifds_end(
                source@,
                order,
                seq![tiff.ifd0],
                EXIF_IFDS as nat,
                8,
            ),
        decreases EXIF_IFDS - round,
    {
        let ghost before = ifds@;
        let offset: u64 = match ifds.pop() {
            Some(offset) => offset,
            None => 0,
        };
        assert(offset == before.last());
        assert(ifds@ =~= before.drop_last());
        if let Some(body) = read_ifd(source, order, offset) {
            let reach: u64 = source.len();
            let own: u64 = offset + 2 + body.len() as u64;
            let ghost start: int = if own > end { own as int } else { end as int };
            if own > end {
                end = own;
            }
            let count: usize = count_entries(body);
            let ghost rest = ifds@;
            let mut i: usize = 0;
            while i < count
                invariant
                    i <= count,
                    12 * count + 4 == body@.len(),
                    ifds@ == rest + pointers_of(order, body@, i as nat),
                    end == values_end(source@, order, body@, i as nat, start),
                decreases count - i,
            {
                let entry = entry_from(order, body, i);
                let ghost e = ifd::entry_at(body@, i as int);
                let ghost so_far = pointers_of(order, body@, i as nat);
                let tag: u16 = entry.tag();
                if tag == TAG_EXIF_IFD || tag == TAG_GPS_IFD || tag == TAG_INTEROP_IFD {
                    if let Some(v) = entry.single() {
                        ifds.push(v as u64);
                        assert(ifds@ =~= rest + so_far.push(v as u64));
                    }
                }
                let size: u64 = entry.value_size();
                let at: u64 = entry.value_or_offset() as u64;
                if size > 4 && size <= MAX_EXIF_VALUE && source.contains(at, size) {
                    if at + size > end {
                        end = at + size;
                    }
                }
                i += 1;
            }
        }
        round += 1;
    }
    let mut len: u64 = source.len();
    if end < len {
        len = end;
    }
    if MAX_EXIF_PREFIX < len {
        len = MAX_EXIF_PREFIX;
    }
    let mut block: Vec<u8> = slice_to_vec(source.bytes_at(0, len as usize));
    assert(block@ =~= source@.take(prefix_len(source@, tiff)));
    if tiff.magic != TIFF_MAGIC && block.len() >= 4 {
        let magic = order.u16_bytes(TIFF_MAGIC);
        block.set(2, magic[0]);
        block.set(3, magic[1]);
    }
    block
}

/// More entries never make the reach smaller.
proof fn lemma_values_end_grows(file: Seq<u8>, order: ByteOrder, body: Seq<u8>, n: nat, i: int, end: int)
    ensures
        values_end(file, order, body, n, end) >= end,
        0 <= i < n && has_value_outside(file, order, ifd::entry_at(body, i)) ==> values_end(
            file,
            order,
            body,
            n,
            end,
        ) >= ifd::value_of(order, ifd::entry_at(body, i)) + ifd::size_of_value(
            order,
            ifd::entry_at(body, i),
        ),
    decreases n,
{
    if n > 0 {
        lemma_values_end_grows(file, order, body, (n - 1) as nat, i, end);
    }
}

/// More IFDs never make the reach smaller.
pub proof fn lemma_ifds_end_grows(file: Seq<u8>, order: ByteOrder, ifds: Seq<u64>, rounds: nat, end: int)
    ensures
        ifds_end(file, order, ifds, rounds, end) >= end,
    decreases rounds,
{
    if rounds > 0 && ifds.len() > 0 {
        let offset = ifds.last();
        let rest = ifds.drop_last();
        match ifd::ifd_body(file, order, offset as int) {
            None => lemma_ifds_end_grows(file, order, rest, (rounds - 1) as nat, end),
            Some(body) => {
                let n = ifd::entry_count(body) as nat;
                let own = offset + 2 + body.len();
                let start = if own > end { own } else { end };
                lemma_values_end_grows(file, order, body, n, 0, start);
                lemma_ifds_end_grows(
                    file,
                    order,
                    rest + pointers_of(order, body, n),
                    (rounds - 1) as nat,
                    values_end(file, order, body, n, start),
                );
            },
        }
    }
}

/// The block holds IFD0 and every value that one of its entries points to,
/// up to the largest prefix that is read.
pub proof fn law_exif_block_holds_ifd0(file: Seq<u8>, header: TiffHeader, i: int)
    requires
        ifd::ifd_body(file, header.order, header.ifd0 as int) is Some,
    ensures
        ({
            let body = ifd::ifd_body(file, header.order, header.ifd0 as int).unwrap();
            let e = ifd::entry_at(body, i);
            let reach = ifd::value_of(header.order, e) + ifd::size_of_value(header.order, e);
            let len = exif_block_of(file, header).len();
            &&& header.ifd0 + 2 + body.len() <= len || len == MAX_EXIF_PREFIX
            &&& 0 <= i < ifd::entry_count(body) && has_value_outside(file, header.order, e) ==> reach <= len
                || len == MAX_EXIF_PREFIX
        }),
{
    let order = header.order;
    let body = ifd::ifd_body(file, order, header.ifd0 as int).unwrap();
    let n = ifd::entry_count(body) as nat;
    let own = header.ifd0 + 2 + body.len();
    let start = if own > 8 { own } else { 8 };
    let ifds = seq![header.ifd0];
    lemma_values_end_grows(file, order, body, n, i, start);
    lemma_ifds_end_grows(
        file,
        order,
        ifds.drop_last() + pointers_of(order, body, n),
        (EXIF_IFDS - 1) as nat,
        values_end(file, order, body, n, start),
    );
}

/// The block is a prefix of the file: it differs from the file's own bytes in
/// the two bytes of the magic number at most.
pub proof fn law_exif_block_is_a_prefix(file: Seq<u8>, header: TiffHeader, i: int)
    requires
        0 <= i < exif_block_of(file, header).len(),
        i != 2 && i != 3,
    ensures
        exif_block_of(file, header).len() <= file.len(),
        exif_block_of(file, header)[i] == file[i],
{
    lemma_ifds_end_grows(file, header.order, seq![header.ifd0], EXIF_IFDS as nat, 8);
}

/// Each entry of tag 0x8769, 0x8825 or 0xA005 with a single number leads to an
/// IFD, and no other entry does.
pub proof fn law_every_pointer_is_followed(order: ByteOrder, body: Seq<u8>, n: nat, k: int, to: u64)
    ensures
        ({
            let e = ifd::entry_at(body, k);
            let tag = ifd::tag_of(order, e);
            0 <= k < n && (tag == 0x8769 || tag == 0x8825 || tag == 0xA005) && ifd::single_of(order, e) == Some(to as int)
                ==> pointers_of(order, body, n).contains(to)
        }),
        pointers_of(order, body, n).contains(to) ==> exists|i: int|
            0 <= i < n && (ifd::tag_of(order, #[trigger] ifd::entry_at(body, i)) == 0x8769 || ifd::tag_of(
                order,
                ifd::entry_at(body, i),
            ) == 0x8825 || ifd::tag_of(order, ifd::entry_at(body, i)) == 0xA005) && (ifd::single_of(
                order,
                ifd::entry_at(body, i),
            ) matches Some(v) && v as u64 == to),
    decreases n,
{
    if n > 0 {
        law_every_pointer_is_followed(order, body, (n - 1) as nat, k, to);
        let before = pointers_of(order, body, (n - 1) as nat);
        let after = pointers_of(order, body, n);
        let e = ifd::entry_at(body, n - 1);
        if before.contains(to) {
            let i = choose|i: int| 0 <= i < before.len() && before[i] == to;
            assert(after[i] == to);
        }
        if after.len() > before.len() {
            assert(after.last() == after[before.len() as int]);
        }
        if after.contains(to) && !before.contains(to) {
            let i = choose|i: int| 0 <= i < after.len() && after[i] == to;
            assert(i < before.len() ==> before[i] == to);
            assert(is_pointer(order, ifd::entry_at(body, n - 1)));
        }
    }
}

/// The block reaches over each value outside of its entry, of up to 128 KiB, that
/// is inside the file.
pub proof fn law_the_block_reaches_over_the_values(file: Seq<u8>, order: ByteOrder, body: Seq<u8>, n: nat, k: int, end: int)
    requires
        0 <= k < n,
        4 < ifd::size_of_value(order, ifd::entry_at(body, k)) <= 0x2_0000,
        ifd::value_of(order, ifd::entry_at(body, k)) + ifd::size_of_value(order, ifd::entry_at(body, k)) <= file.len(),
    ensures
        values_end(file, order, body, n, end) >= ifd::value_of(order, ifd::entry_at(body, k)) + ifd::size_of_value(
            order,
            ifd::entry_at(body, k),
        ),
        values_end(file, order, body, n, end) >= end,
        end <= file.len() ==> values_end(file, order, body, n, end) <= file.len(),
{
    lemma_values_end_grows(file, order, body, n, k, end);
    lemma_values_end_inside(file, order, body, n, end);
}

proof fn lemma_values_end_inside(file: Seq<u8>, order: ByteOrder, body: Seq<u8>, n: nat, end: int)
    ensures
        end <= file.len() ==> values_end(file, order, body, n, end) <= file.len(),
    decreases n,
{
    if n > 0 {
        lemma_values_end_inside(file, order, body, (n - 1) as nat, end);
    }
}

} // verus!

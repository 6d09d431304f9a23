//! One TIFF block out of several.
use vstd::prelude::*;
use vstd::slice::{slice_subrange, slice_to_vec};

use crate::raw::byte_order;
use crate::raw::byte_order::ByteOrder;
use crate::raw::ifd;
use crate::raw::ifd::{
    entries_of, entry_from, header_of, Entry, TAG_EXIF_IFD, TAG_GPS_IFD, TAG_INTEROP_IFD, TYPE_LONG,
};

verus! {

/// The sequence with the bytes at `at` replaced.
pub open spec fn overwritten(s: Seq<u8>, at: int, bytes: Seq<u8>) -> Seq<u8> {
    Seq::new(s.len(), |i: int| if at <= i < at + bytes.len() { bytes[i - at] } else { s[i] })
}

/// Whether an entry points to the interoperability IFD.
pub open spec fn is_interop(order: ByteOrder, e: Seq<u8>) -> bool {
    ifd::tag_of(order, e) == TAG_INTEROP_IFD && ifd::single_of(order, e) is Some
}

/// Whether an entry holds an offset.
pub open spec fn holds_offset(order: ByteOrder, e: Seq<u8>) -> bool {
    ifd::size_of_value(order, e) > 4 || is_interop(order, e)
}

/// Adds `base` to the offsets in the entries from the `i`-th of `count` on,
/// of the IFD at `start`. The bytes after that, and whether every entry was
/// inside `s` and every sum fits in 32 bits.
pub open spec fn rebased_from(s: Seq<u8>, order: ByteOrder, base: int, start: int, i: nat, count: nat, follow: bool) -> (Seq<u8>, bool)
    decreases (if follow { 1int } else { 0 }), count - i,
{
    let at = start + 2 + 12 * i;
    if i >= count {
        (s, true)
    } else if at + 12 > s.len() {
        (s, false)
    } else {
        let e = s.subrange(at, at + 12);
        if !holds_offset(order, e) {
            rebased_from(s, order, base, start, i + 1, count, follow)
        } else {
            let old = ifd::value_of(order, e);
            if old + base > u32::MAX {
                (s, false)
            } else {
                let moved = overwritten(s, at + 8, byte_order::u32_seq(order, old + base));
                let followed = if is_interop(order, e) && follow {
                    rebased(moved, order, base, old, false).0
                } else {
                    moved
                };
                rebased_from(followed, order, base, start, i + 1, count, follow)
            }
        }
    }
}

/// Adds `base` to every offset in the IFD at `ifd` of a block that was
/// appended at `base`.
pub open spec fn rebased(s: Seq<u8>, order: ByteOrder, base: int, ifd: int, follow: bool) -> (Seq<u8>, bool)
    decreases (if follow { 1int } else { 0 }), 0x1_0000int,
{
    let start = base + ifd;
    if start + 2 > s.len() {
        (s, false)
    } else {
        let count = byte_order::u16_at(order, s, start);
        rebased_from(s, order, base, start, 0, count as nat, follow)
    }
}

/// Rebasing neither makes the sequence longer nor shorter, and the bytes
/// before `base` stay as they are.
pub proof fn law_rebase_keeps_what_is_before(s: Seq<u8>, order: ByteOrder, base: int, ifd: int, follow: bool)
    requires
        0 <= base <= s.len(),
        0 <= ifd,
    ensures
        rebased(s, order, base, ifd, follow).0.len() == s.len(),
        rebased(s, order, base, ifd, follow).0.take(base) == s.take(base),
    decreases (if follow { 1int } else { 0 }), 0x1_0000int,
{
    let start = base + ifd;
    if start + 2 <= s.len() {
        let count = byte_order::u16_at(order, s, start);
        lemma_rebase_entries(s, order, base, start, 0, count as nat, follow);
    }
}

proof fn lemma_rebase_entries(s: Seq<u8>, order: ByteOrder, base: int, start: int, i: nat, count: nat, follow: bool)
    requires
        0 <= base <= s.len(),
        base <= start,
        count <= 0xFFFF,
    ensures
        rebased_from(s, order, base, start, i, count, follow).0.len() == s.len(),
        rebased_from(s, order, base, start, i, count, follow).0.take(base) == s.take(base),
    decreases (if follow { 1int } else { 0 }), count - i,
{
    let at = start + 2 + 12 * i;
    if i < count && at + 12 <= s.len() {
        let e = s.subrange(at, at + 12);
        if !holds_offset(order, e) {
            lemma_rebase_entries(s, order, base, start, i + 1, count, follow);
        } else {
            let old = ifd::value_of(order, e);
            if old + base <= u32::MAX {
                let moved = overwritten(s, at + 8, byte_order::u32_seq(order, old + base));
                assert(moved.take(base) =~= s.take(base));
                let followed = if is_interop(order, e) && follow {
                    rebased(moved, order, base, old, false).0
                } else {
                    moved
                };
                if is_interop(order, e) && follow {
                    law_rebase_keeps_what_is_before(moved, order, base, old, false);
                }
                lemma_rebase_entries(followed, order, base, start, i + 1, count, follow);
            }
        }
    }
}

/// The value of the `k`-th entry of an IFD whose interoperability IFD is not
/// followed: an offset has `base` added, and the rest stays.
pub open spec fn entry_moved(s: Seq<u8>, t: Seq<u8>, order: ByteOrder, base: int, start: int, k: int) -> bool {
    let at = start + 2 + 12 * k;
    let before = s.subrange(at, at + 12);
    let after = t.subrange(at, at + 12);
    &&& after.take(8) == before.take(8)
    &&& ifd::value_of(order, after) == ifd::value_of(order, before) + if holds_offset(order, before) {
        base
    } else {
        0
    }
}

/// Rebasing an IFD that succeeds adds `base` to each entry's offset and to
/// nothing else in the entry.
pub proof fn law_rebase_moves_every_offset(s: Seq<u8>, order: ByteOrder, base: int, ifd: int, k: int)
    requires
        0 <= base <= s.len(),
        0 <= ifd,
        rebased(s, order, base, ifd, false).1,
        0 <= k < byte_order::u16_at(order, s, base + ifd),
    ensures
        entry_moved(s, rebased(s, order, base, ifd, false).0, order, base, base + ifd, k),
{
    let start = base + ifd;
    let count = byte_order::u16_at(order, s, start);
    lemma_rebase_each(s, order, base, start, 0, count as nat, k);
}

proof fn lemma_rebase_each(s: Seq<u8>, order: ByteOrder, base: int, start: int, i: nat, count: nat, k: int)
    requires
        0 <= base <= s.len(),
        base <= start,
        rebased_from(s, order, base, start, i, count, false).1,
        0 <= k < count,
    ensures
        ({
            let t = rebased_from(s, order, base, start, i, count, false).0;
            &&& t.len() == s.len()
            &&& k >= i ==> entry_moved(s, t, order, base, start, k)
            &&& k < i ==> t.subrange(start + 2 + 12 * k, start + 14 + 12 * k) == s.subrange(
                start + 2 + 12 * k,
                start + 14 + 12 * k,
            )
            &&& k >= i ==> start + 14 + 12 * k <= s.len()
        }),
    decreases count - i,
{
    let at = start + 2 + 12 * i;
    if i < count {
        let e = s.subrange(at, at + 12);
        if !holds_offset(order, e) {
            lemma_rebase_each(s, order, base, start, i + 1, count, k);
        } else {
            let old = ifd::value_of(order, e);
            let bytes = byte_order::u32_seq(order, old + base);
            let moved = overwritten(s, at + 8, bytes);
            lemma_rebase_each(moved, order, base, start, i + 1, count, k);
            byte_order::law_u32_bytes_read_back(order, (old + base) as u32);
            let here = start + 2 + 12 * k;
            if k == i {
                let after = moved.subrange(at, at + 12);
                assert(after.take(8) =~= e.take(8));
                assert(after.subrange(8, 12) =~= bytes);
                byte_order::lemma_u32_of_subrange(order, after, 8);
            } else if k > i {
                assert(moved.subrange(here, here + 12) =~= s.subrange(here, here + 12));
            } else {
                assert(moved.subrange(here, here + 12) =~= s.subrange(here, here + 12));
            }
        }
    }
}

/// Writes a number over four bytes.
fn put_u32(out: &mut Vec<u8>, order: ByteOrder, at: usize, v: u32)
    requires
        at + 4 <= old(out)@.len(),
    ensures
        final(out)@ == overwritten(old(out)@, at as int, byte_order::u32_seq(order, v as int)),
{
    let bytes = order.u32_bytes(v);
    let ghost before = out@;
    assert(out@.len() == out.len());
    out.set(at, bytes[0]);
    out.set(at + 1, bytes[1]);
    out.set(at + 2, bytes[2]);
    out.set(at + 3, bytes[3]);
    proof {
        byte_order::law_u32_bytes_read_back(order, v);
        assert(out@ =~= overwritten(before, at as int, byte_order::u32_seq(order, v as int)));
    }
}

/// A block was appended to `out` at `base`. Add `base` to every offset in
/// its IFD at `ifd`: the values that do not fit in an entry, and the
/// pointer to the interoperability IFD, whose own offsets move too.
/// False when the IFD does not fit inside `out`, and `out` is then
/// partly changed.
pub fn rebase_ifd(out: &mut Vec<u8>, order: ByteOrder, base: u32, ifd: u32, follow_interop: bool) -> (r: bool)
    ensures
        (final(out)@, r) == rebased(old(out)@, order, base as int, ifd as int, follow_interop),
    decreases (if follow_interop { 1int } else { 0 }),
{
    let start: u64 = base as u64 + ifd as u64;
    if start + 2 > out.len() as u64 {
        return false;
    }
    let count: u64 = order.u16_from(out.as_slice(), start as usize) as u64;
    let ghost first = out@;
    let mut i: u64 = 0;
    while i < count
        invariant
            i <= count,
            count <= 0xFFFF,
            start == base + ifd,
            first == old(out)@,
            rebased_from(out@, order, base as int, start as int, i as nat, count as nat, follow_interop) == rebased(
                first,
                order,
                base as int,
                ifd as int,
                follow_interop,
            ),
        decreases count - i,
    {
        let at: u64 = start + 2 + 12 * i;
        if at + 12 > out.len() as u64 {
            return false;
        }
        let bytes = slice_subrange(out.as_slice(), at as usize, at as usize + 12);
        let entry = Entry { order, bytes };
        let interop: bool = entry.tag() == TAG_INTEROP_IFD && entry.single().is_some();
        if entry.value_size() > 4 || interop {
            let old: u32 = entry.value_or_offset();
            if old > u32::MAX - base {
                return false;
            }
            put_u32(out, order, at as usize + 8, old + base);
            if interop && follow_interop {
                rebase_ifd(out, order, base, old, false);
            }
        }
        i += 1;
    }
    true
}

/// The sequence with an even length.
pub open spec fn padded(s: Seq<u8>) -> Seq<u8> {
    if s.len() % 2 == 0 {
        s
    } else {
        s.push(0)
    }
}

/// A block behind `out`, with its offsets moved, and where its IFD is then. A
/// block that has no header, another byte order or a broken IFD is left out.
#[verifier::opaque]
pub open spec fn appended(out: Seq<u8>, order: ByteOrder, block: Option<Seq<u8>>) -> (Seq<u8>, Option<int>) {
    match block {
        Some(block) => match ifd::header_spec(block) {
            Some((block_order, first)) => {
                let even = padded(out);
                let base = even.len() as int;
                let moved = rebased(even + block, order, base, first, true);
                if block_order != order {
                    (out, None)
                } else if moved.1 {
                    (moved.0, Some(base + first))
                } else {
                    (even, None)
                }
            },
            None => (out, None),
        },
        None => (out, None),
    }
}

/// The entries without those that point to an Exif or a GPS IFD.
pub open spec fn kept(order: ByteOrder, entries: Seq<u8>, n: nat) -> Seq<u8>
    decreases n,
{
    if n == 0 {
        Seq::empty()
    } else {
        let e = ifd::entry_at(entries, n - 1);
        let tag = ifd::tag_of(order, e);
        if tag == TAG_EXIF_IFD || tag == TAG_GPS_IFD {
            kept(order, entries, (n - 1) as nat)
        } else {
            kept(order, entries, (n - 1) as nat) + e
        }
    }
}

/// The entry that points to an IFD.
pub open spec fn pointer(order: ByteOrder, tag: u16, at: Option<int>) -> Seq<u8> {
    match at {
        Some(at) => byte_order::u16_seq(order, tag as int) + byte_order::u16_seq(order, TYPE_LONG as int)
            + byte_order::u32_seq(order, 1) + byte_order::u32_seq(order, at),
        None => Seq::empty(),
    }
}

/// Behind how many of the first `k` entries an entry with this tag goes.
pub open spec fn place_of(order: ByteOrder, entries: Seq<u8>, tag: int, k: nat) -> nat
    decreases k,
{
    if k == 0 || ifd::tag_of(order, ifd::entry_at(entries, k - 1)) <= tag {
        k
    } else {
        place_of(order, entries, tag, (k - 1) as nat)
    }
}

/// The first `n` entries in the order of their tags. Entries with the same
/// tag keep their order.
pub open spec fn by_tag(order: ByteOrder, entries: Seq<u8>, n: nat) -> Seq<u8>
    decreases n,
{
    if n == 0 {
        Seq::empty()
    } else {
        let before = by_tag(order, entries, (n - 1) as nat);
        let e = ifd::entry_at(entries, n - 1);
        let k = 12 * place_of(order, before, ifd::tag_of(order, e), (n - 1) as nat);
        before.take(k as int) + e + before.skip(k as int)
    }
}

/// The entries of the new IFD0.
pub open spec fn new_entries(order: ByteOrder, entries: Seq<u8>, exif_at: Option<int>, gps_at: Option<int>) -> Seq<u8> {
    let list = kept(order, entries, (entries.len() / 12) as nat) + pointer(order, TAG_EXIF_IFD, exif_at) + pointer(
        order,
        TAG_GPS_IFD,
        gps_at,
    );
    by_tag(order, list, (list.len() / 12) as nat)
}

/// `out` with a new IFD0 at its end and a header that points to it.
pub open spec fn with_ifd0(order: ByteOrder, out: Seq<u8>, entries: Seq<u8>) -> Seq<u8> {
    let even = padded(out);
    let all = even + byte_order::u16_seq(order, (entries.len() / 12) as int % 0x1_0000) + entries + seq![0u8, 0, 0, 0];
    overwritten(all, 4, byte_order::u32_seq(order, even.len() as int))
}

/// The block that `join_exif` builds.
pub open spec fn joined(ifd0: Seq<u8>, exif: Option<Seq<u8>>, gps: Option<Seq<u8>>) -> Option<Seq<u8>> {
    match ifd::header_spec(ifd0) {
        Some((order, at)) => match ifd::entries_spec(ifd0, order, at) {
            Some(entries) => {
                let with_exif = appended(ifd0, order, exif);
                let with_gps = appended(with_exif.0, order, gps);
                Some(with_ifd0(order, with_gps.0, new_entries(order, entries, with_exif.1, with_gps.1)))
            },
            None => None,
        },
        None => None,
    }
}

/// Makes the length even.
fn pad(out: &mut Vec<u8>)
    ensures
        final(out)@ == padded(old(out)@),
{
    if out.len() % 2 != 0 {
        out.push(0);
    }
}

/// Appends bytes.
fn push_bytes(out: &mut Vec<u8>, bytes: &[u8])
    ensures
        final(out)@ == old(out)@ + bytes@,
{
    let ghost before = out@;
    let mut i: usize = 0;
    while i < bytes.len()
        invariant
            i <= bytes@.len(),
            out@ == before + bytes@.take(i as int),
        decreases bytes@.len() - i,
    {
        out.push(bytes[i]);
        i += 1;
        assert(out@ =~= before + bytes@.take(i as int));
    }
    assert(bytes@.take(bytes@.len() as int) =~= bytes@);
}

/// The bytes of a block that may be there.
pub open spec fn view_of(block: Option<&[u8]>) -> Option<Seq<u8>> {
    match block {
        Some(b) => Some(b@),
        None => None,
    }
}

/// The length of a block that may be there.
pub open spec fn len_of(block: Option<&[u8]>) -> nat {
    match block {
        Some(b) => b@.len(),
        None => 0,
    }
}

/// Appends a block and moves its offsets. Gives where its IFD is then.
fn append_block(out: &mut Vec<u8>, order: ByteOrder, block: Option<&[u8]>) -> (r: Option<u32>)
    requires
        old(out)@.len() + len_of(block) + 1 <= u32::MAX,
    ensures
        final(out)@ == appended(old(out)@, order, view_of(block)).0,
        number_of(r) == appended(old(out)@, order, view_of(block)).1,
        old(out)@.len() <= final(out)@.len() <= old(out)@.len() + 1 + len_of(block),
{
    reveal(appended);
    let block = match block {
        Some(block) => block,
        None => return None,
    };
    let (block_order, first) = match header_of(block) {
        Some(header) => header,
        None => return None,
    };
    if block_order != order {
        return None;
    }
    pad(out);
    let base: u32 = out.len() as u32;
    let ghost even = out@;
    push_bytes(out, block);
    proof {
        law_rebase_keeps_what_is_before(out@, order, base as int, first as int, true);
        lemma_rebased_is_inside(out@, order, base as int, first as int, true);
    }
    if rebase_ifd(out, order, base, first, true) {
        Some(base + first)
    } else {
        out.truncate(base as usize);
        assert(out@ =~= even) by {
            assert((even + block@).take(base as int) =~= even);
        }
        None
    }
}

/// An IFD that was rebased starts inside the sequence.
proof fn lemma_rebased_is_inside(s: Seq<u8>, order: ByteOrder, base: int, ifd: int, follow: bool)
    ensures
        rebased(s, order, base, ifd, follow).1 ==> base + ifd + 2 <= s.len(),
{
}

/// How long the kept entries are.
proof fn lemma_kept_len(order: ByteOrder, entries: Seq<u8>, n: nat)
    requires
        12 * n <= entries.len(),
    ensures
        kept(order, entries, n).len() <= 12 * n,
        kept(order, entries, n).len() % 12 == 0,
    decreases n,
{
    if n > 0 {
        lemma_kept_len(order, entries, (n - 1) as nat);
    }
}

/// The entries without those that point to an Exif or a GPS IFD.
fn keep_entries(order: ByteOrder, entries: &[u8]) -> (r: Vec<u8>)
    requires
        entries@.len() % 12 == 0,
    ensures
        r@ == kept(order, entries@, (entries@.len() / 12) as nat),
        r@.len() % 12 == 0,
        r@.len() <= entries@.len(),
{
    let mut r: Vec<u8> = Vec::new();
    let count: usize = entries.len() / 12;
    let mut i: usize = 0;
    while i < count
        invariant
            i <= count,
            12 * count == entries@.len(),
            r@ == kept(order, entries@, i as nat),
        decreases count - i,
    {
        let entry = entry_from(order, entries, i);
        let tag: u16 = entry.tag();
        if tag != TAG_EXIF_IFD && tag != TAG_GPS_IFD {
            push_bytes(&mut r, entry.bytes);
        }
        i += 1;
    }
    proof {
        lemma_kept_len(order, entries@, count as nat);
    }
    r
}

/// Appends the entry that points to an IFD.
fn push_pointer(list: &mut Vec<u8>, order: ByteOrder, tag: u16, at: Option<u32>)
    ensures
        final(list)@ == old(list)@ + pointer(order, tag, number_of(at)),
        final(list)@.len() == old(list)@.len() || final(list)@.len() == old(list)@.len() + 12,
{
    let ghost before = list@;
    match at {
        Some(at) => {
            push_bytes(list, &order.u16_bytes(tag));
            push_bytes(list, &order.u16_bytes(TYPE_LONG));
            push_bytes(list, &order.u32_bytes(1));
            push_bytes(list, &order.u32_bytes(at));
            proof {
                byte_order::law_u16_bytes_read_back(order, tag);
                byte_order::law_u16_bytes_read_back(order, TYPE_LONG);
                byte_order::law_u32_bytes_read_back(order, 1);
                byte_order::law_u32_bytes_read_back(order, at);
                assert(list@ =~= before + pointer(order, tag, Some(at as int)));
            }
        },
        None => {
            assert(list@ =~= before + pointer(order, tag, None));
        },
    }
}

/// Sorting keeps the number of entries, and a place is among the entries.
proof fn lemma_by_tag_len(order: ByteOrder, entries: Seq<u8>, n: nat)
    requires
        12 * n <= entries.len(),
    ensures
        by_tag(order, entries, n).len() == 12 * n,
    decreases n,
{
    if n > 0 {
        lemma_by_tag_len(order, entries, (n - 1) as nat);
        let before = by_tag(order, entries, (n - 1) as nat);
        let e = ifd::entry_at(entries, n - 1);
        lemma_place_bound(order, before, ifd::tag_of(order, e), (n - 1) as nat);
    }
}

proof fn lemma_place_bound(order: ByteOrder, entries: Seq<u8>, tag: int, k: nat)
    ensures
        place_of(order, entries, tag, k) <= k,
    decreases k,
{
    if k > 0 {
        lemma_place_bound(order, entries, tag, (k - 1) as nat);
    }
}

/// The entries in the order of their tags.
fn sort_entries(order: ByteOrder, entries: &Vec<u8>) -> (r: Vec<u8>)
    requires
        entries@.len() % 12 == 0,
    ensures
        r@ == by_tag(order, entries@, (entries@.len() / 12) as nat),
        r@.len() == entries@.len(),
{
    let mut r: Vec<u8> = Vec::new();
    let count: usize = entries.len() / 12;
    let mut i: usize = 0;
    while i < count
        invariant
            i <= count,
            12 * count == entries@.len(),
            r@ == by_tag(order, entries@, i as nat),
            r@.len() == 12 * i,
        decreases count - i,
    {
        let entry = entry_from(order, entries.as_slice(), i);
        let tag: u16 = entry.tag();
        let mut k: usize = i;
        while k > 0 && entry_from(order, r.as_slice(), k - 1).tag() > tag
            invariant
                k <= i,
                r@.len() == 12 * i,
                place_of(order, r@, tag as int, k as nat) == place_of(order, r@, tag as int, i as nat),
            decreases k,
        {
            k -= 1;
        }
        let ghost before = r@;
        assert(r@.len() == r.len());
        let mut tail = r.split_off(12 * k);
        push_bytes(&mut r, entry.bytes);
        r.append(&mut tail);
        proof {
            assert(r@ =~= before.take(12 * k as int) + entry.bytes@ + before.skip(12 * k as int));
        }
        i += 1;
    }
    r
}

/// A number that may be there.
pub open spec fn number_of(at: Option<u32>) -> Option<int> {
    match at {
        Some(at) => Some(at as int),
        None => None,
    }
}

/// The entries of the new IFD0.
fn collect_entries(order: ByteOrder, entries: &[u8], exif_at: Option<u32>, gps_at: Option<u32>) -> (r: Vec<u8>)
    requires
        entries@.len() % 12 == 0,
    ensures
        r@ == new_entries(order, entries@, number_of(exif_at), number_of(gps_at)),
{
    let mut list = keep_entries(order, entries);
    push_pointer(&mut list, order, TAG_EXIF_IFD, exif_at);
    push_pointer(&mut list, order, TAG_GPS_IFD, gps_at);
    sort_entries(order, &list)
}

/// Appends a new IFD0 and points the header to it.
fn append_ifd0(out: &mut Vec<u8>, order: ByteOrder, entries: &Vec<u8>)
    requires
        8 <= old(out)@.len(),
        old(out)@.len() + 1 <= u32::MAX,
    ensures
        final(out)@ == with_ifd0(order, old(out)@, entries@),
{
    pad(out);
    let new_ifd0: u32 = out.len() as u32;
    let ghost even = out@;
    let count: u16 = ((entries.len() / 12) % 0x1_0000) as u16;
    push_bytes(out, &order.u16_bytes(count));
    push_bytes(out, entries.as_slice());
    let none: [u8; 4] = [0, 0, 0, 0];
    push_bytes(out, &none);
    assert(none@ =~= seq![0u8, 0, 0, 0]);
    put_u32(out, order, 4, new_ifd0);
}

/// One TIFF block out of Canon's separate ones. `ifd0` stays as it is, so
/// its offsets stay right. The Exif and the GPS block are appended, and
/// the offsets in their IFDs get the block's new position added. A new
/// IFD0 at the end has the old entries and the pointers to the two
/// appended IFDs, and the header points to it.
///
/// The offsets in a TIFF block have 32 bits, so the three blocks together
/// must be no longer than they reach.
pub fn join_exif(ifd0: &[u8], exif: Option<&[u8]>, gps: Option<&[u8]>) -> (r: Option<Vec<u8>>)
    requires
        ifd0@.len() + len_of(exif) + len_of(gps) + 3 <= u32::MAX,
    ensures
        match r {
            Some(block) => joined(ifd0@, view_of(exif), view_of(gps)) == Some(block@),
            None => joined(ifd0@, view_of(exif), view_of(gps)) is None,
        },
{
    let (order, ifd0_at) = match header_of(ifd0) {
        Some(header) => header,
        None => return None,
    };
    let entries = match entries_of(ifd0, order, ifd0_at) {
        Some(entries) => entries,
        None => return None,
    };
    let mut out: Vec<u8> = slice_to_vec(ifd0);
    assert(out@ =~= ifd0@);
    let exif_at = append_block(&mut out, order, exif);
    let gps_at = append_block(&mut out, order, gps);
    let sorted = collect_entries(order, entries, exif_at, gps_at);
    append_ifd0(&mut out, order, &sorted);
    Some(out)
}

/// The first block keeps its own bytes, but for the four of the header that
/// say where IFD0 is. So the offsets in its entries stay right.
pub proof fn law_join_keeps_the_first_block(ifd0: Seq<u8>, exif: Option<Seq<u8>>, gps: Option<Seq<u8>>, i: int)
    requires
        joined(ifd0, exif, gps) is Some,
        0 <= i < ifd0.len(),
        i < 4 || 8 <= i,
    ensures
        joined(ifd0, exif, gps).unwrap().len() > ifd0.len(),
        joined(ifd0, exif, gps).unwrap()[i] == ifd0[i],
{
    let (order, at) = ifd::header_spec(ifd0).unwrap();
    let entries = ifd::entries_spec(ifd0, order, at).unwrap();
    let with_exif = appended(ifd0, order, exif);
    let with_gps = appended(with_exif.0, order, gps);
    lemma_appended_keeps(ifd0, order, exif);
    lemma_appended_keeps(with_exif.0, order, gps);
    assert(with_exif.0.take(ifd0.len() as int)[i] == ifd0.take(ifd0.len() as int)[i]);
    assert(with_gps.0.take(with_exif.0.len() as int)[i] == with_exif.0.take(with_exif.0.len() as int)[i]);
}

proof fn lemma_appended_keeps(out: Seq<u8>, order: ByteOrder, block: Option<Seq<u8>>)
    ensures
        appended(out, order, block).0.len() >= out.len(),
        appended(out, order, block).0.take(out.len() as int) == out.take(out.len() as int),
{
    reveal(appended);
    match block {
        Some(b) => {
            match ifd::header_spec(b) {
                Some((_, first)) => {
                    let even = padded(out);
                    let base = even.len() as int;
                    law_rebase_keeps_what_is_before(even + b, order, base, first, true);
                    let moved = rebased(even + b, order, base, first, true).0;
                    assert((even + b).take(base) =~= even);
                    assert(moved.take(out.len() as int) =~= moved.take(base).take(out.len() as int));
                    assert(even.take(out.len() as int) =~= out.take(out.len() as int));
                },
                None => {},
            }
        },
        None => {},
    }
}

proof fn lemma_place_splits(order: ByteOrder, entries: Seq<u8>, tag: int, k: nat)
    ensures
        ({
            let p = place_of(order, entries, tag, k);
            &&& p <= k
            &&& p > 0 ==> ifd::tag_of(order, ifd::entry_at(entries, p - 1)) <= tag
            &&& forall|i: int|
                p <= i < k ==> ifd::tag_of(order, #[trigger] ifd::entry_at(entries, i)) > tag
        }),
    decreases k,
{
    if k > 0 {
        lemma_place_splits(order, entries, tag, (k - 1) as nat);
    }
}

/// Sorting one more entry puts it between two of those that are sorted.
proof fn lemma_by_tag_step(order: ByteOrder, entries: Seq<u8>, n: nat)
    requires
        0 < n,
        12 * n <= entries.len(),
    ensures
        ({
            let before = by_tag(order, entries, (n - 1) as nat);
            let e = ifd::entry_at(entries, n - 1);
            let p = place_of(order, before, ifd::tag_of(order, e), (n - 1) as nat) as int;
            forall|i: int|
                0 <= i < n ==> #[trigger] ifd::entry_at(by_tag(order, entries, n), i) == (if i < p {
                    ifd::entry_at(before, i)
                } else if i == p {
                    e
                } else {
                    ifd::entry_at(before, i - 1)
                })
        }),
{
    let m = (n - 1) as nat;
    lemma_by_tag_len(order, entries, m);
    let before = by_tag(order, entries, m);
    let e = ifd::entry_at(entries, m as int);
    let tag = ifd::tag_of(order, e);
    lemma_place_bound(order, before, tag, m);
    let p = place_of(order, before, tag, m) as int;
    let after = by_tag(order, entries, n);
    assert(after == before.take(12 * p) + e + before.skip(12 * p));
    assert forall|i: int| 0 <= i < n implies #[trigger] ifd::entry_at(after, i) == (if i < p {
        ifd::entry_at(before, i)
    } else if i == p {
        e
    } else {
        ifd::entry_at(before, i - 1)
    }) by {
        if i < p {
            assert(ifd::entry_at(after, i) =~= ifd::entry_at(before, i));
        } else if i == p {
            assert(ifd::entry_at(after, i) =~= e);
        } else {
            assert(ifd::entry_at(after, i) =~= ifd::entry_at(before, i - 1));
        }
    }
}

/// The first `n` entries, one by one.
pub open spec fn entry_list(entries: Seq<u8>, n: nat) -> Seq<Seq<u8>> {
    Seq::new(n, |i: int| ifd::entry_at(entries, i))
}

/// Sorting keeps exactly the entries: none is lost, none is new, and none comes
/// more often.
pub proof fn law_sorting_keeps_the_entries(order: ByteOrder, entries: Seq<u8>, n: nat)
    requires
        12 * n <= entries.len(),
    ensures
        entry_list(by_tag(order, entries, n), n).to_multiset() == entry_list(entries, n).to_multiset(),
    decreases n,
{
    if n == 0 {
        assert(entry_list(by_tag(order, entries, n), n) =~= entry_list(entries, n));
    } else {
        let m = (n - 1) as nat;
        law_sorting_keeps_the_entries(order, entries, m);
        lemma_by_tag_step(order, entries, n);
        let before = by_tag(order, entries, m);
        let e = ifd::entry_at(entries, m as int);
        let tag = ifd::tag_of(order, e);
        lemma_place_bound(order, before, tag, m);
        let p = place_of(order, before, tag, m) as int;
        let sorted = entry_list(before, m);
        let all = entry_list(entries, m);
        assert(entry_list(by_tag(order, entries, n), n) =~= sorted.insert(p, e));
        assert(entry_list(entries, n) =~= all.push(e));
        vstd::seq_lib::to_multiset_insert(sorted, p, e);
        vstd::seq_lib::to_multiset_build(all, e);
    }
}

/// The sorted entries are in the order of their tags.
pub proof fn law_entries_are_in_tag_order(order: ByteOrder, entries: Seq<u8>, n: nat)
    requires
        12 * n <= entries.len(),
    ensures
        forall|i: int, j: int|
            0 <= i < j < n ==> ifd::tag_of(
                order,
                #[trigger] ifd::entry_at(by_tag(order, entries, n), i),
            ) <= ifd::tag_of(order, #[trigger] ifd::entry_at(by_tag(order, entries, n), j)),
    decreases n,
{
    if n > 0 {
        let m = (n - 1) as nat;
        law_entries_are_in_tag_order(order, entries, m);
        lemma_by_tag_len(order, entries, m);
        let before = by_tag(order, entries, m);
        let e = ifd::entry_at(entries, m as int);
        let tag = ifd::tag_of(order, e);
        lemma_place_splits(order, before, tag, m);
        let p = place_of(order, before, tag, m) as int;
        let after = by_tag(order, entries, n);
        lemma_by_tag_step(order, entries, n);
        assert forall|i: int, j: int| 0 <= i < j < n implies ifd::tag_of(
            order,
            #[trigger] ifd::entry_at(after, i),
        ) <= ifd::tag_of(order, #[trigger] ifd::entry_at(after, j)) by {
            let a = if i < p {
                i
            } else {
                i - 1
            };
            let b = if j < p {
                j
            } else {
                j - 1
            };
            if i < p && p > 0 {
                if i < p - 1 {
                    assert(ifd::tag_of(order, ifd::entry_at(before, i)) <= ifd::tag_of(
                        order,
                        ifd::entry_at(before, p - 1),
                    ));
                }
                assert(ifd::tag_of(order, ifd::entry_at(before, i)) <= tag);
            }
            if j > p {
                assert(ifd::tag_of(order, ifd::entry_at(before, j - 1)) > tag);
            }
            if i != p && j != p && a < b {
                assert(ifd::tag_of(order, ifd::entry_at(before, a)) <= ifd::tag_of(
                    order,
                    ifd::entry_at(before, b),
                ));
            }
        }
    }
}

proof fn lemma_new_entries_len(
    order: ByteOrder,
    entries: Seq<u8>,
    exif_at: Option<int>,
    gps_at: Option<int>,
)
    requires
        entries.len() % 12 == 0,
    ensures
        new_entries(order, entries, exif_at, gps_at).len() % 12 == 0,
{
    let n = (entries.len() / 12) as nat;
    lemma_kept_len(order, entries, n);
    let list = kept(order, entries, n) + pointer(order, TAG_EXIF_IFD, exif_at) + pointer(
        order,
        TAG_GPS_IFD,
        gps_at,
    );
    assert(pointer(order, TAG_EXIF_IFD, exif_at).len() % 12 == 0);
    assert(pointer(order, TAG_GPS_IFD, gps_at).len() % 12 == 0);
    assert(list.len() % 12 == 0);
    lemma_by_tag_len(order, list, (list.len() / 12) as nat);
}

/// Whether a block cannot be joined: it has no header, it is in another byte
/// order, or the entries of its IFD pass its end.
pub open spec fn cannot_join(order: ByteOrder, block: Seq<u8>) -> bool {
    match ifd::header_spec(block) {
        Some((block_order, first)) => block_order != order || ifd::entries_spec(block, order, first) is None,
        None => true,
    }
}

/// An IFD whose entries pass the end is not moved as a whole.
proof fn lemma_rebase_fails(s: Seq<u8>, order: ByteOrder, base: int, start: int, i: nat, count: nat, follow: bool)
    requires
        0 <= base <= start,
        base <= s.len(),
        i < count <= 0xFFFF,
        start + 2 + 12 * count > s.len(),
    ensures
        !rebased_from(s, order, base, start, i, count, follow).1,
    decreases count - i,
{
    let at = start + 2 + 12 * i;
    if at + 12 <= s.len() {
        assert(i + 1 < count);
        let e = s.subrange(at, at + 12);
        if !holds_offset(order, e) {
            lemma_rebase_fails(s, order, base, start, i + 1, count, follow);
        } else {
            let old = ifd::value_of(order, e);
            if old + base <= u32::MAX {
                let moved = overwritten(s, at + 8, byte_order::u32_seq(order, old + base));
                let followed = if is_interop(order, e) && follow {
                    rebased(moved, order, base, old, false).0
                } else {
                    moved
                };
                if is_interop(order, e) && follow {
                    law_rebase_keeps_what_is_before(moved, order, base, old, false);
                }
                lemma_rebase_fails(followed, order, base, start, i + 1, count, follow);
            }
        }
    }
}

/// A block that cannot be joined leaves at most an even length behind.
proof fn lemma_nothing_appended(out: Seq<u8>, order: ByteOrder, block: Seq<u8>)
    requires
        cannot_join(order, block),
    ensures
        appended(out, order, Some(block)).1 is None,
        appended(out, order, Some(block)).0 == out || appended(out, order, Some(block)).0 == padded(out),
{
    reveal(appended);
    if let Some((block_order, first)) = ifd::header_spec(block) {
        if block_order == order {
            let even = padded(out);
            let base = even.len() as int;
            let s = even + block;
            let start = base + first;
            if start + 2 <= s.len() {
                assert(byte_order::u16_at(order, s, start) == byte_order::u16_at(order, block, first));
                let count = byte_order::u16_at(order, block, first);
                lemma_rebase_fails(s, order, base, start, 0, count as nat, true);
            }
        }
    }
}

/// What is appended to an even length is the same, but for the even length.
proof fn lemma_appended_to_even(out: Seq<u8>, order: ByteOrder, block: Option<Seq<u8>>)
    ensures
        appended(padded(out), order, block).1 == appended(out, order, block).1,
        padded(appended(padded(out), order, block).0) == padded(appended(out, order, block).0),
{
    reveal(appended);
    assert(padded(padded(out)) == padded(out));
}

/// An Exif or a GPS block that cannot be joined leaves no trace: the joined
/// block is the one without it.
pub proof fn law_a_broken_block_leaves_no_trace(ifd0: Seq<u8>, other: Option<Seq<u8>>, bad: Seq<u8>)
    requires
        ifd::header_spec(ifd0) matches Some((order, at)) ==> cannot_join(order, bad),
    ensures
        joined(ifd0, Some(bad), other) == joined(ifd0, None, other),
        joined(ifd0, other, Some(bad)) == joined(ifd0, other, None),
{
    if let Some((order, at)) = ifd::header_spec(ifd0) {
        assert(appended(ifd0, order, None) == (ifd0, None::<int>)) by {
            reveal(appended);
        }
        lemma_nothing_appended(ifd0, order, bad);
        lemma_appended_to_even(ifd0, order, other);
        let with_exif = appended(ifd0, order, other).0;
        assert(appended(with_exif, order, None) == (with_exif, None::<int>)) by {
            reveal(appended);
        }
        lemma_nothing_appended(with_exif, order, bad);
        assert(padded(padded(with_exif)) == padded(with_exif));
    }
}

/// The joined block has the byte order of the first one, its header points to
/// the new IFD0, and the entries there are the old ones without the pointers
/// that they had and with the new ones, as long as their number fits in its
/// two bytes.
#[verifier::spinoff_prover]
#[verifier::rlimit(40)]
pub proof fn law_the_joined_block_reads_back(
    ifd0: Seq<u8>,
    exif: Option<Seq<u8>>,
    gps: Option<Seq<u8>>,
)
    requires
        joined(ifd0, exif, gps) is Some,
        joined(ifd0, exif, gps).unwrap().len() <= u32::MAX,
        ({
            let (order, at) = ifd::header_spec(ifd0).unwrap();
            let with_exif = appended(ifd0, order, exif);
            let with_gps = appended(with_exif.0, order, gps);
            new_entries(
                order,
                ifd::entries_spec(ifd0, order, at).unwrap(),
                with_exif.1,
                with_gps.1,
            ).len() < 12 * 0x1_0000
        }),
    ensures
        ({
            let (order, at) = ifd::header_spec(ifd0).unwrap();
            let with_exif = appended(ifd0, order, exif);
            let with_gps = appended(with_exif.0, order, gps);
            let block = joined(ifd0, exif, gps).unwrap();
            let new_at = padded(with_gps.0).len() as int;
            &&& ifd::header_spec(block) == Some((order, new_at))
            &&& ifd::entries_spec(block, order, new_at) == Some(
                new_entries(
                    order,
                    ifd::entries_spec(ifd0, order, at).unwrap(),
                    with_exif.1,
                    with_gps.1,
                ),
            )
        }),
{
    let (order, at) = ifd::header_spec(ifd0).unwrap();
    let old_entries = ifd::entries_spec(ifd0, order, at).unwrap();
    let with_exif = appended(ifd0, order, exif);
    let with_gps = appended(with_exif.0, order, gps);
    let entries = new_entries(order, old_entries, with_exif.1, with_gps.1);
    let even = padded(with_gps.0);
    let block = with_ifd0(order, with_gps.0, entries);
    let count = (entries.len() / 12) as int;
    lemma_appended_keeps(ifd0, order, exif);
    lemma_appended_keeps(with_exif.0, order, gps);
    assert(old_entries.len() % 12 == 0);
    lemma_new_entries_len(order, old_entries, with_exif.1, with_gps.1);
    assert forall|i: int| 0 <= i < 4 implies block[i] == ifd0[i] by {
        law_join_keeps_the_first_block(ifd0, exif, gps, i);
    }
    let pointer_bytes = byte_order::u32_seq(order, even.len() as int);
    byte_order::law_u32_bytes_read_back(order, even.len() as u32);
    assert(block.subrange(4, 8) =~= pointer_bytes);
    byte_order::lemma_u32_of_subrange(order, block, 4);
    let count_bytes = byte_order::u16_seq(order, count);
    byte_order::law_u16_bytes_read_back(order, count as u16);
    let here = even.len() as int;
    assert(block.subrange(here, here + 2) =~= count_bytes);
    assert(byte_order::u16_at(order, block, here) == byte_order::u16_at(
        order,
        block.subrange(here, here + 2),
        0,
    ));
    assert(block.subrange(here + 2, here + 2 + 12 * count) =~= entries);
}

/// An entry holds an offset where its value takes more than four bytes, and where
/// it points to the interoperability IFD, tag 0xA005; in no other case.
pub proof fn law_which_entries_hold_an_offset(order: ByteOrder, e: Seq<u8>)
    ensures
        ifd::size_of_value(order, e) > 4 ==> holds_offset(order, e),
        ifd::size_of_value(order, e) <= 4 ==> (holds_offset(order, e) <==> ifd::tag_of(order, e) == 0xA005
            && ifd::count_of(order, e) == 1 && (ifd::kind_of(order, e) == 3 || ifd::kind_of(order, e) == 4
            || ifd::kind_of(order, e) == 13)),
{
}

/// An IFD is moved as a whole where it is inside and all of its offsets still fit
/// in four bytes afterwards, and only there.
pub proof fn law_when_an_ifd_can_be_moved(s: Seq<u8>, order: ByteOrder, base: int, ifd: int)
    requires
        0 <= base <= s.len(),
        0 <= ifd,
        base + ifd + 2 <= s.len(),
        base + ifd + 2 + 12 * byte_order::u16_at(order, s, base + ifd) <= s.len(),
    ensures
        rebased(s, order, base, ifd, false).1 <==> forall|k: int|
            0 <= k < byte_order::u16_at(order, s, base + ifd) && holds_offset(
                order,
                #[trigger] ifd::entry_at(s.skip(base + ifd + 2), k),
            ) ==> ifd::value_of(order, ifd::entry_at(s.skip(base + ifd + 2), k)) + base <= 0xFFFF_FFFF,
{
    lemma_offsets_fit(s, s, order, base, base + ifd, 0, byte_order::u16_at(order, s, base + ifd) as nat);
}

proof fn lemma_offsets_fit(s: Seq<u8>, t: Seq<u8>, order: ByteOrder, base: int, start: int, i: nat, count: nat)
    requires
        0 <= base <= start,
        s.len() == t.len(),
        start + 2 + 12 * count <= s.len(),
        i <= count,
        forall|p: int| start + 2 + 12 * i <= p < s.len() ==> s[p] == t[p],
    ensures
        rebased_from(t, order, base, start, i, count, false).1 <==> forall|k: int|
            i <= k < count && holds_offset(order, #[trigger] ifd::entry_at(s.skip(start + 2), k)) ==> ifd::value_of(
                order,
                ifd::entry_at(s.skip(start + 2), k),
            ) + base <= 0xFFFF_FFFF,
    decreases count - i,
{
    if i < count {
        let at = start + 2 + 12 * i;
        let e = t.subrange(at, at + 12);
        assert(e =~= ifd::entry_at(s.skip(start + 2), i as int));
        let old = ifd::value_of(order, e);
        if holds_offset(order, e) && old + base <= u32::MAX {
            let moved = overwritten(t, at + 8, byte_order::u32_seq(order, old + base));
            assert(byte_order::u32_seq(order, old + base).len() == 4);
            lemma_offsets_fit(s, moved, order, base, start, i + 1, count);
        } else if !holds_offset(order, e) {
            lemma_offsets_fit(s, t, order, base, start, i + 1, count);
        }
        let rest = forall|k: int|
            i + 1 <= k < count && holds_offset(order, #[trigger] ifd::entry_at(s.skip(start + 2), k)) ==> ifd::value_of(
                order,
                ifd::entry_at(s.skip(start + 2), k),
            ) + base <= 0xFFFF_FFFF;
        if rest && (holds_offset(order, e) ==> old + base <= u32::MAX) {
            assert forall|k: int|
                i <= k < count && holds_offset(order, #[trigger] ifd::entry_at(s.skip(start + 2), k)) implies ifd::value_of(
                order,
                ifd::entry_at(s.skip(start + 2), k),
            ) + base <= 0xFFFF_FFFF by {
                assert(k == i || k >= i + 1);
            }
        }
    }
}

/// The entry that points to the Exif IFD has tag 0x8769 and the one to the GPS IFD
/// 0x8825; both hold one long number, the place of the IFD.
pub proof fn law_a_pointer_names_its_ifd(order: ByteOrder, at: u32)
    ensures
        ({
            let exif = pointer(order, TAG_EXIF_IFD, Some(at as int));
            let gps = pointer(order, TAG_GPS_IFD, Some(at as int));
            &&& exif.len() == 12 && gps.len() == 12
            &&& ifd::tag_of(order, exif) == 0x8769 && ifd::tag_of(order, gps) == 0x8825
            &&& ifd::kind_of(order, exif) == 4 && ifd::kind_of(order, gps) == 4
            &&& ifd::count_of(order, exif) == 1 && ifd::count_of(order, gps) == 1
            &&& ifd::value_of(order, exif) == at && ifd::value_of(order, gps) == at
        }),
{
    lemma_pointer_parts(order, TAG_EXIF_IFD, at);
    lemma_pointer_parts(order, TAG_GPS_IFD, at);
}

proof fn lemma_pointer_parts(order: ByteOrder, tag: u16, at: u32)
    ensures
        ({
            let e = pointer(order, tag, Some(at as int));
            &&& e.len() == 12
            &&& ifd::tag_of(order, e) == tag
            &&& ifd::kind_of(order, e) == TYPE_LONG
            &&& ifd::count_of(order, e) == 1
            &&& ifd::value_of(order, e) == at
        }),
{
    let e = pointer(order, tag, Some(at as int));
    byte_order::law_u16_bytes_read_back(order, tag);
    byte_order::law_u16_bytes_read_back(order, TYPE_LONG);
    byte_order::law_u32_bytes_read_back(order, 1);
    byte_order::law_u32_bytes_read_back(order, at);
    assert(e.subrange(0, 2) =~= byte_order::u16_seq(order, tag as int));
    assert(e.subrange(2, 4) =~= byte_order::u16_seq(order, TYPE_LONG as int));
    assert(e.subrange(4, 8) =~= byte_order::u32_seq(order, 1));
    assert(e.subrange(8, 12) =~= byte_order::u32_seq(order, at as int));
    byte_order::lemma_u32_of_subrange(order, e, 4);
    byte_order::lemma_u32_of_subrange(order, e, 8);
    assert(byte_order::u16_at(order, e, 0) == byte_order::u16_at(order, e.subrange(0, 2), 0));
    assert(byte_order::u16_at(order, e, 2) == byte_order::u16_at(order, e.subrange(2, 4), 0));
}

/// Of the old entries all stay but those of tags 0x8769 and 0x8825.
pub proof fn law_only_pointers_are_dropped(order: ByteOrder, entries: Seq<u8>, n: nat, k: int)
    requires
        12 * n <= entries.len(),
    ensures
        kept(order, entries, n).len() % 12 == 0,
        ({
            let left = entry_list(kept(order, entries, n), kept(order, entries, n).len() / 12);
            let e = ifd::entry_at(entries, k);
            &&& 0 <= k < n && ifd::tag_of(order, e) != 0x8769 && ifd::tag_of(order, e) != 0x8825 ==> left.contains(e)
            &&& 0 <= k < left.len() ==> ifd::tag_of(order, left[k]) != 0x8769 && ifd::tag_of(order, left[k]) != 0x8825
        }),
    decreases n,
{
    lemma_kept_len(order, entries, n);
    if n > 0 {
        let m = (n - 1) as nat;
        law_only_pointers_are_dropped(order, entries, m, k);
        lemma_kept_len(order, entries, m);
        let before = kept(order, entries, m);
        let after = kept(order, entries, n);
        let a = entry_list(before, before.len() / 12);
        let b = entry_list(after, after.len() / 12);
        let last = ifd::entry_at(entries, n - 1);
        assert forall|i: int| 0 <= i < a.len() implies a[i] == #[trigger] b[i] by {
            assert(ifd::entry_at(after, i) =~= ifd::entry_at(before, i));
        }
        if after != before {
            assert(after == before + last);
            assert(ifd::entry_at(after, (before.len() / 12) as int) =~= last);
            assert(b[a.len() as int] == last);
        }
        let e = ifd::entry_at(entries, k);
        if 0 <= k < n - 1 && a.contains(e) {
            let i = choose|i: int| 0 <= i < a.len() && a[i] == e;
            assert(b[i] == e);
        }
    }
}

} // verus!

//! Where the containers of RAW files keep things, byte by byte.
use vstd::prelude::*;

use crate::raw;
use crate::raw::byte_order;
use crate::raw::byte_order::ByteOrder;
use crate::raw::cr3;
use crate::raw::exif_block;
use crate::raw::found;
use crate::raw::found::{Orientation, Span};
use crate::raw::ifd;
use crate::raw::olympus;
use crate::raw::raf;
use crate::raw::tiff;
use crate::raw::tiff::TiffHeader;

verus! {

/// In the little order the first byte counts least, in the big one most.
pub proof fn law_bytes_count_by_their_order(s: Seq<u8>, at: int)
    ensures
        byte_order::u16_at(ByteOrder::Little, s, at) == s[at] + 256 * s[at + 1],
        byte_order::u16_at(ByteOrder::Big, s, at) == 256 * s[at] + s[at + 1],
        byte_order::u32_at(ByteOrder::Little, s, at) == s[at] + 256 * s[at + 1] + 65536 * s[at + 2] + 16777216 * s[at
            + 3],
        byte_order::u32_at(ByteOrder::Big, s, at) == 16777216 * s[at] + 65536 * s[at + 1] + 256 * s[at + 2] + s[at
            + 3],
        byte_order::be64_at(s, at) == 4294967296 * byte_order::u32_at(ByteOrder::Big, s, at) + byte_order::u32_at(
            ByteOrder::Big,
            s,
            at + 4,
        ),
{
}

/// "II" at the start means the little order, "MM" the big one.
pub proof fn law_the_mark_gives_the_order(file: Seq<u8>)
    ensures
        file[0] == 'I' as u8 && file[1] == 'I' as u8 ==> ifd::order_mark(file) == Some(ByteOrder::Little),
        file[0] == 'M' as u8 && file[1] == 'M' as u8 ==> ifd::order_mark(file) == Some(ByteOrder::Big),
        file[0] != file[1] ==> ifd::order_mark(file) is None,
{
}

/// A file that starts with an order mark and the number 42, or the number of a
/// Panasonic or an Olympus file, is walked from the offset in its next four
/// bytes on.
pub proof fn law_a_tiff_header_is_known(file: Seq<u8>, order: ByteOrder)
    requires
        file.len() >= 8,
        ifd::order_mark(file) == Some(order),
    ensures
        ({
            let magic = byte_order::u16_at(order, file, 2);
            let known = magic == 42 || magic == 0x55 || magic == 0x4F52 || magic == 0x5352;
            &&& tiff::tiff_header(file) is Some <==> known
            &&& known ==> tiff::tiff_header(file) == Some(
                TiffHeader { order, magic: magic as u16, ifd0: byte_order::u32_at(order, file, 4) as u64 },
            )
            &&& ifd::header_spec(file) is Some <==> magic == 42
            &&& magic == 42 ==> ifd::header_spec(file) == Some((order, byte_order::u32_at(order, file, 4)))
        }),
{
}

/// An entry is its tag, its type, its count and its value, in this order.
pub proof fn law_the_parts_of_an_entry(order: ByteOrder, e: Seq<u8>)
    ensures
        ifd::tag_of(order, e) == byte_order::u16_at(order, e, 0),
        ifd::kind_of(order, e) == byte_order::u16_at(order, e, 2),
        ifd::count_of(order, e) == byte_order::u32_at(order, e, 4),
        ifd::value_of(order, e) == byte_order::u32_at(order, e, 8),
        ifd::count_of(order, e) != 1 ==> ifd::single_of(order, e) is None,
        ifd::count_of(order, e) == 1 && ifd::kind_of(order, e) == 3 ==> ifd::single_of(order, e) == Some(
            byte_order::u16_at(order, e, 8),
        ),
        ifd::count_of(order, e) == 1 && (ifd::kind_of(order, e) == 4 || ifd::kind_of(order, e) == 13)
            ==> ifd::single_of(order, e) == Some(byte_order::u32_at(order, e, 8)),
        ifd::kind_of(order, e) != 3 && ifd::kind_of(order, e) != 4 && ifd::kind_of(order, e) != 13 ==> ifd::single_of(
            order,
            e,
        ) is None,
{
}

/// The sizes of the types: bytes and texts, shorts, longs and floats, fractions
/// and doubles.
pub proof fn law_the_sizes_of_the_types(order: ByteOrder, e: Seq<u8>)
    ensures
        ({
            let kind = ifd::kind_of(order, e);
            let count = ifd::count_of(order, e);
            &&& kind == 1 || kind == 2 || kind == 6 || kind == 7 ==> ifd::size_of_value(order, e) == count
            &&& kind == 3 || kind == 8 ==> ifd::size_of_value(order, e) == count + count
            &&& kind == 4 || kind == 9 || kind == 11 || kind == 13 ==> ifd::size_of_value(order, e) == 4 * count
            &&& kind == 5 || kind == 10 || kind == 12 ==> ifd::size_of_value(order, e) == 8 * count
            &&& kind == 0 || kind > 13 ==> ifd::size_of_value(order, e) == 0
        }),
{
}

/// An IFD is a number of entries, the entries, and the offset of the next IFD.
/// It is read where it has between one and 1024 entries and is wholly inside the
/// file.
pub proof fn law_where_an_ifd_is_read(file: Seq<u8>, order: ByteOrder, offset: int)
    requires
        0 <= offset,
        offset + 2 <= file.len(),
    ensures
        ({
            let count = byte_order::u16_at(order, file, offset);
            let fits = 1 <= count <= 1024 && offset + 2 + 12 * count + 4 <= file.len();
            &&& ifd::ifd_body(file, order, offset) is Some <==> fits
            &&& fits ==> {
                let body = ifd::ifd_body(file, order, offset).unwrap();
                &&& ifd::entry_count(body) == count
                &&& ifd::next_ifd(order, body) == byte_order::u32_at(order, file, offset + 2 + 12 * count)
                &&& forall|i: int|
                    0 <= i < count ==> #[trigger] ifd::entry_at(body, i) == file.subrange(
                        offset + 2 + 12 * i,
                        offset + 14 + 12 * i,
                    )
            }
        }),
{
    let count = byte_order::u16_at(order, file, offset);
    if 1 <= count <= 1024 && offset + 2 + 12 * count + 4 <= file.len() {
        let body = ifd::ifd_body(file, order, offset).unwrap();
        assert(body.len() == 12 * count + 4);
        assert forall|i: int| 0 <= i < count implies #[trigger] ifd::entry_at(body, i) == file.subrange(
            offset + 2 + 12 * i,
            offset + 14 + 12 * i,
        ) by {
            assert(ifd::entry_at(body, i) =~= file.subrange(offset + 2 + 12 * i, offset + 14 + 12 * i));
        }
    }
}

/// Whether an entry is the last of the first `n` with a tag.
pub open spec fn is_last(order: ByteOrder, body: Seq<u8>, tag: int, n: int, k: int) -> bool {
    &&& 0 <= k < n
    &&& ifd::tag_of(order, ifd::entry_at(body, k)) == tag
    &&& forall|j: int| k < j < n ==> ifd::tag_of(order, #[trigger] ifd::entry_at(body, j)) != tag
}

/// The last entry with a tag is found, and nothing where there is none.
pub proof fn law_the_last_entry_is_found(order: ByteOrder, body: Seq<u8>, tag: int, n: nat, k: int)
    ensures
        is_last(order, body, tag, n as int, k) ==> ifd::last_tagged(order, body, tag, n) == Some(
            ifd::entry_at(body, k),
        ),
        (forall|j: int| 0 <= j < n ==> ifd::tag_of(order, #[trigger] ifd::entry_at(body, j)) != tag)
            ==> ifd::last_tagged(order, body, tag, n) is None,
    decreases n,
{
    if n > 0 {
        let m = (n - 1) as nat;
        law_the_last_entry_is_found(order, body, tag, m, k);
        let e = ifd::entry_at(body, m as int);
        if is_last(order, body, tag, n as int, k) && k < m {
            assert(is_last(order, body, tag, m as int, k));
        }
    }
}

/// The first entry with a tag is found, and nothing where there is none.
pub proof fn law_the_first_entry_is_found(order: ByteOrder, body: Seq<u8>, tag: int, n: nat, k: int)
    ensures
        0 <= k < n && ifd::tag_of(order, ifd::entry_at(body, k)) == tag && (forall|j: int|
            0 <= j < k ==> ifd::tag_of(order, #[trigger] ifd::entry_at(body, j)) != tag) ==> ifd::first_tagged(
            order,
            body,
            tag,
            n,
        ) == Some(ifd::entry_at(body, k)),
        (forall|j: int| 0 <= j < n ==> ifd::tag_of(order, #[trigger] ifd::entry_at(body, j)) != tag)
            ==> ifd::first_tagged(order, body, tag, n) is None,
    decreases n,
{
    if n > 0 {
        let m = (n - 1) as nat;
        law_the_first_entry_is_found(order, body, tag, m, k);
        let e = ifd::entry_at(body, m as int);
    }
}

/// What an IFD that the walk visits says about a JPEG is among what is found:
/// the pair of tags 0x201 and 0x202, and a single strip of tags 0x111 and 0x117
/// where tag 0x103 says that it is a JPEG and tag 0x106 does not say that it is
/// sensor data.
pub proof fn law_the_jpegs_of_an_ifd_are_found(
    file: Seq<u8>,
    header: TiffHeader,
    f: found::FoundView,
    at: u64,
    a: int,
    b: int,
    s: Span,
)
    requires
        tiff::is_walk(file, header, f),
        tiff::visited_ifds(file, header).contains(at),
        ifd::ifd_body(file, header.order, at as int) is Some,
    ensures
        ({
            let order = header.order;
            let body = ifd::ifd_body(file, order, at as int).unwrap();
            let n = ifd::entry_count(body);
            &&& is_last(order, body, 0x201, n, a) && is_last(order, body, 0x202, n, b) && ifd::single_of(
                order,
                ifd::entry_at(body, a),
            ) == Some(s.offset as int) && ifd::single_of(order, ifd::entry_at(body, b)) == Some(s.len as int)
                ==> f.jpegs.contains(s)
            &&& is_last(order, body, 0x111, n, a) && is_last(order, body, 0x117, n, b) && ifd::single_of(
                order,
                ifd::entry_at(body, a),
            ) == Some(s.offset as int) && ifd::single_of(order, ifd::entry_at(body, b)) == Some(s.len as int) && (
            ifd::last_single(order, body, 0x103, n as nat) == Some(6int) || ifd::last_single(
                order,
                body,
                0x103,
                n as nat,
            ) == Some(7int)) && ifd::last_single(order, body, 0x106, n as nat) != Some(32803int) ==> f.jpegs.contains(
                s,
            )
            &&& header.magic == 0x55 && 0 <= a < n && ifd::tag_of(order, ifd::entry_at(body, a)) == 0x2E
                && ifd::value_of(order, ifd::entry_at(body, a)) == s.offset && ifd::count_of(
                order,
                ifd::entry_at(body, a),
            ) == s.len ==> f.jpegs.contains(s)
        }),
{
    let order = header.order;
    let body = ifd::ifd_body(file, order, at as int).unwrap();
    let n = ifd::entry_count(body) as nat;
    let ifds = tiff::visited_ifds(file, header);
    let k = choose|k: int| 0 <= k < ifds.len() && ifds[k] == at;
    assert(tiff::ifd_names_span(file, order, header.magic, ifds[k], s) ==> tiff::some_ifd_names(
        file,
        order,
        header.magic,
        ifds,
        s,
    ));
    assert(n == ifd::entry_count(body));
    law_the_last_entry_is_found(order, body, 0x201, n, a);
    law_the_last_entry_is_found(order, body, 0x202, n, b);
    law_the_last_entry_is_found(order, body, 0x111, n, a);
    law_the_last_entry_is_found(order, body, 0x117, n, b);
}

/// A span that is sensor data and nothing else is not among what is found: each
/// span is named by an IFD that was visited, and none comes twice.
pub proof fn law_nothing_else_is_found(file: Seq<u8>, header: TiffHeader, f: found::FoundView, s: Span)
    requires
        tiff::is_walk(file, header, f),
        f.jpegs.contains(s),
    ensures
        exists|at: u64|
            tiff::visited_ifds(file, header).contains(at) && #[trigger] ifd::ifd_body(file, header.order, at as int) is Some
                && {
                let order = header.order;
                let body = ifd::ifd_body(file, order, at as int).unwrap();
                let n = ifd::entry_count(body) as nat;
                ||| header.magic == 0x55 && exists|i: int|
                    0 <= i < ifd::entry_count(body) && ifd::tag_of(order, #[trigger] ifd::entry_at(body, i)) == 0x2E
                        && ifd::value_of(order, ifd::entry_at(body, i)) == s.offset
                ||| ifd::last_single(order, body, 0x201, n) == Some(s.offset as int) && ifd::last_single(
                    order,
                    body,
                    0x202,
                    n,
                ) == Some(s.len as int)
                ||| ifd::last_single(order, body, 0x111, n) == Some(s.offset as int) && ifd::last_single(
                    order,
                    body,
                    0x117,
                    n,
                ) == Some(s.len as int) && ifd::last_single(order, body, 0x106, n) != Some(32803int)
            },
{
    let ifds = tiff::visited_ifds(file, header);
    assert(tiff::some_ifd_names(file, header.order, header.magic, ifds, s));
    let k = choose|k: int|
        0 <= k < ifds.len() && tiff::ifd_names_span(file, header.order, header.magic, #[trigger] ifds[k], s);
    let at = ifds[k];
    assert(ifds.contains(at));
    assert(ifd::ifd_body(file, header.order, at as int) is Some);
}

/// What a walk leaves open: offsets that still have to be looked at, and IFDs
/// that were looked at and whose neighbours are looked at later.
spec fn is_open(file: Seq<u8>, order: ByteOrder, pending: Seq<u64>, seen: Seq<u64>) -> bool {
    forall|at: u64, to: u64| #[trigger]
        seen.contains(at) && #[trigger] leads_to(file, order, at, to) && to != 0 ==> seen.contains(to)
            || pending.contains(to)
}

/// Whether an IFD leads to another one: as the next in its chain, or as one of
/// its children.
pub open spec fn leads_to(file: Seq<u8>, order: ByteOrder, at: u64, to: u64) -> bool {
    match ifd::ifd_body(file, order, at as int) {
        Some(body) => ifd::next_ifd(order, body) as u64 == to || exists|k: int|
            is_last(order, body, 0x14A, ifd::entry_count(body), k) && tiff::sub_ifds_of(
                file,
                order,
                #[trigger] ifd::entry_at(body, k),
            ).contains(to),
        None => false,
    }
}

proof fn lemma_visited_closed(file: Seq<u8>, order: ByteOrder, pending: Seq<u64>, seen: Seq<u64>)
    requires
        is_open(file, order, pending, seen),
    ensures
        ({
            let all = tiff::visited(file, order, pending, seen);
            &&& seen.len() <= all.len()
            &&& forall|k: int| 0 <= k < seen.len() ==> #[trigger] all[k] == seen[k]
            &&& all.len() < 64 ==> is_open(file, order, Seq::empty(), all)
            &&& all.len() < 64 ==> forall|at: u64| #[trigger] pending.contains(at) && at != 0 ==> all.contains(at)
        }),
    decreases 64 - seen.len(), pending.len(),
{
    let all = tiff::visited(file, order, pending, seen);
    if pending.len() == 0 {
        assert(is_open(file, order, Seq::empty(), all)) by {
            assert forall|at: u64, to: u64| #[trigger]
                seen.contains(at) && #[trigger] leads_to(file, order, at, to) && to != 0 implies seen.contains(to)
                || Seq::<u64>::empty().contains(to) by {
                assert(!pending.contains(to));
            }
        }
    } else {
        let offset = pending.last();
        let rest = pending.drop_last();
        if offset == 0 || seen.contains(offset) || seen.len() >= 64 {
            if seen.len() < 64 {
                assert(is_open(file, order, rest, seen)) by {
                    assert forall|at: u64, to: u64| #[trigger]
                        seen.contains(at) && #[trigger] leads_to(file, order, at, to) && to != 0 implies seen.contains(
                        to,
                    ) || rest.contains(to) by {
                        if pending.contains(to) && to != offset {
                            let k = choose|k: int| 0 <= k < pending.len() && pending[k] == to;
                            assert(rest[k] == to);
                        }
                    }
                }
                lemma_visited_closed(file, order, rest, seen);
                lemma_pending(all, seen, pending, rest, offset);
            } else {
                lemma_visited_grows(file, order, rest, seen);
            }
        } else {
            let more = seen.push(offset);
            let next = match ifd::ifd_body(file, order, offset as int) {
                None => rest,
                Some(body) => rest.push(ifd::next_ifd(order, body) as u64) + tiff::children_of(
                    file,
                    order,
                    body,
                    ifd::entry_count(body) as nat,
                ),
            };
            assert forall|k: int| 0 <= k < rest.len() implies #[trigger] next[k] == rest[k] by {}
            assert(is_open(file, order, next, more)) by {
                assert forall|at: u64, to: u64| #[trigger]
                    more.contains(at) && #[trigger] leads_to(file, order, at, to) && to != 0 implies more.contains(to)
                    || next.contains(to) by {
                    let i = choose|i: int| 0 <= i < more.len() && more[i] == at;
                    if i < seen.len() {
                        assert(seen[i] == at);
                        assert(seen.contains(at));
                        if seen.contains(to) {
                            let k = choose|k: int| 0 <= k < seen.len() && seen[k] == to;
                            assert(more[k] == to);
                        } else {
                            let k = choose|k: int| 0 <= k < pending.len() && pending[k] == to;
                            if k < rest.len() {
                                assert(next[k] == to);
                            } else {
                                assert(more[seen.len() as int] == to);
                            }
                        }
                    } else {
                        lemma_neighbours_are_next(file, order, offset, rest, to);
                    }
                }
            }
            lemma_visited_closed(file, order, next, more);
            assert(all.len() >= more.len() && all[seen.len() as int] == offset) by {
                assert(all[seen.len() as int] == more[seen.len() as int]);
            }
            assert forall|k: int| 0 <= k < seen.len() implies #[trigger] all[k] == seen[k] by {
                assert(all[k] == more[k]);
            }
            if all.len() < 64 {
                assert forall|at: u64| #[trigger] pending.contains(at) && at != 0 implies all.contains(at) by {
                    let k = choose|k: int| 0 <= k < pending.len() && pending[k] == at;
                    if k < rest.len() {
                        assert(next[k] == at);
                        assert(next.contains(at));
                    }
                }
            }
        }
    }
}

proof fn lemma_pending(all: Seq<u64>, seen: Seq<u64>, pending: Seq<u64>, rest: Seq<u64>, offset: u64)
    requires
        pending.len() > 0,
        rest == pending.drop_last(),
        offset == pending.last(),
        offset == 0 || seen.contains(offset),
        seen.len() <= all.len(),
        forall|k: int| 0 <= k < seen.len() ==> #[trigger] all[k] == seen[k],
        all.len() < 64 ==> forall|at: u64| #[trigger] rest.contains(at) && at != 0 ==> all.contains(at),
    ensures
        all.len() < 64 ==> forall|at: u64| #[trigger] pending.contains(at) && at != 0 ==> all.contains(at),
{
    if all.len() < 64 {
        assert forall|at: u64| #[trigger] pending.contains(at) && at != 0 implies all.contains(at) by {
            let k = choose|k: int| 0 <= k < pending.len() && pending[k] == at;
            if k < rest.len() {
                assert(rest[k] == at);
                assert(rest.contains(at));
            } else {
                let j = choose|j: int| 0 <= j < seen.len() && seen[j] == at;
                assert(all[j] == at);
            }
        }
    }
}

proof fn lemma_visited_grows(file: Seq<u8>, order: ByteOrder, pending: Seq<u64>, seen: Seq<u64>)
    requires
        seen.len() >= 64,
    ensures
        tiff::visited(file, order, pending, seen) == seen,
    decreases pending.len(),
{
    if pending.len() > 0 {
        lemma_visited_grows(file, order, pending.drop_last(), seen);
    }
}

/// What an IFD leads to is looked at next.
proof fn lemma_neighbours_are_next(file: Seq<u8>, order: ByteOrder, offset: u64, rest: Seq<u64>, to: u64)
    requires
        leads_to(file, order, offset, to),
    ensures
        ifd::ifd_body(file, order, offset as int) is Some,
        ({
            let body = ifd::ifd_body(file, order, offset as int).unwrap();
            (rest.push(ifd::next_ifd(order, body) as u64) + tiff::children_of(
                file,
                order,
                body,
                ifd::entry_count(body) as nat,
            )).contains(to)
        }),
{
    let body = ifd::ifd_body(file, order, offset as int).unwrap();
    let n = ifd::entry_count(body) as nat;
    let children = tiff::children_of(file, order, body, n);
    let next = rest.push(ifd::next_ifd(order, body) as u64) + children;
    if ifd::next_ifd(order, body) as u64 == to {
        assert(next[rest.len() as int] == to);
    } else {
        let k = choose|k: int|
            is_last(order, body, 0x14A, ifd::entry_count(body), k) && tiff::sub_ifds_of(
                file,
                order,
                #[trigger] ifd::entry_at(body, k),
            ).contains(to);
        law_the_last_entry_is_found(order, body, 0x14A, n, k);
        let j = choose|j: int| 0 <= j < children.len() && children[j] == to;
        assert(next[rest.len() + 1 + j] == to);
    }
}

/// The walk reaches every IFD: the first one, and from each one that it visits
/// the next in the chain and the children, as long as they are fewer than
/// sixty-four.
pub proof fn law_the_walk_reaches_every_ifd(file: Seq<u8>, header: TiffHeader, at: u64, to: u64)
    requires
        tiff::visited_ifds(file, header).len() < 64,
    ensures
        header.ifd0 != 0 ==> tiff::visited_ifds(file, header).contains(header.ifd0),
        tiff::visited_ifds(file, header).contains(at) && leads_to(file, header.order, at, to) && to != 0
            ==> tiff::visited_ifds(file, header).contains(to),
{
    let start = seq![header.ifd0];
    assert(is_open(file, header.order, start, Seq::empty()));
    lemma_visited_closed(file, header.order, start, Seq::empty());
    assert(start[0] == header.ifd0);
    assert(start.contains(header.ifd0));
    let all = tiff::visited_ifds(file, header);
    if all.contains(at) && leads_to(file, header.order, at, to) && to != 0 {
        assert(!Seq::<u64>::empty().contains(to));
    }
}

/// The children of an entry: the one in it, or up to sixteen in the array that it
/// points to.
pub proof fn law_the_children_of_an_entry(file: Seq<u8>, order: ByteOrder, e: Seq<u8>, i: int)
    requires
        ifd::kind_of(order, e) == 4 || ifd::kind_of(order, e) == 13,
    ensures
        ({
            let count = ifd::count_of(order, e);
            let at = ifd::value_of(order, e);
            let children = tiff::sub_ifds_of(file, order, e);
            &&& count == 1 ==> children == seq![at as u64]
            &&& 2 <= count <= 16 && at + 4 * count <= file.len() ==> children.len() == count
            &&& count > 16 && at + 64 <= file.len() ==> children.len() == 16
            &&& count >= 2 && 0 <= i < children.len() ==> children[i] == byte_order::u32_at(order, file, at + 4 * i)
        }),
{
}

/// A picture is turned the way the last valid orientation entry of IFD0 asks
/// for, tag 0x112.
pub proof fn law_ifd0_turns_the_picture(file: Seq<u8>, header: TiffHeader, k: int, v: int)
    requires
        header.ifd0 != 0,
        ifd::ifd_body(file, header.order, header.ifd0 as int) is Some,
    ensures
        ({
            let body = ifd::ifd_body(file, header.order, header.ifd0 as int).unwrap();
            let n = ifd::entry_count(body);
            is_last(header.order, body, 0x112, n, k) && ifd::single_of(header.order, ifd::entry_at(body, k)) == Some(v)
                && 1 <= v <= 8 ==> Some(tiff::ifd0_turn(file, header)) == found::turn_of(v)
        }),
{
    let body = ifd::ifd_body(file, header.order, header.ifd0 as int).unwrap();
    let n = ifd::entry_count(body);
    if is_last(header.order, body, 0x112, n, k) && ifd::single_of(header.order, ifd::entry_at(body, k)) == Some(v)
        && 1 <= v <= 8 {
        lemma_last_turn(header.order, body, n as nat, k, v);
    }
}

proof fn lemma_last_turn(order: ByteOrder, body: Seq<u8>, n: nat, k: int, v: int)
    requires
        is_last(order, body, 0x112, n as int, k),
        ifd::single_of(order, ifd::entry_at(body, k)) == Some(v),
        1 <= v <= 8,
    ensures
        Some(tiff::last_turn(order, body, n)) == found::turn_of(v),
    decreases n,
{
    let m = (n - 1) as nat;
    let e = ifd::entry_at(body, m as int);
    if k < m {
        assert(is_last(order, body, 0x112, m as int, k));
        lemma_last_turn(order, body, m, k, v);
    }
}

/// A RAF starts with its letters and holds one JPEG, which has the EXIF block:
/// the offset is in the bytes from 84 on, the length in those from 88 on.
pub proof fn law_the_jpeg_of_a_raf(file: Seq<u8>)
    requires
        file.len() >= 92,
        file[0] == 'F' as u8 && file[1] == 'U' as u8 && file[2] == 'J' as u8 && file[3] == 'I' as u8,
        file[4] == 'F' as u8 && file[5] == 'I' as u8 && file[6] == 'L' as u8 && file[7] == 'M' as u8,
        file[8] == 'C' as u8 && file[9] == 'C' as u8 && file[10] == 'D' as u8 && file[11] == '-' as u8,
        file[12] == 'R' as u8 && file[13] == 'A' as u8 && file[14] == 'W' as u8 && file[15] == ' ' as u8,
    ensures
        raf::is_raf(file),
        raf::raf_found(file).jpegs.len() == 1,
        raf::raf_found(file).jpegs[0].offset == 16777216 * file[84] + 65536 * file[85] + 256 * file[86] + file[87],
        raf::raf_found(file).jpegs[0].len == 16777216 * file[88] + 65536 * file[89] + 256 * file[90] + file[91],
        raf::raf_found(file).exif_in_jpeg,
        raf::raf_found(file).exif is None,
        raf::raf_found(file).orientation == Orientation::NoTransforms,
{
    assert(file.take(16) =~= raf::raf_magic());
}

/// A file that does not start like one of the containers has nothing in it that
/// is found; one that does has what its own finder gives.
pub proof fn law_each_container_has_its_finder(file: Seq<u8>, f: found::FoundView)
    requires
        raw::is_found(file, f),
    ensures
        file.len() < 8 ==> f.jpegs.len() == 0 && f.exif is None,
        tiff::tiff_header(file) is None && cr3::is_cr3(file) ==> f == cr3::cr3_found(file),
        tiff::tiff_header(file) is None && !cr3::is_cr3(file) && raf::is_raf(file) ==> f == raf::raf_found(file),
        tiff::tiff_header(file) is None && !cr3::is_cr3(file) && !raf::is_raf(file) ==> f.jpegs.len() == 0 && f.exif is None
            && f.orientation == Orientation::NoTransforms && !f.exif_in_jpeg,
        tiff::tiff_header(file) matches Some(header) ==> f.orientation == tiff::ifd0_turn(file, header)
            && !f.exif_in_jpeg && f.exif == Some(exif_block::exif_block_of(file, header)),
{
    reveal(raw::is_found);
}

/// In a TIFF-based file everything that the walk finds is found, and in an ORF
/// what its maker note names as well.
pub proof fn law_a_find_has_the_walk_and_the_maker_note(
    file: Seq<u8>,
    header: TiffHeader,
    f: found::FoundView,
    s: Span,
)
    requires
        raw::is_found(file, f),
        tiff::tiff_header(file) == Some(header),
    ensures
        tiff::some_ifd_names(file, header.order, header.magic, tiff::visited_ifds(file, header), s)
            ==> f.jpegs.contains(s),
        (header.magic == 0x4F52 || header.magic == 0x5352) && olympus::olympus_spans(file, header).contains(s)
            ==> f.jpegs.contains(s),
{
    reveal(raw::is_found);
    let extra = if tiff::is_orf(header.magic) {
        olympus::olympus_spans(file, header)
    } else {
        Seq::empty()
    };
    let walked = f.jpegs.take(f.jpegs.len() - extra.len());
    if tiff::some_ifd_names(file, header.order, header.magic, tiff::visited_ifds(file, header), s) {
        assert(walked.contains(s));
        let k = choose|k: int| 0 <= k < walked.len() && walked[k] == s;
        assert(f.jpegs[k] == s);
    }
    if extra.contains(s) {
        let k = choose|k: int| 0 <= k < extra.len() && extra[k] == s;
        assert((walked + extra)[walked.len() + k] == s);
    }
}

/// The EXIF block of a TIFF-based file says that it is a TIFF block, whatever the
/// file said, and is no longer than four mebibytes.
pub proof fn law_the_exif_block_is_a_tiff_block(file: Seq<u8>, header: TiffHeader)
    requires
        tiff::tiff_header(file) == Some(header),
    ensures
        exif_block::exif_block_of(file, header).len() <= 4194304,
        exif_block::exif_block_of(file, header).len() >= 8,
        ifd::header_spec(exif_block::exif_block_of(file, header)) == Some((header.order, header.ifd0 as int)),
{
    exif_block::lemma_ifds_end_grows(file, header.order, seq![header.ifd0], exif_block::EXIF_IFDS as nat, 8);
    let block = exif_block::exif_block_of(file, header);
    assert(block[0] == file[0] && block[1] == file[1]);
    assert(block[4] == file[4] && block[5] == file[5] && block[6] == file[6] && block[7] == file[7]);
}

/// The extensions of the RAW files that are shown.
pub proof fn law_raw_files_have_one_of_these_extensions(p: Seq<char>, e: Seq<char>)
    requires
        crate::path::extension_of(p) == Some(e),
    ensures
        crate::path::has_extension_in(p, raw::raw_extensions()) <==> {
            ||| crate::text::same_letters(e, "arw"@)
            ||| crate::text::same_letters(e, "cr2"@)
            ||| crate::text::same_letters(e, "dng"@)
            ||| crate::text::same_letters(e, "nef"@)
            ||| crate::text::same_letters(e, "rw2"@)
        },
{
    let all = raw::raw_extensions();
    assert(all[0] == "arw" && all[1] == "cr2" && all[2] == "dng" && all[3] == "nef" && all[4] == "rw2");
}

/// Four letters as the number that they are read as.
pub open spec fn letters(a: char, b: char, c: char, d: char) -> int {
    16777216 * (a as int) + 65536 * (b as int) + 256 * (c as int) + d as int
}

/// The types of the boxes that are looked for.
pub proof fn law_box_types_spell_their_letters()
    ensures
        cr3::KIND_FTYP == letters('f', 't', 'y', 'p'),
        cr3::BRAND_CRX == letters('c', 'r', 'x', ' '),
        cr3::KIND_MOOV == letters('m', 'o', 'o', 'v'),
        cr3::KIND_TRAK == letters('t', 'r', 'a', 'k'),
        cr3::KIND_UUID == letters('u', 'u', 'i', 'd'),
        cr3::KIND_CMT1 == letters('C', 'M', 'T', '1'),
        cr3::KIND_CMT2 == letters('C', 'M', 'T', '2'),
        cr3::KIND_CMT4 == letters('C', 'M', 'T', '4'),
        cr3::KIND_THMB == letters('T', 'H', 'M', 'B'),
        cr3::KIND_PRVW == letters('P', 'R', 'V', 'W'),
        cr3::KIND_MDIA == letters('m', 'd', 'i', 'a'),
        cr3::KIND_MINF == letters('m', 'i', 'n', 'f'),
        cr3::KIND_STBL == letters('s', 't', 'b', 'l'),
        cr3::KIND_STSZ == letters('s', 't', 's', 'z'),
        cr3::KIND_CO64 == letters('c', 'o', '6', '4'),
        cr3::KIND_STCO == letters('s', 't', 'c', 'o'),
{
}

/// A CR3 starts with a file type box of the brand "crx ".
pub proof fn law_the_start_of_a_cr3(file: Seq<u8>)
    ensures
        cr3::is_cr3(file) <==> {
            &&& file.len() >= 12
            &&& file[4] == 'f' as u8 && file[5] == 't' as u8 && file[6] == 'y' as u8 && file[7] == 'p' as u8
            &&& file[8] == 'c' as u8 && file[9] == 'r' as u8 && file[10] == 'x' as u8 && file[11] == ' ' as u8
        },
{
}

/// A box starts with its size and its type. A size of one says that the size
/// follows in eight bytes, a size of zero that the box goes on to the end.
pub proof fn law_where_a_box_starts_and_ends(file: Seq<u8>, at: int, end: int)
    requires
        0 <= at,
        at + 16 <= end <= file.len() <= u64::MAX,
    ensures
        ({
            let short = byte_order::u32_at(ByteOrder::Big, file, at);
            let long = byte_order::be64_at(file, at + 8);
            let kind = byte_order::u32_at(ByteOrder::Big, file, at + 4);
            match cr3::box_at(file, at, end) {
                Some(b) => {
                    &&& b.kind == kind
                    &&& b.body == if short == 1 { at + 16 } else { at + 8 }
                    &&& b.end == if short == 1 { at + long } else if short == 0 { end } else { at + short }
                    &&& b.body <= b.end <= end
                },
                None => (2 <= short < 8) || (short >= 8 && at + short > end) || (short == 1 && (long < 16 || at + long
                    > end)),
            }
        }),
{
    assert(byte_order::u32_at(ByteOrder::Big, file, at) >= 0);
}

/// The boxes of a range follow each other: each starts where the one before it
/// ends. The list ends where no box is, or after the last that is looked at.
pub proof fn law_boxes_follow_each_other(file: Seq<u8>, at: int, end: int, left: nat, k: int)
    requires
        0 <= k < cr3::boxes_from(file, at, end, left).len(),
    ensures
        ({
            let list = cr3::boxes_from(file, at, end, left);
            &&& list.len() <= left
            &&& cr3::box_at(file, at, end) == Some(list[0])
            &&& k > 0 ==> cr3::box_at(file, list[k - 1].end as int, end) == Some(list[k])
            &&& list.len() < left ==> cr3::box_at(file, list.last().end as int, end) is None
        }),
    decreases left,
{
    let list = cr3::boxes_from(file, at, end, left);
    let b = cr3::box_at(file, at, end).unwrap();
    let rest = cr3::boxes_from(file, b.end as int, end, (left - 1) as nat);
    assert(list =~= seq![b] + rest);
    if rest.len() > 0 {
        law_boxes_follow_each_other(file, b.end as int, end, (left - 1) as nat, if k > 0 { k - 1 } else { 0 });
        if k > 0 {
            assert(list[k] == rest[k - 1]);
            if k > 1 {
                assert(list[k - 1] == rest[k - 2]);
            }
        }
        assert(list.last() == rest.last());
    } else {
        assert(list.last() == b);
        assert(left > 1 ==> cr3::box_at(file, b.end as int, end) is None);
    }
}

proof fn lemma_top_spans(file: Seq<u8>, list: Seq<cr3::BoxAt>, n: nat, k: int, s: Span)
    requires
        0 <= k < n <= list.len(),
        cr3::top_box_spans(file, list[k]).contains(s),
    ensures
        cr3::top_spans(file, list, n).contains(s),
    decreases n,
{
    let m = (n - 1) as nat;
    let before = cr3::top_spans(file, list, m);
    let own = cr3::top_box_spans(file, list[m as int]);
    if k < m {
        lemma_top_spans(file, list, m, k, s);
        let j = choose|j: int| 0 <= j < before.len() && before[j] == s;
        assert((before + own)[j] == s);
    } else {
        let j = choose|j: int| 0 <= j < own.len() && own[j] == s;
        assert((before + own)[before.len() + j] == s);
    }
}

proof fn lemma_moov_spans(file: Seq<u8>, list: Seq<cr3::BoxAt>, n: nat, k: int, s: Span)
    requires
        0 <= k < n <= list.len(),
        cr3::moov_box_spans(file, list[k]).contains(s),
    ensures
        cr3::moov_spans(file, list, n).contains(s),
    decreases n,
{
    let m = (n - 1) as nat;
    let before = cr3::moov_spans(file, list, m);
    let own = cr3::moov_box_spans(file, list[m as int]);
    if k < m {
        lemma_moov_spans(file, list, m, k, s);
        let j = choose|j: int| 0 <= j < before.len() && before[j] == s;
        assert((before + own)[j] == s);
    } else {
        let j = choose|j: int| 0 <= j < own.len() && own[j] == s;
        assert((before + own)[before.len() + j] == s);
    }
}

proof fn lemma_images_of(list: Seq<cr3::BoxAt>, kind: u32, n: nat, k: int, s: Span)
    requires
        0 <= k < n <= list.len(),
        list[k].kind == kind,
        cr3::image_span(list[k]) == Some(s),
    ensures
        cr3::images_of(list, kind, n).contains(s),
    decreases n,
{
    let m = (n - 1) as nat;
    let before = cr3::images_of(list, kind, m);
    let own = if list[m as int].kind == kind {
        cr3::listed(cr3::image_span(list[m as int]))
    } else {
        Seq::empty()
    };
    assert(cr3::images_of(list, kind, n) == before + own);
    if k < m {
        lemma_images_of(list, kind, m, k, s);
        let j = choose|j: int| 0 <= j < before.len() && before[j] == s;
        assert((before + own)[j] == s);
    } else {
        assert((before + own)[before.len() as int] == s);
    }
}

/// Whether a box is a `uuid` box that starts with sixteen bytes.
pub open spec fn has_id(file: Seq<u8>, b: cr3::BoxAt, first: int, second: int) -> bool {
    &&& b.kind == letters('u', 'u', 'i', 'd')
    &&& b.end - b.body >= 16
    &&& byte_order::be64_at(file, b.body as int) == first
    &&& byte_order::be64_at(file, b.body + 8) == second
}

/// A CR3 has the first sample of each track of `moov`, the image in each `THMB`
/// box of Canon's `uuid` box there, and the image in each `PRVW` box of the
/// preview's `uuid` box. An image starts sixteen bytes into its box.
pub proof fn law_the_images_of_a_cr3_are_found(file: Seq<u8>, i: int, j: int, k: int, s: Span)
    requires
        0 <= i < cr3::boxes_in(file, 0, file.len() as int).len(),
        file.len() <= u64::MAX,
    ensures
        ({
            let top = cr3::boxes_in(file, 0, file.len() as int)[i];
            let inner = cr3::boxes_in(file, top.body as int, top.end as int);
            let own = cr3::boxes_in(file, inner[j].body + 16, inner[j].end as int);
            let preview = cr3::boxes_in(file, top.body + 24, top.end as int);
            let is_moov = top.kind == letters('m', 'o', 'o', 'v') && 0 <= j < inner.len();
            let jpegs = cr3::cr3_found(file).jpegs;
            &&& is_moov && inner[j].kind == letters('t', 'r', 'a', 'k') && cr3::track_sample(file, inner[j]) == Some(s)
                ==> jpegs.contains(s)
            &&& is_moov && has_id(file, inner[j], 0x85C0_B687_820F_11E0, 0x8111_F4CE_462B_6A48) && 0 <= k < own.len()
                && own[k].kind == letters('T', 'H', 'M', 'B') && s.offset == own[k].body + 16 && s.offset + s.len
                == own[k].end && s.len > 0 ==> jpegs.contains(s)
            &&& has_id(file, top, 0xEAF4_2B5E_1C98_4B88, 0xB9FB_B7DC_406E_4D16) && 0 <= k < preview.len()
                && preview[k].kind == letters('P', 'R', 'V', 'W') && s.offset == preview[k].body + 16 && s.offset + s.len
                == preview[k].end && s.len > 0 ==> jpegs.contains(s)
        }),
{
    let tops = cr3::boxes_in(file, 0, file.len() as int);
    let top = tops[i];
    let inner = cr3::boxes_in(file, top.body as int, top.end as int);
    let own = cr3::boxes_in(file, inner[j].body + 16, inner[j].end as int);
    let preview = cr3::boxes_in(file, top.body + 24, top.end as int);
    let is_moov = top.kind == letters('m', 'o', 'o', 'v') && 0 <= j < inner.len();
    if is_moov && inner[j].kind == letters('t', 'r', 'a', 'k') && cr3::track_sample(file, inner[j]) == Some(s) {
        assert(seq![s][0] == s);
        assert(cr3::moov_box_spans(file, inner[j]).contains(s));
        lemma_moov_spans(file, inner, inner.len(), j, s);
        lemma_top_spans(file, tops, tops.len(), i, s);
    }
    if is_moov && has_id(file, inner[j], 0x85C0_B687_820F_11E0, 0x8111_F4CE_462B_6A48) && 0 <= k < own.len()
        && own[k].kind == letters('T', 'H', 'M', 'B') && s.offset == own[k].body + 16 && s.offset + s.len
        == own[k].end && s.len > 0 {
        assert(cr3::image_span(own[k]) == Some(s));
        lemma_images_of(own, cr3::KIND_THMB, own.len(), k, s);
        lemma_moov_spans(file, inner, inner.len(), j, s);
        lemma_top_spans(file, tops, tops.len(), i, s);
    }
    if has_id(file, top, 0xEAF4_2B5E_1C98_4B88, 0xB9FB_B7DC_406E_4D16) && 0 <= k < preview.len() && preview[k].kind
        == letters('P', 'R', 'V', 'W') && s.offset == preview[k].body + 16 && s.offset + s.len == preview[k].end
        && s.len > 0 {
        assert(cr3::image_span(preview[k]) == Some(s));
        lemma_images_of(preview, cr3::KIND_PRVW, preview.len(), k, s);
        lemma_top_spans(file, tops, tops.len(), i, s);
    }
}

/// The sample table of a track: the length is the common size, or the first of
/// the sizes where there is none in common; the offset is the first one, of
/// eight bytes in `co64` and of four in `stco`.
pub proof fn law_the_tables_of_a_track(file: Seq<u8>, b: cr3::BoxAt)
    ensures
        ({
            let word = |i: int| byte_order::u32_at(ByteOrder::Big, file, b.body + i);
            &&& b.kind == letters('s', 't', 's', 'z') && b.end - b.body >= 16 && word(4) > 0 ==> cr3::stsz_len(file, b)
                == Some(word(4))
            &&& b.kind == letters('s', 't', 's', 'z') && b.end - b.body >= 16 && word(4) == 0 && word(8) > 0
                ==> cr3::stsz_len(file, b) == Some(word(12))
            &&& b.kind == letters('c', 'o', '6', '4') && b.end - b.body >= 16 && word(4) > 0 ==> cr3::chunk_offset(
                file,
                b,
            ) == Some(byte_order::be64_at(file, b.body + 8))
            &&& b.kind == letters('s', 't', 'c', 'o') && b.end - b.body >= 12 && word(4) > 0 ==> cr3::chunk_offset(
                file,
                b,
            ) == Some(word(8))
        }),
{
}

/// The turn and the EXIF of a CR3 come from its blocks: `CMT1` is IFD0, `CMT2`
/// the Exif IFD, `CMT4` the GPS IFD.
pub proof fn law_the_blocks_of_a_cr3(file: Seq<u8>, cmt1: u32, cmt2: u32, cmt4: u32)
    requires
        cmt1 == letters('C', 'M', 'T', '1'),
        cmt2 == letters('C', 'M', 'T', '2'),
        cmt4 == letters('C', 'M', 'T', '4'),
    ensures
        !cr3::cr3_found(file).exif_in_jpeg,
        match cr3::block_bytes(file, cmt1) {
            Some(ifd0) => {
                &&& cr3::cr3_found(file).exif == raw::join::joined(
                    ifd0,
                    cr3::block_bytes(file, cmt2),
                    cr3::block_bytes(file, cmt4),
                )
                &&& cr3::block_turn(ifd0) matches Some(turn) ==> cr3::cr3_found(file).orientation == turn
                &&& cr3::block_turn(ifd0) is None ==> cr3::cr3_found(file).orientation == Orientation::NoTransforms
            },
            None => cr3::cr3_found(file).exif is None && cr3::cr3_found(file).orientation
                == Orientation::NoTransforms,
        },
{
}

/// The turn of a block is that of its first orientation entry, tag 0x112.
pub proof fn law_a_block_turns_the_picture(block: Seq<u8>, order: ByteOrder, at: int, entries: Seq<u8>, k: int, v: int)
    requires
        ifd::header_spec(block) == Some((order, at)),
        ifd::entries_spec(block, order, at) == Some(entries),
        0 <= k < entries.len() / 12,
        ifd::tag_of(order, ifd::entry_at(entries, k)) == 0x112,
        forall|j: int| 0 <= j < k ==> ifd::tag_of(order, #[trigger] ifd::entry_at(entries, j)) != 0x112,
        ifd::single_of(order, ifd::entry_at(entries, k)) == Some(v),
    ensures
        cr3::block_turn(block) == found::turn_of(v),
{
    law_the_first_entry_is_found(order, entries, 0x112, (entries.len() / 12) as nat, k);
}

/// The maker note of an Olympus: its letters say where its IFD starts and what
/// its offsets count from.
pub proof fn law_the_layout_of_a_maker_note(file: Seq<u8>, note: int)
    requires
        0 <= note,
        note + 12 <= file.len(),
        file[note] == 'O' as u8,
    ensures
        ({
            let b = |i: int| file[note + i];
            let olymp = b(1) == 'L' as u8 && b(2) == 'Y' as u8 && b(3) == 'M' as u8 && b(4) == 'P' as u8;
            let system = b(1) == 'M' as u8 && b(2) == ' ' as u8 && b(3) == 'S' as u8 && b(4) == 'Y' as u8 && b(5)
                == 'S' as u8 && b(6) == 'T' as u8 && b(7) == 'E' as u8 && b(8) == 'M' as u8 && b(9) == 0;
            &&& olymp && b(5) == 'U' as u8 && b(6) == 'S' as u8 && b(7) == 0 ==> olympus::note_layout(file, note)
                == Some((note + 12, note))
            &&& system ==> olympus::note_layout(file, note) == Some((note + 16, note))
            &&& olymp && b(5) == 0 ==> olympus::note_layout(file, note) == Some((note + 8, 0int))
        }),
{
    let b = |i: int| file[note + i];
    let eight = file.subrange(note, note + 8);
    let ten = file.subrange(note, note + 10);
    let six = file.subrange(note, note + 6);
    if b(1) == 'L' as u8 && b(2) == 'Y' as u8 && b(3) == 'M' as u8 && b(4) == 'P' as u8 {
        if b(5) == 'U' as u8 && b(6) == 'S' as u8 && b(7) == 0 {
            assert(eight =~= olympus::olympus_mark());
        }
        if b(5) == 0 {
            assert(eight[5] == 0 && olympus::olympus_mark()[5] != 0);
            assert(ten[1] == 'L' as u8 && olympus::om_system_mark()[1] != 'L' as u8);
            assert(six =~= olympus::olymp_mark());
        }
    }
    if b(1) == 'M' as u8 && b(2) == ' ' as u8 && b(3) == 'S' as u8 && b(4) == 'Y' as u8 && b(5) == 'S' as u8 && b(6)
        == 'T' as u8 && b(7) == 'E' as u8 && b(8) == 'M' as u8 && b(9) == 0 {
        assert(eight[1] == 'M' as u8 && olympus::olympus_mark()[1] != 'M' as u8);
        assert(ten =~= olympus::om_system_mark());
    }
}

/// The JPEGs of an ORF: the one of tag 0x100 of the maker note, and the one of
/// tags 0x101 and 0x102 in the camera settings of tag 0x2020, at offsets that
/// count from where those of the maker note do.
pub proof fn law_the_jpegs_of_a_maker_note(
    file: Seq<u8>,
    header: TiffHeader,
    note: int,
    at: int,
    base: int,
    body: Seq<u8>,
    settings_at: int,
    settings: Seq<u8>,
    start: int,
    len: int,
    counts: (int, int, int),
)
    requires
        olympus::note_offset(file, header) == Some(note),
        olympus::note_layout(file, note) == Some((at, base)),
        ifd::ifd_body(file, header.order, at) == Some(body),
    ensures
        olympus::first_of(header.order, body, 0x100) == Some((start, len, false)) ==> olympus::olympus_spans(
            file,
            header,
        ).contains(Span { offset: (base + start) as u64, len: len as u64 }),
        olympus::first_of(header.order, body, 0x2020) == Some((settings_at, counts.0, true)) && ifd::ifd_body(
            file,
            header.order,
            base + settings_at,
        ) == Some(settings) && olympus::first_of(header.order, settings, 0x101) == Some((start, counts.1, true))
            && olympus::first_of(header.order, settings, 0x102) == Some((len, counts.2, true))
            ==> olympus::olympus_spans(file, header).contains(Span { offset: (base + start) as u64, len: len as u64 }),
{
    let order = header.order;
    let small = olympus::note_thumbnail(order, body, base);
    let large = olympus::note_preview(file, order, body, base);
    let found = olympus::olympus_spans(file, header);
    assert(found == small + large);
    if small.len() > 0 {
        assert(found[0] == small[0]);
    }
    if large.len() > 0 {
        assert(found[small.len() as int] == large[0]);
    }
}

/// The maker note is behind tag 0x927C of the Exif IFD, which is behind tag 0x8769
/// of IFD0.
pub proof fn law_the_way_to_the_maker_note(
    file: Seq<u8>,
    header: TiffHeader,
    ifd0: Seq<u8>,
    exif: Seq<u8>,
    exif_at: int,
    note: int,
    counts: (int, int),
)
    requires
        ifd::ifd_body(file, header.order, header.ifd0 as int) == Some(ifd0),
        olympus::first_of(header.order, ifd0, 0x8769) == Some((exif_at, counts.0, true)),
        ifd::ifd_body(file, header.order, exif_at) == Some(exif),
        olympus::first_of(header.order, exif, 0x927C) == Some((note, counts.1, false)),
    ensures
        olympus::note_offset(file, header) == Some(note),
{
}

/// Of several boxes with a number the last one counts.
pub proof fn law_the_last_table_counts(file: Seq<u8>, list: Seq<cr3::BoxAt>, n: nat, k: int)
    requires
        0 <= k < n <= list.len(),
    ensures
        cr3::chunk_offset(file, list[k]) is Some && (forall|j: int|
            k < j < n ==> cr3::chunk_offset(file, #[trigger] list[j]) is None) ==> cr3::last_offset(file, list, n)
            == cr3::chunk_offset(file, list[k]),
        cr3::stsz_len(file, list[k]) is Some && (forall|j: int|
            k < j < n ==> cr3::stsz_len(file, #[trigger] list[j]) is None) ==> cr3::last_len(file, list, n)
            == cr3::stsz_len(file, list[k]),
    decreases n,
{
    if k < n - 1 {
        law_the_last_table_counts(file, list, (n - 1) as nat, k);
    }
}

/// Of several entries of a maker note with a tag the first one counts, and it
/// tells whether it holds a single number.
pub proof fn law_the_first_of_a_tag_counts(order: ByteOrder, body: Seq<u8>, tag: u16, k: int)
    requires
        0 <= k < ifd::entry_count(body),
        ifd::tag_of(order, ifd::entry_at(body, k)) == tag,
        forall|j: int| 0 <= j < k ==> ifd::tag_of(order, #[trigger] ifd::entry_at(body, j)) != tag,
    ensures
        olympus::first_of(order, body, tag) matches Some((value, count, single)) && {
            let e = ifd::entry_at(body, k);
            &&& value == byte_order::u32_at(order, e, 8)
            &&& count == byte_order::u32_at(order, e, 4)
            &&& single <==> count == 1 && (ifd::kind_of(order, e) == 3 || ifd::kind_of(order, e) == 4 || ifd::kind_of(
                order,
                e,
            ) == 13)
        },
{
    law_the_first_entry_is_found(order, body, tag as int, ifd::entry_count(body) as nat, k);
}

/// Of the blocks of a kind, of at most 256 KiB, the last one counts: the last in
/// the last box of Canon's, in the last box of the header.
pub proof fn law_the_last_block_counts(file: Seq<u8>, list: Seq<cr3::BoxAt>, kind: u32, n: nat, k: int, b: cr3::BoxAt)
    requires
        0 <= k < n <= list.len(),
    ensures
        list[k].kind == kind && list[k].end - list[k].body <= 0x4_0000 && (forall|j: int|
            k < j < n ==> (#[trigger] list[j]).kind != kind) ==> cr3::last_block(list, kind, n) == Some(list[k]),
        ({
            let own = cr3::canon_boxes(file, list[k]);
            cr3::is_canon(file, list[k]) && cr3::last_block(own, kind, own.len()) == Some(b) && (forall|j: int|
                k < j < n ==> !cr3::is_canon(file, #[trigger] list[j])) ==> cr3::moov_block(file, list, kind, n) == Some(
                b,
            )
        }),
        ({
            let inner = cr3::boxes_in(file, list[k].body as int, list[k].end as int);
            list[k].kind == letters('m', 'o', 'o', 'v') && cr3::moov_block(file, inner, kind, inner.len()) == Some(b)
                && (forall|j: int| k < j < n ==> (#[trigger] list[j]).kind != letters('m', 'o', 'o', 'v'))
                ==> cr3::top_block(file, list, kind, n) == Some(b)
        }),
    decreases n,
{
    law_box_types_spell_their_letters();
    if k < n - 1 {
        law_the_last_block_counts(file, list, kind, (n - 1) as nat, k, b);
    }
}

/// The first box of a type is found.
pub proof fn law_the_first_box_is_found(list: Seq<cr3::BoxAt>, kind: u32, k: int)
    requires
        0 <= k < list.len(),
        list[k].kind == kind,
        forall|j: int| 0 <= j < k ==> (#[trigger] list[j]).kind != kind,
    ensures
        cr3::first_kind(list, kind) == Some(list[k]),
    decreases list.len(),
{
    if k > 0 {
        let rest = list.drop_first();
        assert(list[0].kind != kind);
        assert forall|j: int| 0 <= j < k - 1 implies (#[trigger] rest[j]).kind != kind by {
            assert(rest[j] == list[j + 1]);
        }
        law_the_first_box_is_found(rest, kind, k - 1);
        assert(rest[k - 1] == list[k]);
    }
}

/// A box that is named by its id has the id in its first sixteen bytes.
pub proof fn law_the_id_of_a_box(file: Seq<u8>, b: cr3::BoxAt, high: u64, low: u64)
    ensures
        cr3::is_uuid(file, b, (high, low)) <==> b.kind == letters('u', 'u', 'i', 'd') && b.body + 16 <= b.end
            && byte_order::be64_at(file, b.body as int) == high && byte_order::be64_at(file, b.body + 8) == low,
{
    law_box_types_spell_their_letters();
}

} // verus!

//! Fujifilm RAF. The file starts with a fixed header: 16 bytes of magic
//! text, and at byte 84 the offset and at byte 88 the length of one JPEG,
//! both big-endian. That JPEG is a complete camera JPEG, 1920x1280 from
//! older bodies and full size from newer ones, with its own EXIF block.
//! So the orientation and the EXIF are read from the JPEG and not from
//! the container.
use vstd::prelude::*;

use crate::raw::byte_order;
use crate::raw::byte_order::ByteOrder;
use crate::raw::found;
use crate::raw::found::{Found, Span};
use crate::raw::source::Source;

verus! {

pub const JPEG_OFFSET_AT: usize = 84;
pub const JPEG_LENGTH_AT: usize = 88;

/// "FUJIFILMCCD-RAW "
pub open spec fn raf_magic() -> Seq<u8> {
    seq![
        0x46u8, 0x55, 0x4A, 0x49, 0x46, 0x49, 0x4C, 0x4D,
        0x43, 0x43, 0x44, 0x2D, 0x52, 0x41, 0x57, 0x20,
    ]
}

/// Whether a file has the header of a RAF.
pub open spec fn is_raf(file: Seq<u8>) -> bool {
    file.len() >= JPEG_LENGTH_AT + 4 && file.take(16) == raf_magic()
}

/// What a RAF holds: the one JPEG that its header names.
pub open spec fn raf_found(file: Seq<u8>) -> found::FoundView {
    found::FoundView {
        jpegs: seq![
            Span {
                offset: byte_order::u32_at(ByteOrder::Big, file, JPEG_OFFSET_AT as int) as u64,
                len: byte_order::u32_at(ByteOrder::Big, file, JPEG_LENGTH_AT as int) as u64,
            },
        ],
        exif_in_jpeg: true,
        ..found::nothing_found()
    }
}

/// The JPEG of a RAF file. `None` when the file is not a RAF.
pub fn find(source: &Source) -> (r: Option<Found>)
    ensures
        match r {
            Some(f) => is_raf(source@) && f@ == raf_found(source@),
            None => !is_raf(source@),
        },
{
    let header = match source.read_at(0, JPEG_LENGTH_AT + 4) {
        Some(header) => header,
        None => return None,
    };
    let magic: [u8; 16] = [
        0x46, 0x55, 0x4A, 0x49, 0x46, 0x49, 0x4C, 0x4D,
        0x43, 0x43, 0x44, 0x2D, 0x52, 0x41, 0x57, 0x20,
    ];
    assert(magic@ =~= raf_magic());
    let mut i: usize = 0;
    while i < 16
        invariant
            i <= 16,
            magic@ == raf_magic(),
            source@.len() >= 92,
            header@ == source@.subrange(0, 92),
            forall|k: int| 0 <= k < i ==> source@[k] == magic@[k],
        decreases 16 - i,
    {
        if header[i] != magic[i] {
            assert(source@.take(16)[i as int] != raf_magic()[i as int]);
            return None;
        }
        i += 1;
    }
    assert(source@.take(16) =~= raf_magic());
    let mut found = Found::nothing();
    let offset: u64 = ByteOrder::Big.u32_from(header, JPEG_OFFSET_AT) as u64;
    let len: u64 = ByteOrder::Big.u32_from(header, JPEG_LENGTH_AT) as u64;
    found.jpegs.push(Span { offset, len });
    found.exif_in_jpeg = true;
    assert(found@.jpegs =~= raf_found(source@).jpegs);
    Some(found)
}

} // verus!

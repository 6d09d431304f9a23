//! The date that a picture was taken on.
use vstd::prelude::*;

use crate::metadata::fields;
use crate::text;

verus! {

/// Why an outside parser refused a block or a value.
#[verifier::external_type_specification]
#[verifier::external_body]
pub struct ExError(exif::Error);

/// A date and a time of day, with the time zone's offset in minutes where it
/// is known. The ranges of the numbers are not checked.
#[derive(Debug, Clone, Copy, PartialEq, Eq, Structural)]
pub struct ExifDate {
    pub year: u16,
    pub month: u8,
    pub day: u8,
    pub hour: u8,
    pub minute: u8,
    pub second: u8,
    pub offset: Option<i16>,
}

/// Whether a byte is a decimal digit.
pub open spec fn is_digit(b: u8) -> bool {
    0x30 <= b <= 0x39
}

/// Whether all bytes of a range are decimal digits.
pub open spec fn all_digits(s: Seq<u8>, from: int, to: int) -> bool {
    forall|i: int| from <= i < to ==> is_digit(#[trigger] s[i])
}

/// The number that two digits stand for.
pub open spec fn two_digits(s: Seq<u8>, at: int) -> int {
    (s[at] - 0x30) * 10 + (s[at + 1] - 0x30)
}

/// Whether bytes are of the form "2026:03:27 14:05:12", whatever comes behind.
pub open spec fn is_date(s: Seq<u8>) -> bool {
    &&& s.len() >= 19
    &&& s[4] == 0x3a && s[7] == 0x3a && s[10] == 0x20 && s[13] == 0x3a && s[16] == 0x3a
    &&& all_digits(s, 0, 4)
    &&& all_digits(s, 5, 7)
    &&& all_digits(s, 8, 10)
    &&& all_digits(s, 11, 13)
    &&& all_digits(s, 14, 16)
    &&& all_digits(s, 17, 19)
}

/// The date that such bytes stand for.
pub open spec fn date_of(s: Seq<u8>) -> ExifDate {
    ExifDate {
        year: (two_digits(s, 0) * 100 + two_digits(s, 2)) as u16,
        month: two_digits(s, 5) as u8,
        day: two_digits(s, 8) as u8,
        hour: two_digits(s, 11) as u8,
        minute: two_digits(s, 14) as u8,
        second: two_digits(s, 17) as u8,
        offset: None,
    }
}

/// `exif::DateTime::from_ascii`: bytes of the form "2026:03:27 14:05:12",
/// whatever comes behind them, are read as the date they spell; others are
/// refused.
#[verifier::external_body]
fn read_date(bytes: &[u8]) -> (r: Result<ExifDate, exif::Error>)
    ensures
        r is Ok <==> is_date(bytes@),
        r matches Ok(d) ==> d == date_of(bytes@),
{
    let d = exif::DateTime::from_ascii(bytes)?;
    Ok(ExifDate {
        year: d.year,
        month: d.month,
        day: d.day,
        hour: d.hour,
        minute: d.minute,
        second: d.second,
        offset: d.offset,
    })
}

/// Whether bytes are of the form "+08:00" or "-08:00", whatever comes behind.
pub open spec fn is_offset(s: Seq<u8>) -> bool {
    &&& s.len() >= 6
    &&& s[0] == 0x2b || s[0] == 0x2d
    &&& s[3] == 0x3a
    &&& all_digits(s, 1, 3)
    &&& all_digits(s, 4, 6)
}

/// The minutes that such bytes stand for.
pub open spec fn offset_of(s: Seq<u8>) -> int {
    let minutes = two_digits(s, 1) * 60 + two_digits(s, 4);
    if s[0] == 0x2d {
        -minutes
    } else {
        minutes
    }
}

/// A date with the offset that bytes spell, where they spell one.
pub open spec fn with_offset(d: ExifDate, s: Seq<u8>) -> ExifDate {
    ExifDate {
        offset: if is_offset(s) {
            Some(offset_of(s) as i16)
        } else {
            d.offset
        },
        ..d
    }
}

/// `exif::DateTime::parse_offset`: bytes of the form "+08:00" or "-08:00",
/// whatever comes behind them, become the offset in minutes; others leave the
/// date as it is.
#[verifier::external_body]
fn read_offset(d: ExifDate, bytes: &[u8]) -> (r: ExifDate)
    ensures
        r == with_offset(d, bytes@),
{
    let mut date = exif::DateTime {
        year: d.year,
        month: d.month,
        day: d.day,
        hour: d.hour,
        minute: d.minute,
        second: d.second,
        nanosecond: None,
        offset: d.offset,
    };
    let _ = date.parse_offset(bytes);
    ExifDate { offset: date.offset, ..d }
}

/// The date that the bytes of the date tag and of the offset tag stand for.
pub open spec fn dated(date: Seq<u8>, offset: Option<Seq<u8>>) -> Option<ExifDate> {
    if !is_date(date) {
        None
    } else {
        match offset {
            Some(o) => Some(with_offset(date_of(date), o)),
            None => Some(date_of(date)),
        }
    }
}

/// The date that the bytes of the date tag and of the offset tag stand for.
/// An offset that cannot be read is left out.
pub fn date_from(date: &[u8], offset: Option<&[u8]>) -> (r: Option<ExifDate>)
    ensures
        r == dated(date@, fields::bytes_in(offset)),
{
    match read_date(date) {
        Err(_) => None,
        Ok(d) => match offset {
            Some(o) => Some(read_offset(d, o)),
            None => Some(d),
        },
    }
}

/// How an offset is written, " +08:00".
pub open spec fn offset_text(minutes: int) -> Seq<char> {
    let m = if minutes < 0 {
        -minutes
    } else {
        minutes
    };
    seq![
        ' ',
        if minutes < 0 {
            '-'
        } else {
            '+'
        },
    ] + text::padded_decimal((m / 60) as nat, 2) + seq![':'] + text::padded_decimal(
        (m % 60) as nat,
        2,
    )
}

/// How a date is written, "2026-03-27 14:05:12", with " +08:00" where the
/// offset is known.
pub open spec fn date_text(d: ExifDate) -> Seq<char> {
    text::padded_decimal(d.year as nat, 4) + seq!['-'] + text::padded_decimal(d.month as nat, 2)
        + seq!['-'] + text::padded_decimal(d.day as nat, 2) + seq![' '] + text::padded_decimal(
        d.hour as nat,
        2,
    ) + seq![':'] + text::padded_decimal(d.minute as nat, 2) + seq![':'] + text::padded_decimal(
        d.second as nat,
        2,
    ) + match d.offset {
        Some(o) => offset_text(o as int),
        None => Seq::empty(),
    }
}

/// How a date is written, "2026-03-27 14:05:12", with " +08:00" where the
/// offset is known.
pub fn datetime_text(date: &ExifDate) -> (r: String)
    ensures
        r@ == date_text(*date),
{
    let mut s = String::new();
    text::push_padded(&mut s, date.year as u64, 4);
    s.push('-');
    text::push_padded(&mut s, date.month as u64, 2);
    s.push('-');
    text::push_padded(&mut s, date.day as u64, 2);
    s.push(' ');
    text::push_padded(&mut s, date.hour as u64, 2);
    s.push(':');
    text::push_padded(&mut s, date.minute as u64, 2);
    s.push(':');
    text::push_padded(&mut s, date.second as u64, 2);
    let ghost day = s@;
    match date.offset {
        Some(offset) => {
            let wide: i32 = offset as i32;
            let minutes: u64 = if wide < 0 {
                (-wide) as u64
            } else {
                wide as u64
            };
            s.push(' ');
            s.push(if wide < 0 {
                '-'
            } else {
                '+'
            });
            text::push_padded(&mut s, minutes / 60, 2);
            s.push(':');
            text::push_padded(&mut s, minutes % 60, 2);
            assert(s@ =~= day + offset_text(offset as int));
        },
        None => {},
    }
    assert(s@ =~= date_text(*date));
    s
}

/// Whether a byte stands for a character.
pub open spec fn spells(b: u8, c: char) -> bool {
    b as int == c as int
}

/// Two digits are written the way they are spelled.
proof fn lemma_two_digits(s: Seq<u8>, at: int)
    requires
        is_digit(s[at]),
        is_digit(s[at + 1]),
    ensures
        0 <= two_digits(s, at) < 100,
        text::padded_decimal(two_digits(s, at) as nat, 2) == seq![s[at] as char, s[at + 1] as char],
{
    let v = two_digits(s, at) as nat;
    text::law_two_digits(v);
    assert(v / 10 == s[at] - 0x30);
    assert(v % 10 == s[at + 1] - 0x30);
}

/// A date as the characters that it is spelled with.
proof fn lemma_date_text(s: Seq<u8>)
    requires
        is_date(s),
    ensures
        date_text(date_of(s)) == Seq::new(
            19,
            |i: int|
                if i == 4 || i == 7 {
                    '-'
                } else {
                    s[i] as char
                },
        ),
{
    assert(is_digit(s[0]) && is_digit(s[1]) && is_digit(s[2]) && is_digit(s[3]) && is_digit(s[5]) && is_digit(s[6]));
    assert(is_digit(s[8]) && is_digit(s[9]) && is_digit(s[11]) && is_digit(s[12]) && is_digit(s[14]));
    assert(is_digit(s[15]) && is_digit(s[17]) && is_digit(s[18]));
    let d = date_of(s);
    lemma_two_digits(s, 0);
    lemma_two_digits(s, 2);
    lemma_two_digits(s, 5);
    lemma_two_digits(s, 8);
    lemma_two_digits(s, 11);
    lemma_two_digits(s, 14);
    lemma_two_digits(s, 17);
    let year = two_digits(s, 0) * 100 + two_digits(s, 2);
    assert(year / 100 == two_digits(s, 0) && year % 100 == two_digits(s, 2));
    text::law_four_digits(year as nat);
    assert(text::padded_decimal(year as nat, 4) =~= seq![s[0] as char, s[1] as char, s[2] as char, s[3] as char]);
    let shown = seq![s[0] as char, s[1] as char, s[2] as char, s[3] as char] + seq!['-'] + seq![
        s[5] as char,
        s[6] as char,
    ] + seq!['-'] + seq![s[8] as char, s[9] as char] + seq![' '] + seq![s[11] as char, s[12] as char] + seq![':']
        + seq![s[14] as char, s[15] as char] + seq![':'] + seq![s[17] as char, s[18] as char] + Seq::empty();
    assert(date_text(d) == shown);
    assert(shown =~= Seq::new(
        19,
        |i: int|
            if i == 4 || i == 7 {
                '-'
            } else {
                s[i] as char
            },
    ));
}

/// A date is shown with the digits that the tag spells it with: "2026:03:27
/// 14:05:12" reads "2026-03-27 14:05:12". Without an offset nothing comes
/// behind it.
pub proof fn law_a_date_is_shown_as_it_is_spelled(s: Seq<u8>, i: int)
    requires
        is_date(s),
        0 <= i < 19,
    ensures
        dated(s, None) is Some,
        date_text(dated(s, None).unwrap()).len() == 19,
        i != 4 && i != 7 ==> spells(s[i], date_text(dated(s, None).unwrap())[i]),
        date_text(dated(s, None).unwrap())[4] == '-',
        date_text(dated(s, None).unwrap())[7] == '-',
{
    lemma_date_text(s);
}

/// An offset is shown behind the date with the digits that its tag spells it
/// with, where they are an hour and its minutes. An offset that cannot be read
/// is left out.
pub proof fn law_an_offset_is_shown_as_it_is_spelled(s: Seq<u8>, o: Seq<u8>, i: int)
    requires
        is_date(s),
        0 <= i < 6,
    ensures
        ({
            let plain = date_text(dated(s, None).unwrap());
            let shown = date_text(dated(s, Some(o)).unwrap());
            &&& dated(s, Some(o)) is Some
            &&& !is_offset(o) ==> shown == plain
            &&& is_offset(o) && two_digits(o, 4) < 60 && (two_digits(o, 1) > 0 || two_digits(o, 4) > 0) ==> {
                &&& shown.len() == 26
                &&& shown.take(19) == plain
                &&& shown[19] == ' '
                &&& spells(o[i], shown[20 + i])
            }
        }),
{
    law_a_date_is_shown_as_it_is_spelled(s, 0);
    let d = date_of(s);
    let plain = date_text(d);
    assert(!is_offset(o) ==> with_offset(d, o) == d);
    if is_offset(o) && two_digits(o, 4) < 60 && (two_digits(o, 1) > 0 || two_digits(o, 4) > 0) {
        assert(is_digit(o[1]) && is_digit(o[2]) && is_digit(o[4]) && is_digit(o[5]));
        let minutes = two_digits(o, 1) * 60 + two_digits(o, 4);
        assert(minutes / 60 == two_digits(o, 1));
        assert(minutes % 60 == two_digits(o, 4));
        text::law_two_digits(two_digits(o, 1) as nat);
        text::law_two_digits(two_digits(o, 4) as nat);
        let shown = date_text(with_offset(d, o));
        assert(shown =~= plain + offset_text(offset_of(o)));
        assert(offset_text(offset_of(o)).len() == 7);
        assert(shown.take(19) =~= plain);
    }
}

/// Whether a byte is one of the ten digits of ASCII.
pub open spec fn spells_a_digit(b: u8) -> bool {
    '0' as u8 <= b <= '9' as u8
}

/// A date is spelled "YYYY:MM:DD hh:mm:ss", whatever comes behind it.
pub proof fn law_how_a_date_is_spelled(s: Seq<u8>)
    requires
        s.len() >= 19,
    ensures
        is_date(s) <==> {
            &&& s[4] == ':' as u8 && s[7] == ':' as u8 && s[10] == ' ' as u8 && s[13] == ':' as u8 && s[16] == ':' as u8
            &&& spells_a_digit(s[0]) && spells_a_digit(s[1]) && spells_a_digit(s[2]) && spells_a_digit(s[3])
            &&& spells_a_digit(s[5]) && spells_a_digit(s[6])
            &&& spells_a_digit(s[8]) && spells_a_digit(s[9])
            &&& spells_a_digit(s[11]) && spells_a_digit(s[12])
            &&& spells_a_digit(s[14]) && spells_a_digit(s[15])
            &&& spells_a_digit(s[17]) && spells_a_digit(s[18])
        },
{
    assert(is_digit(s[0]) == spells_a_digit(s[0]));
    if is_date(s) {
        assert(is_digit(s[0]) && is_digit(s[1]) && is_digit(s[2]) && is_digit(s[3]));
        assert(is_digit(s[5]) && is_digit(s[6]) && is_digit(s[8]) && is_digit(s[9]));
        assert(is_digit(s[11]) && is_digit(s[12]) && is_digit(s[14]) && is_digit(s[15]));
        assert(is_digit(s[17]) && is_digit(s[18]));
    }
}

/// An offset is spelled "+hh:mm" or "-hh:mm", whatever comes behind it.
pub proof fn law_how_an_offset_is_spelled(s: Seq<u8>)
    requires
        s.len() >= 6,
    ensures
        is_offset(s) <==> {
            &&& s[0] == '+' as u8 || s[0] == '-' as u8
            &&& s[3] == ':' as u8
            &&& spells_a_digit(s[1]) && spells_a_digit(s[2])
            &&& spells_a_digit(s[4]) && spells_a_digit(s[5])
        },
{
    if is_offset(s) {
        assert(is_digit(s[1]) && is_digit(s[2]) && is_digit(s[4]) && is_digit(s[5]));
    }
}

} // verus!

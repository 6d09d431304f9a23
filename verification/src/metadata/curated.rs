//! The curated lines of the metadata panel.
//!
//! Numbers with a fraction come as texts: whoever calls rounds them, and what
//! stands here decides which line there is and how it reads.
use vstd::prelude::*;

use crate::metadata::fields::{Ratio, SRatio};
use crate::text;

verus! {

/// A fraction that stands for a positive number.
pub open spec fn is_positive(r: Ratio) -> bool {
    r.num != 0 && r.denom != 0
}

/// An exposure time, by the form it is written in.
#[derive(Debug, Clone, Copy, PartialEq, Eq, Structural)]
pub enum Shutter {
    /// As one part of a second, "1/250 s".
    Part(Ratio),
    /// In seconds, "0.5 s".
    Seconds(Ratio),
}

/// The form an exposure time is written in: from 0.3 seconds up in seconds.
pub open spec fn shutter_of(r: Ratio) -> Option<Shutter> {
    if !is_positive(r) {
        None
    } else if 10 * r.num >= 3 * r.denom {
        Some(Shutter::Seconds(r))
    } else {
        Some(Shutter::Part(r))
    }
}

/// The form an exposure time is written in.
pub fn shutter(r: Ratio) -> (s: Option<Shutter>)
    ensures
        s == shutter_of(r),
{
    if r.num == 0 || r.denom == 0 {
        None
    } else if 10 * (r.num as u64) >= 3 * (r.denom as u64) {
        Some(Shutter::Seconds(r))
    } else {
        Some(Shutter::Part(r))
    }
}

/// Whether a text holds a character.
pub open spec fn has_char(s: Seq<char>, c: char) -> bool {
    exists|i: int| 0 <= i < s.len() && s[i] == c
}

/// A decimal number without the zeros at the end of its fraction, and without
/// the point where nothing is left behind it.
pub open spec fn without_zeros(s: Seq<char>) -> Seq<char> {
    if has_char(s, '.') {
        text::trimmed_end(
            text::trimmed_end(s, |c: char| c == '0'),
            |c: char| c == '.',
        )
    } else {
        s
    }
}

/// Drops a character from the end of a list as often as it stands there.
fn drop_at_end(chars: &mut Vec<char>, c: char)
    ensures
        final(chars)@ == text::trimmed_end(old(chars)@, |x: char| x == c),
{
    let ghost f = |x: char| x == c;
    let ghost first = chars@;
    while chars.len() > 0 && chars[chars.len() - 1] == c
        invariant
            f == (|x: char| x == c),
            text::trimmed_end(chars@, f) == text::trimmed_end(first, f),
        decreases chars@.len(),
    {
        assert(f(chars@.last()));
        let ghost before = chars@;
        let _ = chars.pop();
        assert(chars@ =~= before.drop_last());
    }
    assert(chars@.len() > 0 ==> !f(chars@.last()));
}

/// A decimal number without the zeros at the end of its fraction: "2.0" reads
/// "2", "2.80" reads "2.8", "11.00" reads "11".
pub fn trim_decimal(number: &str) -> (r: String)
    ensures
        r@ == without_zeros(number@),
{
    let mut chars = text::chars_of(number);
    let mut found = false;
    let mut i: usize = 0;
    while i < chars.len()
        invariant
            i <= chars@.len(),
            chars@ == number@,
            found == exists|k: int| 0 <= k < i && chars@[k] == '.',
        decreases chars@.len() - i,
    {
        if chars[i] == '.' {
            found = true;
            assert(chars@[i as int] == '.');
        }
        i += 1;
    }
    if found {
        drop_at_end(&mut chars, '0');
        drop_at_end(&mut chars, '.');
    }
    text::string_of(chars.as_slice())
}

/// How an exposure time reads.
pub open spec fn shutter_line(s: Shutter, number: Seq<char>) -> Seq<char> {
    match s {
        Shutter::Part(_) => seq!['1', '/'] + number + seq![' ', 's'],
        Shutter::Seconds(_) => without_zeros(number) + seq![' ', 's'],
    }
}

/// How an exposure time reads: "1/250 s", "0.5 s", "2 s". The number is the
/// whole part of a second, or the seconds.
pub fn shutter_text(s: Shutter, number: &str) -> (r: String)
    ensures
        r@ == shutter_line(s, number@),
{
    let mut out = String::new();
    match s {
        Shutter::Part(_) => {
            out.push('1');
            out.push('/');
            out.append(number);
        },
        Shutter::Seconds(_) => {
            let trimmed = trim_decimal(number);
            out.append(trimmed.as_str());
        },
    }
    out.push(' ');
    out.push('s');
    assert(out@ =~= shutter_line(s, number@));
    out
}

/// The f-number of a lens opening, where there is one.
pub fn aperture(r: Ratio) -> (a: Option<Ratio>)
    ensures
        a == if is_positive(r) {
            Some(r)
        } else {
            None
        },
{
    if r.num == 0 || r.denom == 0 {
        None
    } else {
        Some(r)
    }
}

/// How an f-number reads: "f/2.8", "f/11", "f/1.78".
pub fn aperture_text(number: &str) -> (r: String)
    ensures
        r@ == seq!['f', '/'] + without_zeros(number@),
{
    let mut out = String::new();
    out.push('f');
    out.push('/');
    let trimmed = trim_decimal(number);
    out.append(trimmed.as_str());
    assert(out@ =~= seq!['f', '/'] + without_zeros(number@));
    out
}

/// A focal length in millimetres, with the length that gives the same view on
/// 35 mm film where that one is shown too.
#[derive(Debug, Clone, Copy, PartialEq, Eq, Structural)]
pub struct Focal {
    pub length: Ratio,
    pub equivalent: Option<u32>,
}

/// Whether a length on 35 mm film is half a millimetre or more off a length.
pub open spec fn differs(r: Ratio, equivalent: int) -> bool {
    2 * (equivalent * r.denom - r.num) >= r.denom || 2 * (r.num - equivalent * r.denom) >= r.denom
}

/// The focal length that is shown.
pub open spec fn focal_of(r: Ratio, equivalent: Option<u32>) -> Option<Focal> {
    if !is_positive(r) {
        None
    } else {
        Some(
            Focal {
                length: r,
                equivalent: match equivalent {
                    Some(eq) => if eq > 0 && differs(r, eq as int) {
                        Some(eq)
                    } else {
                        None
                    },
                    None => None,
                },
            },
        )
    }
}

/// The focal length that is shown. The length on 35 mm film is shown with it
/// where it is known and is not the same.
pub fn focal(r: Ratio, equivalent: Option<u32>) -> (f: Option<Focal>)
    ensures
        f == focal_of(r, equivalent),
{
    if r.num == 0 || r.denom == 0 {
        return None;
    }
    let shown: Option<u32> = match equivalent {
        Some(eq) => {
            let denom: i128 = r.denom as i128;
            let num: i128 = r.num as i128;
            assert(0 <= eq * r.denom <= 0x1_0000_0000 * 0x1_0000_0000) by (nonlinear_arith)
                requires
                    0 <= eq <= u32::MAX,
                    0 <= r.denom <= u32::MAX,
            ;
            let scaled: i128 = eq as i128 * denom;
            if eq > 0 && (2 * (scaled - num) >= denom || 2 * (num - scaled) >= denom) {
                Some(eq)
            } else {
                None
            }
        },
        None => None,
    };
    Some(Focal { length: r, equivalent: shown })
}

/// The unit of a length, behind a space.
pub open spec fn millimetres() -> Seq<char> {
    seq![' ', 'm', 'm']
}

/// How a focal length reads.
pub open spec fn focal_line(f: Focal, number: Seq<char>) -> Seq<char> {
    let true_length = without_zeros(number) + millimetres();
    match f.equivalent {
        Some(eq) => text::decimal(eq as nat) + millimetres() + seq![' ', '('] + true_length + seq![')'],
        None => true_length,
    }
}

/// How a focal length reads: "50 mm", or "24 mm (6.86 mm)" with the length on
/// 35 mm film first.
pub fn focal_text(f: Focal, number: &str) -> (r: String)
    ensures
        r@ == focal_line(f, number@),
{
    let mut out = String::new();
    let true_length = trim_decimal(number);
    match f.equivalent {
        Some(eq) => {
            text::push_decimal(&mut out, eq as u64);
            out.push(' ');
            out.push('m');
            out.push('m');
            out.push(' ');
            out.push('(');
            out.append(true_length.as_str());
            out.push(' ');
            out.push('m');
            out.push('m');
            out.push(')');
        },
        None => {
            out.append(true_length.as_str());
            out.push(' ');
            out.push('m');
            out.push('m');
        },
    }
    assert(out@ =~= focal_line(f, number@));
    out
}

/// How a sensitivity reads.
pub open spec fn iso_line(iso: int) -> Seq<char> {
    "ISO "@ + text::decimal(iso as nat)
}

/// How a sensitivity reads: "ISO 400".
pub fn iso_text(iso: u32) -> (r: String)
    ensures
        r@ == iso_line(iso as int),
{
    let mut out = String::new();
    out.append("ISO ");
    text::push_decimal(&mut out, iso as u64);
    out
}

/// An exposure compensation, by its sign.
#[derive(Debug, Clone, Copy, PartialEq, Eq, Structural)]
pub struct Bias {
    pub value: SRatio,
    pub negative: bool,
}

/// How far a number is from zero.
pub open spec fn magnitude(v: int) -> int {
    if v < 0 {
        -v
    } else {
        v
    }
}

/// The exposure compensation that is shown: none within a twentieth of zero.
pub open spec fn bias_of(r: SRatio) -> Option<Bias> {
    if r.denom == 0 || 20 * magnitude(r.num as int) < magnitude(r.denom as int) {
        None
    } else {
        Some(Bias { value: r, negative: (r.num < 0) != (r.denom < 0) })
    }
}

/// The exposure compensation that is shown: none within a twentieth of zero,
/// which is most photos.
pub fn exposure_bias(r: SRatio) -> (b: Option<Bias>)
    ensures
        b == bias_of(r),
{
    let num: i64 = r.num as i64;
    let denom: i64 = r.denom as i64;
    let num_size: i64 = if num < 0 {
        -num
    } else {
        num
    };
    let denom_size: i64 = if denom < 0 {
        -denom
    } else {
        denom
    };
    if denom == 0 || 20 * num_size < denom_size {
        None
    } else {
        Some(Bias { value: r, negative: (num < 0) != (denom < 0) })
    }
}

/// How an exposure compensation reads.
pub open spec fn ev_line(negative: bool, number: Seq<char>) -> Seq<char> {
    seq![
        if negative {
            '-'
        } else {
            '+'
        },
    ] + without_zeros(number) + " EV"@
}

/// How an exposure compensation reads: "+0.3 EV", "-1.7 EV". The number comes
/// without its sign.
pub fn ev_text(negative: bool, number: &str) -> (r: String)
    ensures
        r@ == ev_line(negative, number@),
{
    let mut out = String::new();
    out.push(if negative {
        '-'
    } else {
        '+'
    });
    let trimmed = trim_decimal(number);
    out.append(trimmed.as_str());
    out.append(" EV");
    assert(out@ =~= ev_line(negative, number@));
    out
}

/// The orientation tag as the turn that would show the picture upright.
pub open spec fn orientation_name(v: int) -> Option<Seq<char>> {
    if v == 1 {
        Some("Normal"@)
    } else if v == 2 {
        Some("Mirror horizontal"@)
    } else if v == 3 {
        Some("Rotate 180°"@)
    } else if v == 4 {
        Some("Mirror vertical"@)
    } else if v == 5 {
        Some("Mirror horizontal, rotate 270° CW"@)
    } else if v == 6 {
        Some("Rotate 90° CW"@)
    } else if v == 7 {
        Some("Mirror horizontal, rotate 90° CW"@)
    } else if v == 8 {
        Some("Rotate 90° CCW"@)
    } else {
        None
    }
}

/// The text in an option.
pub open spec fn text_in(s: Option<String>) -> Option<Seq<char>> {
    match s {
        Some(t) => Some(t@),
        None => None,
    }
}

/// The text in an option.
pub open spec fn str_in(s: Option<&str>) -> Option<Seq<char>> {
    match s {
        Some(t) => Some(t@),
        None => None,
    }
}

/// The orientation tag as the turn that would show the picture upright.
pub fn orientation_text(v: u32) -> (r: Option<String>)
    ensures
        text_in(r) == orientation_name(v as int),
{
    let s = match v {
        1 => "Normal",
        2 => "Mirror horizontal",
        3 => "Rotate 180°",
        4 => "Mirror vertical",
        5 => "Mirror horizontal, rotate 270° CW",
        6 => "Rotate 90° CW",
        7 => "Mirror horizontal, rotate 90° CW",
        8 => "Rotate 90° CCW",
        _ => {
            return None;
        },
    };
    Some(s.to_owned())
}

/// A text without the white space around it, where anything is left.
pub open spec fn nonblank(s: Option<Seq<char>>) -> Option<Seq<char>> {
    match s {
        Some(t) => if text::trimmed(t).len() > 0 {
            Some(text::trimmed(t))
        } else {
            None
        },
        None => None,
    }
}

/// Make and model as one line, given the first word of the make and the model
/// in small letters: the model alone where it holds that word.
pub open spec fn make_and_model(
    make: Seq<char>,
    model: Seq<char>,
    word: Seq<char>,
    small_model: Seq<char>,
) -> Seq<char> {
    if text::holds(small_model, word) {
        model
    } else {
        make + seq![' '] + model
    }
}

/// Make and model as one line.
pub open spec fn camera_of(make: Option<Seq<char>>, model: Option<Seq<char>>) -> Option<
    Seq<char>,
> {
    match (nonblank(make), nonblank(model)) {
        (None, None) => None,
        (Some(a), None) => Some(a),
        (None, Some(b)) => Some(b),
        (Some(a), Some(b)) => Some(
            make_and_model(a, b, text::lower_text(text::first_word(a)), text::lower_text(b)),
        ),
    }
}

/// Make and model as one line, given the first word of the make and the model
/// in small letters. Makers repeat themselves in the model ("NIKON
/// CORPORATION", "NIKON D750"), and the model alone is shown then.
pub fn camera_line(make: &str, model: &str, word: &str, small_model: &str) -> (r: String)
    ensures
        r@ == make_and_model(make@, model@, word@, small_model@),
{
    if text::contains_text(small_model, word) {
        model.to_owned()
    } else {
        let mut out = make.to_owned();
        out.push(' ');
        out.append(model);
        assert(out@ =~= make@ + seq![' '] + model@);
        out
    }
}

/// A text without the white space around it, where anything is left.
fn nonblank_text(s: Option<&str>) -> (r: Option<String>)
    ensures
        text_in(r) == nonblank(str_in(s)),
{
    match s {
        Some(t) => {
            let trimmed = text::trim_text(t);
            if text::same_text(trimmed.as_str(), "") {
                proof {
                    reveal_strlit("");
                }
                None
            } else {
                proof {
                    reveal_strlit("");
                    assert(trimmed@.len() == 0 ==> trimmed@ =~= ""@);
                }
                Some(trimmed)
            }
        },
        None => None,
    }
}

/// Make and model as one line.
pub fn camera_text(make: Option<&str>, model: Option<&str>) -> (r: Option<String>)
    ensures
        text_in(r) == camera_of(str_in(make), str_in(model)),
{
    match (nonblank_text(make), nonblank_text(model)) {
        (None, None) => None,
        (Some(make), None) => Some(make),
        (None, Some(model)) => Some(model),
        (Some(make), Some(model)) => {
            let first = text::first_word_of(make.as_str());
            let word = text::to_lower(first.as_str());
            let small = text::to_lower(model.as_str());
            Some(camera_line(make.as_str(), model.as_str(), word.as_str(), small.as_str()))
        },
    }
}

/// The first string of a text field, without the blanks and NULs around it,
/// where anything is left.
pub open spec fn shown_text(s: Seq<char>) -> Option<Seq<char>> {
    if text::stripped(s).len() > 0 {
        Some(text::stripped(s))
    } else {
        None
    }
}

/// A text without the blanks and NULs around it, where anything is left.
pub fn trimmed_value(s: &str) -> (r: Option<String>)
    ensures
        text_in(r) == shown_text(s@),
{
    let stripped = text::strip_text(s);
    proof {
        reveal_strlit("");
        assert(stripped@.len() == 0 ==> stripped@ =~= ""@);
    }
    if text::same_text(stripped.as_str(), "") {
        None
    } else {
        Some(stripped)
    }
}

/// Of a decimal number only zeros at the end of the fraction are dropped, all of
/// them, and the point with the last; a number without a point keeps its zeros.
pub proof fn law_only_zeros_of_the_fraction_are_dropped(whole: Seq<char>, fraction: Seq<char>, i: int)
    requires
        forall|k: int| 0 <= k < whole.len() ==> whole[k] != '.',
        forall|k: int| 0 <= k < fraction.len() ==> fraction[k] != '.',
    ensures
        without_zeros(whole) == whole,
        ({
            let s = whole + seq!['.'] + fraction;
            let r = without_zeros(s);
            &&& whole.len() <= r.len() <= s.len()
            &&& r == s.take(r.len() as int)
            &&& r.len() != whole.len() + 1
            &&& r.len() > whole.len() ==> r.last() != '0'
            &&& r.len() <= i < s.len() && i > whole.len() ==> s[i] == '0'
        }),
{
    let s = whole + seq!['.'] + fraction;
    let f = |c: char| c == '0';
    let g = |c: char| c == '.';
    assert(s[whole.len() as int] == '.');
    let mid = text::trimmed_end(s, f);
    text::law_only_the_end_is_trimmed(s, f);
    text::law_only_the_end_is_trimmed(mid, g);
    let r = text::trimmed_end(mid, g);
    assert(mid.len() > whole.len()) by {
        if mid.len() <= whole.len() {
            assert(f(s[whole.len() as int]));
        }
    }
    assert(r.len() >= whole.len()) by {
        if r.len() < whole.len() {
            assert(g(mid[whole.len() - 1]));
            assert(mid[whole.len() - 1] == whole[whole.len() - 1]);
        }
    }
    assert(r =~= s.take(r.len() as int));
    assert(r.len() == whole.len() + 1 ==> r.last() == '.');
    assert(r.len() > whole.len() ==> r.len() == mid.len()) by {
        if r.len() > whole.len() && r.len() < mid.len() {
            assert(g(mid[mid.len() - 1]));
            assert(mid[mid.len() - 1] == s[mid.len() - 1]);
            assert(s[mid.len() - 1] == fraction[mid.len() - 1 - whole.len() - 1]);
        }
    }
    if r.len() <= i < s.len() && i > whole.len() {
        if i >= mid.len() {
            assert(f(s[i]));
        } else {
            assert(g(mid[i]));
            assert(s[i] == fraction[i - whole.len() - 1]);
        }
    }
}

/// An exposure time under 0.3 seconds reads as one part of a second and a longer
/// one in seconds.
pub proof fn law_how_an_exposure_time_reads(r: Ratio, number: Seq<char>)
    requires
        r.num > 0,
        r.denom > 0,
    ensures
        shutter_of(r) matches Some(s) && {
            &&& 10 * r.num < 3 * r.denom ==> shutter_line(s, number) == "1/"@ + number + " s"@
            &&& 10 * r.num >= 3 * r.denom ==> shutter_line(s, number) == without_zeros(number) + " s"@
        },
{
    reveal_strlit("1/");
    reveal_strlit(" s");
    assert("1/"@ =~= seq!['1', '/']);
    assert(" s"@ =~= seq![' ', 's']);
}

/// The length on 35 mm film comes first, with the length of the lens behind it in
/// brackets, where it is half a millimetre or more off; otherwise the length of
/// the lens stands alone.
pub proof fn law_how_a_focal_length_reads(r: Ratio, eq: u32, number: Seq<char>)
    requires
        r.num > 0,
        r.denom > 0,
        eq > 0,
    ensures
        focal_of(r, Some(eq)) matches Some(f) && {
            &&& 2 * r.num <= 2 * (eq * r.denom) - r.denom || 2 * r.num >= 2 * (eq * r.denom) + r.denom ==> focal_line(
                f,
                number,
            ) == text::decimal(eq as nat) + " mm ("@ + without_zeros(number) + " mm)"@
            &&& 2 * (eq * r.denom) - r.denom < 2 * r.num < 2 * (eq * r.denom) + r.denom ==> focal_line(f, number)
                == without_zeros(number) + " mm"@
        },
        focal_of(r, None) matches Some(f) && focal_line(f, number) == without_zeros(number) + " mm"@,
{
    reveal_strlit(" mm (");
    reveal_strlit(" mm)");
    reveal_strlit(" mm");
    assert(" mm"@ =~= millimetres());
    assert(text::decimal(eq as nat) + millimetres() + seq![' ', '('] + (without_zeros(number) + millimetres()) + seq![')']
        =~= text::decimal(eq as nat) + " mm ("@ + without_zeros(number) + " mm)"@);
}

/// A compensation up reads with a plus and one down with a minus; one that is
/// less than a twentieth of a step does not read at all.
pub proof fn law_how_a_compensation_reads(num: i32, denom: i32, number: Seq<char>)
    requires
        denom > 0,
    ensures
        20 * num >= denom ==> (bias_of(SRatio { num, denom }) matches Some(b) && ev_line(b.negative, number) == "+"@
            + without_zeros(number) + " EV"@),
        20 * num <= -denom ==> (bias_of(SRatio { num, denom }) matches Some(b) && ev_line(b.negative, number) == "-"@
            + without_zeros(number) + " EV"@),
        -denom < 20 * num < denom ==> bias_of(SRatio { num, denom }) is None,
{
    reveal_strlit("+");
    reveal_strlit("-");
    assert("+"@ =~= seq!['+']);
    assert("-"@ =~= seq!['-']);
}

} // verus!

//! Small pieces of text.
use vstd::prelude::*;

verus! {

/// `String::push` puts one character at the end.
pub assume_specification[ String::push ](s: &mut String, c: char)
    ensures
        final(s)@ == old(s)@.push(c),
;

/// The characters of a text.
pub fn chars_of(s: &str) -> (r: Vec<char>)
    ensures
        r@ == s@,
{
    let mut r: Vec<char> = Vec::new();
    for c in it: s.chars()
        invariant
            r@ == it.seq().take(it.index() as int),
            it.seq() == s@,
    {
        r.push(c);
        assert(r@ =~= it.seq().take(it.index() + 1));
    }
    assert(s@.take(s@.len() as int) =~= s@);
    r
}

/// The text that some characters make.
pub fn string_of(chars: &[char]) -> (r: String)
    ensures
        r@ == chars@,
{
    let mut r = String::new();
    push_chars(&mut r, chars);
    assert(r@ =~= chars@);
    r
}

/// Appends characters to a text.
pub fn push_chars(out: &mut String, chars: &[char])
    ensures
        final(out)@ == old(out)@ + chars@,
{
    let ghost before = out@;
    let mut i: usize = 0;
    while i < chars.len()
        invariant
            i <= chars@.len(),
            out@ == before + chars@.take(i as int),
        decreases chars@.len() - i,
    {
        out.push(chars[i]);
        i += 1;
        assert(out@ =~= before + chars@.take(i as int));
    }
    assert(chars@.take(chars@.len() as int) =~= chars@);
}

/// A letter from A to Z as its small letter, and any other character as it
/// is.
pub open spec fn lower(c: char) -> char {
    if 'A' <= c && c <= 'Z' {
        (c as u8 + 32) as char
    } else {
        c
    }
}

/// A letter from A to Z as its small letter.
pub fn lower_char(c: char) -> (r: char)
    ensures
        r == lower(c),
{
    if 'A' <= c && c <= 'Z' {
        (c as u8 + 32) as char
    } else {
        c
    }
}

/// Whether two texts differ in nothing but the case of the letters A to Z.
pub open spec fn same_letters(a: Seq<char>, b: Seq<char>) -> bool {
    &&& a.len() == b.len()
    &&& forall|i: int| 0 <= i < a.len() ==> lower(#[trigger] a[i]) == lower(b[i])
}

/// Whether two texts differ in nothing but the case of the letters A to Z.
pub fn eq_ignoring_case(a: &[char], b: &str) -> (r: bool)
    ensures
        r == same_letters(a@, b@),
{
    let other = chars_of(b);
    if a.len() != other.len() {
        return false;
    }
    let mut i: usize = 0;
    while i < a.len()
        invariant
            i <= a@.len(),
            other@ == b@,
            a@.len() == b@.len(),
            forall|k: int| 0 <= k < i ==> lower(#[trigger] a@[k]) == lower(b@[k]),
        decreases a@.len() - i,
    {
        if lower_char(a[i]) != lower_char(other[i]) {
            assert(lower(a@[i as int]) != lower(b@[i as int]));
            return false;
        }
        i += 1;
    }
    true
}

/// The digit of a number below ten.
pub open spec fn digit(v: int) -> char {
    (v + 48) as char
}

/// A number in decimal, without leading zeros.
pub open spec fn decimal(v: nat) -> Seq<char>
    decreases v,
{
    if v < 10 {
        seq![digit(v as int)]
    } else {
        decimal(v / 10).push(digit((v % 10) as int))
    }
}

/// A number in decimal with leading zeros up to a width.
pub open spec fn padded_decimal(v: nat, width: nat) -> Seq<char> {
    zeros((width - decimal(v).len()) as int) + decimal(v)
}

/// As many zeros as `n` says, and none for a negative `n`.
pub open spec fn zeros(n: int) -> Seq<char> {
    Seq::new(if n > 0 { n as nat } else { 0 }, |i: int| '0')
}

/// The digits of a number.
pub fn digits_of(v: u64) -> (r: Vec<char>)
    ensures
        r@ == decimal(v as nat),
    decreases v,
{
    let last: char = ((v % 10) as u8 + 48) as char;
    let mut r: Vec<char> = if v < 10 { Vec::new() } else { digits_of(v / 10) };
    r.push(last);
    assert(r@ =~= decimal(v as nat));
    r
}

/// Appends a number in decimal.
pub fn push_decimal(out: &mut String, v: u64)
    ensures
        final(out)@ == old(out)@ + decimal(v as nat),
{
    let digits = digits_of(v);
    push_chars(out, digits.as_slice());
}

/// Appends a number in decimal with leading zeros up to a width.
pub fn push_padded(out: &mut String, v: u64, width: usize)
    ensures
        final(out)@ == old(out)@ + padded_decimal(v as nat, width as nat),
{
    let digits = digits_of(v);
    let ghost before = out@;
    let n: usize = if digits.len() < width { width - digits.len() } else { 0 };
    let mut i: usize = 0;
    while i < n
        invariant
            i <= n,
            out@ == before + zeros(i as int),
        decreases n - i,
    {
        out.push('0');
        i += 1;
        assert(out@ =~= before + zeros(i as int));
    }
    push_chars(out, digits.as_slice());
    assert(out@ =~= before + padded_decimal(v as nat, width as nat));
}

/// A number in decimal as a text.
pub fn decimal_text(v: u64) -> (r: String)
    ensures
        r@ == decimal(v as nat),
{
    let digits = digits_of(v);
    string_of(digits.as_slice())
}

/// Whether two texts are the same.
pub fn same_text(a: &str, b: &str) -> (r: bool)
    ensures
        r == (a@ == b@),
{
    let a = chars_of(a);
    let b = chars_of(b);
    same_chars(a.as_slice(), b.as_slice())
}

/// Whether two lists of characters are the same.
pub fn same_chars(a: &[char], b: &[char]) -> (r: bool)
    ensures
        r == (a@ == b@),
{
    if a.len() != b.len() {
        return false;
    }
    let mut i: usize = 0;
    while i < a.len()
        invariant
            i <= a@.len(),
            a@.len() == b@.len(),
            forall|k: int| 0 <= k < i ==> a@[k] == b@[k],
        decreases a@.len() - i,
    {
        if a[i] != b[i] {
            return false;
        }
        i += 1;
    }
    assert(a@ =~= b@);
    true
}

/// Whether a character is white space, as Unicode has it.
pub open spec fn is_white(c: char) -> bool {
    ||| '\u{9}' <= c && c <= '\u{d}'
    ||| c == ' '
    ||| c == '\u{85}'
    ||| c == '\u{a0}'
    ||| c == '\u{1680}'
    ||| '\u{2000}' <= c && c <= '\u{200a}'
    ||| c == '\u{2028}'
    ||| c == '\u{2029}'
    ||| c == '\u{202f}'
    ||| c == '\u{205f}'
    ||| c == '\u{3000}'
}

/// Whether a character is white space.
pub fn white(c: char) -> (r: bool)
    ensures
        r == is_white(c),
{
    ('\u{9}' <= c && c <= '\u{d}') || c == ' ' || c == '\u{85}' || c == '\u{a0}' || c == '\u{1680}' || (
    '\u{2000}' <= c && c <= '\u{200a}') || c == '\u{2028}' || c == '\u{2029}' || c == '\u{202f}' || c
        == '\u{205f}' || c == '\u{3000}'
}

/// Whether a character is white space or NUL.
pub open spec fn is_blank(c: char) -> bool {
    c == '\0' || is_white(c)
}

/// A text without the characters at its start that `f` picks.
pub open spec fn trimmed_start(s: Seq<char>, f: spec_fn(char) -> bool) -> Seq<char>
    decreases s.len(),
{
    if s.len() > 0 && f(s[0]) {
        trimmed_start(s.drop_first(), f)
    } else {
        s
    }
}

/// A text without the characters at its end that `f` picks.
pub open spec fn trimmed_end(s: Seq<char>, f: spec_fn(char) -> bool) -> Seq<char>
    decreases s.len(),
{
    if s.len() > 0 && f(s.last()) {
        trimmed_end(s.drop_last(), f)
    } else {
        s
    }
}

/// A text without the white space around it.
pub open spec fn trimmed(s: Seq<char>) -> Seq<char> {
    trimmed_end(trimmed_start(s, |c: char| is_white(c)), |c: char| is_white(c))
}

/// A text without the white space and the NULs around it.
pub open spec fn stripped(s: Seq<char>) -> Seq<char> {
    trimmed_end(trimmed_start(s, |c: char| is_blank(c)), |c: char| is_blank(c))
}

/// Where the text without the white space around it starts and ends. With
/// `nul`, NULs count as white space.
fn trim_bounds(s: &[char], nul: bool) -> (r: (usize, usize))
    ensures
        r.0 <= r.1 <= s@.len(),
        s@.subrange(r.0 as int, r.1 as int) == if nul { stripped(s@) } else { trimmed(s@) },
{
    let ghost f: spec_fn(char) -> bool = if nul { |c: char| is_blank(c) } else { |c: char| is_white(c) };
    let mut start: usize = 0;
    assert(s@.skip(0) =~= s@);
    while start < s.len() && (white(s[start]) || (nul && s[start] == '\0'))
        invariant
            start <= s@.len(),
            f == (if nul { |c: char| is_blank(c) } else { |c: char| is_white(c) }),
            trimmed_start(s@.skip(start as int), f) == trimmed_start(s@, f),
        decreases s@.len() - start,
    {
        assert(s@.skip(start as int).drop_first() =~= s@.skip(start + 1));
        start += 1;
    }
    let mut end: usize = s.len();
    assert(s@.subrange(start as int, end as int) =~= s@.skip(start as int));
    while end > start && (white(s[end - 1]) || (nul && s[end - 1] == '\0'))
        invariant
            start <= end <= s@.len(),
            f == (if nul { |c: char| is_blank(c) } else { |c: char| is_white(c) }),
            trimmed_end(s@.subrange(start as int, end as int), f) == trimmed_end(
                s@.skip(start as int),
                f,
            ),
        decreases end - start,
    {
        assert(s@.subrange(start as int, end as int).drop_last() =~= s@.subrange(start as int, end - 1));
        end -= 1;
    }
    (start, end)
}

/// A text without the white space around it.
pub fn trim_text(s: &str) -> (r: String)
    ensures
        r@ == trimmed(s@),
{
    let chars = chars_of(s);
    let (start, end) = trim_bounds(chars.as_slice(), false);
    string_of(vstd::slice::slice_subrange(chars.as_slice(), start, end))
}

/// A text without the white space and the NULs around it.
pub fn strip_text(s: &str) -> (r: String)
    ensures
        r@ == stripped(s@),
{
    let chars = chars_of(s);
    let (start, end) = trim_bounds(chars.as_slice(), true);
    string_of(vstd::slice::slice_subrange(chars.as_slice(), start, end))
}

/// How many characters come before the first white space.
pub open spec fn word_len(s: Seq<char>) -> nat
    decreases s.len(),
{
    if s.len() == 0 || is_white(s[0]) {
        0
    } else {
        1 + word_len(s.drop_first())
    }
}

/// The first word of a text that does not start with white space.
pub open spec fn first_word(s: Seq<char>) -> Seq<char> {
    s.take(word_len(s) as int)
}

/// The first word of a text that does not start with white space.
pub fn first_word_of(s: &str) -> (r: String)
    ensures
        r@ == first_word(s@),
{
    let chars = chars_of(s);
    let mut n: usize = 0;
    assert(chars@.skip(0) =~= chars@);
    while n < chars.len() && !white(chars[n])
        invariant
            n <= chars@.len(),
            n + word_len(chars@.skip(n as int)) == word_len(chars@),
        decreases chars@.len() - n,
    {
        assert(chars@.skip(n as int).drop_first() =~= chars@.skip(n + 1));
        n += 1;
    }
    let word = vstd::slice::slice_subrange(chars.as_slice(), 0, n);
    assert(word@ =~= chars@.take(n as int));
    string_of(word)
}

/// Whether a text is at a position of another.
pub open spec fn found_at(hay: Seq<char>, needle: Seq<char>, at: int) -> bool {
    0 <= at && at + needle.len() <= hay.len() && hay.subrange(at, at + needle.len()) == needle
}

/// Whether a text holds another.
pub open spec fn holds(hay: Seq<char>, needle: Seq<char>) -> bool {
    exists|at: int| found_at(hay, needle, at)
}

/// Whether a text holds another.
pub fn contains_text(hay: &str, needle: &str) -> (r: bool)
    ensures
        r == holds(hay@, needle@),
{
    let h = chars_of(hay);
    let n = chars_of(needle);
    if h.len() < n.len() {
        return false;
    }
    assert(h@.len() == h.len());
    let last: usize = h.len() - n.len();
    let mut at: usize = 0;
    while at <= last
        invariant
            h@ == hay@,
            n@ == needle@,
            last == h@.len() - n@.len(),
            h@.len() <= usize::MAX,
            at <= last + 1,
            forall|k: int| 0 <= k < at ==> !found_at(hay@, needle@, k),
        decreases last + 1 - at,
    {
        let part = vstd::slice::slice_subrange(h.as_slice(), at, at + n.len());
        if same_chars(part, n.as_slice()) {
            assert(found_at(hay@, needle@, at as int));
            return true;
        }
        if at == last {
            return false;
        }
        at += 1;
    }
    false
}

/// How many bytes a character takes in UTF-8.
pub open spec fn char_bytes(c: char) -> int {
    if c <= '\u{7f}' {
        1
    } else if c <= '\u{7ff}' {
        2
    } else if c <= '\u{ffff}' {
        3
    } else {
        4
    }
}

/// How many bytes a text takes in UTF-8.
pub open spec fn text_bytes(s: Seq<char>) -> int
    decreases s.len(),
{
    if s.len() == 0 {
        0
    } else {
        char_bytes(s[0]) + text_bytes(s.drop_first())
    }
}

/// How many characters of a text fit in a number of bytes.
pub open spec fn fitting(s: Seq<char>, room: int) -> nat
    decreases s.len(),
{
    if s.len() == 0 || char_bytes(s[0]) > room {
        0
    } else {
        1 + fitting(s.drop_first(), room - char_bytes(s[0]))
    }
}

/// How many bytes a character takes in UTF-8.
pub fn bytes_of_char(c: char) -> (r: usize)
    ensures
        r == char_bytes(c),
{
    if c <= '\u{7f}' {
        1
    } else if c <= '\u{7ff}' {
        2
    } else if c <= '\u{ffff}' {
        3
    } else {
        4
    }
}

/// What fits is a prefix that takes no more than the room, and one character
/// more would take more.
pub proof fn law_fitting_is_the_longest_prefix(s: Seq<char>, room: int)
    requires
        room >= 0,
    ensures
        fitting(s, room) <= s.len(),
        text_bytes(s.take(fitting(s, room) as int)) <= room,
        fitting(s, room) < s.len() ==> text_bytes(s.take(fitting(s, room) as int + 1)) > room,
        text_bytes(s) <= room ==> fitting(s, room) == s.len(),
    decreases s.len(),
{
    let k = fitting(s, room) as int;
    if s.len() == 0 {
    } else if char_bytes(s[0]) > room {
        assert(s.take(1).drop_first() =~= Seq::empty());
        assert(text_bytes(s.take(1).drop_first()) == 0);
        lemma_text_bytes_positive(s.drop_first());
    } else {
        let rest = s.drop_first();
        let left = room - char_bytes(s[0]);
        law_fitting_is_the_longest_prefix(rest, left);
        assert(s.take(k).drop_first() =~= rest.take(k - 1));
        if k < s.len() {
            assert(s.take(k + 1).drop_first() =~= rest.take(k));
        }
    }
}

pub proof fn lemma_text_bytes_positive(s: Seq<char>)
    ensures
        text_bytes(s) >= 0,
    decreases s.len(),
{
    if s.len() > 0 {
        lemma_text_bytes_positive(s.drop_first());
    }
}

pub proof fn lemma_text_bytes_concat(a: Seq<char>, b: Seq<char>)
    ensures
        text_bytes(a + b) == text_bytes(a) + text_bytes(b),
    decreases a.len(),
{
    if a.len() == 0 {
        assert(a + b =~= b);
    } else {
        assert((a + b).drop_first() =~= a.drop_first() + b);
        lemma_text_bytes_concat(a.drop_first(), b);
    }
}

/// The small letters of a text.
pub uninterp spec fn lower_text(s: Seq<char>) -> Seq<char>;

/// `str::to_lowercase`: the text with its letters turned into small ones, as
/// Unicode has it. The text alone decides the result.
#[verifier::external_body]
pub(crate) fn to_lower(s: &str) -> (r: String)
    ensures
        r@ == lower_text(s@),
{
    s.to_lowercase()
}

/// The capital letters of a text.
pub uninterp spec fn upper_text(s: Seq<char>) -> Seq<char>;

/// `str::to_uppercase`: the text with its letters turned into capitals, as
/// Unicode has it. The text alone decides the result.
#[verifier::external_body]
pub(crate) fn to_upper(s: &str) -> (r: String)
    ensures
        r@ == upper_text(s@),
{
    s.to_uppercase()
}

/// The text that some bytes stand for.
pub uninterp spec fn lossy_text(bytes: Seq<u8>) -> Seq<char>;

/// `String::from_utf8_lossy`: the text that the bytes stand for in UTF-8, with
/// a mark in place of bytes that stand for none. The bytes alone decide the
/// result.
#[verifier::external_body]
pub(crate) fn from_lossy(bytes: &[u8]) -> (r: String)
    ensures
        r@ == lossy_text(bytes@),
{
    String::from_utf8_lossy(bytes).into_owned()
}

/// A template with its gaps filled: each `{}` stands for the next cell, and for
/// nothing where the cells have run out.
pub open spec fn filled(template: Seq<char>, cells: Seq<Seq<char>>) -> Seq<char>
    decreases template.len(),
{
    if template.len() == 0 {
        Seq::empty()
    } else if template.len() >= 2 && template[0] == '{' && template[1] == '}' {
        if cells.len() > 0 {
            cells[0] + filled(template.skip(2), cells.skip(1))
        } else {
            filled(template.skip(2), cells)
        }
    } else {
        seq![template[0]] + filled(template.skip(1), cells)
    }
}

/// The texts of a list.
pub open spec fn texts_of(cells: Seq<String>) -> Seq<Seq<char>> {
    Seq::new(cells.len(), |i: int| cells[i]@)
}

/// A template with its gaps filled.
pub fn fill(template: &str, cells: &Vec<String>) -> (r: String)
    ensures
        r@ == filled(template@, texts_of(cells@)),
{
    let t = chars_of(template);
    let ghost all = texts_of(cells@);
    let mut out = String::new();
    let mut i: usize = 0;
    let mut k: usize = 0;
    assert(t@.skip(0) =~= t@);
    assert(all.skip(0) =~= all);
    assert(out@ + filled(t@, all) =~= filled(t@, all));
    while i < t.len()
        invariant
            i <= t@.len(),
            k <= cells@.len(),
            all == texts_of(cells@),
            out@ + filled(t@.skip(i as int), all.skip(k as int)) == filled(t@, all),
        decreases t@.len() - i,
    {
        let ghost before = out@;
        let ghost rest = t@.skip(i as int);
        let ghost left = all.skip(k as int);
        if t[i] == '{' && t.len() - i >= 2 && t[i + 1] == '}' {
            assert(rest.skip(2) =~= t@.skip(i + 2));
            if k < cells.len() {
                out.append(cells[k].as_str());
                assert(left[0] == all[k as int]);
                assert(left.skip(1) =~= all.skip(k + 1));
                assert(before + (left[0] + filled(rest.skip(2), left.skip(1))) =~= before + left[0]
                    + filled(rest.skip(2), left.skip(1)));
                k += 1;
            }
            i += 2;
        } else {
            out.push(t[i]);
            assert(rest.skip(1) =~= t@.skip(i + 1));
            assert(before + (seq![rest[0]] + filled(rest.skip(1), left)) =~= before.push(rest[0])
                + filled(rest.skip(1), left));
            i += 1;
        }
    }
    assert(out@ + filled(t@.skip(i as int), all.skip(k as int)) =~= out@);
    out
}

/// The number that decimal digits stand for.
pub open spec fn number_read(s: Seq<char>) -> int
    decreases s.len(),
{
    if s.len() == 0 {
        0
    } else {
        number_read(s.drop_last()) * 10 + (s.last() as int - '0' as int)
    }
}

/// A number is written with decimal digits that read back as the number, and
/// with no zero in front of another digit.
pub proof fn law_decimal_reads_back(v: nat)
    ensures
        number_read(decimal(v)) == v,
        decimal(v).len() > 0,
        forall|i: int| 0 <= i < decimal(v).len() ==> '0' <= #[trigger] decimal(v)[i] && decimal(v)[i] <= '9',
        decimal(v).len() > 1 ==> decimal(v)[0] != '0',
    decreases v,
{
    if v < 10 {
        let s = decimal(v);
        assert(s.drop_last() =~= Seq::<char>::empty());
        assert(number_read(s.drop_last()) == 0);
    } else {
        law_decimal_reads_back(v / 10);
        let front = decimal(v / 10);
        let s = decimal(v);
        assert(s.drop_last() =~= front);
        assert(s[0] == front[0]);
        assert(front.len() == 1 ==> number_read(front) == front.last() as int - '0' as int) by {
            if front.len() == 1 {
                assert(front.drop_last() =~= Seq::<char>::empty());
                assert(number_read(front.drop_last()) == 0);
            }
        }
        assert forall|i: int| 0 <= i < s.len() implies '0' <= #[trigger] s[i] && s[i] <= '9' by {
            if i < front.len() {
                assert(s[i] == front[i]);
            }
        }
    }
}

proof fn lemma_zeros_read(n: nat, s: Seq<char>)
    ensures
        number_read(zeros(n as int) + s) == number_read(s),
    decreases s.len(), n,
{
    let all = zeros(n as int) + s;
    if s.len() > 0 {
        assert(all.drop_last() =~= zeros(n as int) + s.drop_last());
        lemma_zeros_read(n, s.drop_last());
    } else if n > 0 {
        assert(all.drop_last() =~= zeros(n - 1) + s);
        lemma_zeros_read((n - 1) as nat, s);
    } else {
        assert(all =~= s);
    }
}

/// A number with leading zeros reads back as the number and is as wide as was
/// asked for, or wider where it has more digits.
pub proof fn law_padded_decimal_reads_back(v: nat, width: nat)
    ensures
        number_read(padded_decimal(v, width)) == v,
        padded_decimal(v, width).len() >= width,
        padded_decimal(v, width).len() == width || padded_decimal(v, width) == decimal(v),
{
    law_decimal_reads_back(v);
    let missing = width - decimal(v).len();
    if missing > 0 {
        lemma_zeros_read(missing as nat, decimal(v));
    } else {
        assert(zeros(missing) + decimal(v) =~= decimal(v));
    }
}

/// Trimming the start takes away characters that were picked, and stops at the
/// first that is not.
pub proof fn law_only_the_start_is_trimmed(s: Seq<char>, f: spec_fn(char) -> bool)
    ensures
        trimmed_start(s, f).len() <= s.len(),
        trimmed_start(s, f) == s.skip(s.len() - trimmed_start(s, f).len()),
        forall|i: int| 0 <= i < s.len() - trimmed_start(s, f).len() ==> f(#[trigger] s[i]),
        trimmed_start(s, f).len() > 0 ==> !f(trimmed_start(s, f)[0]),
    decreases s.len(),
{
    if s.len() > 0 && f(s[0]) {
        let rest = s.drop_first();
        law_only_the_start_is_trimmed(rest, f);
        let n = s.len() - trimmed_start(s, f).len();
        assert(s.skip(n) =~= rest.skip(n - 1));
        assert forall|i: int| 0 <= i < n implies f(#[trigger] s[i]) by {
            if i > 0 {
                assert(rest[i - 1] == s[i]);
            }
        }
    } else {
        assert(s.skip(0) =~= s);
    }
}

/// Trimming the end takes away characters that were picked, and stops at the
/// last that is not.
pub proof fn law_only_the_end_is_trimmed(s: Seq<char>, f: spec_fn(char) -> bool)
    ensures
        trimmed_end(s, f).len() <= s.len(),
        trimmed_end(s, f) == s.take(trimmed_end(s, f).len() as int),
        forall|i: int| trimmed_end(s, f).len() <= i < s.len() ==> f(#[trigger] s[i]),
        trimmed_end(s, f).len() > 0 ==> !f(trimmed_end(s, f).last()),
    decreases s.len(),
{
    if s.len() > 0 && f(s.last()) {
        let front = s.drop_last();
        law_only_the_end_is_trimmed(front, f);
        let n = trimmed_end(s, f).len() as int;
        assert(s.take(n) =~= front.take(n));
        assert forall|i: int| n <= i < s.len() implies f(#[trigger] s[i]) by {
            if i < front.len() {
                assert(front[i] == s[i]);
            }
        }
    } else {
        assert(s.take(s.len() as int) =~= s);
    }
}

/// What is left of a text without the blanks around it neither starts nor ends
/// with one, and a text of blanks leaves nothing.
pub proof fn law_nothing_blank_is_left_around(s: Seq<char>)
    ensures
        trimmed(s).len() > 0 ==> !is_white(trimmed(s)[0]) && !is_white(trimmed(s).last()),
        stripped(s).len() > 0 ==> !is_blank(stripped(s)[0]) && !is_blank(stripped(s).last()),
        s.len() > 0 && !is_white(s[0]) && !is_white(s.last()) ==> trimmed(s) == s,
        s.len() > 0 && !is_blank(s[0]) && !is_blank(s.last()) ==> stripped(s) == s,
        is_white(' '),
        is_white('\u{9}'),
        is_white('\u{a}'),
        is_white('\u{d}'),
        is_blank('\0'),
        forall|c: char| '!' <= c && c <= '~' ==> !#[trigger] is_blank(c) && !is_white(c),
{
    let w = |c: char| is_white(c);
    let b = |c: char| is_blank(c);
    law_only_the_start_is_trimmed(s, w);
    law_only_the_end_is_trimmed(trimmed_start(s, w), w);
    law_only_the_start_is_trimmed(s, b);
    law_only_the_end_is_trimmed(trimmed_start(s, b), b);
}

proof fn lemma_word_len(s: Seq<char>)
    ensures
        word_len(s) <= s.len(),
    decreases s.len(),
{
    if s.len() > 0 && !is_white(s[0]) {
        lemma_word_len(s.drop_first());
    }
}

/// The first word ends at the first white space, or with the text.
pub proof fn law_the_first_word_ends_at_white_space(s: Seq<char>)
    ensures
        first_word(s).len() <= s.len(),
        first_word(s) == s.take(first_word(s).len() as int),
        forall|i: int| 0 <= i < first_word(s).len() ==> !is_white(#[trigger] s[i]),
        first_word(s).len() < s.len() ==> is_white(s[first_word(s).len() as int]),
    decreases s.len(),
{
    lemma_word_len(s);
    if s.len() > 0 && !is_white(s[0]) {
        let rest = s.drop_first();
        lemma_word_len(rest);
        law_the_first_word_ends_at_white_space(rest);
        let n = word_len(s) as int;
        assert(rest.take(n - 1).len() == n - 1);
        assert forall|i: int| 0 <= i < n implies !is_white(#[trigger] s[i]) by {
            if i > 0 {
                assert(rest[i - 1] == s[i]);
            }
        }
    }
}

/// The letters A to Z become the small letter of the same place in the
/// alphabet; every other character stays.
pub proof fn law_capitals_become_small(c: char)
    ensures
        'A' <= c && c <= 'Z' ==> lower(c) as int - 'a' as int == c as int - 'A' as int,
        !('A' <= c && c <= 'Z') ==> lower(c) == c,
{
}

/// The first gap of a template is filled with the first cell, and what stands
/// before it stays as it is.
pub proof fn law_gaps_are_filled_in_turn(before: Seq<char>, rest: Seq<char>, cells: Seq<Seq<char>>)
    requires
        forall|i: int| 0 <= i < before.len() ==> #[trigger] before[i] != '{',
        cells.len() > 0,
    ensures
        filled(before + seq!['{', '}'] + rest, cells) == before + cells[0] + filled(rest, cells.skip(1)),
    decreases before.len(),
{
    let all = before + seq!['{', '}'] + rest;
    if before.len() == 0 {
        assert(all.skip(2) =~= rest);
        assert(filled(all, cells) =~= before + cells[0] + filled(rest, cells.skip(1)));
    } else {
        let tail = before.skip(1);
        assert(all[0] == before[0]);
        assert(all.skip(1) =~= tail + seq!['{', '}'] + rest);
        law_gaps_are_filled_in_turn(tail, rest, cells);
        assert(filled(all, cells) =~= before + cells[0] + filled(rest, cells.skip(1)));
    }
}

/// A template without gaps stays as it is.
pub proof fn law_a_template_without_gaps_stays(t: Seq<char>, cells: Seq<Seq<char>>)
    requires
        forall|i: int| 0 <= i < t.len() ==> #[trigger] t[i] != '{',
    ensures
        filled(t, cells) == t,
    decreases t.len(),
{
    if t.len() > 0 {
        law_a_template_without_gaps_stays(t.skip(1), cells);
        assert(seq![t[0]] + t.skip(1) =~= t);
    }
}

/// A number below a hundred takes two characters, its tens and its ones.
pub proof fn law_two_digits(v: nat)
    requires
        v < 100,
    ensures
        padded_decimal(v, 2) == seq![('0' as int + v / 10) as char, ('0' as int + v % 10) as char],
{
    reveal_with_fuel(decimal, 3);
    if v < 10 {
        assert(zeros(1) + decimal(v) =~= seq!['0', digit(v as int)]);
    } else {
        assert(zeros(0) + decimal(v) =~= seq![digit((v / 10) as int), digit((v % 10) as int)]);
    }
}

/// A number below ten thousand takes four characters.
pub proof fn law_four_digits(v: nat)
    requires
        v < 10000,
    ensures
        padded_decimal(v, 4) == padded_decimal(v / 100, 2) + padded_decimal(v % 100, 2),
{
    reveal_with_fuel(decimal, 5);
    law_two_digits(v / 100);
    law_two_digits(v % 100);
    let both = padded_decimal(v / 100, 2) + padded_decimal(v % 100, 2);
    if v < 10 {
        assert(zeros(3) + decimal(v) =~= both);
    } else if v < 100 {
        assert(zeros(2) + decimal(v) =~= both);
    } else if v < 1000 {
        assert(v / 10 / 10 == v / 100);
        assert(zeros(1) + decimal(v) =~= both);
    } else {
        assert(v / 10 / 10 == v / 100);
        assert(v / 10 / 10 / 10 == v / 100 / 10);
        assert(zeros(0) + decimal(v) =~= both);
    }
}

/// A text holds another just where it is made of something, the other, and
/// something again.
pub proof fn law_a_text_holds_its_parts(before: Seq<char>, part: Seq<char>, behind: Seq<char>, hay: Seq<char>)
    ensures
        holds(before + part + behind, part),
        holds(hay, part) ==> exists|a: Seq<char>, b: Seq<char>| hay == #[trigger] (a + part + b),
{
    let whole = before + part + behind;
    assert(whole.subrange(before.len() as int, before.len() as int + part.len()) =~= part);
    assert(found_at(whole, part, before.len() as int));
    if holds(hay, part) {
        let at = choose|at: int| found_at(hay, part, at);
        let a = hay.take(at);
        let b = hay.skip(at + part.len());
        assert(hay =~= a + part + b);
    }
}

} // verus!

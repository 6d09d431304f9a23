//! What the metadata panel shows, and in what rows.
use vstd::prelude::*;

use crate::metadata::curated;
use crate::metadata::ExifData;
use crate::path;
use crate::picked;
use crate::text;
use crate::text::{chars_of, contains_text, same_text, trim_text};

verus! {

/// The pane that the panel describes.
pub open spec fn pane_of(chosen: int, panes: int) -> int {
    if panes >= 2 {
        if chosen < panes {
            chosen
        } else {
            panes - 1
        }
    } else {
        0
    }
}

/// The panel describes a pane that there is: the chosen one as long as there is
/// one of that number.
pub proof fn law_the_panel_describes_a_pane(chosen: int, panes: int)
    requires
        0 <= chosen,
        1 <= panes,
    ensures
        0 <= pane_of(chosen, panes) < panes,
        chosen < panes ==> pane_of(chosen, panes) == chosen,
        chosen >= panes ==> pane_of(chosen, panes) == panes - 1,
{
}

/// The pane that the panel describes: the chosen one where there are several,
/// and the last one where there are not so many any more.
pub fn active_pane(chosen: usize, panes: usize) -> (r: usize)
    ensures
        r == pane_of(chosen as int, panes as int),
{
    if panes >= 2 {
        if chosen < panes {
            chosen
        } else {
            panes - 1
        }
    } else {
        0
    }
}

/// What the panel says in place of the camera where there is no block to read.
pub fn exif_note(exif: Option<&ExifData>) -> (r: Option<&'static str>)
    ensures
        match exif {
            Some(ExifData::Present(_)) => r is None,
            Some(ExifData::Unreadable) => r matches Some(n) && n@ == "EXIF unreadable"@,
            _ => r matches Some(n) && n@ == "No EXIF data"@,
        },
{
    match exif {
        Some(ExifData::Present(_)) => None,
        Some(ExifData::Unreadable) => Some("EXIF unreadable"),
        _ => Some("No EXIF data"),
    }
}

/// Two texts with a text between them, where both exist.
pub open spec fn joined(a: Option<Seq<char>>, sep: Seq<char>, b: Option<Seq<char>>) -> Option<
    Seq<char>,
> {
    match (a, b) {
        (Some(x), Some(y)) => Some(x + sep + y),
        (Some(x), None) => Some(x),
        (None, Some(y)) => Some(y),
        (None, None) => None,
    }
}

/// Two texts with a text between them, where both exist.
fn join_existing(a: Option<String>, sep: &str, b: Option<&str>) -> (r: Option<String>)
    ensures
        curated::text_in(r) == joined(curated::text_in(a), sep@, curated::str_in(b)),
{
    match (a, b) {
        (Some(x), Some(y)) => {
            let mut out = x;
            out.append(sep);
            out.append(y);
            Some(out)
        },
        (Some(x), None) => Some(x),
        (None, Some(y)) => Some(y.to_owned()),
        (None, None) => None,
    }
}

/// Shutter, aperture and sensitivity on one line.
pub open spec fn exposure_of(
    shutter: Option<Seq<char>>,
    aperture: Option<Seq<char>>,
    iso: Option<Seq<char>>,
) -> Option<Seq<char>> {
    joined(joined(shutter, seq![' ', ' '], aperture), seq![' ', ' '], iso)
}

/// Shutter, aperture and sensitivity on one line, those that exist: "1/60 s
/// f/1.78  ISO 160".
pub fn exposure_line(shutter: Option<&str>, aperture: Option<&str>, iso: Option<&str>) -> (r: Option<
    String,
>)
    ensures
        curated::text_in(r) == exposure_of(
            curated::str_in(shutter),
            curated::str_in(aperture),
            curated::str_in(iso),
        ),
{
    proof {
        reveal_strlit("  ");
        assert("  "@ =~= seq![' ', ' ']);
    }
    let first: Option<String> = match shutter {
        Some(s) => Some(s.to_owned()),
        None => None,
    };
    join_existing(join_existing(first, "  ", aperture), "  ", iso)
}

/// The size of a file and its format on one line.
pub open spec fn size_line_of(size: Option<Seq<char>>, format: Option<Seq<char>>) -> Option<
    Seq<char>,
> {
    joined(size, seq![' ', '·', ' '], format)
}

/// The size of a file and its format on one line, those that are known.
pub fn size_line(size: Option<&str>, format: Option<&str>) -> (r: Option<String>)
    ensures
        curated::text_in(r) == size_line_of(curated::str_in(size), curated::str_in(format)),
{
    proof {
        reveal_strlit(" · ");
        assert(" · "@ =~= seq![' ', '·', ' ']);
    }
    let first: Option<String> = match size {
        Some(s) => Some(s.to_owned()),
        None => None,
    };
    join_existing(first, " · ", format)
}

/// Whether the turn of a picture gets a row: only a picture that is stored
/// upright needs none.
pub fn shows_orientation(turn: &str) -> (r: bool)
    ensures
        r == (turn@ != "Normal"@),
{
    !same_text(turn, "Normal")
}

/// The size of a picture on one line: its sides, and how many megapixels that
/// is.
pub fn dims_line(width: usize, height: usize, megapixels: &str) -> (r: String)
    ensures
        r@ == text::decimal(width as nat) + seq!['x'] + text::decimal(height as nat) + seq![
            ' ',
            '·',
            ' ',
        ] + megapixels@,
{
    proof {
        reveal_strlit(" · ");
        assert(" · "@ =~= seq![' ', '·', ' ']);
    }
    let mut out = text::decimal_text(width as u64);
    out.push('x');
    text::push_decimal(&mut out, height as u64);
    out.append(" · ");
    out.append(megapixels);
    assert(out@ =~= text::decimal(width as nat) + seq!['x'] + text::decimal(height as nat) + seq![
        ' ',
        '·',
        ' ',
    ] + megapixels@);
    out
}

/// A row of the file section.
#[derive(Debug)]
pub struct FileRow {
    pub label: &'static str,
    pub value: String,
}

/// The rows as texts.
pub open spec fn row_texts(rows: Seq<FileRow>) -> Seq<(Seq<char>, Seq<char>)> {
    Seq::new(rows.len(), |i: int| (rows[i].label@, rows[i].value@))
}

/// A row, where its value is known.
pub open spec fn known_row(label: Seq<char>, value: Option<Seq<char>>) -> Seq<
    (Seq<char>, Seq<char>),
> {
    match value {
        Some(v) => seq![(label, v)],
        None => Seq::empty(),
    }
}

/// A text, or nothing.
pub open spec fn text_or_nothing(t: Option<Seq<char>>) -> Seq<char> {
    match t {
        Some(t) => t,
        None => Seq::empty(),
    }
}

/// The rows of the file section: the name and the folder always, the others
/// where they are known. A picture that is stored upright has no row for its
/// turn.
pub open spec fn file_rows_of(
    path: Seq<char>,
    size: Option<Seq<char>>,
    format: Option<Seq<char>>,
    dims: Option<Seq<char>>,
    turn: Option<Seq<char>>,
    modified: Option<Seq<char>>,
) -> Seq<(Seq<char>, Seq<char>)> {
    known_row("Name"@, Some(text_or_nothing(path::file_name_of(path)))) + known_row(
        "Folder"@,
        Some(text_or_nothing(path::parent_of(path))),
    ) + known_row("Size"@, size_line_of(size, format)) + known_row("Dims"@, dims) + known_row(
        "Orientation"@,
        if turn == Some("Normal"@) {
            None
        } else {
            turn
        },
    ) + known_row("Modified"@, modified)
}

/// Adds a row where its value is known.
fn push_known(rows: &mut Vec<FileRow>, label: &'static str, value: Option<String>)
    ensures
        row_texts(final(rows)@) == row_texts(old(rows)@) + known_row(
            label@,
            curated::text_in(value),
        ),
{
    let ghost before = row_texts(rows@);
    let ghost known = curated::text_in(value);
    if let Some(value) = value {
        rows.push(FileRow { label, value });
    }
    assert(row_texts(rows@) =~= before + known_row(label@, known));
}

/// A copy of a text, where there is one.
fn owned(t: Option<&str>) -> (r: Option<String>)
    ensures
        curated::text_in(r) == curated::str_in(t),
{
    match t {
        Some(t) => Some(t.to_owned()),
        None => None,
    }
}

/// The rows of the file section.
pub fn file_rows(
    path: &str,
    size: Option<&str>,
    format: Option<&str>,
    dims: Option<&str>,
    turn: Option<&str>,
    modified: Option<&str>,
) -> (r: Vec<FileRow>)
    ensures
        row_texts(r@) == file_rows_of(
            path@,
            curated::str_in(size),
            curated::str_in(format),
            curated::str_in(dims),
            curated::str_in(turn),
            curated::str_in(modified),
        ),
{
    let name = match path::file_name(path) {
        Some(name) => name,
        None => String::new(),
    };
    let folder = match path::parent(path) {
        Some(dir) => dir,
        None => String::new(),
    };
    let shown_turn: Option<&str> = match turn {
        Some(t) => if shows_orientation(t) {
            Some(t)
        } else {
            None
        },
        None => None,
    };
    let mut rows: Vec<FileRow> = Vec::new();
    assert(row_texts(rows@) =~= Seq::<(Seq<char>, Seq<char>)>::empty());
    push_known(&mut rows, "Name", Some(name));
    push_known(&mut rows, "Folder", Some(folder));
    push_known(&mut rows, "Size", size_line(size, format));
    push_known(&mut rows, "Dims", owned(dims));
    push_known(&mut rows, "Orientation", owned(shown_turn));
    push_known(&mut rows, "Modified", owned(modified));
    assert(row_texts(rows@) =~= file_rows_of(
        path@,
        curated::str_in(size),
        curated::str_in(format),
        curated::str_in(dims),
        curated::str_in(turn),
        curated::str_in(modified),
    ));
    rows
}

/// A row of the camera section.
#[derive(Debug, Clone, Copy, PartialEq, Eq, Structural)]
pub enum CameraRow {
    Exposure,
    Compensation,
    Focal,
    Camera,
    Lens,
    Taken,
}

impl CameraRow {
    /// The label of a row.
    pub open spec fn label_of(self) -> Seq<char> {
        match self {
            CameraRow::Exposure => "Exposure"@,
            CameraRow::Compensation => "Comp."@,
            CameraRow::Focal => "Focal"@,
            CameraRow::Camera => "Camera"@,
            CameraRow::Lens => "Lens"@,
            CameraRow::Taken => "Taken"@,
        }
    }

    /// The label of a row.
    pub fn label(self) -> (r: &'static str)
        ensures
            r@ == self.label_of(),
    {
        match self {
            CameraRow::Exposure => "Exposure",
            CameraRow::Compensation => "Comp.",
            CameraRow::Focal => "Focal",
            CameraRow::Camera => "Camera",
            CameraRow::Lens => "Lens",
            CameraRow::Taken => "Taken",
        }
    }
}

/// Which values of the camera section are known.
#[derive(Debug, Clone, Copy, PartialEq, Eq, Structural)]
pub struct CameraValues {
    pub exposure: bool,
    pub compensation: bool,
    pub focal: bool,
    pub camera: bool,
    pub lens: bool,
    pub taken: bool,
}

/// A row, where its value is known.
pub open spec fn row_if(known: bool, row: CameraRow) -> Seq<CameraRow> {
    if known {
        seq![row]
    } else {
        Seq::empty()
    }
}

/// The rows of the camera section.
pub open spec fn camera_rows_of(v: CameraValues) -> Seq<CameraRow> {
    row_if(v.exposure, CameraRow::Exposure) + row_if(v.compensation, CameraRow::Compensation)
        + row_if(v.focal, CameraRow::Focal) + row_if(v.camera, CameraRow::Camera) + row_if(
        v.lens,
        CameraRow::Lens,
    ) + row_if(v.taken, CameraRow::Taken)
}

/// Adds a row where its value is known.
fn push_if(rows: &mut Vec<CameraRow>, known: bool, row: CameraRow)
    ensures
        final(rows)@ == old(rows)@ + row_if(known, row),
{
    if known {
        rows.push(row);
    }
    assert(rows@ =~= old(rows)@ + row_if(known, row));
}

/// The rows of the camera section: those whose value is known, in order. With
/// none there is no section.
pub fn camera_rows(v: CameraValues) -> (r: Vec<CameraRow>)
    ensures
        r@ == camera_rows_of(v),
{
    let mut rows: Vec<CameraRow> = Vec::new();
    push_if(&mut rows, v.exposure, CameraRow::Exposure);
    push_if(&mut rows, v.compensation, CameraRow::Compensation);
    push_if(&mut rows, v.focal, CameraRow::Focal);
    push_if(&mut rows, v.camera, CameraRow::Camera);
    push_if(&mut rows, v.lens, CameraRow::Lens);
    push_if(&mut rows, v.taken, CameraRow::Taken);
    assert(rows@ =~= camera_rows_of(v));
    rows
}

/// Whether a tag is listed under a filter, all three in small letters: the
/// name or the value holds it.
pub open spec fn is_listed(name: Seq<char>, value: Seq<char>, needle: Seq<char>) -> bool {
    needle.len() == 0 || text::holds(name, needle) || text::holds(value, needle)
}

/// Whether a tag is listed under a filter, all three in small letters.
pub fn tag_is_listed(name: &str, value: &str, needle: &str) -> (r: bool)
    ensures
        r == is_listed(name@, value@, needle@),
{
    let empty = same_text(needle, "");
    proof {
        reveal_strlit("");
        assert(needle@.len() == 0 ==> needle@ =~= ""@);
    }
    empty || contains_text(name, needle) || contains_text(value, needle)
}

/// What is looked for: the text of the filter box without the blanks around
/// it, in small letters.
pub open spec fn needle_of(filter: Seq<char>) -> Seq<char> {
    text::lower_text(text::trimmed(filter))
}

/// The tags that are listed under a filter, by their places.
pub open spec fn listed_tags(tags: Seq<(String, String)>, filter: Seq<char>) -> Seq<usize> {
    picked::picked(
        tags.len() as int,
        |i: int|
            is_listed(
                text::lower_text(tags[i].0@),
                text::lower_text(tags[i].1@),
                needle_of(filter),
            ),
    )
}

/// The tags that are listed under a filter, by their places.
pub fn filter_tags(tags: &Vec<(String, String)>, filter: &str) -> (r: Vec<usize>)
    ensures
        r@ == listed_tags(tags@, filter@),
{
    let trimmed = trim_text(filter);
    let needle = text::to_lower(trimmed.as_str());
    let ghost pick = |i: int|
        is_listed(
            text::lower_text(tags@[i].0@),
            text::lower_text(tags@[i].1@),
            needle_of(filter@),
        );
    let mut r: Vec<usize> = Vec::new();
    let mut i: usize = 0;
    while i < tags.len()
        invariant
            i <= tags@.len(),
            needle@ == needle_of(filter@),
            pick == (|i: int|
                is_listed(
                    text::lower_text(tags@[i].0@),
                    text::lower_text(tags@[i].1@),
                    needle_of(filter@),
                )),
            r@ == picked::picked(i as int, pick),
        decreases tags@.len() - i,
    {
        let name = text::to_lower(tags[i].0.as_str());
        let value = text::to_lower(tags[i].1.as_str());
        if tag_is_listed(name.as_str(), value.as_str(), needle.as_str()) {
            r.push(i);
        }
        i += 1;
    }
    r
}

/// The title of the list of tags.
pub open spec fn title_of(filtered: bool, shown: int, total: int) -> Seq<char> {
    if filtered {
        "ALL EXIF ("@ + text::decimal(shown as nat) + " / "@ + text::decimal(total as nat) + ")"@
    } else {
        "ALL EXIF ("@ + text::decimal(total as nat) + ")"@
    }
}

/// The title of the list of tags: how many there are, and under a filter how
/// many are shown.
pub fn list_title(filtered: bool, shown: usize, total: usize) -> (r: String)
    ensures
        r@ == title_of(filtered, shown as int, total as int),
{
    let mut out = "ALL EXIF (".to_owned();
    if filtered {
        text::push_decimal(&mut out, shown as u64);
        out.append(" / ");
    }
    text::push_decimal(&mut out, total as u64);
    out.append(")");
    out
}

/// The rows of a list that are laid out, by the rows at the top and at the
/// bottom of what is visible.
pub open spec fn rows_shown(top: int, bottom: int, n: int) -> (int, int) {
    let last = if bottom + 1 < n {
        bottom + 1
    } else {
        n
    };
    (
        if top < last {
            top
        } else {
            last
        },
        last,
    )
}

/// The rows of a list that are laid out: from the row at the top of what is
/// visible to one behind the row at its bottom.
pub fn visible_rows(top: usize, bottom: usize, n: usize) -> (r: (usize, usize))
    ensures
        (r.0 as int, r.1 as int) == rows_shown(top as int, bottom as int, n as int),
{
    let last: usize = if bottom < n && bottom + 1 < n {
        bottom + 1
    } else {
        n
    };
    (
        if top < last {
            top
        } else {
            last
        },
        last,
    )
}

/// The space above, the rows and the space below are as tall together as all
/// rows, whatever is visible.
pub proof fn law_the_list_keeps_its_height(top: int, bottom: int, n: int)
    requires
        top >= 0,
        bottom >= 0,
        n >= 0,
    ensures
        ({
            let (first, last) = rows_shown(top, bottom, n);
            &&& 0 <= first <= last <= n
            &&& first + (last - first) + (n - last) == n
        }),
{
}

/// Where the first separator of a path is, or its length.
pub open spec fn separator_in(s: Seq<char>) -> int
    decreases s.len(),
{
    if s.len() == 0 || s[0] == '/' || s[0] == '\\' {
        0
    } else {
        1 + separator_in(s.drop_first())
    }
}

/// What is left of a text without its first characters.
pub open spec fn tail_from(s: Seq<char>, k: int) -> Seq<char> {
    if k < s.len() {
        s.skip(k)
    } else {
        Seq::empty()
    }
}

/// The end of a text behind an ellipsis.
pub open spec fn cut_at(s: Seq<char>, k: int) -> Seq<char> {
    seq!['…'] + tail_from(s, k)
}

/// The end of a text behind an ellipsis, from a separator on where it has one
/// with something behind it.
pub open spec fn elided(s: Seq<char>, k: int) -> Seq<char> {
    let tail = tail_from(s, k);
    let at = separator_in(tail);
    seq!['…'] + if at + 1 < tail.len() {
        tail.skip(at)
    } else {
        tail
    }
}

/// Whether a measurement of a text gave an answer.
pub open spec fn answered<F: Fn(&str) -> bool>(fits: F, s: Seq<char>, answer: bool) -> bool {
    exists|t: &str| t@ == s && #[trigger] call_ensures(fits, (t,), answer)
}

/// The end of a text behind an ellipsis.
fn cut_text(chars: &Vec<char>, k: usize) -> (r: String)
    ensures
        r@ == cut_at(chars@, k as int),
{
    let mut out = String::new();
    out.push('…');
    if k < chars.len() {
        let tail = vstd::slice::slice_subrange(chars.as_slice(), k, chars.len());
        assert(tail@ =~= chars@.skip(k as int));
        text::push_chars(&mut out, tail);
    }
    assert(out@ =~= cut_at(chars@, k as int));
    out
}

/// A text, or an ellipsis and the end of it that fits, and whether it was cut.
///
/// A text that fits is not cut. Otherwise characters are taken from the start,
/// at least one: so many that what is left fits or nothing is left, and with
/// one less it would not fit. It is cut at a separator where there is one.
pub fn elide_start<F: Fn(&str) -> bool>(s: &str, fits: &F) -> (r: (String, bool))
    requires
        forall|t: &str| call_requires(*fits, (t,)),
    ensures
        !r.1 ==> r.0@ == s@ && answered(*fits, s@, true),
        r.1 ==> answered(*fits, s@, false) && exists|k: int|
            {
                &&& 1 <= k
                &&& #[trigger] elided(s@, k) == r.0@
                &&& k >= s@.len() || answered(*fits, cut_at(s@, k), true)
                &&& k == 1 || answered(*fits, cut_at(s@, k - 1), false)
            },
{
    if (*fits)(s) {
        assert(call_ensures(*fits, (s,), true));
        return (s.to_owned(), false);
    }
    assert(call_ensures(*fits, (s,), false));
    let chars = chars_of(s);
    let mut lo: usize = 1;
    let mut hi: usize = chars.len();
    while lo < hi
        invariant
            chars@ == s@,
            forall|t: &str| call_requires(*fits, (t,)),
            1 <= lo,
            hi <= s@.len(),
            lo <= hi || (lo == 1 && s@.len() == 0),
            hi == s@.len() || answered(*fits, cut_at(s@, hi as int), true),
            lo == 1 || answered(*fits, cut_at(s@, lo - 1), false),
        decreases hi - lo,
    {
        let mid: usize = lo + (hi - lo) / 2;
        let cut = cut_text(&chars, mid);
        let candidate = cut.as_str();
        if (*fits)(candidate) {
            assert(candidate@ == cut_at(s@, mid as int));
            assert(call_ensures(*fits, (candidate,), true));
            hi = mid;
        } else {
            assert(candidate@ == cut_at(s@, mid as int));
            assert(call_ensures(*fits, (candidate,), false));
            lo = mid + 1;
        }
    }
    let start: usize = if lo < chars.len() {
        lo
    } else {
        chars.len()
    };
    let mut at: usize = start;
    let ghost tail = tail_from(s@, lo as int);
    assert(tail =~= chars@.skip(start as int));
    assert(tail.skip(0) =~= tail);
    while at < chars.len() && chars[at] != '/' && chars[at] != '\\'
        invariant
            chars@ == s@,
            start <= at <= s@.len(),
            tail == s@.skip(start as int),
            (at - start) + separator_in(tail.skip(at - start)) == separator_in(tail),
        decreases s@.len() - at,
    {
        assert(tail.skip(at - start).drop_first() =~= tail.skip(at - start + 1));
        at += 1;
    }
    let from: usize = if at < chars.len() && chars.len() - at > 1 {
        at
    } else {
        start
    };
    let mut out = String::new();
    out.push('…');
    let rest = vstd::slice::slice_subrange(chars.as_slice(), from, chars.len());
    text::push_chars(&mut out, rest);
    proof {
        assert(separator_in(tail) == at - start);
        assert(rest@ =~= if separator_in(tail) + 1 < tail.len() {
            tail.skip(separator_in(tail))
        } else {
            tail
        });
        assert(out@ =~= elided(s@, lo as int));
    }
    (out, true)
}

/// Whether the size of a picture in megapixels is shown as a whole number:
/// from ten up.
pub fn whole_megapixels(width: usize, height: usize) -> (r: bool)
    ensures
        r == (width * height >= 10_000_000),
{
    assert(width * height <= 0xffff_ffff_ffff_ffff * 0xffff_ffff_ffff_ffff) by (nonlinear_arith)
        requires
            0 <= width <= 0xffff_ffff_ffff_ffff,
            0 <= height <= 0xffff_ffff_ffff_ffff,
    ;
    width as u128 * height as u128 >= 10_000_000
}

/// Every row that is visible is laid out, and none above the top or behind the
/// bottom.
pub proof fn law_visible_rows_are_laid_out(top: int, bottom: int, n: int, i: int)
    requires
        0 <= top <= bottom,
        0 <= n,
    ensures
        ({
            let (first, last) = rows_shown(top, bottom, n);
            first <= i < last <==> top <= i <= bottom && i < n
        }),
{
}

/// The values of the exposure that are known stand on one line, in the order of
/// shutter, aperture and sensitivity, with two blanks between them.
pub proof fn law_the_exposure_line(s: Seq<char>, a: Seq<char>, i: Seq<char>)
    ensures
        exposure_of(Some(s), Some(a), Some(i)) == Some(s + seq![' ', ' '] + a + seq![' ', ' '] + i),
        exposure_of(Some(s), Some(a), None) == Some(s + seq![' ', ' '] + a),
        exposure_of(Some(s), None, Some(i)) == Some(s + seq![' ', ' '] + i),
        exposure_of(None, Some(a), Some(i)) == Some(a + seq![' ', ' '] + i),
        exposure_of(Some(s), None, None) == Some(s),
        exposure_of(None, Some(a), None) == Some(a),
        exposure_of(None, None, Some(i)) == Some(i),
        exposure_of(None, None, None) is None,
{
}

/// One more row.
proof fn lemma_row_if(rows: Seq<CameraRow>, known: bool, row: CameraRow, r: CameraRow)
    ensures
        (rows + row_if(known, row)).contains(r) <==> rows.contains(r) || (known && r == row),
{
    let all = rows + row_if(known, row);
    if all.contains(r) {
        let k = choose|k: int| 0 <= k < all.len() && all[k] == r;
        if k < rows.len() {
            assert(rows[k] == r);
        }
    }
    if rows.contains(r) {
        let k = choose|k: int| 0 <= k < rows.len() && rows[k] == r;
        assert(all[k] == r);
    }
    if known && r == row {
        assert(all[rows.len() as int] == r);
    }
}

/// A row of the camera section is there just where its value is known; the
/// exposure comes first and the date last.
pub proof fn law_camera_rows_are_those_that_are_known(v: CameraValues, r: CameraRow)
    ensures
        camera_rows_of(v).contains(r) <==> match r {
            CameraRow::Exposure => v.exposure,
            CameraRow::Compensation => v.compensation,
            CameraRow::Focal => v.focal,
            CameraRow::Camera => v.camera,
            CameraRow::Lens => v.lens,
            CameraRow::Taken => v.taken,
        },
        v.exposure ==> camera_rows_of(v)[0] == CameraRow::Exposure,
        v.taken ==> camera_rows_of(v).last() == CameraRow::Taken,
{
    let none = Seq::<CameraRow>::empty();
    let a = row_if(v.exposure, CameraRow::Exposure);
    let b = a + row_if(v.compensation, CameraRow::Compensation);
    let c = b + row_if(v.focal, CameraRow::Focal);
    let d = c + row_if(v.camera, CameraRow::Camera);
    let e = d + row_if(v.lens, CameraRow::Lens);
    assert(none + a =~= a);
    assert(!none.contains(r));
    lemma_row_if(none, v.exposure, CameraRow::Exposure, r);
    lemma_row_if(a, v.compensation, CameraRow::Compensation, r);
    lemma_row_if(b, v.focal, CameraRow::Focal, r);
    lemma_row_if(c, v.camera, CameraRow::Camera, r);
    lemma_row_if(d, v.lens, CameraRow::Lens, r);
    lemma_row_if(e, v.taken, CameraRow::Taken, r);
    assert(camera_rows_of(v) == e + row_if(v.taken, CameraRow::Taken));
}

/// The file section starts with the name and the folder, and has each other value
/// that is known under its label. A picture that is stored upright has no row for
/// its turn.
pub proof fn law_the_rows_of_the_file_section(
    p: Seq<char>,
    size: Option<Seq<char>>,
    format: Option<Seq<char>>,
    dims: Option<Seq<char>>,
    turn: Option<Seq<char>>,
    modified: Option<Seq<char>>,
)
    ensures
        ({
            let rows = file_rows_of(p, size, format, dims, turn, modified);
            &&& path::file_name_of(p) matches Some(name) ==> rows[0] == ("Name"@, name)
            &&& path::parent_of(p) matches Some(dir) ==> rows[1] == ("Folder"@, dir)
            &&& size matches Some(s) ==> (format matches Some(f) ==> rows.contains(
                ("Size"@, s + seq![' ', '·', ' '] + f),
            ))
            &&& size matches Some(s) ==> (format is None ==> rows.contains(("Size"@, s)))
            &&& dims matches Some(d) ==> rows.contains(("Dims"@, d))
            &&& turn matches Some(t) ==> (t != "Normal"@ ==> rows.contains(("Orientation"@, t)))
            &&& modified matches Some(m) ==> rows.last() == ("Modified"@, m)
            &&& size is None && format is None && dims is None && turn == Some("Normal"@) && modified is None
                ==> rows.len() == 2
        }),
{
    let rows = file_rows_of(p, size, format, dims, turn, modified);
    let c = known_row("Size"@, size_line_of(size, format));
    let d = known_row("Dims"@, dims);
    let shown = if turn == Some("Normal"@) {
        None
    } else {
        turn
    };
    let e = known_row("Orientation"@, shown);
    let f = known_row("Modified"@, modified);
    let n3 = 2 + c.len();
    let n4 = n3 + d.len();
    let n5 = n4 + e.len();
    if c.len() > 0 {
        assert(rows[2] == c[0]);
    }
    if d.len() > 0 {
        assert(rows[n3 as int] == d[0]);
    }
    if e.len() > 0 {
        assert(rows[n4 as int] == e[0]);
    }
    if f.len() > 0 {
        assert(rows[n5 as int] == f[0]);
    }
}

/// A tag is listed just where the filter is blank, or the tag's name or its value
/// holds the filter's text, whatever the case of the letters.
pub proof fn law_the_filter_lists_what_holds_it(tags: Seq<(String, String)>, filter: Seq<char>, i: usize)
    requires
        i < tags.len() <= usize::MAX,
    ensures
        listed_tags(tags, filter).contains(i) <==> {
            let needle = text::lower_text(text::trimmed(filter));
            ||| needle.len() == 0
            ||| exists|at: int| text::found_at(text::lower_text(tags[i as int].0@), needle, at)
            ||| exists|at: int| text::found_at(text::lower_text(tags[i as int].1@), needle, at)
        },
{
    let pick = |i: int|
        is_listed(text::lower_text(tags[i].0@), text::lower_text(tags[i].1@), needle_of(filter));
    picked::law_picked_numbers(tags.len() as int, pick);
    let list = listed_tags(tags, filter);
    if list.contains(i) {
        let k = choose|k: int| 0 <= k < list.len() && list[k] == i;
        assert(pick(list[k] as int));
    } else {
        assert(!pick(i as int));
    }
}

proof fn lemma_separator_in(s: Seq<char>)
    ensures
        0 <= separator_in(s) <= s.len(),
        separator_in(s) < s.len() ==> s[separator_in(s)] == '/' || s[separator_in(s)] == '\\',
        forall|i: int| 0 <= i < separator_in(s) ==> #[trigger] s[i] != '/' && s[i] != '\\',
    decreases s.len(),
{
    if s.len() > 0 && s[0] != '/' && s[0] != '\\' {
        let rest = s.drop_first();
        lemma_separator_in(rest);
        assert(separator_in(s) < s.len() ==> rest[separator_in(rest)] == s[separator_in(s)]);
        assert forall|i: int| 0 <= i < separator_in(s) implies #[trigger] s[i] != '/' && s[i] != '\\' by {
            if i > 0 {
                assert(rest[i - 1] == s[i]);
            }
        }
    }
}

/// A cut text is an ellipsis and an end of the text, no longer than what fits. It
/// goes on at the first separator of that end where something stands behind it,
/// and with the whole end where there is none.
pub proof fn law_a_cut_text_ends_like_the_text(s: Seq<char>, k: int, j: int)
    requires
        0 <= k <= j,
        j + 1 < s.len(),
        forall|i: int| k <= i < j ==> #[trigger] s[i] != '/' && s[i] != '\\',
    ensures
        s[j] == '/' || s[j] == '\\' ==> elided(s, k) == seq!['…'] + s.skip(j),
        (forall|i: int| k <= i < s.len() ==> #[trigger] s[i] != '/' && s[i] != '\\') ==> elided(s, k) == seq!['…']
            + s.skip(k),
{
    let tail = tail_from(s, k);
    lemma_separator_in(tail);
    let at = separator_in(tail);
    assert forall|i: int| 0 <= i < tail.len() implies #[trigger] tail[i] == s[k + i] by {}
    if s[j] == '/' || s[j] == '\\' {
        assert(tail[j - k] == s[j]);
        assert(at >= j - k) by {
            if at < j - k {
                assert(tail[at] == s[k + at]);
            }
        }
        assert(at == j - k);
        assert(tail.skip(at) =~= s.skip(j));
    }
    if forall|i: int| k <= i < s.len() ==> #[trigger] s[i] != '/' && s[i] != '\\' {
        assert(at == tail.len()) by {
            if at < tail.len() {
                assert(tail[at] == s[k + at]);
            }
        }
    }
}

} // verus!

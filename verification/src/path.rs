//! The parts of a path. A path is text with `/` between its names. Several
//! texts name one path; its plain text is one of them, and the lists of pictures
//! and folders hold plain texts, which are equal where the paths are.
use vstd::prelude::*;
use vstd::slice::slice_subrange;

use crate::text::{chars_of, eq_ignoring_case, same_chars, string_of};

verus! {

/// A path without the separators and the `.` names at its end, which do not
/// change what it names. A path that is nothing but `.` stays.
pub open spec fn trimmed(p: Seq<char>) -> Seq<char>
    decreases p.len(),
{
    if p.len() > 0 && p.last() == '/' {
        trimmed(p.drop_last())
    } else if p.len() > 1 && p.last() == '.' && p[p.len() - 2] == '/' {
        trimmed(p.drop_last())
    } else {
        p
    }
}

/// Where the last name of a path starts: behind its last separator.
pub open spec fn name_start(p: Seq<char>) -> int
    decreases p.len(),
{
    if p.len() == 0 || p.last() == '/' {
        p.len() as int
    } else {
        name_start(p.drop_last())
    }
}

/// Whether a name is that of a file or a folder: not empty, and neither the
/// folder itself nor the one above it.
pub open spec fn is_name(n: Seq<char>) -> bool {
    n.len() > 0 && n != seq!['.'] && n != seq!['.', '.']
}

/// The last name of a path. `None` for a path that ends in `..` or has no
/// name at all.
pub open spec fn file_name_of(p: Seq<char>) -> Option<Seq<char>> {
    let t = trimmed(p);
    let n = t.skip(name_start(t));
    if is_name(n) { Some(n) } else { None }
}

/// Where the last dot of a name is, or -1.
pub open spec fn last_dot(n: Seq<char>) -> int
    decreases n.len(),
{
    if n.len() == 0 {
        -1
    } else if n.last() == '.' {
        n.len() - 1
    } else {
        last_dot(n.drop_last())
    }
}

/// What follows the last dot of a name. `None` for a name without a dot, and
/// for one whose only dot is its first character.
pub open spec fn extension_in(n: Seq<char>) -> Option<Seq<char>> {
    if last_dot(n) > 0 {
        Some(n.skip(last_dot(n) + 1))
    } else {
        None
    }
}

/// The extension of a path.
pub open spec fn extension_of(p: Seq<char>) -> Option<Seq<char>> {
    match file_name_of(p) {
        Some(n) => extension_in(n),
        None => None,
    }
}

/// The path without its last name. `None` for the root and for an empty
/// path.
pub open spec fn parent_of(p: Seq<char>) -> Option<Seq<char>> {
    let t = trimmed(p);
    let start = name_start(t);
    if t.len() == 0 {
        None
    } else {
        let above = trimmed(t.take(start));
        if above.len() == 0 && start > 0 {
            Some(seq!['/'])
        } else {
            Some(above)
        }
    }
}

/// Whether a path starts at the root.
pub open spec fn is_rooted(p: Seq<char>) -> bool {
    p.len() > 0 && p[0] == '/'
}

/// The names of a path, in order. Separators that follow one another count
/// once, and a `.` counts only where it comes first.
pub open spec fn names_of(p: Seq<char>) -> Seq<Seq<char>>
    decreases p.len(),
    via names_of_decreases
{
    let t = trimmed(p);
    if t.len() == 0 {
        Seq::empty()
    } else {
        names_of(t.take(name_start(t))).push(t.skip(name_start(t)))
    }
}

#[via_fn]
proof fn names_of_decreases(p: Seq<char>) {
    lemma_trimmed_is_shorter(p);
    let t = trimmed(p);
    if t.len() > 0 {
        lemma_name_start(t);
    }
}

/// Whether two texts name the same path: their names are the same.
pub open spec fn is_same_path(a: Seq<char>, b: Seq<char>) -> bool {
    is_rooted(a) == is_rooted(b) && names_of(a) == names_of(b)
}

/// The text of a path of some names: one separator between them.
pub open spec fn path_from(rooted: bool, names: Seq<Seq<char>>) -> Seq<char>
    decreases names.len(),
{
    if names.len() == 0 {
        if rooted {
            seq!['/']
        } else {
            Seq::empty()
        }
    } else {
        let above = path_from(rooted, names.drop_last());
        if above.len() == 0 || above.last() == '/' {
            above + names.last()
        } else {
            above + seq!['/'] + names.last()
        }
    }
}

/// The plain text of a path: without what does not change the path that it
/// names.
pub open spec fn plain_of(p: Seq<char>) -> Seq<char> {
    path_from(is_rooted(p), names_of(p))
}

/// Leaving out what stands at the end of a path gives a part of it, which has
/// nothing more to leave out and starts as the path does.
proof fn lemma_trimmed_is_shorter(p: Seq<char>)
    ensures
        trimmed(p).len() <= p.len(),
        trimmed(p) == p.take(trimmed(p).len() as int),
        trimmed(trimmed(p)) == trimmed(p),
        trimmed(p).len() > 0 ==> trimmed(p).last() != '/',
        trimmed(p).len() > 1 ==> !(trimmed(p).last() == '.' && trimmed(p)[trimmed(p).len() - 2] == '/'),
        trimmed(p).len() == 0 && p.len() > 0 ==> p[0] == '/',
    decreases p.len(),
{
    if (p.len() > 0 && p.last() == '/') || (p.len() > 1 && p.last() == '.' && p[p.len() - 2] == '/') {
        lemma_trimmed_is_shorter(p.drop_last());
        assert(trimmed(p) =~= p.take(trimmed(p).len() as int));
    } else {
        assert(p =~= p.take(p.len() as int));
    }
}

/// The last name of a path has no separator in it, and one before it unless it
/// is the only one.
proof fn lemma_name_start(p: Seq<char>)
    ensures
        0 <= name_start(p) <= p.len(),
        forall|i: int| name_start(p) <= i < p.len() ==> p[i] != '/',
        name_start(p) > 0 ==> p[name_start(p) - 1] == '/',
        p.len() > 0 && p.last() != '/' ==> name_start(p) < p.len(),
    decreases p.len(),
{
    if p.len() > 0 && p.last() != '/' {
        let q = p.drop_last();
        lemma_name_start(q);
        assert forall|i: int| name_start(p) <= i < p.len() implies p[i] != '/' by {
            if i < q.len() {
                assert(q[i] == p[i]);
            }
        }
    }
}

/// A text without separators behind one that is empty or ends in one is the
/// last name.
proof fn lemma_name_behind(above: Seq<char>, name: Seq<char>)
    requires
        above.len() == 0 || above.last() == '/',
        forall|i: int| 0 <= i < name.len() ==> name[i] != '/',
    ensures
        name_start(above + name) == above.len(),
    decreases name.len(),
{
    let p = above + name;
    if name.len() == 0 {
        assert(p =~= above);
    } else {
        assert(p.last() == name.last());
        assert(p.drop_last() =~= above + name.drop_last());
        lemma_name_behind(above, name.drop_last());
    }
}

/// Whether a name can stand in a path behind so many others.
spec fn can_follow(name: Seq<char>, before: int) -> bool {
    &&& name.len() > 0
    &&& forall|i: int| 0 <= i < name.len() ==> name[i] != '/'
    &&& name == seq!['.'] ==> before == 0
}

/// The names of a path are names, and a `.` comes first only in a path that
/// does not start at the root.
proof fn lemma_names_are_names(p: Seq<char>)
    ensures
        forall|i: int| 0 <= i < names_of(p).len() ==> can_follow(#[trigger] names_of(p)[i], i),
        is_rooted(p) && names_of(p).len() > 0 ==> names_of(p)[0] != seq!['.'],
    decreases p.len(),
{
    let t = trimmed(p);
    lemma_trimmed_is_shorter(p);
    if t.len() > 0 {
        lemma_name_start(t);
        let start = name_start(t);
        let above = t.take(start);
        let name = t.skip(start);
        lemma_names_are_names(above);
        if name == seq!['.'] {
            assert(name.len() == t.len() - start);
            assert(seq!['.'].len() == 1 && seq!['.'][0] == '.');
            assert(name[0] == t.last());
            assert(start == 0);
            assert(above =~= Seq::empty());
            lemma_trimmed_is_shorter(above);
            assert(names_of(above).len() == 0);
            assert(t[0] == p[0]);
        }
        if start > 0 {
            assert(above[0] == p[0]);
        } else {
            assert(above =~= Seq::empty());
            lemma_trimmed_is_shorter(above);
            assert(t[0] == p[0]);
        }
        let names = names_of(p);
        assert(names == names_of(above).push(name));
        assert forall|i: int| 0 <= i < names.len() implies can_follow(#[trigger] names[i], i) by {
            if i < names_of(above).len() {
                assert(names[i] == names_of(above)[i]);
            } else {
                assert forall|k: int| 0 <= k < name.len() implies name[k] != '/' by {
                    assert(name[k] == t[start + k]);
                }
            }
        }
    }
}

/// A separator at the end of a text changes none of its names.
proof fn lemma_separator_behind(p: Seq<char>)
    ensures
        names_of(p + seq!['/']) == names_of(p),
{
    let q = p + seq!['/'];
    assert(q.last() == '/');
    assert(q.drop_last() =~= p);
}

/// The plain text of some names has these names.
proof fn lemma_names_of_path_from(rooted: bool, names: Seq<Seq<char>>)
    requires
        forall|i: int| 0 <= i < names.len() ==> can_follow(#[trigger] names[i], i),
        rooted && names.len() > 0 ==> names[0] != seq!['.'],
    ensures
        names_of(path_from(rooted, names)) == names,
        is_rooted(path_from(rooted, names)) == rooted,
        names.len() > 0 ==> {
            let p = path_from(rooted, names);
            &&& trimmed(p) == p
            &&& p.last() != '/'
            &&& parent_of(p) == Some(path_from(rooted, names.drop_last()))
        },
    decreases names.len(),
{
    let p = path_from(rooted, names);
    if names.len() == 0 {
        if rooted {
            assert(p.len() == 1 && p.last() == '/');
            assert(p.drop_last() =~= Seq::<char>::empty());
            assert(trimmed(p.drop_last()).len() == 0);
        }
        assert(names_of(p) =~= names);
    } else {
        let front = names.drop_last();
        let name = names.last();
        assert forall|i: int| 0 <= i < front.len() implies can_follow(#[trigger] front[i], i) by {
            assert(front[i] == names[i]);
        }
        assert(can_follow(names[names.len() - 1], names.len() - 1));
        lemma_names_of_path_from(rooted, front);
        let above = path_from(rooted, front);
        let lead = if above.len() == 0 || above.last() == '/' {
            above
        } else {
            above + seq!['/']
        };
        assert(p =~= lead + name);
        lemma_name_behind(lead, name);
        assert(p.last() == name.last());
        assert(trimmed(p) == p) by {
            if p.len() > 1 && p.last() == '.' && p[p.len() - 2] == '/' {
                assert(name.len() == 1) by {
                    if name.len() > 1 {
                        assert(p[p.len() - 2] == name[name.len() - 2]);
                    }
                }
                assert(name =~= seq!['.']);
                assert(front.len() == 0);
                assert(lead.len() > 0);
                assert(rooted);
            }
        }
        assert(p.take(lead.len() as int) =~= lead);
        assert(p.skip(lead.len() as int) =~= name);
        assert(parent_of(p) == Some(above)) by {
            if front.len() == 0 {
                if rooted {
                    assert(lead =~= seq!['/']);
                    assert(lead.drop_last() =~= Seq::<char>::empty());
                    assert(trimmed(lead.drop_last()).len() == 0);
                }
            } else {
                assert(lead.drop_last() =~= above);
            }
        }
        lemma_separator_behind(above);
        assert(names_of(lead) == front);
        assert(names_of(p) =~= names);
        if lead.len() > 0 {
            assert(p[0] == lead[0]);
            if above.len() > 0 {
                assert(p[0] == above[0]);
            }
        } else {
            assert(p[0] == name[0]);
        }
    }
}

/// Two texts name the same path if and only if their plain texts are the same.
pub proof fn law_plain_texts_tell_paths_apart(a: Seq<char>, b: Seq<char>)
    ensures
        is_same_path(a, b) <==> plain_of(a) == plain_of(b),
{
    lemma_names_are_names(a);
    lemma_names_are_names(b);
    lemma_names_of_path_from(is_rooted(a), names_of(a));
    lemma_names_of_path_from(is_rooted(b), names_of(b));
}

/// The plain text of a path names the path, and is its own plain text.
pub proof fn law_plain_text_stays(p: Seq<char>)
    ensures
        is_same_path(p, plain_of(p)),
        plain_of(plain_of(p)) == plain_of(p),
{
    lemma_names_are_names(p);
    lemma_names_of_path_from(is_rooted(p), names_of(p));
}

/// The folder of a plain text is a plain text, and so is a name inside it.
pub proof fn law_parts_of_plain_texts_are_plain(p: Seq<char>, name: Seq<char>)
    requires
        is_name(name),
        forall|i: int| 0 <= i < name.len() ==> name[i] != '/',
    ensures
        parent_of(plain_of(p)) matches Some(above) ==> plain_of(above) == above,
        plain_of(joined(plain_of(p), name)) == joined(plain_of(p), name),
{
    let rooted = is_rooted(p);
    let names = names_of(p);
    lemma_names_are_names(p);
    lemma_names_of_path_from(rooted, names);
    if names.len() > 0 {
        let front = names.drop_last();
        assert forall|i: int| 0 <= i < front.len() implies can_follow(#[trigger] front[i], i) by {
            assert(front[i] == names[i]);
        }
        lemma_names_of_path_from(rooted, front);
    } else if rooted {
        let root = seq!['/'];
        assert(root.last() == '/' && root.drop_last() =~= Seq::<char>::empty());
        assert(trimmed(root.drop_last()).len() == 0);
        assert(trimmed(root).len() == 0);
    }
    let more = names.push(name);
    assert(more.drop_last() =~= names);
    assert forall|i: int| 0 <= i < more.len() implies can_follow(#[trigger] more[i], i) by {
        if i < names.len() {
            assert(more[i] == names[i]);
        }
    }
    lemma_names_of_path_from(rooted, more);
    assert(joined(plain_of(p), name) =~= path_from(rooted, more));
}

/// How long a path is without the separators and `.` names at its end.
fn trim(p: &[char]) -> (r: usize)
    ensures
        r <= p@.len(),
        trimmed(p@) == p@.take(r as int),
        trimmed(p@.take(r as int)) == p@.take(r as int),
{
    let mut r: usize = p.len();
    assert(p@.take(r as int) =~= p@);
    while (r > 0 && p[r - 1] == '/') || (r > 1 && p[r - 1] == '.' && p[r - 2] == '/')
        invariant
            r <= p@.len(),
            trimmed(p@.take(r as int)) == trimmed(p@),
        decreases r,
    {
        assert(p@.take(r as int).drop_last() =~= p@.take(r - 1));
        r -= 1;
    }
    r
}

/// Where the last name of a path starts.
fn find_name_start(p: &[char]) -> (r: usize)
    ensures
        r <= p@.len(),
        r == name_start(p@),
{
    let mut r: usize = p.len();
    assert(p@.take(r as int) =~= p@);
    while r > 0 && p[r - 1] != '/'
        invariant
            r <= p@.len(),
            name_start(p@.take(r as int)) == name_start(p@),
        decreases r,
    {
        assert(p@.take(r as int).drop_last() =~= p@.take(r - 1));
        r -= 1;
    }
    r
}

/// The last name of a path.
fn name_chars(p: &[char]) -> (r: Option<&[char]>)
    ensures
        match r {
            Some(n) => file_name_of(p@) == Some(n@),
            None => file_name_of(p@) is None,
        },
{
    let len: usize = trim(p);
    let t = slice_subrange(p, 0, len);
    assert(t@ =~= p@.take(len as int));
    let start: usize = find_name_start(t);
    let n = slice_subrange(t, start, t.len());
    assert(n@ =~= trimmed(p@).skip(name_start(trimmed(p@))));
    let dot: bool = n.len() == 1 && n[0] == '.';
    let dots: bool = n.len() == 2 && n[0] == '.' && n[1] == '.';
    assert(dot == (n@ =~= seq!['.']));
    assert(dots == (n@ =~= seq!['.', '.']));
    if n.len() == 0 || dot || dots {
        None
    } else {
        Some(n)
    }
}

/// What follows the last dot of a name.
fn extension_chars(n: &[char]) -> (r: Option<&[char]>)
    ensures
        match r {
            Some(e) => extension_in(n@) == Some(e@),
            None => extension_in(n@) is None,
        },
{
    let mut r: usize = n.len();
    assert(n@.take(r as int) =~= n@);
    while r > 0 && n[r - 1] != '.'
        invariant
            r <= n@.len(),
            last_dot(n@.take(r as int)) == last_dot(n@),
        decreases r,
    {
        assert(n@.take(r as int).drop_last() =~= n@.take(r - 1));
        r -= 1;
    }
    if r <= 1 {
        return None;
    }
    let e = slice_subrange(n, r, n.len());
    assert(e@ =~= n@.skip(r as int));
    Some(e)
}

/// The last name of a path.
pub fn file_name(path: &str) -> (r: Option<String>)
    ensures
        match r {
            Some(n) => file_name_of(path@) == Some(n@),
            None => file_name_of(path@) is None,
        },
{
    let chars = chars_of(path);
    match name_chars(chars.as_slice()) {
        Some(n) => Some(string_of(n)),
        None => None,
    }
}

/// The extension of a path.
pub fn extension(path: &str) -> (r: Option<String>)
    ensures
        match r {
            Some(e) => extension_of(path@) == Some(e@),
            None => extension_of(path@) is None,
        },
{
    let chars = chars_of(path);
    match name_chars(chars.as_slice()) {
        Some(n) => match extension_chars(n) {
            Some(e) => Some(string_of(e)),
            None => None,
        },
        None => None,
    }
}

/// The path without its last name.
pub fn parent(path: &str) -> (r: Option<String>)
    ensures
        match r {
            Some(p) => parent_of(path@) == Some(p@),
            None => parent_of(path@) is None,
        },
{
    let chars = chars_of(path);
    let len: usize = trim(chars.as_slice());
    let t = slice_subrange(chars.as_slice(), 0, len);
    assert(t@ =~= trimmed(path@));
    if t.len() == 0 {
        return None;
    }
    let start: usize = find_name_start(t);
    let above = slice_subrange(t, 0, start);
    assert(above@ =~= trimmed(path@).take(start as int));
    let above_len: usize = trim(above);
    if above_len == 0 && start > 0 {
        let mut root = String::new();
        root.push('/');
        assert(root@ =~= seq!['/']);
        Some(root)
    } else {
        let r = slice_subrange(above, 0, above_len);
        assert(r@ =~= above@.take(above_len as int));
        Some(string_of(r))
    }
}

/// The names of a path start where the path does.
proof fn lemma_lead_is_rooted(p: Seq<char>)
    requires
        trimmed(p).len() > 0,
    ensures
        is_rooted(trimmed(p).take(name_start(trimmed(p)))) == is_rooted(p),
{
    let t = trimmed(p);
    lemma_trimmed_is_shorter(p);
    lemma_name_start(t);
    assert(t[0] == p[0]);
}

/// Whether two paths have the same names.
fn same_names(a: &[char], b: &[char]) -> (r: bool)
    ensures
        r == (names_of(a@) == names_of(b@)),
    decreases a@.len(),
{
    proof {
        lemma_trimmed_is_shorter(a@);
        lemma_trimmed_is_shorter(b@);
        lemma_name_start(trimmed(a@));
        lemma_name_start(trimmed(b@));
    }
    let s = slice_subrange(a, 0, trim(a));
    let t = slice_subrange(b, 0, trim(b));
    assert(s@ =~= trimmed(a@));
    assert(t@ =~= trimmed(b@));
    if s.len() == 0 || t.len() == 0 {
        assert(names_of(a@).len() == 0 <==> s@.len() == 0);
        assert(names_of(b@).len() == 0 <==> t@.len() == 0);
        return s.len() == 0 && t.len() == 0;
    }
    let from: usize = find_name_start(s);
    let to: usize = find_name_start(t);
    let above = slice_subrange(s, 0, from);
    let other = slice_subrange(t, 0, to);
    let name = slice_subrange(s, from, s.len());
    let last = slice_subrange(t, to, t.len());
    assert(above@ =~= s@.take(from as int));
    assert(other@ =~= t@.take(to as int));
    assert(name@ =~= s@.skip(from as int));
    assert(last@ =~= t@.skip(to as int));
    proof {
        let (m, n) = (names_of(a@), names_of(b@));
        assert(m.last() == name@ && m.drop_last() =~= names_of(above@));
        assert(n.last() == last@ && n.drop_last() =~= names_of(other@));
        if m.last() == n.last() && m.drop_last() == n.drop_last() {
            assert(m =~= m.drop_last().push(m.last()));
            assert(n =~= n.drop_last().push(n.last()));
        }
    }
    same_chars(name, last) && same_names(above, other)
}

/// Whether two texts name the same path.
pub fn same_path(a: &str, b: &str) -> (r: bool)
    ensures
        r == is_same_path(a@, b@),
{
    let s = chars_of(a);
    let t = chars_of(b);
    let from_root: bool = s.len() > 0 && s[0] == '/';
    let other: bool = t.len() > 0 && t[0] == '/';
    from_root == other && same_names(s.as_slice(), t.as_slice())
}

/// The plain text of a path, whose own root is handed in: the part of a path
/// before its only name does not show it.
fn plain_chars(p: &[char], rooted: bool) -> (r: Vec<char>)
    requires
        p@.len() > 0 ==> rooted == is_rooted(p@),
    ensures
        r@ == path_from(rooted, names_of(p@)),
    decreases p@.len(),
{
    proof {
        lemma_trimmed_is_shorter(p@);
        lemma_name_start(trimmed(p@));
    }
    let t = slice_subrange(p, 0, trim(p));
    assert(t@ =~= trimmed(p@));
    if t.len() == 0 {
        let mut root: Vec<char> = Vec::new();
        if rooted {
            root.push('/');
        }
        assert(root@ =~= path_from(rooted, Seq::empty()));
        return root;
    }
    let start: usize = find_name_start(t);
    let above = slice_subrange(t, 0, start);
    assert(above@ =~= t@.take(start as int));
    proof {
        lemma_lead_is_rooted(p@);
    }
    let mut out = plain_chars(above, rooted);
    let ghost lead = out@;
    if out.len() > 0 && out[out.len() - 1] != '/' {
        out.push('/');
    }
    let ghost before = out@;
    let mut i: usize = start;
    while i < t.len()
        invariant
            start <= i <= t@.len(),
            out@ == before + t@.subrange(start as int, i as int),
        decreases t@.len() - i,
    {
        out.push(t[i]);
        i += 1;
        assert(out@ =~= before + t@.subrange(start as int, i as int));
    }
    proof {
        assert(t@.subrange(start as int, i as int) =~= t@.skip(start as int));
        let names = names_of(p@);
        assert(names.drop_last() =~= names_of(above@));
        assert(names.last() == t@.skip(start as int));
        assert(out@ =~= path_from(rooted, names));
    }
    out
}

/// The plain text of a path.
pub fn plain(path: &str) -> (r: String)
    ensures
        r@ == plain_of(path@),
{
    let chars = chars_of(path);
    let rooted: bool = chars.len() > 0 && chars[0] == '/';
    string_of(plain_chars(chars.as_slice(), rooted).as_slice())
}

/// Whether the extension of a path is one of a list, in whatever case.
pub open spec fn has_extension_in(p: Seq<char>, list: Seq<&str>) -> bool {
    match extension_of(p) {
        Some(e) => exists|i: int| 0 <= i < list.len() && crate::text::same_letters(e, (#[trigger] list[i])@),
        None => false,
    }
}

/// Whether the extension of a path is one of a list, in whatever case.
pub fn has_extension(path: &str, extensions: &[&str]) -> (r: bool)
    ensures
        r == has_extension_in(path@, extensions@),
{
    let chars = chars_of(path);
    let name = match name_chars(chars.as_slice()) {
        Some(name) => name,
        None => return false,
    };
    let own = match extension_chars(name) {
        Some(own) => own,
        None => return false,
    };
    let mut i: usize = 0;
    while i < extensions.len()
        invariant
            i <= extensions@.len(),
            extension_of(path@) == Some(own@),
            forall|k: int| 0 <= k < i ==> !crate::text::same_letters(own@, (#[trigger] extensions@[k])@),
        decreases extensions@.len() - i,
    {
        if eq_ignoring_case(own, extensions[i]) {
            assert(crate::text::same_letters(own@, extensions@[i as int]@));
            return true;
        }
        i += 1;
    }
    false
}

/// A name inside a folder. A name that starts at the root stands for itself.
pub open spec fn joined(dir: Seq<char>, name: Seq<char>) -> Seq<char> {
    if dir.len() == 0 || (name.len() > 0 && name[0] == '/') {
        name
    } else if dir.last() == '/' {
        dir + name
    } else {
        dir + seq!['/'] + name
    }
}

/// A name inside a folder.
pub fn join(dir: &str, name: &str) -> (r: String)
    ensures
        r@ == joined(dir@, name@),
{
    let d = chars_of(dir);
    let n = chars_of(name);
    if d.len() == 0 || (n.len() > 0 && n[0] == '/') {
        return name.to_owned();
    }
    let mut out = dir.to_owned();
    if d[d.len() - 1] != '/' {
        out.push('/');
    }
    out.append(name);
    assert(out@ =~= joined(dir@, name@));
    out
}

/// A name inside a folder is the last name of the path, and the folder is what
/// is above it.
pub proof fn law_a_joined_path_splits_again(dir: Seq<char>, name: Seq<char>)
    requires
        is_name(name),
        forall|i: int| 0 <= i < name.len() ==> name[i] != '/',
        dir.len() > 0,
        trimmed(dir) == dir || dir == seq!['/'],
    ensures
        file_name_of(joined(dir, name)) == Some(name),
        parent_of(joined(dir, name)) == Some(dir),
{
    let lead = if dir.last() == '/' {
        dir
    } else {
        dir + seq!['/']
    };
    let p = joined(dir, name);
    lemma_trimmed_is_shorter(dir);
    assert(p =~= lead + name);
    assert(p.last() == name.last());
    assert(p.last() == '.' ==> p[p.len() - 2] != '/') by {
        if p.last() == '.' && p[p.len() - 2] == '/' {
            if name.len() > 1 {
                assert(p[p.len() - 2] == name[name.len() - 2]);
            } else {
                assert(name =~= seq!['.']);
            }
        }
    }
    assert(trimmed(p) == p);
    lemma_name_behind(lead, name);
    assert(p.skip(lead.len() as int) =~= name);
    assert(p.take(lead.len() as int) =~= lead);
    if dir.last() == '/' {
        assert(dir == seq!['/']);
        assert(lead.drop_last() =~= Seq::<char>::empty());
        assert(trimmed(lead.drop_last()).len() == 0);
    } else {
        assert(lead.drop_last() =~= dir);
        assert(trimmed(lead) == trimmed(dir));
    }
}

proof fn lemma_last_dot(n: Seq<char>)
    ensures
        -1 <= last_dot(n) < n.len(),
        last_dot(n) >= 0 ==> n[last_dot(n)] == '.',
        forall|i: int| last_dot(n) < i < n.len() ==> #[trigger] n[i] != '.',
    decreases n.len(),
{
    if n.len() > 0 && n.last() != '.' {
        let front = n.drop_last();
        lemma_last_dot(front);
        assert(last_dot(n) >= 0 ==> front[last_dot(n)] == n[last_dot(n)]);
        assert forall|i: int| last_dot(n) < i < n.len() implies #[trigger] n[i] != '.' by {
            if i < front.len() {
                assert(front[i] == n[i]);
            }
        }
    }
}

/// The extension is what stands behind the last dot, where something stands
/// before it. A name without a dot has none, and neither has a name whose only
/// dot comes first.
pub proof fn law_the_extension_follows_the_last_dot(stem: Seq<char>, extension: Seq<char>)
    requires
        forall|i: int| 0 <= i < extension.len() ==> #[trigger] extension[i] != '.',
    ensures
        stem.len() > 0 ==> extension_in(stem + seq!['.'] + extension) == Some(extension),
        extension_in(seq!['.'] + extension) is None,
        extension_in(extension) is None,
{
    let n = stem + seq!['.'] + extension;
    lemma_last_dot(n);
    assert(n[stem.len() as int] == '.');
    if last_dot(n) > stem.len() {
        assert(n[last_dot(n)] == extension[last_dot(n) - stem.len() - 1]);
    }
    assert(last_dot(n) == stem.len());
    assert(n.skip(stem.len() as int + 1) =~= extension);
    let hidden = seq!['.'] + extension;
    lemma_last_dot(hidden);
    if last_dot(hidden) > 0 {
        assert(hidden[last_dot(hidden)] == extension[last_dot(hidden) - 1]);
    }
    lemma_last_dot(extension);
}

} // verus!

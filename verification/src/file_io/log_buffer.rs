//! The last lines of the log, kept in memory for a crash report.
use std::collections::VecDeque;

use vstd::prelude::*;

use crate::metadata::curated;
use crate::text;

verus! {

/// How many lines are kept.
pub const MAX_LOG_LINES: usize = 1000;

/// The last lines of the log, oldest first.
pub struct LogBuffer {
    lines: VecDeque<String>,
}

/// A list with one more item at its end, and without its first one where it
/// was full.
pub open spec fn pushed<T>(lines: Seq<T>, line: T, limit: int) -> Seq<T> {
    if lines.len() == limit {
        lines.skip(1).push(line)
    } else {
        lines.push(line)
    }
}

/// The last items of a list, as many as the limit says.
pub open spec fn newest<T>(lines: Seq<T>, limit: int) -> Seq<T> {
    if lines.len() > limit {
        lines.skip(lines.len() - limit)
    } else {
        lines
    }
}

/// Whatever is pushed, the newest lines are the ones kept.
pub proof fn law_the_newest_lines_are_kept<T>(all: Seq<T>, line: T, limit: int)
    requires
        limit > 0,
    ensures
        pushed(newest(all, limit), line, limit) == newest(all.push(line), limit),
        newest(all, limit).len() <= limit,
{
    assert(pushed(newest(all, limit), line, limit) =~= newest(all.push(line), limit));
}

/// The part of a target that the application's own events start with.
pub open spec fn own_target() -> Seq<char> {
    "viewskater_egui"@
}

/// Whether a text starts with another.
pub open spec fn starts_with(s: Seq<char>, prefix: Seq<char>) -> bool {
    s.len() >= prefix.len() && s.take(prefix.len() as int) == prefix
}

/// Whether a text starts with another.
pub fn text_starts_with(s: &str, prefix: &str) -> (r: bool)
    ensures
        r == starts_with(s@, prefix@),
{
    let s = text::chars_of(s);
    let prefix = text::chars_of(prefix);
    if s.len() < prefix.len() {
        return false;
    }
    let head = vstd::slice::slice_subrange(s.as_slice(), 0, prefix.len());
    assert(head@ =~= s@.take(prefix@.len() as int));
    text::same_chars(head, prefix.as_slice())
}

/// Whether an event is kept: by the target that the bridge carried over where
/// it did, else by the event's own.
pub fn is_kept(target: &str, bridged: Option<&str>) -> (r: bool)
    ensures
        r == starts_with(
            match curated::str_in(bridged) {
                Some(t) => t,
                None => target@,
            },
            own_target(),
        ),
{
    match bridged {
        Some(t) => text_starts_with(t, "viewskater_egui"),
        None => text_starts_with(target, "viewskater_egui"),
    }
}

/// As many spaces as `n` says, and none for a negative `n`.
pub open spec fn spaces(n: int) -> Seq<char> {
    Seq::new(
        if n > 0 {
            n as nat
        } else {
            0
        },
        |i: int| ' ',
    )
}

/// A line of the log: the level in five columns, then the message.
pub open spec fn line_of(level: Seq<char>, message: Seq<char>) -> Seq<char> {
    level + spaces(5 - level.len()) + seq![' '] + message
}

/// A line of the log: the level in five columns, then the message.
pub fn log_line(level: &str, message: &str) -> (r: String)
    ensures
        r@ == line_of(level@, message@),
{
    let n: usize = text::chars_of(level).len();
    let mut line = level.to_owned();
    let mut i: usize = n;
    assert(line@ =~= level@ + spaces(0));
    while i < 5
        invariant
            n == level@.len(),
            n <= i,
            i <= 5 || i == n,
            line@ == level@ + spaces(i - n),
        decreases 5 - i,
    {
        line.push(' ');
        i += 1;
        assert(line@ =~= level@ + spaces(i - n));
    }
    line.push(' ');
    line.append(message);
    assert(spaces(i - n) =~= spaces(5 - level@.len()));
    assert(line@ =~= line_of(level@, message@));
    line
}

impl LogBuffer {
    /// The lines, oldest first.
    pub closed spec fn lines(&self) -> Seq<String> {
        self.lines@
    }

    /// No more lines are kept than the limit says.
    pub open spec fn wf(&self) -> bool {
        self.lines().len() <= MAX_LOG_LINES
    }

    /// No lines.
    pub fn new() -> (r: Self)
        ensures
            r.wf(),
            r.lines().len() == 0,
    {
        LogBuffer { lines: VecDeque::new() }
    }

    /// Adds a line. The oldest one goes when the limit is reached.
    pub fn push(&mut self, line: String)
        requires
            old(self).wf(),
        ensures
            final(self).wf(),
            final(self).lines() == pushed(old(self).lines(), line, MAX_LOG_LINES as int),
    {
        if self.lines.len() == MAX_LOG_LINES {
            let _ = self.lines.pop_front();
        }
        self.lines.push_back(line);
        assert(self.lines@ =~= pushed(old(self).lines(), line, MAX_LOG_LINES as int));
    }

    /// How many lines there are.
    pub fn len(&self) -> (r: usize)
        ensures
            r == self.lines().len(),
    {
        self.lines.len()
    }

    /// A line, by its age: 0 is the oldest.
    pub fn line(&self, i: usize) -> (r: Option<&String>)
        ensures
            r == if i < self.lines().len() {
                Some(&self.lines()[i as int])
            } else {
                None
            },
    {
        if i < self.lines.len() {
            Some(&self.lines[i])
        } else {
            None
        }
    }
}

/// A text starts with another just where it is that text and something behind it.
pub proof fn law_what_a_text_starts_with(prefix: Seq<char>, rest: Seq<char>, s: Seq<char>)
    ensures
        starts_with(prefix + rest, prefix),
        starts_with(s, prefix) ==> s == prefix + s.skip(prefix.len() as int),
{
    assert((prefix + rest).take(prefix.len() as int) =~= prefix);
    if starts_with(s, prefix) {
        assert(s =~= s.take(prefix.len() as int) + s.skip(prefix.len() as int));
    }
}

/// A line starts with the level, and the message of a level of up to five letters
/// starts in the seventh column.
pub proof fn law_messages_line_up(level: Seq<char>, message: Seq<char>)
    ensures
        level.len() <= 5 ==> line_of(level, message).skip(6) == message,
        line_of(level, message).take(level.len() as int) == level,
        level.len() <= 5 ==> forall|i: int| level.len() <= i < 6 ==> #[trigger] line_of(level, message)[i] == ' ',
        level.len() > 5 ==> line_of(level, message) == level + seq![' '] + message,
{
    let line = line_of(level, message);
    assert(line.take(level.len() as int) =~= level);
    if level.len() <= 5 {
        assert(line.skip(6) =~= message);
    } else {
        assert(line =~= level + seq![' '] + message);
    }
}

/// A thousand lines are kept: with one more the oldest goes.
pub proof fn law_a_thousand_lines_are_kept<T>(lines: Seq<T>, line: T)
    requires
        lines.len() <= 1000,
    ensures
        ({
            let after = pushed(lines, line, MAX_LOG_LINES as int);
            &&& after.last() == line
            &&& lines.len() < 1000 ==> after == lines.push(line)
            &&& lines.len() == 1000 ==> after.len() == 1000 && after.drop_last() == lines.skip(1)
        }),
{
    if lines.len() == 1000 {
        assert(pushed(lines, line, 1000).drop_last() =~= lines.skip(1));
    }
}

} // verus!

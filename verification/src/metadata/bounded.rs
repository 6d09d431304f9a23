//! A text that stops growing at a limit.
use vstd::prelude::*;

use crate::text;

verus! {

/// Why a write was refused: the text is at its limit.
#[derive(Debug, Clone, Copy, PartialEq, Eq, Structural)]
pub struct Cut;

/// A text that takes `max` bytes and then answers with an error, so that
/// whoever writes to it can stop.
pub struct Bounded {
    buf: String,
    used: usize,
    max: usize,
    cut: bool,
}

/// What is kept of a text when `room` bytes are left for it.
pub open spec fn kept(s: Seq<char>, room: int) -> Seq<char> {
    if text::text_bytes(s) > room {
        s.take(text::fitting(s, room) as int)
    } else {
        s
    }
}

/// A text of at most `max` bytes, with an ellipsis behind it where it was cut.
pub open spec fn bounded_text(s: Seq<char>, max: int) -> Seq<char> {
    if text::text_bytes(s) > max {
        kept(s, max).push('…')
    } else {
        s
    }
}

/// Writing a text in two pieces, the first of which fits, keeps as much as
/// writing it at once.
pub proof fn law_pieces_are_kept_like_the_whole(a: Seq<char>, b: Seq<char>, room: int)
    requires
        text::text_bytes(a) <= room,
    ensures
        kept(a + b, room) == a + kept(b, room - text::text_bytes(a)),
        text::text_bytes(a + b) > room <==> text::text_bytes(b) > room - text::text_bytes(a),
    decreases a.len(),
{
    text::lemma_text_bytes_concat(a, b);
    if a.len() == 0 {
        assert(a + b =~= b);
        assert(a + kept(b, room) =~= kept(b, room));
    } else {
        let rest = a.drop_first();
        let left = room - text::char_bytes(a[0]);
        assert((a + b).drop_first() =~= rest + b);
        text::lemma_text_bytes_positive(rest);
        law_pieces_are_kept_like_the_whole(rest, b, left);
        if text::text_bytes(a + b) > room {
            text::lemma_text_bytes_concat(rest, b);
            text::law_fitting_is_the_longest_prefix(rest + b, left);
            let n = text::fitting(a + b, room) as int;
            assert((a + b).take(n) =~= seq![a[0]] + (rest + b).take(n - 1));
            assert(a =~= seq![a[0]] + rest);
            assert(kept(a + b, room) =~= a + kept(b, room - text::text_bytes(a)));
        }
    }
}

impl Bounded {
    /// What was written so far.
    pub closed spec fn text(&self) -> Seq<char> {
        self.buf@
    }

    /// The limit in bytes.
    pub closed spec fn limit(&self) -> int {
        self.max as int
    }

    /// Whether a write was cut.
    pub closed spec fn is_cut(&self) -> bool {
        self.cut
    }

    /// The text is never over the limit.
    pub closed spec fn wf(&self) -> bool {
        self.used == text::text_bytes(self.buf@) && self.used <= self.max
    }

    /// An empty text with a limit.
    pub fn new(max: usize) -> (r: Self)
        ensures
            r.wf(),
            r.text().len() == 0,
            r.limit() == max,
            !r.is_cut(),
    {
        Bounded { buf: String::new(), used: 0, max, cut: false }
    }

    /// Adds a text. What does not fit is left out, from a whole character on,
    /// and the answer is then an error.
    pub fn write_str(&mut self, s: &str) -> (r: Result<(), Cut>)
        requires
            old(self).wf(),
        ensures
            final(self).wf(),
            final(self).limit() == old(self).limit(),
            final(self).text() == old(self).text() + kept(
                s@,
                old(self).limit() - text::text_bytes(old(self).text()),
            ),
            r is Err <==> text::text_bytes(old(self).text()) + text::text_bytes(s@) > old(
                self,
            ).limit(),
            final(self).is_cut() == (old(self).is_cut() || r is Err),
    {
        let chars = text::chars_of(s);
        let ghost room = self.max - self.used;
        let mut n: usize = 0;
        assert(s@.skip(0) =~= s@);
        assert(self.buf@ + s@.take(0) =~= self.buf@);
        while n < chars.len() && text::bytes_of_char(chars[n]) <= self.max - self.used
            invariant
                chars@ == s@,
                n <= s@.len(),
                self.used <= self.max,
                self.max == old(self).max,
                self.cut == old(self).cut,
                self.used == text::text_bytes(self.buf@),
                self.buf@ == old(self).buf@ + s@.take(n as int),
                n + text::fitting(s@.skip(n as int), self.max - self.used) == text::fitting(s@, room),
                self.used + text::text_bytes(s@.skip(n as int)) == self.max - room
                    + text::text_bytes(s@),
            decreases s@.len() - n,
        {
            let c = chars[n];
            proof {
                let rest = s@.skip(n as int);
                assert(rest.drop_first() =~= s@.skip(n + 1));
                assert(s@.take(n + 1) =~= s@.take(n as int).push(c));
                text::lemma_text_bytes_concat(self.buf@, seq![c]);
                assert(self.buf@.push(c) =~= self.buf@ + seq![c]);
                assert(seq![c].drop_first() =~= Seq::<char>::empty());
                assert(text::text_bytes(seq![c].drop_first()) == 0);
                assert(old(self).buf@ + s@.take(n + 1) =~= (old(self).buf@ + s@.take(
                    n as int,
                )).push(c));
            }
            self.used = self.used + text::bytes_of_char(c);
            self.buf.push(c);
            n += 1;
        }
        proof {
            let rest = s@.skip(n as int);
            if n < s@.len() {
                text::lemma_text_bytes_positive(rest.drop_first());
                text::law_fitting_is_the_longest_prefix(s@, room);
            } else {
                assert(rest =~= Seq::<char>::empty());
                assert(s@.take(n as int) =~= s@);
            }
        }
        if n < chars.len() {
            self.cut = true;
            return Err(Cut);
        }
        Ok(())
    }

    /// The text, with an ellipsis behind it where it was cut.
    pub fn finish(self) -> (r: String)
        ensures
            r@ == if self.is_cut() {
                self.text().push('…')
            } else {
                self.text()
            },
    {
        let mut text = self.buf;
        if self.cut {
            text.push('…');
        }
        text
    }
}

} // verus!

use vstd::prelude::*;

verus! {

/// The byte that ends a line.
pub const NEWLINE: u8 = 10;

/// `s` cut at every newline: one segment more than there are newlines, the
/// last one being what follows the final newline (possibly empty).
pub open spec fn segments(s: Seq<u8>) -> Seq<Seq<u8>>
    decreases s.len(),
{
    if s.len() == 0 {
        seq![Seq::<u8>::empty()]
    } else {
        let p = segments(s.drop_last());
        if s.last() == NEWLINE {
            p.push(Seq::<u8>::empty())
        } else {
            p.update(p.len() - 1, p.last().push(s.last()))
        }
    }
}

/// The carriage return that may precede a newline.
pub const CARRIAGE_RETURN: u8 = 13;

/// A newline-terminated line without a carriage return that ends it.
pub open spec fn strip_cr(l: Seq<u8>) -> Seq<u8> {
    if l.len() > 0 && l.last() == CARRIAGE_RETURN {
        l.drop_last()
    } else {
        l
    }
}

/// The lines of a whole stream: every newline-terminated line, less a
/// carriage return before its newline, and the unterminated rest, as it is,
/// as a final line when it is not empty.
pub open spec fn lines_of(s: Seq<u8>) -> Seq<Seq<u8>> {
    let g = segments(s);
    let done = g.drop_last().map_values(|l: Seq<u8>| strip_cr(l));
    if g.last().len() == 0 {
        done
    } else {
        done.push(g.last())
    }
}

pub proof fn lemma_segments_nonempty(s: Seq<u8>)
    ensures
        segments(s).len() >= 1,
    decreases s.len(),
{
    if s.len() > 0 {
        lemma_segments_nonempty(s.drop_last());
    }
}

/// Splits a stream that arrives in chunks into lines, holding back the part
/// of the last line that has no newline yet.
pub struct LineBuffer {
    pending: Vec<u8>,
    seen: Ghost<Seq<u8>>,
    terminated: Ghost<Seq<Seq<u8>>>,
    emitted: Ghost<Seq<Seq<u8>>>,
}

impl LineBuffer {
    /// Every byte handed in so far.
    pub closed spec fn seen(&self) -> Seq<u8> {
        self.seen@
    }

    /// Every line handed out so far.
    pub closed spec fn emitted(&self) -> Seq<Seq<u8>> {
        self.emitted@
    }

    /// The bytes held back: the start of a line whose newline has not come.
    pub closed spec fn pending(&self) -> Seq<u8> {
        self.pending@
    }

    pub closed spec fn wf(&self) -> bool {
        &&& self.terminated@.push(self.pending@) == segments(self.seen@)
        &&& self.emitted@ == self.terminated@.map_values(|l: Seq<u8>| strip_cr(l))
    }

    pub fn new() -> (r: Self)
        ensures
            r.wf(),
            r.seen() == Seq::<u8>::empty(),
            r.emitted() == Seq::<Seq<u8>>::empty(),
    {
        let r = LineBuffer {
            pending: Vec::new(),
            seen: Ghost(Seq::empty()),
            terminated: Ghost(Seq::empty()),
            emitted: Ghost(Seq::empty()),
        };
        assert(r.terminated@.push(r.pending@) =~= segments(r.seen@));
        assert(r.emitted@ =~= r.terminated@.map_values(|l: Seq<u8>| strip_cr(l)));
        r
    }

    /// Takes in one chunk and returns the lines it completed, in order, each
    /// without its newline and without a carriage return just before it.
    pub fn push_chunk(&mut self, chunk: &[u8]) -> (lines: Vec<Vec<u8>>)
        requires
            old(self).wf(),
        ensures
            final(self).wf(),
            final(self).seen() == old(self).seen() + chunk@,
            final(self).emitted() == old(self).emitted() + lines@.map_values(|l: Vec<u8>| l@),
    {
        let mut lines: Vec<Vec<u8>> = Vec::new();
        let ghost seen0 = self.seen@;
        let ghost emitted0 = self.emitted@;
        let mut i: usize = 0;
        while i < chunk.len()
            invariant
                self.wf(),
                0 <= i <= chunk@.len(),
                self.seen@ == seen0 + chunk@.subrange(0, i as int),
                self.emitted@ == emitted0 + lines@.map_values(|l: Vec<u8>| l@),
            decreases chunk@.len() - i,
        {
            let b = chunk[i];
            let ghost s_old = self.seen@;
            let ghost lines_old = lines@;
            proof {
                lemma_segments_nonempty(s_old);
            }
            assert(seen0 + chunk@.subrange(0, i + 1) =~= s_old.push(b));
            assert(s_old.push(b).drop_last() =~= s_old);
            if b == NEWLINE {
                let mut line: Vec<u8> = Vec::new();
                std::mem::swap(&mut line, &mut self.pending);
                let ghost raw = line@;
                let n = line.len();
                if n > 0 && line[n - 1] == CARRIAGE_RETURN {
                    line.pop();
                    assert(line@ =~= raw.drop_last());
                }
                assert(line@ == strip_cr(raw));
                lines.push(line);
                let ghost t_old = self.terminated@;
                proof {
                    self.seen = Ghost(s_old.push(b));
                    self.terminated = Ghost(t_old.push(raw));
                    self.emitted = Ghost(self.emitted@.push(line@));
                }
                assert(lines@.map_values(|l: Vec<u8>| l@) =~= lines_old.map_values(|l: Vec<u8>| l@).push(line@));
                assert(self.terminated@.push(self.pending@) =~= segments(self.seen@));
                assert(self.emitted@ =~= self.terminated@.map_values(|l: Seq<u8>| strip_cr(l)));
            } else {
                self.pending.push(b);
                proof {
                    self.seen = Ghost(s_old.push(b));
                }
                assert(self.terminated@.push(self.pending@) =~= segments(self.seen@));
            }
            i = i + 1;
        }
        assert(chunk@.subrange(0, chunk@.len() as int) =~= chunk@);
        lines
    }

    /// Ends the stream: returns the unterminated rest, as it is, as a final line, if
    /// there is any, so that the lines handed out over the whole stream are
    /// exactly the lines of everything that was handed in.
    pub fn finish(self) -> (r: Option<Vec<u8>>)
        requires
            self.wf(),
        ensures
            r is Some <==> self.pending().len() > 0,
            match r {
                Some(l) => self.emitted().push(l@) == lines_of(self.seen()),
                None => self.emitted() == lines_of(self.seen()),
            },
    {
        proof {
            lemma_segments_nonempty(self.seen@);
            assert(segments(self.seen@).last() == self.pending@);
            assert(segments(self.seen@).drop_last() =~= self.terminated@);
        }
        if self.pending.len() > 0 {
            Some(self.pending)
        } else {
            None
        }
    }
}

/// Is `c` one of the ASCII digits?
pub open spec fn is_digit(c: char) -> bool {
    '0' <= c && c <= '9'
}

/// The number written by the two digits of `s` at `i` and `i + 1`.
pub open spec fn two_digits(s: Seq<char>, i: int) -> int {
    ((s[i] as u32) as int - 48) * 10 + ((s[i + 1] as u32) as int - 48)
}

/// `HH:MM:SS`: an hour, a minute and a second (a leap second reads 60),
/// each zero-padded to two digits.
pub open spec fn is_clock_stamp(s: Seq<char>) -> bool {
    &&& s.len() == 8
    &&& s[2] == ':'
    &&& s[5] == ':'
    &&& is_digit(s[0]) && is_digit(s[1])
    &&& is_digit(s[3]) && is_digit(s[4])
    &&& is_digit(s[6]) && is_digit(s[7])
    &&& two_digits(s, 0) <= 23
    &&& two_digits(s, 3) <= 59
    &&& two_digits(s, 6) <= 60
}

/// Relies on chrono's `Local::now` for the local wall-clock time and on its
/// `%H:%M:%S` format, which writes hour (00-23), minute (00-59) and second
/// (00-60), each zero-padded to two digits.
#[verifier::external_body]
fn clock_stamp() -> (r: String)
    ensures
        is_clock_stamp(r@),
{
    chrono::Local::now().format("%H:%M:%S").to_string()
}

/// The text between the stamp and the tag of a relayed line.
pub open spec fn stamp_gap() -> Seq<char> {
    seq![' ']
}

/// The text between a tag and what follows it.
pub open spec fn tag_bar() -> Seq<char> {
    seq![' ', '|', ' ']
}

/// `"<stamp> <tag> | <line>"`.
pub open spec fn log_line_spec(stamp: Seq<char>, tag: Seq<char>, line: Seq<char>) -> Seq<char> {
    stamp + stamp_gap() + tag + tag_bar() + line
}

/// Formats one relayed line under the given stamp and tag.
pub fn log_line(stamp: &str, tag: &str, line: &str) -> (r: String)
    ensures
        r@ == log_line_spec(stamp@, tag@, line@),
{
    let mut r = String::from_str(stamp);
    r.append(" ");
    r.append(tag);
    r.append(" | ");
    r.append(line);
    proof {
        reveal_strlit(" ");
        reveal_strlit(" | ");
        assert(" "@ =~= stamp_gap());
        assert(" | "@ =~= tag_bar());
    }
    r
}

/// Formats one relayed line, stamped with the current local time.
pub fn stamped_line(tag: &str, line: &str) -> (r: String)
    ensures
        r@.len() >= 8,
        is_clock_stamp(r@.subrange(0, 8)),
        r@ == log_line_spec(r@.subrange(0, 8), tag@, line@),
{
    let stamp = clock_stamp();
    let r = log_line(stamp.as_str(), tag, line);
    assert(r@.subrange(0, 8) =~= stamp@);
    r
}

} // verus!

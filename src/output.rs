use vstd::prelude::*;
use std::collections::VecDeque;
use crate::model::Timestamp;
use crate::process::LogLine;

verus! {

/// The entries of `s` stamped later than `cursor`, in their order.
pub open spec fn lines_after(s: Seq<LogLine>, cursor: Timestamp) -> Seq<LogLine>
    decreases s.len(),
{
    if s.len() == 0 {
        seq![]
    } else {
        let rest = lines_after(s.drop_last(), cursor);
        if s.last().ts > cursor {
            rest.push(s.last())
        } else {
            rest
        }
    }
}

/// The latest of `cursor` and the stamps in `s`.
pub open spec fn newest_ts(s: Seq<LogLine>, cursor: Timestamp) -> Timestamp
    decreases s.len(),
{
    if s.len() == 0 {
        cursor
    } else {
        let rest = newest_ts(s.drop_last(), cursor);
        if s.last().ts > rest {
            s.last().ts
        } else {
            rest
        }
    }
}

/// What a push leaves in a buffer bounded by `max_len`.
pub open spec fn pushed(s: Seq<LogLine>, max_len: Option<usize>, line: LogLine) -> Seq<LogLine> {
    let t = s.push(line);
    match max_len {
        Some(n) => if t.len() > n {
            t.drop_first()
        } else {
            t
        },
        None => t,
    }
}

/// Every entry of `lines_after(s, c)` is an entry of `s` later than `c`.
pub proof fn lemma_lines_after_members(s: Seq<LogLine>, c: Timestamp)
    ensures
        lines_after(s, c).len() <= s.len(),
        forall|i: int|
            0 <= i < lines_after(s, c).len() ==> {
                &&& #[trigger] lines_after(s, c)[i].ts > c
                &&& s.contains(lines_after(s, c)[i])
            },
    decreases s.len(),
{
    if s.len() > 0 {
        lemma_lines_after_members(s.drop_last(), c);
        let rest = lines_after(s.drop_last(), c);
        assert forall|i: int| 0 <= i < rest.len() implies s.contains(#[trigger] rest[i]) by {
            assert(rest[i].ts > c);
            assert(s.drop_last().contains(rest[i]));
            let k = choose|k: int| 0 <= k < s.drop_last().len() && s.drop_last()[k] == rest[i];
            assert(s[k] == rest[i]);
        }
        assert(s[s.len() - 1] == s.last());
    }
}

/// No entry of `s` is later than `newest_ts(s, c)`, which is never earlier than `c`.
pub proof fn lemma_newest_bounds(s: Seq<LogLine>, c: Timestamp)
    ensures
        newest_ts(s, c) >= c,
        forall|i: int| 0 <= i < s.len() ==> #[trigger] s[i].ts <= newest_ts(s, c),
    decreases s.len(),
{
    if s.len() > 0 {
        lemma_newest_bounds(s.drop_last(), c);
        assert forall|i: int| 0 <= i < s.len() implies #[trigger] s[i].ts <= newest_ts(s, c) by {
            if i < s.len() - 1 {
                assert(s.drop_last()[i] == s[i]);
            }
        }
    }
}

/// Buffer for captured stdout/stderr output
pub struct OutputBuffer {
    lines: VecDeque<LogLine>,
    max_len: Option<usize>,
}

impl View for OutputBuffer {
    type V = Seq<LogLine>;

    closed spec fn view(&self) -> Seq<LogLine> {
        self.lines@
    }
}

impl OutputBuffer {
    /// The bound on the number of entries, if any.
    pub closed spec fn capacity(&self) -> Option<usize> {
        self.max_len
    }

    /// The buffer holds no more entries than its bound.
    pub closed spec fn wf(&self) -> bool {
        match self.max_len {
            Some(n) => self@.len() <= n,
            None => true,
        }
    }

    /// A bounded buffer never holds more entries than its bound.
    pub proof fn lemma_bounded(&self)
        requires
            self.wf(),
        ensures
            self.capacity() is Some ==> self@.len() <= self.capacity().unwrap(),
    {
    }

    pub fn new(max_len: Option<usize>) -> (r: Self)
        ensures
            r.wf(),
            r@ == Seq::<LogLine>::empty(),
            r.capacity() == max_len,
    {
        OutputBuffer { max_len, lines: VecDeque::new() }
    }

    /// Appends `line`; where that overfills the buffer, the oldest entry leaves.
    pub fn push(&mut self, line: LogLine)
        requires
            old(self).wf(),
        ensures
            final(self).wf(),
            final(self).capacity() == old(self).capacity(),
            final(self)@ == pushed(old(self)@, old(self).capacity(), line),
    {
        self.lines.push_back(line);
        if let Some(max_len) = self.max_len {
            if self.lines.len() > max_len {
                let _ = self.lines.pop_front();
            }
        }
    }

    pub fn len(&self) -> (r: usize)
        ensures
            r == self@.len(),
    {
        self.lines.len()
    }

    /// The entries later than `*last_seen`, oldest first; `*last_seen` advances
    /// to the newest stamp in the buffer.
    pub fn lines_since(&self, last_seen: &mut Timestamp) -> (r: Vec<LogLine>)
        ensures
            r@ == lines_after(self@, *old(last_seen)),
            *final(last_seen) == newest_ts(self@, *old(last_seen)),
    {
        let ts = *last_seen;
        let mut r: Vec<LogLine> = Vec::new();
        let mut newest = ts;
        let mut i: usize = 0;
        while i < self.lines.len()
            invariant
                i <= self@.len(),
                r@ == lines_after(self@.subrange(0, i as int), ts),
                newest == newest_ts(self@.subrange(0, i as int), ts),
            decreases self@.len() - i,
        {
            let entry = &self.lines[i];
            proof {
                let p = self@.subrange(0, i as int + 1);
                assert(p.drop_last() =~= self@.subrange(0, i as int));
                assert(p.last() == self@[i as int]);
            }
            if entry.ts > ts {
                r.push(entry.copy());
            }
            if entry.ts > newest {
                newest = entry.ts;
            }
            i = i + 1;
        }
        assert(self@.subrange(0, self@.len() as int) =~= self@);
        *last_seen = newest;
        r
    }
}

} // verus!

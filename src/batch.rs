use vstd::prelude::*;
use crate::process::LogLine;
use crate::model::Timestamp;
use crate::output::{lines_after, newest_ts, lemma_lines_after_members, lemma_newest_bounds};

verus! {

broadcast use {vstd::seq_lib::to_multiset_insert, vstd::seq_lib::to_multiset_build};

/// The lines are in non-decreasing order of their stamps.
pub open spec fn sorted_by_ts(s: Seq<LogLine>) -> bool {
    forall|i: int, j: int| 0 <= i < j < s.len() ==> s[i].ts <= s[j].ts
}

/// Orders lines by stamp, keeping the order of lines with equal stamps.
pub fn sort_by_ts(v: Vec<LogLine>) -> (r: Vec<LogLine>)
    ensures
        sorted_by_ts(r@),
        r@.to_multiset() == v@.to_multiset(),
{
    let mut r: Vec<LogLine> = Vec::new();
    let mut i: usize = 0;
    assert(r@ =~= v@.subrange(0, 0));
    while i < v.len()
        invariant
            i <= v@.len(),
            sorted_by_ts(r@),
            r@.to_multiset() == v@.subrange(0, i as int).to_multiset(),
        decreases v@.len() - i,
    {
        let x = v[i].copy();
        let mut pos: usize = r.len();
        while pos > 0 && r[pos - 1].ts > x.ts
            invariant
                pos <= r@.len(),
                forall|k: int| pos <= k < r@.len() ==> r@[k].ts > x.ts,
            decreases pos,
        {
            pos = pos - 1;
        }
        proof {
            assert(pos > 0 ==> r@[pos - 1].ts <= x.ts);
        }
        let ghost old_r = r@;
        r.insert(pos, x);
        proof {
            assert(r@ == old_r.insert(pos as int, x));
            assert forall|a: int, b: int| 0 <= a < b < r@.len() implies r@[a].ts <= r@[b].ts by {
                if pos > 0 {
                    assert(old_r[pos - 1].ts <= x.ts);
                }
            }
            assert(v@.subrange(0, i as int + 1) =~= v@.subrange(0, i as int).push(v@[i as int]));
        }
        i = i + 1;
    }
    assert(v@.subrange(0, v@.len() as int) =~= v@);
    r
}

/// Lines that two successive reads of one output hand out are in order: a
/// cursor advanced by the first read lets through only what is later than
/// everything the first read handed out.
pub proof fn lemma_successive_reads_in_order(
    first: Seq<LogLine>,
    second: Seq<LogLine>,
    cursor: Timestamp,
    a: LogLine,
    b: LogLine,
)
    requires
        lines_after(first, cursor).contains(a),
        lines_after(second, newest_ts(first, cursor)).contains(b),
    ensures
        a.ts < b.ts,
{
    lemma_lines_after_members(first, cursor);
    lemma_lines_after_members(second, newest_ts(first, cursor));
    lemma_newest_bounds(first, cursor);
    let ia = choose|i: int| 0 <= i < lines_after(first, cursor).len() && lines_after(first, cursor)[i] == a;
    let ib = choose|i: int| 0 <= i < lines_after(second, newest_ts(first, cursor)).len()
        && lines_after(second, newest_ts(first, cursor))[i] == b;
    assert(lines_after(first, cursor)[ia].ts > cursor);
    assert(first.contains(a));
    let k = choose|k: int| 0 <= k < first.len() && first[k] == a;
    assert(first[k].ts <= newest_ts(first, cursor));
    assert(lines_after(second, newest_ts(first, cursor))[ib].ts > newest_ts(first, cursor));
}

} // verus!

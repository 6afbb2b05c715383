//! Windowed row extraction: the first or last `n` logical rows of a file
//! stored as an ordered sequence of row-group batches.
//!
//! A file is the concatenation, in order, of its batches' rows. The head
//! window is taken streaming with an early stop, so only as many leading
//! batches are pulled as the quota needs; the tail window is taken from a
//! full scan, trimming the skipped prefix from the retained batches.

use vstd::prelude::*;

use crate::batch::Batch;
use crate::batch::batch_rows;

verus! {

/// The rows of a file: the concatenation, in order, of its batches' rows.
pub open spec fn flat_rows(bs: Seq<Batch>) -> Seq<Seq<Seq<char>>>
    decreases bs.len(),
{
    if bs.len() == 0 {
        Seq::empty()
    } else {
        flat_rows(bs.drop_last()) + batch_rows(bs.last())
    }
}

/// The first `min(n, len)` rows, in file order.
pub open spec fn window_head(rows: Seq<Seq<Seq<char>>>, n: int) -> Seq<Seq<Seq<char>>> {
    rows.take(vstd::math::min(n, rows.len() as int))
}

/// The last `min(n, len)` rows, in file order.
pub open spec fn window_tail(rows: Seq<Seq<Seq<char>>>, n: int) -> Seq<Seq<Seq<char>>> {
    rows.skip(rows.len() - vstd::math::min(n, rows.len() as int))
}

proof fn lemma_flat_push(bs: Seq<Batch>, b: Batch)
    ensures
        flat_rows(bs.push(b)) == flat_rows(bs) + batch_rows(b),
{
    assert(bs.push(b).drop_last() =~= bs);
    assert(bs.push(b).last() == b);
}

proof fn lemma_flat_append(s: Seq<Batch>, t: Seq<Batch>)
    ensures
        flat_rows(s + t) == flat_rows(s) + flat_rows(t),
    decreases t.len(),
{
    if t.len() == 0 {
        assert(s + t =~= s);
        assert(flat_rows(s) + flat_rows(t) =~= flat_rows(s));
    } else {
        lemma_flat_append(s, t.drop_last());
        assert((s + t).drop_last() =~= s + t.drop_last());
        assert((s + t).last() == t.last());
        assert(flat_rows(s) + flat_rows(t.drop_last()) + batch_rows(t.last()) =~= flat_rows(s)
            + flat_rows(t));
    }
}

/// Head bound: a head window holds exactly `min(n, len)` rows, and they are
/// the first rows of the file, in order.
pub proof fn lemma_head_bound(rows: Seq<Seq<Seq<char>>>, n: int)
    requires
        0 <= n,
    ensures
        window_head(rows, n).len() == vstd::math::min(n, rows.len() as int),
        forall|i: int| 0 <= i < window_head(rows, n).len() ==> window_head(rows, n)[i] == rows[i],
{
}

/// Tail bound: a tail window holds exactly `min(n, len)` rows, and they are
/// the last rows of the file, in order.
pub proof fn lemma_tail_bound(rows: Seq<Seq<Seq<char>>>, n: int)
    requires
        0 <= n,
    ensures
        window_tail(rows, n).len() == vstd::math::min(n, rows.len() as int),
        forall|i: int|
            0 <= i < window_tail(rows, n).len() ==> window_tail(rows, n)[i] == rows[rows.len()
                - window_tail(rows, n).len() + i],
{
}

/// Head and tail complementarity: once the quota covers the whole file,
/// both windows are the entire file, row for row.
pub proof fn lemma_head_tail_complement(rows: Seq<Seq<Seq<char>>>, n: int)
    requires
        n >= rows.len(),
    ensures
        window_head(rows, n) == rows,
        window_tail(rows, n) == rows,
{
    assert(window_head(rows, n) =~= rows);
    assert(window_tail(rows, n) =~= rows);
}

/// How a head window grows when more rows arrive: rows past a filled quota
/// change nothing, and an unfilled quota takes what it still needs from the
/// front of the new rows.
pub proof fn lemma_head_append(rows: Seq<Seq<Seq<char>>>, more: Seq<Seq<Seq<char>>>, n: int)
    requires
        0 <= n,
    ensures
        window_head(rows + more, n) == if rows.len() >= n {
            window_head(rows, n)
        } else {
            window_head(rows, n) + window_head(more, n - rows.len())
        },
{
    if rows.len() >= n {
        assert(window_head(rows + more, n) =~= window_head(rows, n));
    } else {
        assert(window_head(rows + more, n) =~= window_head(rows, n) + window_head(
            more,
            n - rows.len(),
        ));
    }
}

/// A streaming head window: batches are pushed in file order until the
/// window stops asking for more, so a reader can stop pulling early.
pub struct HeadWindow {
    batches: Vec<Batch>,
    taken: usize,
    limit: usize,
}

impl HeadWindow {
    /// The rows accumulated so far, in file order.
    pub closed spec fn rows(&self) -> Seq<Seq<Seq<char>>> {
        flat_rows(self.batches@)
    }

    /// How many rows have been accumulated.
    pub closed spec fn count(&self) -> int {
        self.taken as int
    }

    /// The row quota the window was opened with.
    pub closed spec fn quota(&self) -> int {
        self.limit as int
    }

    /// The window's internal consistency: the counter matches the
    /// accumulated rows, which never exceed the quota.
    pub closed spec fn wf(&self) -> bool {
        self.taken == self.rows().len() && self.taken <= self.limit
    }

    /// Open a head window for the first `n` rows.
    pub fn new(n: usize) -> (w: HeadWindow)
        ensures
            w.wf(),
            w.quota() == n,
            w.rows() == Seq::<Seq<Seq<char>>>::empty(),
    {
        let w = HeadWindow { batches: Vec::new(), taken: 0, limit: n };
        proof {
            assert(w.rows() =~= Seq::<Seq<Seq<char>>>::empty());
        }
        w
    }

    /// Whether the quota still has room, i.e. whether the reader should
    /// pull another batch.
    pub fn wants_more(&self) -> (r: bool)
        requires
            self.wf(),
        ensures
            r == (self.count() < self.quota()),
    {
        self.taken < self.limit
    }

    /// Take the next batch of the file. A batch that would overshoot the
    /// remaining quota is sliced to the prefix of exactly the rows still
    /// needed; afterwards the accumulated rows are the head window of all
    /// rows seen so far.
    pub fn push(&mut self, b: Batch)
        requires
            old(self).wf(),
            old(self).count() < old(self).quota(),
        ensures
            final(self).wf(),
            final(self).quota() == old(self).quota(),
            final(self).rows() == window_head(old(self).rows() + batch_rows(b), old(self).quota()),
    {
        proof {
            lemma_head_append(self.rows(), batch_rows(b), self.quota());
            assert(window_head(self.rows(), self.quota()) =~= self.rows());
        }
        let len = b.num_rows();
        let needed = self.limit - self.taken;
        if len > needed {
            let sl = b.slice(0, needed);
            proof {
                lemma_flat_push(self.batches@, sl);
                assert(batch_rows(sl) =~= window_head(batch_rows(b), needed as int));
            }
            self.batches.push(sl);
            self.taken = self.limit;
        } else {
            proof {
                lemma_flat_push(self.batches@, b);
                assert(batch_rows(b) =~= window_head(batch_rows(b), needed as int));
            }
            self.batches.push(b);
            self.taken = self.taken + len;
        }
    }

    /// Close the window and hand back the accumulated batches, in order.
    pub fn into_batches(self) -> (out: Vec<Batch>)
        ensures
            flat_rows(out@) == self.rows(),
    {
        self.batches
    }
}

/// The first `n` logical rows of a file given as its ordered batches:
/// batches past a filled quota contribute nothing, and the one that would
/// overshoot it is cut to a prefix.
pub fn take_head(batches: &Vec<Batch>, n: usize) -> (out: Vec<Batch>)
    ensures
        flat_rows(out@) == window_head(flat_rows(batches@), n as int),
{
    let mut w = HeadWindow::new(n);
    let len = batches.len();
    let mut i: usize = 0;
    while i < len
        invariant
            i <= len,
            len == batches@.len(),
            w.wf(),
            w.quota() == n,
            w.rows() == window_head(flat_rows(batches@.subrange(0, i as int)), n as int),
        decreases len - i,
    {
        let ghost prefix = batches@.subrange(0, i as int);
        proof {
            assert(batches@.subrange(0, i + 1) =~= prefix.push(batches@[i as int]));
            lemma_flat_push(prefix, batches@[i as int]);
        }
        if w.wants_more() {
            proof {
                lemma_head_bound(flat_rows(prefix), n as int);
                assert(window_head(flat_rows(prefix), n as int) =~= flat_rows(prefix));
            }
            w.push(batches[i].duplicate());
        } else {
            proof {
                lemma_head_append(flat_rows(prefix), batch_rows(batches@[i as int]), n as int);
            }
        }
        i = i + 1;
    }
    proof {
        assert(batches@.subrange(0, len as int) =~= batches@);
    }
    w.into_batches()
}

/// The last `n` logical rows of a file given as its ordered batches: after
/// a full scan establishes the total, the skipped prefix is dropped batch
/// by batch and the batch straddling the boundary is cut to its suffix.
pub fn take_tail(batches: &Vec<Batch>, n: usize) -> (out: Vec<Batch>)
    ensures
        flat_rows(out@) == window_tail(flat_rows(batches@), n as int),
{
    let len = batches.len();

    // Full scan: the total row count, too large for the machine word only
    // in theory, so a double-width counter keeps the sum exact.
    let mut total: u128 = 0;
    let mut i: usize = 0;
    while i < len
        invariant
            i <= len,
            len == batches@.len(),
            total == flat_rows(batches@.subrange(0, i as int)).len(),
            total <= i * 0xffff_ffff_ffff_ffffu128,
        decreases len - i,
    {
        let ghost prefix = batches@.subrange(0, i as int);
        proof {
            assert(batches@.subrange(0, i + 1) =~= prefix.push(batches@[i as int]));
            lemma_flat_push(prefix, batches@[i as int]);
        }
        let rows = batches[i].num_rows();
        total = total + rows as u128;
        i = i + 1;
    }
    proof {
        assert(batches@.subrange(0, len as int) =~= batches@);
        assert(flat_rows(batches@).len() <= 0xffff_ffff_ffff_ffffu128
            * 0xffff_ffff_ffff_ffffu128);
    }
    let ghost all = flat_rows(batches@);

    // The rows to drop from the front so that at most `n` remain.
    let skip: u128 = if total > n as u128 {
        total - n as u128
    } else {
        0
    };

    // Trim: drop batches wholly inside the skipped prefix, cut the batch
    // that straddles the boundary, keep the rest whole.
    let mut out: Vec<Batch> = Vec::new();
    let mut skipped: u128 = 0;
    let mut j: usize = 0;
    while j < len
        invariant
            j <= len,
            len == batches@.len(),
            skip <= flat_rows(batches@).len(),
            flat_rows(batches@).len() <= 0xffff_ffff_ffff_ffffu128 * 0xffff_ffff_ffff_ffffu128,
            all == flat_rows(batches@),
            skipped == vstd::math::min(
                skip as int,
                flat_rows(batches@.subrange(0, j as int)).len() as int,
            ),
            flat_rows(out@) == flat_rows(batches@.subrange(0, j as int)).skip(skipped as int),
        decreases len - j,
    {
        let ghost prefix = batches@.subrange(0, j as int);
        let ghost brows = batch_rows(batches@[j as int]);
        proof {
            assert(batches@.subrange(0, j + 1) =~= prefix.push(batches@[j as int]));
            lemma_flat_push(prefix, batches@[j as int]);
            assert(flat_rows(prefix).len() <= flat_rows(batches@).len()) by {
                assert(batches@ =~= prefix + batches@.subrange(j as int, len as int));
                lemma_flat_append(prefix, batches@.subrange(j as int, len as int));
            }
        }
        let rows = batches[j].num_rows();
        if skipped + rows as u128 <= skip {
            proof {
                if skipped == skip {
                    assert(brows.len() == 0);
                    assert((flat_rows(prefix) + brows).skip(skipped + brows.len()) =~= flat_rows(
                        out@,
                    ));
                } else {
                    assert(skipped == flat_rows(prefix).len());
                    assert((flat_rows(prefix) + brows).skip(skipped + brows.len()) =~= flat_rows(
                        out@,
                    ));
                }
            }
            skipped = skipped + rows as u128;
        } else if skipped >= skip {
            let d = batches[j].duplicate();
            proof {
                lemma_flat_push(out@, d);
                assert((flat_rows(prefix) + brows).skip(skipped as int) =~= flat_rows(
                    prefix,
                ).skip(skipped as int) + brows);
            }
            out.push(d);
        } else {
            let offset = (skip - skipped) as usize;
            proof {
                assert(flat_rows(prefix).skip(skipped as int) =~= Seq::<Seq<Seq<char>>>::empty());
            }
            let sl = batches[j].slice(offset, rows - offset);
            proof {
                lemma_flat_push(out@, sl);
                assert(flat_rows(out@) + batch_rows(sl) =~= (flat_rows(prefix) + brows).skip(
                    skip as int,
                ));
            }
            out.push(sl);
            skipped = skip;
        }
        j = j + 1;
    }
    proof {
        assert(batches@.subrange(0, len as int) =~= batches@);
        assert(flat_rows(out@) =~= window_tail(flat_rows(batches@), n as int));
    }
    out
}

} // verus!

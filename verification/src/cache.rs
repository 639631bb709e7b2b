//! Snapshot cache: periodic checkpoints of (parser state, scope stack) at a
//! fixed line stride, so that highlighting can restart near any line without
//! replaying the whole document from the start.
//!
//! The snapshot at index `i` holds the state as of the start of line
//! `i * LINES_PER_SNAPSHOT`. Index 0 always exists and holds the empty state.
//! The cache holds at most one snapshot per stride boundary the pass has
//! crossed, so its size is bounded by the document length divided by the
//! stride, plus one.

use vstd::prelude::*;
use vstd::arithmetic::div_mod::lemma_fundamental_div_mod;
use vstd::arithmetic::div_mod::lemma_mod_bound;

use crate::resolver::ScopeStack;
use crate::tokenizer::ParserState;
use crate::util::names_view;

verus! {

/// The fixed stride between snapshots, in lines.
pub const LINES_PER_SNAPSHOT: usize = 50;

/// A checkpoint: the parser state and scope stack as of the start of one
/// stride-boundary line. Snapshots are plain values, duplicated by copy.
#[derive(Debug)]
pub struct Snapshot {
    pub state: ParserState,
    pub stack: ScopeStack,
}

/// The mathematical value of a snapshot: the open rule indices and the open
/// scope names.
pub open spec fn snap_view(s: Snapshot) -> (Seq<usize>, Seq<Seq<u8>>) {
    (s.state.open@, names_view(s.stack.scopes@))
}

/// The empty checkpoint value: no open contexts, no open scopes.
pub open spec fn empty_snap() -> (Seq<usize>, Seq<Seq<u8>>) {
    (Seq::<usize>::empty(), Seq::<Seq<u8>>::empty())
}

impl Snapshot {
    /// The snapshot a document starts from: everything empty.
    pub fn empty() -> (r: Snapshot)
        ensures
            snap_view(r) == empty_snap(),
    {
        Snapshot { state: ParserState::new(), stack: ScopeStack::new() }
    }

    /// Copies the snapshot by value.
    pub fn duplicate(&self) -> (r: Snapshot)
        ensures
            snap_view(r) == snap_view(*self),
    {
        Snapshot { state: self.state.duplicate(), stack: self.stack.duplicate() }
    }
}

/// How many leading snapshots an `invalidate_from` at line `k` keeps, of a
/// cache holding `len` of them: index 0 always stays, and a later index `i`
/// stays exactly when its boundary line `i * LINES_PER_SNAPSHOT` lies before
/// `k`.
pub open spec fn invalidate_keep(len: int, k: int) -> int {
    let s = LINES_PER_SNAPSHOT as int;
    if k <= 0 {
        1
    } else if len <= (k - 1) / s + 1 {
        len
    } else {
        (k - 1) / s + 1
    }
}

/// Every snapshot index below `invalidate_keep(len, k)`, other than 0, has
/// its boundary line before `k`; every index from it on, up to `len`, has its
/// boundary line at or past `k`. So exactly the stale snapshots go.
pub proof fn lemma_invalidate_keep(len: int, k: int)
    requires
        len >= 1,
        k >= 0,
    ensures
        1 <= invalidate_keep(len, k) <= len,
        forall|i: int|
            1 <= i < invalidate_keep(len, k) ==> #[trigger] (i * (LINES_PER_SNAPSHOT as int)) < k,
        forall|i: int|
            invalidate_keep(len, k) <= i < len ==> #[trigger] (i * (LINES_PER_SNAPSHOT as int))
                >= k,
{
    let s = LINES_PER_SNAPSHOT as int;
    if k > 0 {
        lemma_fundamental_div_mod(k - 1, s);
        lemma_mod_bound(k - 1, s);
        let q = (k - 1) / s;
        assert(k - 1 == s * q + ((k - 1) % s));
        assert forall|i: int| 1 <= i < invalidate_keep(len, k) implies #[trigger] (i * s) < k by {
            assert(i <= q);
            assert(i * s <= q * s) by (nonlinear_arith)
                requires
                    i <= q,
                    s > 0,
            ;
            assert(q * s <= k - 1);
        }
        assert forall|i: int| invalidate_keep(len, k) <= i < len implies #[trigger] (i * s) >= k by {
            assert(i >= q + 1);
            assert(i * s >= (q + 1) * s) by (nonlinear_arith)
                requires
                    i >= q + 1,
                    s > 0,
            ;
            assert((q + 1) * s == q * s + s);
            assert(q * s + s >= k);
        }
    }
}

/// The snapshot cache: an ordered sequence of checkpoints, snapshot `i` for
/// line `i * LINES_PER_SNAPSHOT`, truncated as the document is edited and
/// extended as a pass crosses new stride boundaries.
#[derive(Debug)]
pub struct SnapshotCache {
    snaps: Vec<Snapshot>,
}

impl SnapshotCache {
    /// The checkpoints the cache holds, in line order.
    pub closed spec fn view(self) -> Seq<(Seq<usize>, Seq<Seq<u8>>)> {
        self.snaps@.map(|i: int, s: Snapshot| snap_view(s))
    }

    /// A cache is well formed when snapshot 0 exists and is empty.
    pub open spec fn wf(self) -> bool {
        &&& self.view().len() >= 1
        &&& self.view()[0] == empty_snap()
    }

    /// A fresh cache: only the empty snapshot for line 0.
    pub fn new() -> (r: SnapshotCache)
        ensures
            r.wf(),
            r.view() == seq![empty_snap()],
    {
        let mut snaps: Vec<Snapshot> = Vec::new();
        snaps.push(Snapshot::empty());
        let r = SnapshotCache { snaps };
        proof {
            assert(r.view() =~= seq![empty_snap()]);
        }
        r
    }

    /// How many snapshots the cache holds.
    pub fn len(&self) -> (r: usize)
        ensures
            r == self.view().len(),
    {
        self.snaps.len()
    }

    /// The nearest restart point at or before `target`: the snapshot at index
    /// `target / LINES_PER_SNAPSHOT`, clamped to the last snapshot the cache
    /// holds. Returns the boundary line it stands for and a copy of the
    /// checkpoint; the returned line never lies past `target`.
    pub fn restart_near(&self, target: usize) -> (r: (usize, Snapshot))
        requires
            self.wf(),
        ensures
            ({
                let s = LINES_PER_SNAPSHOT as int;
                let idx = if target as int / s < self.view().len() - 1 {
                    target as int / s
                } else {
                    self.view().len() - 1
                };
                &&& r.0 == idx * s
                &&& snap_view(r.1) == self.view()[idx]
                &&& r.0 <= target
            }),
    {
        let q = target / LINES_PER_SNAPSHOT;
        proof {
            lemma_fundamental_div_mod(target as int, LINES_PER_SNAPSHOT as int);
            lemma_mod_bound(target as int, LINES_PER_SNAPSHOT as int);
        }
        let idx = if q < self.snaps.len() - 1 {
            q
        } else {
            self.snaps.len() - 1
        };
        proof {
            assert(idx * (LINES_PER_SNAPSHOT as int) <= q * (LINES_PER_SNAPSHOT as int))
                by (nonlinear_arith)
                requires
                    idx <= q,
                    LINES_PER_SNAPSHOT as int > 0,
            ;
        }
        let line = idx * LINES_PER_SNAPSHOT;
        (line, self.snaps[idx].duplicate())
    }

    /// Records the checkpoint for line `line`: only an exact stride boundary
    /// is recorded, overwriting the snapshot if the cache already holds it,
    /// appending it if it is the next one. Any other line, or a boundary past
    /// the next one, changes nothing.
    pub fn record(&mut self, line: usize, snap: Snapshot)
        requires
            old(self).wf(),
        ensures
            ({
                let s = LINES_PER_SNAPSHOT as int;
                let idx = line as int / s;
                if line as int % s == 0 && 0 < idx < old(self).view().len() {
                    final(self).view() == old(self).view().update(idx, snap_view(snap))
                } else if line as int % s == 0 && idx == old(self).view().len() {
                    final(self).view() == old(self).view().push(snap_view(snap))
                } else {
                    final(self).view() == old(self).view()
                }
            }),
            final(self).wf(),
    {
        if line % LINES_PER_SNAPSHOT != 0 {
            return ;
        }
        let idx = line / LINES_PER_SNAPSHOT;
        if idx == 0 {
            return ;
        }
        if idx < self.snaps.len() {
            self.snaps.set(idx, snap);
            proof {
                assert(final(self).view() =~= old(self).view().update(
                    line as int / (LINES_PER_SNAPSHOT as int),
                    snap_view(snap),
                ));
            }
        } else if idx == self.snaps.len() {
            self.snaps.push(snap);
            proof {
                assert(final(self).view() =~= old(self).view().push(snap_view(snap)));
            }
        }
    }

    /// Truncates the cache after an edit at line `k` (or a settings change,
    /// with `k == 0`): snapshot 0 always stays, and a later snapshot stays
    /// exactly when its boundary line lies before `k` — its checkpoint was
    /// derived from lines before the edit alone. No snapshot at or past the
    /// edited line's stride index survives.
    pub fn invalidate_from(&mut self, k: usize)
        requires
            old(self).wf(),
        ensures
            final(self).view() == old(self).view().take(
                invalidate_keep(old(self).view().len() as int, k as int),
            ),
            final(self).wf(),
            forall|i: int|
                1 <= i < final(self).view().len() ==> #[trigger] (i * (
                LINES_PER_SNAPSHOT as int)) < k,
    {
        proof {
            lemma_invalidate_keep(old(self).view().len() as int, k as int);
        }
        let keep: usize = if k == 0 {
            1
        } else {
            let q = (k - 1) / LINES_PER_SNAPSHOT;
            if self.snaps.len() <= q + 1 {
                self.snaps.len()
            } else {
                q + 1
            }
        };
        self.snaps.truncate(keep);
        proof {
            assert(final(self).view() =~= old(self).view().take(
                invalidate_keep(old(self).view().len() as int, k as int),
            ));
        }
    }

    /// A copy of the snapshot at `idx`.
    pub fn get(&self, idx: usize) -> (r: Snapshot)
        requires
            idx < self.view().len(),
        ensures
            snap_view(r) == self.view()[idx as int],
    {
        self.snaps[idx].duplicate()
    }
}

} // verus!

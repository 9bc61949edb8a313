//! The cursor store: a map from `(concrete path, window length)` to a
//! persisted cursor, with point lookup and atomic batch upsert. This
//! in-memory implementation stands in for a durable store; a route with no
//! placeholders backed by such a store models a process-wide tier.

use vstd::prelude::*;

use crate::context::compare_str;

verus! {

/// One persisted cursor row. The path and the window length identify the
/// row; the cursor is the tier's time of burst in milliseconds.
#[derive(Debug)]
pub struct StoreRow {
    pub path: String,
    pub period_ms: u64,
    pub state_ms: u64,
}

impl StoreRow {
    /// The row's composite key.
    pub open spec fn key(self) -> (Seq<char>, u64) {
        (self.path@, self.period_ms)
    }
}

/// First match wins: the cursor of the earliest row with key `k`.
pub open spec fn rows_first_match(rows: Seq<StoreRow>, k: (Seq<char>, u64)) -> Option<u64>
    decreases rows.len(),
{
    if rows.len() == 0 {
        None
    } else if rows[0].key() == k {
        Some(rows[0].state_ms)
    } else {
        rows_first_match(rows.drop_first(), k)
    }
}

/// The data of one row as plain values: path, window, cursor.
pub open spec fn row_data(r: StoreRow) -> (Seq<char>, u64, u64) {
    (r.path@, r.period_ms, r.state_ms)
}

/// The data of a batch of rows, in order.
pub open spec fn rows_data(rows: Seq<StoreRow>) -> Seq<(Seq<char>, u64, u64)> {
    rows.map_values(|r: StoreRow| row_data(r))
}

/// The map that results from applying a batch of upserts in order; a later
/// upsert of the same key wins.
pub open spec fn spec_apply(
    st: Map<(Seq<char>, u64), u64>,
    ups: Seq<(Seq<char>, u64, u64)>,
) -> Map<(Seq<char>, u64), u64>
    decreases ups.len(),
{
    if ups.len() == 0 {
        st
    } else {
        spec_apply(st.insert((ups[0].0, ups[0].1), ups[0].2), ups.drop_first())
    }
}

/// The first row with key `k` is the one `rows_first_match` reports.
proof fn lemma_first_match_at(rows: Seq<StoreRow>, i: int)
    requires
        0 <= i < rows.len(),
        forall|j: int| 0 <= j < i ==> (#[trigger] rows[j]).key() != rows[i].key(),
    ensures
        rows_first_match(rows, rows[i].key()) == Some(rows[i].state_ms),
    decreases i,
{
    if i > 0 {
        assert(rows.drop_first()[i - 1] == rows[i]);
        assert forall|j: int| 0 <= j < i - 1 implies (#[trigger] rows.drop_first()[j]).key()
            != rows.drop_first()[i - 1].key() by {
            assert(rows.drop_first()[j] == rows[j + 1]);
        }
        lemma_first_match_at(rows.drop_first(), i - 1);
    }
}

/// A key that matches at all matches at some row.
proof fn lemma_match_has_row(rows: Seq<StoreRow>, k: (Seq<char>, u64))
    requires
        rows_first_match(rows, k) is Some,
    ensures
        exists|i: int| 0 <= i < rows.len() && (#[trigger] rows[i]).key() == k,
    decreases rows.len(),
{
    if rows[0].key() != k {
        lemma_match_has_row(rows.drop_first(), k);
        let i = choose|i: int|
            0 <= i < rows.drop_first().len() && (#[trigger] rows.drop_first()[i]).key() == k;
        assert(rows[i + 1] == rows.drop_first()[i]);
    }
}

/// An in-memory cursor store, viewed in contracts as the map from
/// `(path, window)` to the stored cursor.
pub struct MemoryStore {
    rows: Vec<StoreRow>,
}

impl View for MemoryStore {
    type V = Map<(Seq<char>, u64), u64>;

    closed spec fn view(&self) -> Map<(Seq<char>, u64), u64> {
        Map::new(
            |k: (Seq<char>, u64)| rows_first_match(self.rows@, k) is Some,
            |k: (Seq<char>, u64)| rows_first_match(self.rows@, k).unwrap(),
        )
    }
}

impl MemoryStore {
    /// An empty store: no cursor is persisted.
    pub fn new() -> (r: MemoryStore)
        ensures
            r@ == Map::<(Seq<char>, u64), u64>::empty(),
    {
        let r = MemoryStore { rows: Vec::new() };
        proof {
            assert(r@ =~= Map::<(Seq<char>, u64), u64>::empty());
        }
        r
    }

    /// Point lookup of the cursor stored for one path and window.
    pub fn lookup(&self, path: &str, period_ms: u64) -> (r: Option<u64>)
        ensures
            r is Some <==> self@.dom().contains((path@, period_ms)),
            r is Some ==> r.unwrap() == self@[(path@, period_ms)],
    {
        let n = self.rows.len();
        let mut i: usize = 0;
        proof {
            assert(self.rows@.skip(0) =~= self.rows@);
        }
        while i < n
            invariant
                0 <= i <= n,
                n == self.rows@.len(),
                rows_first_match(self.rows@, (path@, period_ms)) == rows_first_match(
                    self.rows@.skip(i as int),
                    (path@, period_ms),
                ),
            decreases n - i,
        {
            proof {
                assert(self.rows@.skip(i as int)[0] == self.rows@[i as int]);
            }
            let period_eq = self.rows[i].period_ms == period_ms;
            let path_eq = compare_str(self.rows[i].path.as_str(), path);
            if period_eq && path_eq {
                proof {
                    assert(self.rows@[i as int].key() == (path@, period_ms));
                    assert(rows_first_match(self.rows@.skip(i as int), (path@, period_ms))
                        == Some(self.rows@[i as int].state_ms));
                }
                return Some(self.rows[i].state_ms);
            }
            proof {
                assert(self.rows@[i as int].key() != (path@, period_ms));
                assert(self.rows@.skip(i as int).drop_first() =~= self.rows@.skip(i + 1));
            }
            i = i + 1;
        }
        proof {
            assert(self.rows@.skip(n as int) =~= Seq::<StoreRow>::empty());
        }
        None
    }

    /// All tiers recorded for one path: each window exactly once, with its
    /// current cursor, and windows of other paths not at all.
    #[verifier::loop_isolation(false)]
    pub fn find_by_path(&self, path: &str) -> (r: Vec<(u64, u64)>)
        ensures
            forall|m: int|
                0 <= m < r@.len() ==> self@.dom().contains((path@, (#[trigger] r@[m]).0))
                    && r@[m].1 == self@[(path@, r@[m].0)],
            forall|p: u64|
                self@.dom().contains((path@, p)) ==> exists|m: int|
                    0 <= m < r@.len() && (#[trigger] r@[m]).0 == p,
            forall|m1: int, m2: int| 0 <= m1 < m2 < r@.len() ==> r@[m1].0 != r@[m2].0,
    {
        let n = self.rows.len();
        let mut r: Vec<(u64, u64)> = Vec::new();
        let mut i: usize = 0;
        while i < n
            invariant
                0 <= i <= n,
                forall|m: int|
                    0 <= m < r@.len() ==> self@.dom().contains((path@, (#[trigger] r@[m]).0))
                        && r@[m].1 == self@[(path@, r@[m].0)],
                forall|m1: int, m2: int| 0 <= m1 < m2 < r@.len() ==> r@[m1].0 != r@[m2].0,
                forall|j: int|
                    0 <= j < i && (#[trigger] self.rows@[j]).path@ == path@ ==> exists|m: int|
                        0 <= m < r@.len() && (#[trigger] r@[m]).0 == self.rows@[j].period_ms,
            decreases n - i,
        {
            let row = &self.rows[i];
            let path_eq = compare_str(row.path.as_str(), path);
            if path_eq {
                let mut seen = false;
                let nr = r.len();
                let mut m: usize = 0;
                while m < nr
                    invariant
                        0 <= m <= nr,
                        seen == exists|mm: int|
                            0 <= mm < m && (#[trigger] r@[mm]).0 == row.period_ms,
                    decreases nr - m,
                {
                    if r[m].0 == row.period_ms {
                        seen = true;
                    }
                    m = m + 1;
                }
                if !seen {
                    let ghost pre = r@;
                    proof {
                        // no gathered window equals this row's, so no earlier
                        // row of this path holds it: this row is the current one
                        assert forall|j: int| 0 <= j < i implies (
                        #[trigger] self.rows@[j]).key() != self.rows@[i as int].key() by {
                            if self.rows@[j].path@ == path@ && self.rows@[j].period_ms
                                == row.period_ms {
                                assert(exists|mm: int|
                                    0 <= mm < r@.len() && (#[trigger] r@[mm]).0
                                        == row.period_ms);
                            }
                        }
                        lemma_first_match_at(self.rows@, i as int);
                        assert(self@.dom().contains((path@, row.period_ms)));
                        assert(self@[(path@, row.period_ms)] == row.state_ms);
                    }
                    r.push((row.period_ms, row.state_ms));
                    proof {
                        assert forall|j: int|
                            0 <= j < i + 1 && (#[trigger] self.rows@[j]).path@
                                == path@ implies exists|m: int|
                            0 <= m < r@.len() && (#[trigger] r@[m]).0
                                == self.rows@[j].period_ms by {
                            if j < i {
                                let m0 = choose|m0: int|
                                    0 <= m0 < pre.len() && (#[trigger] pre[m0]).0
                                        == self.rows@[j].period_ms;
                                assert(r@[m0].0 == self.rows@[j].period_ms);
                            } else {
                                assert(r@[r@.len() - 1].0 == self.rows@[j].period_ms);
                            }
                        }
                    }
                }
            }
            i = i + 1;
        }
        proof {
            // completeness: every window of this path in the map was gathered
            assert forall|p: u64| self@.dom().contains((path@, p)) implies exists|m: int|
                0 <= m < r@.len() && (#[trigger] r@[m]).0 == p by {
                lemma_match_has_row(self.rows@, (path@, p));
                let j = choose|j: int|
                    0 <= j < self.rows@.len() && (#[trigger] self.rows@[j]).key() == (path@, p);
                assert(self.rows@[j].path@ == path@);
                assert(self.rows@[j].period_ms == p);
            }
        }
        r
    }

    /// Stores a cursor for one path and window: an insert when no row
    /// existed, an update otherwise.
    pub fn upsert(&mut self, path: String, period_ms: u64, state_ms: u64)
        ensures
            final(self)@ == old(self)@.insert((path@, period_ms), state_ms),
    {
        let ghost pre = self.rows@;
        self.rows.insert(0, StoreRow { path, period_ms, state_ms });
        proof {
            assert(self.rows@.drop_first() =~= pre);
            assert(self@ =~= old(self)@.insert(self.rows@[0].key(), self.rows@[0].state_ms));
        }
    }

    /// Commits a batch of upserts as one atomic step: afterwards the store
    /// holds exactly the batch applied in order, and nothing else changed.
    #[verifier::loop_isolation(false)]
    pub fn commit(&mut self, upserts: &Vec<StoreRow>)
        ensures
            final(self)@ == spec_apply(old(self)@, rows_data(upserts@)),
    {
        let n = upserts.len();
        let mut i: usize = 0;
        proof {
            assert(rows_data(upserts@).skip(0) =~= rows_data(upserts@));
        }
        while i < n
            invariant
                0 <= i <= n,
                spec_apply(old(self)@, rows_data(upserts@)) == spec_apply(
                    self@,
                    rows_data(upserts@).skip(i as int),
                ),
            decreases n - i,
        {
            proof {
                assert(rows_data(upserts@).skip(i as int)[0] == row_data(upserts@[i as int]));
                assert(rows_data(upserts@).skip(i as int).drop_first() =~= rows_data(
                    upserts@,
                ).skip(i + 1));
            }
            let row = &upserts[i];
            self.upsert(row.path.clone(), row.period_ms, row.state_ms);
            i = i + 1;
        }
        proof {
            assert(rows_data(upserts@).skip(n as int) =~= Seq::<(Seq<char>, u64, u64)>::empty());
        }
    }
}

} // verus!

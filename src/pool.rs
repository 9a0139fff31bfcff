//! The bounded pool of a player's recent personal bests.
//!
//! The pool holds at most thirty plays. Up to ten of them are flagged as the
//! player's recent ten (`r10`), with at most one play per chart; the others
//! (`normal`) keep older plays as candidates. A new personal best enters the
//! pool by the rules of `pool_after`.
use crate::rating::{EX_SCORE, MAX_PLAY_RATING};
use vstd::prelude::*;

verus! {

/// Most plays the pool holds.
pub const POOL_CAPACITY: usize = 30;

/// Most plays flagged as recent.
pub const RECENT_CAPACITY: usize = 10;

/// The clear type of a hard clear.
pub const HARD_CLEAR: i8 = 5;

/// One play in the pool: its chart, when it was played (the play's key) and
/// its rating.
pub struct PoolEntry {
    pub song_id: String,
    pub difficulty: i8,
    pub played_at: i64,
    pub rating: u64,
}

/// Whether two plays are of the same chart.
pub open spec fn same_chart(a: PoolEntry, b: PoolEntry) -> bool {
    a.song_id@ == b.song_id@ && a.difficulty == b.difficulty
}

/// Position of the first play of `s` on the chart of `e`, or -1.
pub open spec fn chart_position(s: Seq<PoolEntry>, e: PoolEntry) -> int
    decreases s.len(),
{
    if s.len() == 0 {
        -1
    } else {
        let i = chart_position(s.drop_last(), e);
        if i >= 0 {
            i
        } else if same_chart(s.last(), e) {
            s.len() - 1
        } else {
            -1
        }
    }
}

/// Whether a play may give way to a new play rated `rating`: always when the
/// new play is exempt, else only when it rates no higher.
pub open spec fn eligible(e: PoolEntry, rating: u64, exempt: bool) -> bool {
    exempt || e.rating <= rating
}

/// Position of the oldest eligible play of `s` (the first one on equal times),
/// or -1 when none is eligible.
pub open spec fn oldest_position(s: Seq<PoolEntry>, rating: u64, exempt: bool) -> int
    decreases s.len(),
{
    if s.len() == 0 {
        -1
    } else {
        let i = oldest_position(s.drop_last(), rating, exempt);
        let j = s.len() - 1;
        if eligible(s[j], rating, exempt) && (i < 0 || s[j].played_at < s[i].played_at) {
            j
        } else {
            i
        }
    }
}

/// No two plays of `s` are of the same chart.
pub open spec fn charts_unique(s: Seq<PoolEntry>) -> bool {
    forall|i: int, j: int| 0 <= i < j < s.len() ==> !same_chart(s[i], s[j])
}

/// Every play of `s` has a possible play rating.
pub open spec fn ratings_bounded(s: Seq<PoolEntry>) -> bool {
    forall|i: int| 0 <= i < s.len() ==> s[i].rating <= MAX_PLAY_RATING
}

/// What a pool always satisfies: at most thirty plays, at most ten recent
/// ones, and no two recent ones of the same chart.
pub open spec fn pool_wf(r10: Seq<PoolEntry>, normal: Seq<PoolEntry>) -> bool {
    &&& r10.len() <= 10
    &&& r10.len() + normal.len() <= 30
    &&& charts_unique(r10)
    &&& ratings_bounded(r10)
    &&& ratings_bounded(normal)
}

/// A play is exempt from the rating comparison when it scores at least
/// 9,800,000, is a hard clear, or the pool is not yet full.
pub open spec fn exempt_play(score: int, clear_type: int, total: int) -> bool {
    score >= 9_800_000 || clear_type == 5 || total < 30
}

/// The pool after `target` is placed among the unflagged plays: added while
/// there is room, else it takes the place of the oldest unflagged play.
pub open spec fn with_normal(r10: Seq<PoolEntry>, normal: Seq<PoolEntry>, target: PoolEntry) -> (
    Seq<PoolEntry>,
    Seq<PoolEntry>,
) {
    if r10.len() + normal.len() < 30 {
        (r10, normal.push(target))
    } else {
        let v = oldest_position(normal, 0, true);
        if normal[v].played_at != target.played_at {
            (r10, normal.update(v, target))
        } else {
            (r10, normal)
        }
    }
}

/// The pool `(r10, normal)` after a new personal best `t`, scored `score` with
/// clear type `clear_type`, is offered to it.
///
/// - A recent play of the same chart is replaced by `t` when it rates no
///   higher, and otherwise `t` is left out.
/// - Else, with fewer than ten recent plays, `t` becomes recent; when the pool
///   is full, the oldest unflagged play leaves to make room.
/// - Else, when some recent play rates no higher than `t`, `t` takes the place
///   of the oldest eligible recent play, which is placed among the unflagged.
/// - Else `t` is placed among the unflagged.
pub open spec fn pool_after(
    r10: Seq<PoolEntry>,
    normal: Seq<PoolEntry>,
    t: PoolEntry,
    score: int,
    clear_type: int,
) -> (Seq<PoolEntry>, Seq<PoolEntry>) {
    let total = (r10.len() + normal.len()) as int;
    let c = chart_position(r10, t);
    if c >= 0 {
        if r10[c].rating <= t.rating {
            (r10.update(c, t), normal)
        } else {
            (r10, normal)
        }
    } else if r10.len() < 10 {
        if total < 30 {
            (r10.push(t), normal)
        } else {
            (r10.push(t), normal.remove(oldest_position(normal, 0, true)))
        }
    } else if exists|k: int| 0 <= k < r10.len() && r10[k].rating <= t.rating {
        let v = oldest_position(r10, t.rating, exempt_play(score, clear_type, total));
        with_normal(r10.update(v, t), normal, r10[v])
    } else {
        with_normal(r10, normal, t)
    }
}

impl PoolEntry {
    /// A copy of this entry.
    pub fn duplicate(&self) -> (r: PoolEntry)
        ensures
            r == *self,
    {
        PoolEntry {
            song_id: self.song_id.clone(),
            difficulty: self.difficulty,
            played_at: self.played_at,
            rating: self.rating,
        }
    }

    /// Whether `other` is a play of the same chart.
    pub fn is_same_chart(&self, other: &PoolEntry) -> (r: bool)
        ensures
            r == same_chart(*self, *other),
    {
        self.difficulty == other.difficulty && self.song_id == other.song_id
    }
}

/// Finds the first play of `s` on the chart of `e`.
fn find_chart(s: &Vec<PoolEntry>, e: &PoolEntry) -> (r: Option<usize>)
    ensures
        match r {
            Some(i) => i as int == chart_position(s@, *e) && i < s.len(),
            None => chart_position(s@, *e) == -1,
        },
{
    let mut found: Option<usize> = None;
    let mut j: usize = 0;
    while j < s.len()
        invariant
            j <= s.len(),
            match found {
                Some(i) => i as int == chart_position(s@.subrange(0, j as int), *e) && i < j,
                None => chart_position(s@.subrange(0, j as int), *e) == -1,
            },
        decreases s.len() - j,
    {
        assert(s@.subrange(0, j + 1).drop_last() =~= s@.subrange(0, j as int));
        if found.is_none() && s[j].is_same_chart(e) {
            found = Some(j);
        }
        j += 1;
    }
    assert(s@.subrange(0, s.len() as int) =~= s@);
    found
}

/// Finds the oldest eligible play of `s` (the first one on equal times).
fn find_oldest(s: &Vec<PoolEntry>, rating: u64, exempt: bool) -> (r: Option<usize>)
    ensures
        match r {
            Some(i) => i as int == oldest_position(s@, rating, exempt) && i < s.len(),
            None => oldest_position(s@, rating, exempt) == -1,
        },
{
    let mut found: Option<usize> = None;
    let mut j: usize = 0;
    while j < s.len()
        invariant
            j <= s.len(),
            match found {
                Some(i) => i as int == oldest_position(s@.subrange(0, j as int), rating, exempt) && i < j,
                None => oldest_position(s@.subrange(0, j as int), rating, exempt) == -1,
            },
        decreases s.len() - j,
    {
        assert(s@.subrange(0, j + 1).drop_last() =~= s@.subrange(0, j as int));
        if exempt || s[j].rating <= rating {
            match found {
                None => {
                    found = Some(j);
                },
                Some(i) => {
                    if s[j].played_at < s[i].played_at {
                        found = Some(j);
                    }
                },
            }
        }
        j += 1;
    }
    assert(s@.subrange(0, s.len() as int) =~= s@);
    found
}

/// A player's pool: the recent plays and the unflagged ones.
pub struct RecentPool {
    pub r10: Vec<PoolEntry>,
    pub normal: Vec<PoolEntry>,
}

impl RecentPool {
    pub open spec fn wf(&self) -> bool {
        pool_wf(self.r10@, self.normal@)
    }

    /// An empty pool.
    pub fn new() -> (r: RecentPool)
        ensures
            r.r10@.len() == 0,
            r.normal@.len() == 0,
            r.wf(),
    {
        RecentPool { r10: Vec::new(), normal: Vec::new() }
    }

    /// Number of plays in the pool.
    pub fn len(&self) -> (r: usize)
        requires
            self.wf(),
        ensures
            r == self.r10@.len() + self.normal@.len(),
    {
        self.r10.len() + self.normal.len()
    }

    /// Places `target` among the unflagged plays.
    fn place_normal(&mut self, target: PoolEntry)
        requires
            old(self).r10@.len() <= 10,
            old(self).r10@.len() + old(self).normal@.len() <= 30,
        ensures
            (final(self).r10@, final(self).normal@) == with_normal(old(self).r10@, old(self).normal@, target),
    {
        proof {
            lemma_oldest_position(self.normal@, 0, true);
        }
        if self.r10.len() + self.normal.len() < POOL_CAPACITY {
            self.normal.push(target);
        } else {
            assert(eligible(self.normal@[0], 0, true));
            if let Some(v) = find_oldest(&self.normal, 0, true) {
                if self.normal[v].played_at != target.played_at {
                    self.normal.set(v, target);
                }
            }
        }
    }

    /// Offers a new personal best to the pool, by the rules of `pool_after`.
    pub fn insert(&mut self, entry: PoolEntry, score: isize, clear_type: i8)
        requires
            old(self).wf(),
            entry.rating <= MAX_PLAY_RATING,
        ensures
            final(self).wf(),
            (final(self).r10@, final(self).normal@) == pool_after(
                old(self).r10@,
                old(self).normal@,
                entry,
                score as int,
                clear_type as int,
            ),
    {
        proof {
            lemma_pool_after_keeps_bounds(self.r10@, self.normal@, entry, score as int, clear_type as int);
            lemma_chart_position(self.r10@, entry);
            lemma_oldest_position(self.normal@, 0, true);
            lemma_oldest_position(self.r10@, entry.rating, false);
        }
        let total = self.r10.len() + self.normal.len();
        match find_chart(&self.r10, &entry) {
            Some(c) => {
                if self.r10[c].rating <= entry.rating {
                    self.r10.set(c, entry);
                }
            },
            None => {
                if self.r10.len() < RECENT_CAPACITY {
                    if total < POOL_CAPACITY {
                        self.r10.push(entry);
                    } else {
                        assert(eligible(self.normal@[0], 0, true));
                        if let Some(v) = find_oldest(&self.normal, 0, true) {
                            self.normal.remove(v);
                            self.r10.push(entry);
                        }
                    }
                } else {
                    let exempt = score >= EX_SCORE || clear_type == HARD_CLEAR || total < POOL_CAPACITY;
                    proof {
                        lemma_oldest_position(self.r10@, entry.rating, exempt);
                    }
                    match find_oldest(&self.r10, entry.rating, false) {
                        Some(k) => {
                            assert(eligible(self.r10@[k as int], entry.rating, exempt));
                            if let Some(v) = find_oldest(&self.r10, entry.rating, exempt) {
                                let evicted = self.r10[v].duplicate();
                                self.r10.set(v, entry);
                                self.place_normal(evicted);
                            }
                        },
                        None => {
                            assert(!(exists|k: int| 0 <= k < self.r10@.len() && self.r10@[k].rating <= entry.rating)) by {
                                assert forall|k: int| 0 <= k < self.r10@.len() implies !(self.r10@[k].rating <= entry.rating) by {
                                    assert(!eligible(self.r10@[k], entry.rating, false));
                                }
                            }
                            self.place_normal(entry);
                        },
                    }
                }
            },
        }
    }
}

pub proof fn lemma_chart_position(s: Seq<PoolEntry>, e: PoolEntry)
    ensures
        -1 <= chart_position(s, e) < s.len(),
        chart_position(s, e) >= 0 ==> same_chart(s[chart_position(s, e)], e),
        chart_position(s, e) == -1 ==> forall|k: int| 0 <= k < s.len() ==> !same_chart(#[trigger] s[k], e),
    decreases s.len(),
{
    if s.len() > 0 {
        lemma_chart_position(s.drop_last(), e);
        assert forall|k: int| 0 <= k < s.len() - 1 implies s[k] == s.drop_last()[k] by {}
    }
}

pub proof fn lemma_oldest_position(s: Seq<PoolEntry>, rating: u64, exempt: bool)
    ensures
        -1 <= oldest_position(s, rating, exempt) < s.len(),
        oldest_position(s, rating, exempt) >= 0 ==> eligible(s[oldest_position(s, rating, exempt)], rating, exempt),
        oldest_position(s, rating, exempt) == -1 <==> forall|k: int| 0 <= k < s.len() ==> !eligible(#[trigger] s[k], rating, exempt),
    decreases s.len(),
{
    if s.len() > 0 {
        lemma_oldest_position(s.drop_last(), rating, exempt);
        assert forall|k: int| 0 <= k < s.len() - 1 implies s[k] == s.drop_last()[k] by {}
        if oldest_position(s, rating, exempt) == -1 {
            assert forall|k: int| 0 <= k < s.len() implies !eligible(#[trigger] s[k], rating, exempt) by {
                if k < s.len() - 1 {
                    assert(s[k] == s.drop_last()[k]);
                }
            }
        }
    }
}

/// A pool that satisfies its bounds still does after any new personal best is
/// offered to it: at most thirty plays, at most ten recent ones, and no two
/// recent ones of the same chart.
pub proof fn lemma_pool_after_keeps_bounds(
    r10: Seq<PoolEntry>,
    normal: Seq<PoolEntry>,
    t: PoolEntry,
    score: int,
    clear_type: int,
)
    requires
        pool_wf(r10, normal),
        t.rating <= MAX_PLAY_RATING,
    ensures
        pool_wf(pool_after(r10, normal, t, score, clear_type).0, pool_after(r10, normal, t, score, clear_type).1),
{
    let total = (r10.len() + normal.len()) as int;
    let c = chart_position(r10, t);
    lemma_chart_position(r10, t);
    lemma_oldest_position(normal, 0, true);
    if c >= 0 {
        if r10[c].rating <= t.rating {
            let s = r10.update(c, t);
            assert forall|i: int, j: int| 0 <= i < j < s.len() implies !same_chart(s[i], s[j]) by {
                assert(!same_chart(r10[i], r10[j]));
                if i != c && j != c {
                } else if i == c {
                    assert(!same_chart(r10[c], r10[j]));
                } else {
                    assert(!same_chart(r10[i], r10[c]));
                }
            }
        }
    } else if r10.len() < 10 {
        let s = r10.push(t);
        assert forall|i: int, j: int| 0 <= i < j < s.len() implies !same_chart(s[i], s[j]) by {
            if j == r10.len() {
                assert(!same_chart(r10[i], t));
            }
        }
        if total >= 30 {
            assert(normal.len() > 0);
            assert(eligible(normal[0], 0, true));
        }
    } else {
        let exempt = exempt_play(score, clear_type, total);
        lemma_oldest_position(r10, t.rating, exempt);
        if exists|k: int| 0 <= k < r10.len() && r10[k].rating <= t.rating {
            let k = choose|k: int| 0 <= k < r10.len() && r10[k].rating <= t.rating;
            assert(eligible(r10[k], t.rating, exempt));
            let v = oldest_position(r10, t.rating, exempt);
            let s = r10.update(v, t);
            assert forall|i: int, j: int| 0 <= i < j < s.len() implies !same_chart(s[i], s[j]) by {
                assert(!same_chart(r10[i], r10[j]));
                if i == v {
                    assert(!same_chart(r10[j], t));
                } else if j == v {
                    assert(!same_chart(r10[i], t));
                }
            }
            if s.len() + normal.len() >= 30 {
                assert(eligible(normal[0], 0, true));
            }
        } else {
            if total >= 30 {
                assert(eligible(normal[0], 0, true));
            }
        }
    }
}

} // verus!

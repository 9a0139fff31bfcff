//! A player's score data and the submission of a play, as one atomic step.
use crate::pool::{
    charts_unique, lemma_pool_after_keeps_bounds, pool_after, pool_wf, ratings_bounded, same_chart, PoolEntry,
    RecentPool, POOL_CAPACITY, RECENT_CAPACITY,
};
use crate::rating::{
    all_play_ratings, play_rating, play_rating_spec, player_rating, player_rating_spec, sum_of,
    sum_of_all, sum_of_top, top_sum, MAX_PLAY_RATING,
};
use crate::score::{
    bests_after, bests_unique, event_ratings_bounded, lemma_bests_after_keeps_bounds, pool_entry_of,
    same_chart_event, update_best, PlayResult, ScoreError, ScoreEvent,
};
use vstd::prelude::*;

verus! {

/// The ratings of a sequence of events.
pub open spec fn event_ratings(s: Seq<ScoreEvent>) -> Seq<u64> {
    s.map_values(|e: ScoreEvent| e.rating)
}

/// The ratings of a sequence of pool entries.
pub open spec fn entry_ratings(s: Seq<PoolEntry>) -> Seq<u64> {
    s.map_values(|e: PoolEntry| e.rating)
}

/// The player's overall rating: the thirty highest-rated personal bests and
/// the recent plays of the pool, averaged together, times 100, rounded.
pub open spec fn rating_snapshot(bests: Seq<ScoreEvent>, r10: Seq<PoolEntry>) -> int {
    let best_count = if bests.len() < 30 { bests.len() } else { 30 };
    player_rating_spec(top_sum(event_ratings(bests), 30), best_count as int, sum_of(entry_ratings(r10)), r10.len() as int)
}

/// No two events of `s` were played at the same time.
pub open spec fn times_unique(s: Seq<ScoreEvent>) -> bool {
    forall|i: int, j: int| 0 <= i < j < s.len() ==> s[i].played_at != s[j].played_at
}

/// A player's score data: every event, the personal bests, the pool and the
/// overall rating.
pub struct PlayerView {
    pub user_id: isize,
    pub events: Seq<ScoreEvent>,
    pub bests: Seq<ScoreEvent>,
    pub r10: Seq<PoolEntry>,
    pub normal: Seq<PoolEntry>,
    pub rating: u64,
}

/// What a player's score data always satisfies.
pub open spec fn player_wf(p: PlayerView) -> bool {
    &&& times_unique(p.events)
    &&& bests_unique(p.bests)
    &&& event_ratings_bounded(p.bests)
    &&& pool_wf(p.r10, p.normal)
    &&& p.rating == rating_snapshot(p.bests, p.r10)
}

/// A player with no plays yet.
pub open spec fn fresh_player(user_id: isize) -> PlayerView {
    PlayerView { user_id, events: seq![], bests: seq![], r10: seq![], normal: seq![], rating: 0 }
}

/// Whether some event of `s` was played at `at`.
pub open spec fn has_event_at(s: Seq<ScoreEvent>, at: i64) -> bool {
    exists|i: int| 0 <= i < s.len() && s[i].played_at == at
}

/// The event that a submission of `rec`, on a chart of base rating `base`,
/// played at `at`, is stored as.
pub open spec fn event_of(rec: PlayResult, base: u32, at: i64) -> ScoreEvent {
    ScoreEvent { play: rec, rating: play_rating_spec(base as int, rec.score as int) as u64, played_at: at }
}

/// A player's data after submitting `rec`, on a chart of base rating `base`,
/// played at `at`, and the answer: refused when the player already has an
/// event at `at`; else the event is logged, the personal best updated, the
/// pool offered the event when it became a best, and the rating recomputed.
pub open spec fn submission(old: PlayerView, rec: PlayResult, base: u32, at: i64) -> (PlayerView, Result<u64, ScoreError>) {
    if has_event_at(old.events, at) {
        (old, Err(ScoreError::StorageConflict))
    } else {
        let ev = event_of(rec, base, at);
        let (bests, became) = bests_after(old.bests, ev);
        let pool = if became {
            pool_after(old.r10, old.normal, pool_entry_of(ev), rec.score as int, rec.clear_type as int)
        } else {
            (old.r10, old.normal)
        };
        let rating = rating_snapshot(bests, pool.0) as u64;
        (
            PlayerView { user_id: old.user_id, events: old.events.push(ev), bests, r10: pool.0, normal: pool.1, rating },
            Ok(rating),
        )
    }
}

/// A player's score data.
pub struct PlayerScores {
    pub user_id: isize,
    pub events: Vec<ScoreEvent>,
    pub bests: Vec<ScoreEvent>,
    pub pool: RecentPool,
    pub rating: u64,
}

impl View for PlayerScores {
    type V = PlayerView;

    open spec fn view(&self) -> PlayerView {
        PlayerView {
            user_id: self.user_id,
            events: self.events@,
            bests: self.bests@,
            r10: self.pool.r10@,
            normal: self.pool.normal@,
            rating: self.rating,
        }
    }
}

/// Computes the overall rating of a player with these personal bests and
/// recent plays.
pub fn compute_rating(bests: &Vec<ScoreEvent>, r10: &Vec<PoolEntry>) -> (r: u64)
    requires
        event_ratings_bounded(bests@),
        r10@.len() <= 10,
        forall|i: int| 0 <= i < r10@.len() ==> r10@[i].rating <= MAX_PLAY_RATING,
    ensures
        r as int == rating_snapshot(bests@, r10@),
{
    let mut best_ratings: Vec<u64> = Vec::new();
    let mut i: usize = 0;
    while i < bests.len()
        invariant
            i <= bests.len(),
            best_ratings@.len() == i,
            forall|k: int| 0 <= k < i ==> best_ratings@[k] == bests@[k].rating,
        decreases bests.len() - i,
    {
        best_ratings.push(bests[i].rating);
        i += 1;
    }
    assert(best_ratings@ =~= event_ratings(bests@));
    let mut recent_ratings: Vec<u64> = Vec::new();
    let mut j: usize = 0;
    while j < r10.len()
        invariant
            j <= r10.len(),
            recent_ratings@.len() == j,
            forall|k: int| 0 <= k < j ==> recent_ratings@[k] == r10@[k].rating,
        decreases r10.len() - j,
    {
        recent_ratings.push(r10[j].rating);
        j += 1;
    }
    assert(recent_ratings@ =~= entry_ratings(r10@));
    let best_count: u64 = if bests.len() < 30 { bests.len() as u64 } else { 30 };
    let best_sum = sum_of_top(best_ratings, 30);
    let recent_sum = sum_of_all(&recent_ratings);
    player_rating(best_sum, best_count, recent_sum, r10.len() as u64)
}

/// Whether some event of `s` was played at `at`.
fn has_event_at_time(s: &Vec<ScoreEvent>, at: i64) -> (r: bool)
    ensures
        r == has_event_at(s@, at),
{
    let mut j: usize = 0;
    while j < s.len()
        invariant
            j <= s.len(),
            forall|k: int| 0 <= k < j ==> s@[k].played_at != at,
        decreases s.len() - j,
    {
        if s[j].played_at == at {
            return true;
        }
        j += 1;
    }
    false
}

/// Whether no two events of `s` were played at the same time.
fn check_times_unique(s: &Vec<ScoreEvent>) -> (r: bool)
    ensures
        r == times_unique(s@),
{
    let mut i: usize = 0;
    while i < s.len()
        invariant
            i <= s.len(),
            forall|a: int, b: int| 0 <= a < b < s@.len() && a < i ==> s@[a].played_at != s@[b].played_at,
        decreases s.len() - i,
    {
        let mut j: usize = i + 1;
        while j < s.len()
            invariant
                i < s.len(),
                i + 1 <= j <= s.len(),
                forall|a: int, b: int| 0 <= a < b < s@.len() && a < i ==> s@[a].played_at != s@[b].played_at,
                forall|b: int| i < b < j ==> s@[i as int].played_at != s@[b].played_at,
            decreases s.len() - j,
        {
            if s[i].played_at == s[j].played_at {
                return false;
            }
            j += 1;
        }
        i += 1;
    }
    true
}

/// Whether no two personal bests of `s` are of the same chart.
fn check_bests_unique(s: &Vec<ScoreEvent>) -> (r: bool)
    ensures
        r == bests_unique(s@),
{
    let mut i: usize = 0;
    while i < s.len()
        invariant
            i <= s.len(),
            forall|a: int, b: int| 0 <= a < b < s@.len() && a < i ==> !same_chart_event(s@[a], s@[b]),
        decreases s.len() - i,
    {
        let mut j: usize = i + 1;
        while j < s.len()
            invariant
                i < s.len(),
                i + 1 <= j <= s.len(),
                forall|a: int, b: int| 0 <= a < b < s@.len() && a < i ==> !same_chart_event(s@[a], s@[b]),
                forall|b: int| i < b < j ==> !same_chart_event(s@[i as int], s@[b]),
            decreases s.len() - j,
        {
            if s[i].play.difficulty == s[j].play.difficulty && s[i].play.song_id == s[j].play.song_id {
                assert(same_chart_event(s@[i as int], s@[j as int]));
                return false;
            }
            j += 1;
        }
        i += 1;
    }
    true
}

/// Whether every event of `s` has a possible play rating.
fn check_event_ratings(s: &Vec<ScoreEvent>) -> (r: bool)
    ensures
        r == event_ratings_bounded(s@),
{
    let mut i: usize = 0;
    while i < s.len()
        invariant
            i <= s.len(),
            forall|k: int| 0 <= k < i ==> s@[k].rating <= MAX_PLAY_RATING,
        decreases s.len() - i,
    {
        if s[i].rating > MAX_PLAY_RATING {
            return false;
        }
        i += 1;
    }
    true
}

/// Whether every entry of `s` has a possible play rating.
fn check_entry_ratings(s: &Vec<PoolEntry>) -> (r: bool)
    ensures
        r == ratings_bounded(s@),
{
    let mut i: usize = 0;
    while i < s.len()
        invariant
            i <= s.len(),
            forall|k: int| 0 <= k < i ==> s@[k].rating <= MAX_PLAY_RATING,
        decreases s.len() - i,
    {
        if s[i].rating > MAX_PLAY_RATING {
            return false;
        }
        i += 1;
    }
    true
}

/// Whether no two entries of `s` are of the same chart.
fn check_charts_unique(s: &Vec<PoolEntry>) -> (r: bool)
    ensures
        r == charts_unique(s@),
{
    let mut i: usize = 0;
    while i < s.len()
        invariant
            i <= s.len(),
            forall|a: int, b: int| 0 <= a < b < s@.len() && a < i ==> !same_chart(s@[a], s@[b]),
        decreases s.len() - i,
    {
        let mut j: usize = i + 1;
        while j < s.len()
            invariant
                i < s.len(),
                i + 1 <= j <= s.len(),
                forall|a: int, b: int| 0 <= a < b < s@.len() && a < i ==> !same_chart(s@[a], s@[b]),
                forall|b: int| i < b < j ==> !same_chart(s@[i as int], s@[b]),
            decreases s.len() - j,
        {
            if s[i].is_same_chart(&s[j]) {
                return false;
            }
            j += 1;
        }
        i += 1;
    }
    true
}

impl PlayerScores {
    pub open spec fn wf(&self) -> bool {
        player_wf(self@)
    }

    /// A player with no plays yet.
    pub fn new(user_id: isize) -> (r: PlayerScores)
        ensures
            r@ == fresh_player(user_id),
            r.wf(),
    {
        let r = PlayerScores { user_id, events: Vec::new(), bests: Vec::new(), pool: RecentPool::new(), rating: 0 };
        proof {
            lemma_fresh_player(user_id);
            assert(r.events@ =~= fresh_player(user_id).events);
            assert(r.bests@ =~= fresh_player(user_id).bests);
            assert(r.pool.r10@ =~= fresh_player(user_id).r10);
            assert(r.pool.normal@ =~= fresh_player(user_id).normal);
        }
        r
    }

    /// A player's data as loaded from storage, with the overall rating
    /// recomputed; `None` when the parts break the invariant of `player_wf`.
    pub fn from_parts(
        user_id: isize,
        events: Vec<ScoreEvent>,
        bests: Vec<ScoreEvent>,
        r10: Vec<PoolEntry>,
        normal: Vec<PoolEntry>,
    ) -> (r: Option<PlayerScores>)
        ensures
            ({
                let ok = times_unique(events@) && bests_unique(bests@) && event_ratings_bounded(bests@)
                    && pool_wf(r10@, normal@);
                match r {
                    Some(p) => ok && p.wf() && p@ == (PlayerView {
                        user_id,
                        events: events@,
                        bests: bests@,
                        r10: r10@,
                        normal: normal@,
                        rating: p.rating,
                    }),
                    None => !ok,
                }
            }),
    {
        if !check_times_unique(&events) || !check_bests_unique(&bests) || !check_event_ratings(&bests) {
            return None;
        }
        if r10.len() > RECENT_CAPACITY || normal.len() > POOL_CAPACITY - r10.len() {
            return None;
        }
        if !check_charts_unique(&r10) || !check_entry_ratings(&r10) || !check_entry_ratings(&normal) {
            return None;
        }
        let rating = compute_rating(&bests, &r10);
        Some(PlayerScores { user_id, events, bests, pool: RecentPool { r10, normal }, rating })
    }

    /// Submits the play `play` on a chart of base rating `base_rating`
    /// hundredths, played at `played_at`; see `submission`.
    pub fn submit(&mut self, play: &PlayResult, base_rating: u32, played_at: i64) -> (r: Result<u64, ScoreError>)
        requires
            old(self).wf(),
        ensures
            final(self).wf(),
            (final(self)@, r) == submission(old(self)@, *play, base_rating, played_at),
    {
        if has_event_at_time(&self.events, played_at) {
            return Err(ScoreError::StorageConflict);
        }
        proof {
            lemma_submission_keeps_bounds(self@, *play, base_rating, played_at);
        }
        let rating = play_rating(base_rating, play.score);
        let event = ScoreEvent { play: play.duplicate(), rating, played_at };
        let entry = event.pool_entry();
        let became = update_best(&mut self.bests, event.duplicate());
        if became {
            self.pool.insert(entry, play.score, play.clear_type);
        }
        self.events.push(event);
        let snapshot = compute_rating(&self.bests, &self.pool.r10);
        self.rating = snapshot;
        Ok(snapshot)
    }
}

/// A player with no plays yet satisfies the invariant, and their overall
/// rating is zero.
pub proof fn lemma_fresh_player(user_id: isize)
    ensures
        player_wf(fresh_player(user_id)),
        rating_snapshot(seq![], seq![]) == 0,
{
    let b: Seq<ScoreEvent> = seq![];
    let r: Seq<PoolEntry> = seq![];
    assert(event_ratings(b) =~= seq![]);
    assert(entry_ratings(r) =~= seq![]);
    assert(sum_of(entry_ratings(r)) == 0);
    assert(top_sum(event_ratings(b), 30) == 0);
    assert(crate::rating::round_div(0, 600_000) == 0) by (nonlinear_arith);
    assert(player_rating_spec(0, 0, 0, 0) == 0);
    assert(rating_snapshot(b, r) == 0);
}

/// A rating snapshot over possible play ratings fits in a `u64`.
pub proof fn lemma_snapshot_bounds(bests: Seq<ScoreEvent>, r10: Seq<PoolEntry>)
    requires
        event_ratings_bounded(bests),
        r10.len() <= 10,
        forall|i: int| 0 <= i < r10.len() ==> r10[i].rating <= MAX_PLAY_RATING,
    ensures
        0 <= rating_snapshot(bests, r10) <= u64::MAX,
{
    let b = event_ratings(bests);
    let r = entry_ratings(r10);
    assert(all_play_ratings(b));
    assert(all_play_ratings(r));
    crate::rating::lemma_top_sum_bound(b, 30);
    crate::rating::lemma_sum_of_bound(r);
    let best_count = if bests.len() < 30 { bests.len() } else { 30 };
    let count = best_count + r10.len();
    let d: int = if count == 0 { 1 } else { count as int };
    let total = top_sum(b, 30) + sum_of(r);
    assert(r.len() * MAX_PLAY_RATING <= 10 * MAX_PLAY_RATING) by (nonlinear_arith)
        requires
            r.len() <= 10,
    ;
    let den = d * crate::rating::RATING_UNIT;
    assert(den >= 1) by (nonlinear_arith)
        requires
            d >= 1,
            den == d * crate::rating::RATING_UNIT,
    ;
    assert(0 <= (2 * (100 * total) + den) / (2 * den) <= 2 * (100 * total) + den) by (nonlinear_arith)
        requires
            den >= 1,
            total >= 0,
    ;
    assert(d <= 40);
    assert(den <= 40 * crate::rating::RATING_UNIT) by (nonlinear_arith)
        requires
            d <= 40,
            den == d * crate::rating::RATING_UNIT,
    ;
}

/// Every submission keeps a player's data within its invariant: one event per
/// time, one personal best per chart, at most thirty plays in the pool, at most
/// ten recent ones, no two recent ones of the same chart, and the stored
/// rating equal to the one computed from the bests and the recent plays.
pub proof fn lemma_submission_keeps_bounds(old: PlayerView, rec: PlayResult, base: u32, at: i64)
    requires
        player_wf(old),
    ensures
        player_wf(submission(old, rec, base, at).0),
{
    if !has_event_at(old.events, at) {
        let ev = event_of(rec, base, at);
        assert(ev.rating <= MAX_PLAY_RATING) by {
            crate::rating::lemma_rating_not_negative(base as int, rec.score as int);
            assert(play_rating_spec(base as int, rec.score as int) <= MAX_PLAY_RATING);
        }
        lemma_bests_after_keeps_bounds(old.bests, ev);
        lemma_pool_after_keeps_bounds(old.r10, old.normal, pool_entry_of(ev), rec.score as int, rec.clear_type as int);
        let (bests, became) = bests_after(old.bests, ev);
        let pool = if became {
            pool_after(old.r10, old.normal, pool_entry_of(ev), rec.score as int, rec.clear_type as int)
        } else {
            (old.r10, old.normal)
        };
        lemma_snapshot_bounds(bests, pool.0);
        let events = old.events.push(ev);
        assert forall|i: int, j: int| 0 <= i < j < events.len() implies events[i].played_at != events[j].played_at by {
            if j == old.events.len() {
                assert(old.events[i].played_at != at);
            }
        }
    }
}

/// A player's data after the submissions `subs` in order, each a play result,
/// the base rating of its chart and the time it was played.
pub open spec fn after_submissions(p: PlayerView, subs: Seq<(PlayResult, u32, i64)>) -> PlayerView
    decreases subs.len(),
{
    if subs.len() == 0 {
        p
    } else {
        after_submissions(submission(p, subs[0].0, subs[0].1, subs[0].2).0, subs.subrange(1, subs.len() as int))
    }
}

/// After any sequence of submissions by a new player, the pool holds at most
/// thirty plays, at most ten of them recent, no two recent ones of the same
/// chart; the whole invariant of `player_wf` holds too.
pub proof fn lemma_submissions_keep_pool_bounds(user_id: isize, subs: Seq<(PlayResult, u32, i64)>)
    ensures
        player_wf(after_submissions(fresh_player(user_id), subs)),
        after_submissions(fresh_player(user_id), subs).r10.len() <= 10,
        after_submissions(fresh_player(user_id), subs).r10.len() + after_submissions(fresh_player(user_id), subs).normal.len()
            <= 30,
        charts_unique(after_submissions(fresh_player(user_id), subs).r10),
{
    lemma_fresh_player(user_id);
    lemma_submissions_keep_bounds(fresh_player(user_id), subs);
}

/// Any sequence of submissions keeps a player's data within its invariant.
pub proof fn lemma_submissions_keep_bounds(p: PlayerView, subs: Seq<(PlayResult, u32, i64)>)
    requires
        player_wf(p),
    ensures
        player_wf(after_submissions(p, subs)),
    decreases subs.len(),
{
    if subs.len() > 0 {
        lemma_submission_keeps_bounds(p, subs[0].0, subs[0].1, subs[0].2);
        lemma_submissions_keep_bounds(
            submission(p, subs[0].0, subs[0].1, subs[0].2).0,
            subs.subrange(1, subs.len() as int),
        );
    }
}

/// A submission that does not beat the personal best of its chart leaves the
/// personal bests and the pool as they were.
pub proof fn lemma_no_improvement_keeps_bests_and_pool(old: PlayerView, rec: PlayResult, base: u32, at: i64, k: int)
    requires
        player_wf(old),
        0 <= k < old.bests.len(),
        old.bests[k].play.song_id@ == rec.song_id@,
        old.bests[k].play.difficulty == rec.difficulty,
        rec.score <= old.bests[k].play.score,
    ensures
        submission(old, rec, base, at).0.bests == old.bests,
        submission(old, rec, base, at).0.r10 == old.r10,
        submission(old, rec, base, at).0.normal == old.normal,
{
    let ev = event_of(rec, base, at);
    crate::score::lemma_best_position(old.bests, ev.play);
    let i = crate::score::best_position(old.bests, ev.play);
    assert(crate::score::same_chart_event(old.bests[k], ev));
    assert(i >= 0);
    if i < k {
        assert(!crate::score::same_chart_event(old.bests[i], old.bests[k]));
    } else if k < i {
        assert(!crate::score::same_chart_event(old.bests[k], old.bests[i]));
    }
}

} // verus!

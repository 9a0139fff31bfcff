//! Score submissions, stored score events and personal bests.
use crate::pool::PoolEntry;
use crate::rating::MAX_PLAY_RATING;
use crate::text::{append_decimal, decimal};
use vstd::prelude::*;

verus! {

/// One play result as a client submits it.
pub struct ScoreRecord {
    pub song_token: String,
    pub song_hash: String,
    pub song_id: String,
    pub difficulty: i8,
    pub score: isize,
    pub shiny: isize,
    pub pure: isize,
    pub far: isize,
    pub lost: isize,
    pub health: i8,
    pub modifier: isize,
    pub beyond_gauge: i32,
    pub clear_type: i8,
}

/// The grade of a score: -1 (as `u8`, 255) below zero, then 0 up to 8,599,999,
/// and one more at each of 8,600,000, 8,900,000, 9,200,000, 9,500,000,
/// 9,800,000 and 9,900,000.
pub open spec fn grade_of(score: int) -> u8 {
    if score < 0 {
        255
    } else if score < 8_600_000 {
        0
    } else if score < 8_900_000 {
        1
    } else if score < 9_200_000 {
        2
    } else if score < 9_500_000 {
        3
    } else if score < 9_800_000 {
        4
    } else if score < 9_900_000 {
        5
    } else {
        6
    }
}

/// What a play result keeps of a record: all but the submission token, the
/// song hash and the beyond gauge.
pub open spec fn play_result_of(r: ScoreRecord) -> PlayResult {
    PlayResult {
        song_id: r.song_id,
        difficulty: r.difficulty,
        score: r.score,
        shiny: r.shiny,
        pure: r.pure,
        far: r.far,
        lost: r.lost,
        health: r.health,
        modifier: r.modifier,
        clear_type: r.clear_type,
    }
}

/// `r` is a record with empty submission token and song hash and no beyond
/// gauge, that holds the play result `p`.
pub open spec fn record_of_play(r: ScoreRecord, p: PlayResult) -> bool {
    &&& play_result_of(r) == p
    &&& r.song_token@.len() == 0
    &&& r.song_hash@.len() == 0
    &&& r.beyond_gauge == 0
}

/// The result of one play, as it is stored.
pub struct PlayResult {
    pub song_id: String,
    pub difficulty: i8,
    pub score: isize,
    pub shiny: isize,
    pub pure: isize,
    pub far: isize,
    pub lost: isize,
    pub health: i8,
    pub modifier: isize,
    pub clear_type: i8,
}

impl PlayResult {
    /// A copy of this result.
    pub fn duplicate(&self) -> (r: PlayResult)
        ensures
            r == *self,
    {
        PlayResult {
            song_id: self.song_id.clone(),
            difficulty: self.difficulty,
            score: self.score,
            shiny: self.shiny,
            pure: self.pure,
            far: self.far,
            lost: self.lost,
            health: self.health,
            modifier: self.modifier,
            clear_type: self.clear_type,
        }
    }

    /// The text that names this result's chart.
    pub fn chart_identifier(&self) -> (r: String)
        ensures
            r@ == chart_identifier_spec(self.song_id@, self.difficulty as int),
    {
        let mut r = self.song_id.clone();
        append_decimal(&mut r, self.difficulty as i64);
        r
    }

    /// A record that holds this result, with empty token and hash.
    pub fn to_record(&self) -> (r: ScoreRecord)
        ensures
            record_of_play(r, *self),
    {
        let mut r = ScoreRecord::new();
        r.song_id = self.song_id.clone();
        r.difficulty = self.difficulty;
        r.score = self.score;
        r.shiny = self.shiny;
        r.pure = self.pure;
        r.far = self.far;
        r.lost = self.lost;
        r.health = self.health;
        r.modifier = self.modifier;
        r.clear_type = self.clear_type;
        r
    }
}

/// The text that names a chart: the song id followed by the difficulty.
pub open spec fn chart_identifier_spec(song_id: Seq<char>, difficulty: int) -> Seq<char> {
    song_id + decimal(difficulty)
}

impl ScoreRecord {
    /// An empty record: empty texts and zero numbers.
    pub fn new() -> (r: ScoreRecord)
        ensures
            r.song_token@.len() == 0,
            r.song_hash@.len() == 0,
            r.song_id@.len() == 0,
            r.difficulty == 0,
            r.score == 0,
            r.shiny == 0,
            r.pure == 0,
            r.far == 0,
            r.lost == 0,
            r.health == 0,
            r.modifier == 0,
            r.beyond_gauge == 0,
            r.clear_type == 0,
    {
        ScoreRecord {
            song_hash: String::new(),
            song_token: String::new(),
            song_id: String::new(),
            difficulty: 0,
            score: 0,
            shiny: 0,
            pure: 0,
            far: 0,
            lost: 0,
            health: 0,
            modifier: 0,
            beyond_gauge: 0,
            clear_type: 0,
        }
    }

    /// A copy of this record.
    pub fn duplicate(&self) -> (r: ScoreRecord)
        ensures
            r == *self,
    {
        ScoreRecord {
            song_token: self.song_token.clone(),
            song_hash: self.song_hash.clone(),
            song_id: self.song_id.clone(),
            difficulty: self.difficulty,
            score: self.score,
            shiny: self.shiny,
            pure: self.pure,
            far: self.far,
            lost: self.lost,
            health: self.health,
            modifier: self.modifier,
            beyond_gauge: self.beyond_gauge,
            clear_type: self.clear_type,
        }
    }

    /// The grade of this record's score.
    pub fn score2grade(&self) -> (r: u8)
        ensures
            r == grade_of(self.score as int),
    {
        let steps: [isize; 7] = [0, 8_600_000, 8_900_000, 9_200_000, 9_500_000, 9_800_000, 9_900_000];
        let mut passed: usize = 0;
        while passed < 7 && self.score >= steps[passed]
            invariant
                passed <= 7,
                steps@ == seq![0isize, 8_600_000, 8_900_000, 9_200_000, 9_500_000, 9_800_000, 9_900_000],
                forall|k: int| 0 <= k < passed ==> self.score >= #[trigger] steps@[k],
            decreases 7 - passed,
        {
            passed += 1;
        }
        if passed == 0 {
            255
        } else {
            (passed - 1) as u8
        }
    }

    /// The play result that this record holds.
    pub fn play_result(&self) -> (r: PlayResult)
        ensures
            r == play_result_of(*self),
    {
        PlayResult {
            song_id: self.song_id.clone(),
            difficulty: self.difficulty,
            score: self.score,
            shiny: self.shiny,
            pure: self.pure,
            far: self.far,
            lost: self.lost,
            health: self.health,
            modifier: self.modifier,
            clear_type: self.clear_type,
        }
    }

    /// The text that names this record's chart.
    pub fn chart_identifier(&self) -> (r: String)
        ensures
            r@ == chart_identifier_spec(self.song_id@, self.difficulty as int),
    {
        let mut r = self.song_id.clone();
        append_decimal(&mut r, self.difficulty as i64);
        r
    }
}

/// Why a submission was refused.
#[derive(PartialEq, Eq, Structural, Clone, Copy, Debug)]
pub enum ScoreError {
    /// The chart has no base rating in the catalog.
    ChartNotFound,
    /// The player already has a play at the same time: retry the submission.
    StorageConflict,
    /// The storage behind the scores failed.
    StorageFailure,
}

/// A submission as stored: the play result, its rating and when it was
/// played, which is the event's key among the player's events.
pub struct ScoreEvent {
    pub play: PlayResult,
    pub rating: u64,
    pub played_at: i64,
}

/// Whether two play results are of the same chart.
pub open spec fn same_chart_play(a: PlayResult, b: PlayResult) -> bool {
    a.song_id@ == b.song_id@ && a.difficulty == b.difficulty
}

/// Whether two events are of the same chart.
pub open spec fn same_chart_event(a: ScoreEvent, b: ScoreEvent) -> bool {
    same_chart_play(a.play, b.play)
}

/// The pool entry that stands for an event.
pub open spec fn pool_entry_of(e: ScoreEvent) -> PoolEntry {
    PoolEntry {
        song_id: e.play.song_id,
        difficulty: e.play.difficulty,
        played_at: e.played_at,
        rating: e.rating,
    }
}

impl ScoreEvent {
    /// A copy of this event.
    pub fn duplicate(&self) -> (r: ScoreEvent)
        ensures
            r == *self,
    {
        ScoreEvent { play: self.play.duplicate(), rating: self.rating, played_at: self.played_at }
    }

    /// The pool entry that stands for this event.
    pub fn pool_entry(&self) -> (r: PoolEntry)
        ensures
            r == pool_entry_of(*self),
    {
        PoolEntry {
            song_id: self.play.song_id.clone(),
            difficulty: self.play.difficulty,
            played_at: self.played_at,
            rating: self.rating,
        }
    }
}

/// Position of the personal best of `s` on the chart of `p`, or -1.
pub open spec fn best_position(s: Seq<ScoreEvent>, p: PlayResult) -> int
    decreases s.len(),
{
    if s.len() == 0 {
        -1
    } else {
        let i = best_position(s.drop_last(), p);
        if i >= 0 {
            i
        } else if same_chart_play(s.last().play, p) {
            s.len() - 1
        } else {
            -1
        }
    }
}

/// The personal bests after event `e`, and whether `e` became the best of its
/// chart: it does when the chart has no best yet, or when it scores strictly
/// higher than the best; on an equal score the existing best stays.
pub open spec fn bests_after(s: Seq<ScoreEvent>, e: ScoreEvent) -> (Seq<ScoreEvent>, bool) {
    let i = best_position(s, e.play);
    if i < 0 {
        (s.push(e), true)
    } else if s[i].play.score < e.play.score {
        (s.update(i, e), true)
    } else {
        (s, false)
    }
}

/// No two personal bests are of the same chart.
pub open spec fn bests_unique(s: Seq<ScoreEvent>) -> bool {
    forall|i: int, j: int| 0 <= i < j < s.len() ==> !same_chart_event(s[i], s[j])
}

/// Every event of `s` has a possible play rating.
pub open spec fn event_ratings_bounded(s: Seq<ScoreEvent>) -> bool {
    forall|i: int| 0 <= i < s.len() ==> s[i].rating <= MAX_PLAY_RATING
}

pub proof fn lemma_best_position(s: Seq<ScoreEvent>, p: PlayResult)
    ensures
        -1 <= best_position(s, p) < s.len(),
        best_position(s, p) >= 0 ==> same_chart_play(s[best_position(s, p)].play, p),
        best_position(s, p) == -1 ==> forall|k: int| 0 <= k < s.len() ==> !same_chart_play(#[trigger] s[k].play, p),
    decreases s.len(),
{
    if s.len() > 0 {
        lemma_best_position(s.drop_last(), p);
        assert forall|k: int| 0 <= k < s.len() - 1 implies s[k] == s.drop_last()[k] by {}
    }
}

/// The personal bests keep one play per chart and possible ratings whatever
/// event is recorded.
pub proof fn lemma_bests_after_keeps_bounds(s: Seq<ScoreEvent>, e: ScoreEvent)
    requires
        bests_unique(s),
        event_ratings_bounded(s),
        e.rating <= MAX_PLAY_RATING,
    ensures
        bests_unique(bests_after(s, e).0),
        event_ratings_bounded(bests_after(s, e).0),
{
    lemma_best_position(s, e.play);
    let i = best_position(s, e.play);
    if i < 0 {
        let t = s.push(e);
        assert forall|a: int, b: int| 0 <= a < b < t.len() implies !same_chart_event(t[a], t[b]) by {
            if b == s.len() {
                assert(!same_chart_event(s[a], e));
            }
        }
    } else if s[i].play.score < e.play.score {
        let t = s.update(i, e);
        assert forall|a: int, b: int| 0 <= a < b < t.len() implies !same_chart_event(t[a], t[b]) by {
            assert(!same_chart_event(s[a], s[b]));
            if a == i {
                assert(!same_chart_event(s[i], s[b]));
            } else if b == i {
                assert(!same_chart_event(s[a], s[i]));
            }
        }
    }
}

/// Finds the personal best of `s` on the chart of `p`.
pub fn find_best(s: &Vec<ScoreEvent>, p: &PlayResult) -> (r: Option<usize>)
    ensures
        match r {
            Some(i) => i as int == best_position(s@, *p) && i < s.len(),
            None => best_position(s@, *p) == -1,
        },
{
    let mut found: Option<usize> = None;
    let mut j: usize = 0;
    while j < s.len()
        invariant
            j <= s.len(),
            match found {
                Some(i) => i as int == best_position(s@.subrange(0, j as int), *p) && i < j,
                None => best_position(s@.subrange(0, j as int), *p) == -1,
            },
        decreases s.len() - j,
    {
        assert(s@.subrange(0, j + 1).drop_last() =~= s@.subrange(0, j as int));
        if found.is_none() && s[j].play.difficulty == p.difficulty && s[j].play.song_id == p.song_id {
            found = Some(j);
        }
        j += 1;
    }
    assert(s@.subrange(0, s.len() as int) =~= s@);
    found
}

/// Records event `e` among the personal bests `bests`; returns whether it
/// became the best of its chart.
pub fn update_best(bests: &mut Vec<ScoreEvent>, e: ScoreEvent) -> (r: bool)
    ensures
        (final(bests)@, r) == bests_after(old(bests)@, e),
{
    match find_best(bests, &e.play) {
        None => {
            bests.push(e);
            true
        },
        Some(i) => {
            if bests[i].play.score < e.play.score {
                bests.set(i, e);
                true
            } else {
                false
            }
        },
    }
}

} // verus!

//! The score page of a player: personal bests with song titles and base
//! ratings, highest rated first.
use crate::data_access::{catalog_lookup, player_bests, player_views, ChartRating, DBAccessManager};
use crate::dlc::{find_key, key_position, lemma_key_position};
use crate::rating::{lemma_max_position_in_range, max_position};
use crate::score::ScoreEvent;
use vstd::prelude::*;

verus! {

/// Most entries a score page shows.
pub const LOOKUP_LIMIT: usize = 60;

/// One personal best as a score page shows it.
pub struct LookupedScore {
    pub title: String,
    pub difficulty: i8,
    pub score: isize,
    pub shiny: isize,
    pub pure: isize,
    pub far: isize,
    pub lost: isize,
    pub clear_type: i8,
    pub rating: u64,
    pub base_rating: u32,
    pub played_date: i64,
}

/// The name of a clear type.
pub open spec fn clear_type_name(clear_type: int) -> Seq<char> {
    if clear_type == 0 {
        "track-lost"@
    } else if clear_type == 1 {
        "normal-clear"@
    } else if clear_type == 2 {
        "full-recall"@
    } else if clear_type == 3 {
        "pure-memory"@
    } else if clear_type == 4 {
        "easy-clear"@
    } else {
        "hard-clear"@
    }
}

/// The name of a difficulty.
pub open spec fn difficulty_name(difficulty: int) -> Seq<char> {
    if difficulty == 0 {
        "PST"@
    } else if difficulty == 1 {
        "PRS"@
    } else if difficulty == 2 {
        "FTR"@
    } else {
        "BYD"@
    }
}

impl LookupedScore {
    /// The name of a clear type, from 0 (track lost) to 5 (hard clear).
    pub fn get_clear_type(clear_type: i8) -> (r: &'static str)
        requires
            0 <= clear_type < 6,
        ensures
            r@ == clear_type_name(clear_type as int),
    {
        if clear_type == 0 {
            proof { reveal_strlit("track-lost"); }
            "track-lost"
        } else if clear_type == 1 {
            proof { reveal_strlit("normal-clear"); }
            "normal-clear"
        } else if clear_type == 2 {
            proof { reveal_strlit("full-recall"); }
            "full-recall"
        } else if clear_type == 3 {
            proof { reveal_strlit("pure-memory"); }
            "pure-memory"
        } else if clear_type == 4 {
            proof { reveal_strlit("easy-clear"); }
            "easy-clear"
        } else {
            proof { reveal_strlit("hard-clear"); }
            "hard-clear"
        }
    }

    /// The name of a difficulty, from 0 (PST) to 3 (BYD).
    pub fn get_diff_str(difficulty: i8) -> (r: &'static str)
        requires
            0 <= difficulty < 4,
        ensures
            r@ == difficulty_name(difficulty as int),
    {
        if difficulty == 0 {
            proof { reveal_strlit("PST"); }
            "PST"
        } else if difficulty == 1 {
            proof { reveal_strlit("PRS"); }
            "PRS"
        } else if difficulty == 2 {
            proof { reveal_strlit("FTR"); }
            "FTR"
        } else {
            proof { reveal_strlit("BYD"); }
            "BYD"
        }
    }
}

/// The keys of a list of song titles.
pub open spec fn title_keys(titles: Seq<(String, String)>) -> Seq<(Seq<char>, ())> {
    titles.map_values(|t: (String, String)| (t.0@, ()))
}

/// The page entry of a personal best, with its song's title and its chart's
/// base rating.
pub open spec fn lookup_of(e: ScoreEvent, title: String, base_rating: u32) -> LookupedScore {
    LookupedScore {
        title,
        difficulty: e.play.difficulty,
        score: e.play.score,
        shiny: e.play.shiny,
        pure: e.play.pure,
        far: e.play.far,
        lost: e.play.lost,
        clear_type: e.play.clear_type,
        rating: e.rating,
        base_rating,
        played_date: e.played_at,
    }
}

/// The page entries of the personal bests `s` whose song has a title and
/// whose chart has a base rating, in order; the others are left out.
pub open spec fn joined(s: Seq<ScoreEvent>, titles: Seq<(String, String)>, charts: Seq<ChartRating>) -> Seq<LookupedScore>
    decreases s.len(),
{
    if s.len() == 0 {
        seq![]
    } else {
        let prev = joined(s.drop_last(), titles, charts);
        let e = s.last();
        let t = key_position(title_keys(titles), e.play.song_id@);
        match catalog_lookup(charts, e.play.song_id@, e.play.difficulty) {
            Some(base) => if 0 <= t < titles.len() {
                prev.push(lookup_of(e, titles[t].1, base))
            } else {
                prev
            },
            None => prev,
        }
    }
}

/// The ratings of page entries.
pub open spec fn lookup_ratings(s: Seq<LookupedScore>) -> Seq<u64> {
    s.map_values(|l: LookupedScore| l.rating)
}

/// The `k` highest-rated entries of `s`, highest first (the first one of
/// equal ratings first).
pub open spec fn top_rated(s: Seq<LookupedScore>, k: nat) -> Seq<LookupedScore>
    decreases k,
{
    if k == 0 || s.len() == 0 {
        seq![]
    } else {
        let i = max_position(lookup_ratings(s));
        seq![s[i]] + top_rated(s.remove(i), (k - 1) as nat)
    }
}

/// Finds the position of the highest-rated entry, the first one on ties.
fn find_top(v: &Vec<LookupedScore>) -> (i: usize)
    requires
        v.len() > 0,
    ensures
        i as int == max_position(lookup_ratings(v@)),
        i < v.len(),
{
    let ghost ratings = lookup_ratings(v@);
    let mut best: usize = 0;
    let mut j: usize = 1;
    while j < v.len()
        invariant
            1 <= j <= v.len(),
            best < j,
            ratings == lookup_ratings(v@),
            best as int == max_position(ratings.subrange(0, j as int)),
        decreases v.len() - j,
    {
        assert(ratings.subrange(0, j + 1).drop_last() =~= ratings.subrange(0, j as int));
        if v[j].rating > v[best].rating {
            best = j;
        }
        j += 1;
    }
    assert(ratings.subrange(0, v.len() as int) =~= ratings);
    best
}

/// The `k` highest-rated entries of `entries`, highest first.
pub fn take_top_rated(entries: Vec<LookupedScore>, k: usize) -> (r: Vec<LookupedScore>)
    ensures
        r@ == top_rated(entries@, k as nat),
{
    let ghost all = entries@;
    let mut rest = entries;
    let mut out: Vec<LookupedScore> = Vec::new();
    let mut taken: usize = 0;
    while taken < k && rest.len() > 0
        invariant
            taken <= k,
            out@ + top_rated(rest@, (k - taken) as nat) == top_rated(all, k as nat),
        decreases k - taken,
    {
        let i = find_top(&rest);
        proof {
            lemma_max_position_in_range(lookup_ratings(rest@));
        }
        let ghost before = rest@;
        let x = rest.remove(i);
        let ghost out0 = out@;
        out.push(x);
        assert(out@ + top_rated(rest@, (k - taken - 1) as nat) =~= out0 + top_rated(before, (k - taken) as nat));
        taken = taken + 1;
    }
    assert(out@ + top_rated(rest@, (k - taken) as nat) =~= out@);
    out
}

/// The score page of user `user_id`: the personal bests whose song has a
/// title in `titles` and whose chart has a base rating, the sixty highest
/// rated, highest first.
pub fn score_lookup(conn: &DBAccessManager, user_id: isize, titles: &Vec<(String, String)>) -> (r: Vec<LookupedScore>)
    ensures
        r@ == top_rated(
            joined(player_bests(player_views(conn.players@), user_id), titles@, conn.catalog.charts@),
            LOOKUP_LIMIT as nat,
        ),
{
    let ghost bests = player_bests(player_views(conn.players@), user_id);
    let mut entries: Vec<LookupedScore> = Vec::new();
    match crate::data_access::find_player(&conn.players, user_id) {
        None => {
            assert(joined(bests, titles@, conn.catalog.charts@) =~= seq![]);
        },
        Some(p) => {
            let list = &conn.players[p].bests;
            assert(list@ == bests);
            let mut i: usize = 0;
            while i < list.len()
                invariant
                    i <= list.len(),
                    list@ == bests,
                    entries@ == joined(bests.subrange(0, i as int), titles@, conn.catalog.charts@),
                decreases list.len() - i,
            {
                assert(bests.subrange(0, i + 1).drop_last() =~= bests.subrange(0, i as int));
                let e = &list[i];
                let base = conn.catalog.base_rating(&e.play.song_id, e.play.difficulty);
                let t = find_key(titles, &e.play.song_id);
                proof {
                    lemma_key_position(title_keys(titles@), e.play.song_id@);
                    assert(titles@.map_values(|t: (String, String)| (t.0@, ())) == title_keys(titles@));
                }
                match base {
                    Some(b) => match t {
                        Some(k) => {
                            entries.push(
                                LookupedScore {
                                    title: titles[k].1.clone(),
                                    difficulty: e.play.difficulty,
                                    score: e.play.score,
                                    shiny: e.play.shiny,
                                    pure: e.play.pure,
                                    far: e.play.far,
                                    lost: e.play.lost,
                                    clear_type: e.play.clear_type,
                                    rating: e.rating,
                                    base_rating: b,
                                    played_date: e.played_at,
                                },
                            );
                        },
                        None => {},
                    },
                    None => {},
                }
                i += 1;
            }
            assert(bests.subrange(0, list.len() as int) =~= bests);
        },
    }
    take_top_rated(entries, LOOKUP_LIMIT)
}

} // verus!

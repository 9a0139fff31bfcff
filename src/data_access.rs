//! The score data of all players loaded for a request, with the chart catalog
//! that plays are rated against, and the operations on it.
use crate::score::{chart_identifier_spec, play_result_of, record_of_play, PlayResult, ScoreError, ScoreRecord};
use crate::store::{fresh_player, player_wf, submission, PlayerScores, PlayerView};
use vstd::prelude::*;

verus! {

/// The base rating of one chart, in hundredths.
pub struct ChartRating {
    pub song_id: String,
    pub difficulty: i8,
    pub base_rating: u32,
}

/// Position of the first chart of `s` with this song id and difficulty, or -1.
pub open spec fn catalog_position(s: Seq<ChartRating>, song_id: Seq<char>, difficulty: i8) -> int
    decreases s.len(),
{
    if s.len() == 0 {
        -1
    } else {
        let i = catalog_position(s.drop_last(), song_id, difficulty);
        if i >= 0 {
            i
        } else if s.last().song_id@ == song_id && s.last().difficulty == difficulty {
            s.len() - 1
        } else {
            -1
        }
    }
}

/// The base rating of a chart, when the catalog has it.
pub open spec fn catalog_lookup(s: Seq<ChartRating>, song_id: Seq<char>, difficulty: i8) -> Option<u32> {
    let i = catalog_position(s, song_id, difficulty);
    if 0 <= i < s.len() {
        Some(s[i].base_rating)
    } else {
        None
    }
}

/// The charts that can be rated, with their base ratings.
pub struct ChartCatalog {
    pub charts: Vec<ChartRating>,
}

impl ChartCatalog {
    /// A catalog without charts.
    pub fn new() -> (r: ChartCatalog)
        ensures
            r.charts@.len() == 0,
    {
        ChartCatalog { charts: Vec::new() }
    }

    /// Adds a chart; a chart already present keeps its first base rating.
    pub fn add(&mut self, song_id: String, difficulty: i8, base_rating: u32)
        ensures
            final(self).charts@ == old(self).charts@.push(ChartRating { song_id, difficulty, base_rating }),
    {
        self.charts.push(ChartRating { song_id, difficulty, base_rating });
    }

    /// The base rating of a chart, in hundredths, when the catalog has it.
    pub fn base_rating(&self, song_id: &String, difficulty: i8) -> (r: Option<u32>)
        ensures
            r == catalog_lookup(self.charts@, song_id@, difficulty),
    {
        let mut j: usize = 0;
        while j < self.charts.len()
            invariant
                j <= self.charts.len(),
                catalog_position(self.charts@.subrange(0, j as int), song_id@, difficulty) == -1,
            decreases self.charts.len() - j,
        {
            assert(self.charts@.subrange(0, j + 1).drop_last() =~= self.charts@.subrange(0, j as int));
            if self.charts[j].difficulty == difficulty && self.charts[j].song_id == *song_id {
                proof {
                    lemma_catalog_prefix(self.charts@, song_id@, difficulty, j as int + 1);
                }
                return Some(self.charts[j].base_rating);
            }
            j += 1;
        }
        assert(self.charts@.subrange(0, self.charts.len() as int) =~= self.charts@);
        None
    }
}

/// A match found in a prefix is the first match of the whole catalog.
proof fn lemma_catalog_prefix(s: Seq<ChartRating>, song_id: Seq<char>, difficulty: i8, n: int)
    requires
        0 <= n <= s.len(),
        catalog_position(s.subrange(0, n), song_id, difficulty) >= 0,
    ensures
        catalog_position(s, song_id, difficulty) == catalog_position(s.subrange(0, n), song_id, difficulty),
    decreases s.len(),
{
    if n == s.len() {
        assert(s.subrange(0, n) =~= s);
    } else {
        assert(s.drop_last().subrange(0, n) =~= s.subrange(0, n));
        lemma_catalog_prefix(s.drop_last(), song_id, difficulty, n);
    }
}

/// The views of a sequence of players.
pub open spec fn player_views(s: Seq<PlayerScores>) -> Seq<PlayerView> {
    s.map_values(|p: PlayerScores| p@)
}

/// Position of the first player of `s` with this id, or -1.
pub open spec fn player_position(s: Seq<PlayerView>, user_id: isize) -> int
    decreases s.len(),
{
    if s.len() == 0 {
        -1
    } else {
        let i = player_position(s.drop_last(), user_id);
        if i >= 0 {
            i
        } else if s.last().user_id == user_id {
            s.len() - 1
        } else {
            -1
        }
    }
}

pub proof fn lemma_player_position(s: Seq<PlayerView>, user_id: isize)
    ensures
        -1 <= player_position(s, user_id) < s.len(),
        player_position(s, user_id) >= 0 ==> s[player_position(s, user_id)].user_id == user_id,
    decreases s.len(),
{
    if s.len() > 0 {
        lemma_player_position(s.drop_last(), user_id);
    }
}

/// The players' data after user `user_id` submits `rec` played at `at`, and the
/// answer: refused with `ChartNotFound`, and nothing changed, when the catalog
/// has no base rating for the chart; else the submission of the player with
/// that id, or of a new player when there is none.
pub open spec fn upload(
    players: Seq<PlayerView>,
    charts: Seq<ChartRating>,
    rec: PlayResult,
    user_id: isize,
    at: i64,
) -> (Seq<PlayerView>, Result<u64, ScoreError>) {
    match catalog_lookup(charts, rec.song_id@, rec.difficulty) {
        None => (players, Err(ScoreError::ChartNotFound)),
        Some(base) => {
            let p = player_position(players, user_id);
            if p >= 0 {
                let (np, r) = submission(players[p], rec, base, at);
                (players.update(p, np), r)
            } else {
                let (np, r) = submission(fresh_player(user_id), rec, base, at);
                (players.push(np), r)
            }
        },
    }
}

/// A refused submission changes nothing: the players' data is left exactly as
/// it was.
pub proof fn lemma_refused_upload_changes_nothing(
    players: Seq<PlayerView>,
    charts: Seq<ChartRating>,
    rec: PlayResult,
    user_id: isize,
    at: i64,
)
    ensures
        upload(players, charts, rec, user_id, at).1 is Err ==> upload(players, charts, rec, user_id, at).0 == players,
{
    if let Some(base) = catalog_lookup(charts, rec.song_id@, rec.difficulty) {
        let p = player_position(players, user_id);
        if p >= 0 {
            lemma_player_position(players, user_id);
            if submission(players[p], rec, base, at).1 is Err {
                assert(players.update(p, players[p]) =~= players);
            }
        } else {
            assert(!crate::store::has_event_at(fresh_player(user_id).events, at));
        }
    }
}

/// The players' score data and the chart catalog.
pub struct DBAccessManager {
    pub catalog: ChartCatalog,
    pub players: Vec<PlayerScores>,
}

/// Finds the first player with this id.
pub fn find_player(players: &Vec<PlayerScores>, user_id: isize) -> (r: Option<usize>)
    ensures
        match r {
            Some(i) => i as int == player_position(player_views(players@), user_id) && i < players.len(),
            None => player_position(player_views(players@), user_id) == -1,
        },
{
    let ghost views = player_views(players@);
    let mut j: usize = 0;
    while j < players.len()
        invariant
            j <= players.len(),
            views == player_views(players@),
            player_position(views.subrange(0, j as int), user_id) == -1,
        decreases players.len() - j,
    {
        assert(views.subrange(0, j + 1).drop_last() =~= views.subrange(0, j as int));
        if players[j].user_id == user_id {
            proof {
                lemma_player_prefix(views, user_id, j as int + 1);
            }
            return Some(j);
        }
        j += 1;
    }
    assert(views.subrange(0, players.len() as int) =~= views);
    None
}

/// A match found in a prefix is the first match of the whole sequence.
proof fn lemma_player_prefix(s: Seq<PlayerView>, user_id: isize, n: int)
    requires
        0 <= n <= s.len(),
        player_position(s.subrange(0, n), user_id) >= 0,
    ensures
        player_position(s, user_id) == player_position(s.subrange(0, n), user_id),
    decreases s.len(),
{
    if n == s.len() {
        assert(s.subrange(0, n) =~= s);
    } else {
        assert(s.drop_last().subrange(0, n) =~= s.subrange(0, n));
        lemma_player_prefix(s.drop_last(), user_id, n);
    }
}

impl DBAccessManager {
    pub open spec fn wf(&self) -> bool {
        forall|i: int| 0 <= i < self.players@.len() ==> #[trigger] player_wf(self.players@[i]@)
    }

    /// A manager over this catalog, with no player data loaded.
    pub fn new(catalog: ChartCatalog) -> (r: DBAccessManager)
        ensures
            r.catalog == catalog,
            r.players@.len() == 0,
            r.wf(),
    {
        DBAccessManager { catalog, players: Vec::new() }
    }

    /// Adds the data of a player, as loaded from storage.
    pub fn load_player(&mut self, player: PlayerScores)
        requires
            old(self).wf(),
            player.wf(),
        ensures
            final(self).wf(),
            final(self).catalog == old(self).catalog,
            final(self).players@ == old(self).players@.push(player),
    {
        self.players.push(player);
    }

    /// The token that a client must present with its next score submission.
    pub fn gen_score_token(&self) -> (r: String)
        ensures
            r@ == "nothing"@,
    {
        String::from_str("nothing")
    }

    /// Submits a play for user `user_id`; see `upload`.
    pub fn score_upload(&mut self, score: &ScoreRecord, user_id: isize, played_at: i64) -> (r: Result<u64, ScoreError>)
        requires
            old(self).wf(),
        ensures
            final(self).wf(),
            final(self).catalog == old(self).catalog,
            (player_views(final(self).players@), r) == upload(
                player_views(old(self).players@),
                old(self).catalog.charts@,
                play_result_of(*score),
                user_id,
                played_at,
            ),
    {
        score_upload(self, score, user_id, played_at)
    }

    /// The personal bests of user `user_id`, each as its chart's identifier and score.
    pub fn get_best_scores_with_iden(&self, user_id: isize) -> (r: Vec<(String, isize)>)
        ensures
            best_scores_with_iden(player_views(self.players@), user_id, r@),
    {
        get_best_scores_with_iden(self, user_id)
    }

    /// The personal bests of user `user_id`, each as a record and the time it was played.
    pub fn get_all_best_scores(&self, user_id: isize) -> (r: Vec<(ScoreRecord, i64)>)
        ensures
            all_best_scores(player_views(self.players@), user_id, r@),
    {
        get_all_best_scores(self, user_id)
    }
}

/// Submits a play for user `user_id`; see `upload`.
pub fn score_upload(conn: &mut DBAccessManager, score_record: &ScoreRecord, user_id: isize, played_at: i64) -> (r: Result<u64, ScoreError>)
    requires
        old(conn).wf(),
    ensures
        final(conn).wf(),
        final(conn).catalog == old(conn).catalog,
        (player_views(final(conn).players@), r) == upload(
            player_views(old(conn).players@),
            old(conn).catalog.charts@,
            play_result_of(*score_record),
            user_id,
            played_at,
        ),
{
    upload_play(conn, &score_record.play_result(), user_id, played_at)
}

/// Submits the play result `play` for user `user_id`; see `upload`.
pub fn upload_play(conn: &mut DBAccessManager, play: &PlayResult, user_id: isize, played_at: i64) -> (r: Result<u64, ScoreError>)
    requires
        old(conn).wf(),
    ensures
        final(conn).wf(),
        final(conn).catalog == old(conn).catalog,
        (player_views(final(conn).players@), r) == upload(
            player_views(old(conn).players@),
            old(conn).catalog.charts@,
            *play,
            user_id,
            played_at,
        ),
{
    let base = match conn.catalog.base_rating(&play.song_id, play.difficulty) {
        Some(b) => b,
        None => {
            return Err(ScoreError::ChartNotFound);
        },
    };
    let ghost old_views = player_views(conn.players@);
    match find_player(&conn.players, user_id) {
        Some(p) => {
            let mut player = conn.players.remove(p);
            assert(player@ == old_views[p as int]);
            let r = player.submit(play, base, played_at);
            conn.players.insert(p, player);
            assert(player_views(conn.players@) =~= old_views.update(p as int, player@));
            r
        },
        None => {
            let mut player = PlayerScores::new(user_id);
            let r = player.submit(play, base, played_at);
            conn.players.push(player);
            assert(player_views(conn.players@) =~= old_views.push(player@));
            r
        },
    }
}

/// The personal bests of user `user_id`, none when no player has that id.
pub open spec fn player_bests(players: Seq<PlayerView>, user_id: isize) -> Seq<crate::score::ScoreEvent> {
    let p = player_position(players, user_id);
    if p < 0 {
        seq![]
    } else {
        players[p].bests
    }
}

/// `r` lists the personal bests of user `user_id` (none when no player has
/// that id), each as its chart's identifier and its score.
pub open spec fn best_scores_with_iden(players: Seq<PlayerView>, user_id: isize, r: Seq<(String, isize)>) -> bool {
    let p = player_position(players, user_id);
    if p < 0 {
        r.len() == 0
    } else {
        &&& r.len() == players[p].bests.len()
        &&& forall|i: int|
            0 <= i < r.len() ==> (#[trigger] r[i]).0@ == chart_identifier_spec(
                players[p].bests[i].play.song_id@,
                players[p].bests[i].play.difficulty as int,
            ) && r[i].1 == players[p].bests[i].play.score
    }
}

/// `r` lists the personal bests of user `user_id` (none when no player has
/// that id), each as a record and the time it was played.
pub open spec fn all_best_scores(players: Seq<PlayerView>, user_id: isize, r: Seq<(ScoreRecord, i64)>) -> bool {
    let bests = player_bests(players, user_id);
    &&& r.len() == bests.len()
    &&& forall|i: int| 0 <= i < r.len() ==> record_of_play((#[trigger] r[i]).0, bests[i].play) && r[i].1 == bests[i].played_at
}

/// The personal bests of user `user_id`, each as its chart's identifier and score.
pub fn get_best_scores_with_iden(conn: &DBAccessManager, user_id: isize) -> (r: Vec<(String, isize)>)
    ensures
        best_scores_with_iden(player_views(conn.players@), user_id, r@),
{
    let mut scores: Vec<(String, isize)> = Vec::new();
    match find_player(&conn.players, user_id) {
        None => {},
        Some(p) => {
            let bests = &conn.players[p].bests;
            let mut i: usize = 0;
            while i < bests.len()
                invariant
                    i <= bests.len(),
                    scores@.len() == i,
                    forall|k: int|
                        0 <= k < i ==> (#[trigger] scores@[k]).0@ == chart_identifier_spec(
                            bests@[k].play.song_id@,
                            bests@[k].play.difficulty as int,
                        ) && scores@[k].1 == bests@[k].play.score,
                decreases bests.len() - i,
            {
                let iden = bests[i].play.chart_identifier();
                scores.push((iden, bests[i].play.score));
                i += 1;
            }
        },
    }
    scores
}

/// The personal bests of user `user_id`, each as a record and the time it was played.
pub fn get_all_best_scores(conn: &DBAccessManager, user_id: isize) -> (r: Vec<(ScoreRecord, i64)>)
    ensures
        all_best_scores(player_views(conn.players@), user_id, r@),
{
    let mut records: Vec<(ScoreRecord, i64)> = Vec::new();
    match find_player(&conn.players, user_id) {
        None => {},
        Some(p) => {
            let bests = &conn.players[p].bests;
            let mut i: usize = 0;
            while i < bests.len()
                invariant
                    i <= bests.len(),
                    records@.len() == i,
                    forall|k: int|
                        0 <= k < i ==> record_of_play((#[trigger] records@[k]).0, bests@[k].play)
                            && records@[k].1 == bests@[k].played_at,
                decreases bests.len() - i,
            {
                records.push((bests[i].play.to_record(), bests[i].played_at));
                i += 1;
            }
        },
    }
    records
}

} // verus!

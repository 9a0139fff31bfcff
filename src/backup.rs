//! Backups of a player's scores: what a backup lists of the personal bests,
//! and the restore of scores from a backup.
use crate::data_access::{
    all_best_scores, get_all_best_scores, player_bests, player_views, upload, upload_play, ChartRating,
    DBAccessManager,
};
use crate::score::{best_position, find_best, grade_of, play_result_of, PlayResult, ScoreError, ScoreEvent, ScoreRecord};
use crate::store::PlayerView;
use vstd::prelude::*;

verus! {

/// One score of a backup.
pub struct ScoreData {
    pub song_id: String,
    pub version: isize,
    pub difficulty: i8,
    pub score: isize,
    pub shiny: isize,
    pub pure: isize,
    pub far: isize,
    pub lost: isize,
    pub health: i8,
    pub modifier: isize,
    pub time_played: i64,
    pub ct: isize,
}

/// The clear type of one chart in a backup.
pub struct ClearLampData {
    pub song_id: String,
    pub difficulty: i8,
    pub clear_type: i8,
    pub ct: isize,
}

/// The grade of one chart in a backup.
pub struct ClearedSongData {
    pub song_id: String,
    pub difficulty: i8,
    pub grade: u8,
}

/// One unlock in a backup.
pub struct UnlocklistData {
    pub unlock_key: String,
    pub complete: isize,
}

/// One story entry in a backup.
pub struct StoryData {
    pub ma: isize,
    pub mi: isize,
    pub c: bool,
    pub r: bool,
}

/// The backup entry of a score played at `time`.
pub open spec fn score_data_of(rec: PlayResult, time: i64) -> ScoreData {
    ScoreData {
        song_id: rec.song_id,
        version: 1,
        difficulty: rec.difficulty,
        score: rec.score,
        shiny: rec.shiny,
        pure: rec.pure,
        far: rec.far,
        lost: rec.lost,
        health: rec.health,
        modifier: rec.modifier,
        time_played: time,
        ct: 0,
    }
}

/// The backup clear-type entry of a score.
pub open spec fn clear_lamp_of(rec: PlayResult) -> ClearLampData {
    ClearLampData { song_id: rec.song_id, difficulty: rec.difficulty, clear_type: rec.clear_type, ct: 0 }
}

/// The backup grade entry of a score.
pub open spec fn cleared_song_of(rec: PlayResult) -> ClearedSongData {
    ClearedSongData { song_id: rec.song_id, difficulty: rec.difficulty, grade: grade_of(rec.score as int) }
}

/// The play result that a backup score restores, with clear type `clear_type`.
pub open spec fn restored_play(d: ScoreData, clear_type: i8) -> PlayResult {
    PlayResult {
        song_id: d.song_id,
        difficulty: d.difficulty,
        score: d.score,
        shiny: d.shiny,
        pure: d.pure,
        far: d.far,
        lost: d.lost,
        health: d.health,
        modifier: d.modifier,
        clear_type,
    }
}

/// `p` with clear type `clear_type`.
pub open spec fn with_clear_type(p: PlayResult, clear_type: i8) -> PlayResult {
    PlayResult {
        song_id: p.song_id,
        difficulty: p.difficulty,
        score: p.score,
        shiny: p.shiny,
        pure: p.pure,
        far: p.far,
        lost: p.lost,
        health: p.health,
        modifier: p.modifier,
        clear_type,
    }
}

/// Position of the first received play of `s` on this chart, or -1.
pub open spec fn received_position(s: Seq<(PlayResult, i64)>, song_id: Seq<char>, difficulty: i8) -> int
    decreases s.len(),
{
    if s.len() == 0 {
        -1
    } else {
        let i = received_position(s.drop_last(), song_id, difficulty);
        if i >= 0 {
            i
        } else if s.last().0.song_id@ == song_id && s.last().0.difficulty == difficulty {
            s.len() - 1
        } else {
            -1
        }
    }
}

/// The plays that the scores of a backup restore, one per chart in the order
/// the charts first appear, each with the last score given for its chart and
/// no clear type yet.
pub open spec fn received_scores(scores: Seq<ScoreData>) -> Seq<(PlayResult, i64)>
    decreases scores.len(),
{
    if scores.len() == 0 {
        seq![]
    } else {
        let prev = received_scores(scores.drop_last());
        let d = scores.last();
        let i = received_position(prev, d.song_id@, d.difficulty);
        if i >= 0 {
            prev.update(i, (restored_play(d, 0), d.time_played))
        } else {
            prev.push((restored_play(d, 0), d.time_played))
        }
    }
}

/// The received plays with the clear types of a backup applied, each lamp to
/// the play of its chart, when there is one.
pub open spec fn with_lamps(s: Seq<(PlayResult, i64)>, lamps: Seq<ClearLampData>) -> Seq<(PlayResult, i64)>
    decreases lamps.len(),
{
    if lamps.len() == 0 {
        s
    } else {
        let prev = with_lamps(s, lamps.drop_last());
        let l = lamps.last();
        let i = received_position(prev, l.song_id@, l.difficulty);
        if i >= 0 {
            prev.update(i, (with_clear_type(prev[i].0, l.clear_type), prev[i].1))
        } else {
            prev
        }
    }
}

/// The players' data after the received plays `recs` of user `user_id` are
/// restored in order, and whether any was accepted: a play is submitted when
/// its chart has no personal best or it beats the best. A refused play on a
/// chart with a best ends the restore with that error; one on a chart without
/// a best is skipped.
pub open spec fn restore(
    players: Seq<PlayerView>,
    charts: Seq<ChartRating>,
    recs: Seq<(PlayResult, i64)>,
    user_id: isize,
    updated: bool,
) -> (Seq<PlayerView>, Result<bool, ScoreError>)
    decreases recs.len(),
{
    if recs.len() == 0 {
        (players, Ok(updated))
    } else {
        let play = recs[0].0;
        let at = recs[0].1;
        let rest = recs.subrange(1, recs.len() as int);
        let bests = player_bests(players, user_id);
        let b = best_position(bests, play);
        if 0 <= b < bests.len() {
            if bests[b].play.score < play.score {
                let (after, r) = upload(players, charts, play, user_id, at);
                match r {
                    Ok(_) => restore(after, charts, rest, user_id, true),
                    Err(e) => (after, Err(e)),
                }
            } else {
                restore(players, charts, rest, user_id, updated)
            }
        } else {
            let (after, r) = upload(players, charts, play, user_id, at);
            restore(after, charts, rest, user_id, updated || r is Ok)
        }
    }
}

/// Finds the first received play on this chart.
fn find_received(s: &Vec<(PlayResult, i64)>, song_id: &String, difficulty: i8) -> (r: Option<usize>)
    ensures
        match r {
            Some(i) => i as int == received_position(s@, song_id@, difficulty) && i < s.len(),
            None => received_position(s@, song_id@, difficulty) == -1,
        },
{
    let mut found: Option<usize> = None;
    let mut j: usize = 0;
    while j < s.len()
        invariant
            j <= s.len(),
            match found {
                Some(i) => i as int == received_position(s@.subrange(0, j as int), song_id@, difficulty) && i < j,
                None => received_position(s@.subrange(0, j as int), song_id@, difficulty) == -1,
            },
        decreases s.len() - j,
    {
        assert(s@.subrange(0, j + 1).drop_last() =~= s@.subrange(0, j as int));
        if found.is_none() && s[j].0.difficulty == difficulty && s[j].0.song_id == *song_id {
            found = Some(j);
        }
        j += 1;
    }
    assert(s@.subrange(0, s.len() as int) =~= s@);
    found
}

impl ScoreData {
    /// The play result that this score restores, with clear type `clear_type`.
    pub fn restored(&self, clear_type: i8) -> (r: PlayResult)
        ensures
            r == restored_play(*self, clear_type),
    {
        PlayResult {
            song_id: self.song_id.clone(),
            difficulty: self.difficulty,
            score: self.score,
            shiny: self.shiny,
            pure: self.pure,
            far: self.far,
            lost: self.lost,
            health: self.health,
            modifier: self.modifier,
            clear_type,
        }
    }
}

/// The personal best score of user `user_id` on the chart of `play`.
fn best_score_for(conn: &DBAccessManager, user_id: isize, play: &PlayResult) -> (r: Option<isize>)
    ensures
        ({
            let bests = player_bests(player_views(conn.players@), user_id);
            let b = best_position(bests, *play);
            match r {
                Some(s) => 0 <= b < bests.len() && s == bests[b].play.score,
                None => !(0 <= b < bests.len()),
            }
        }),
{
    let ghost views = player_views(conn.players@);
    match crate::data_access::find_player(&conn.players, user_id) {
        None => None,
        Some(p) => {
            assert(conn.players@[p as int].bests@ == player_bests(views, user_id));
            match find_best(&conn.players[p].bests, play) {
                None => None,
                Some(b) => Some(conn.players[p].bests[b].play.score),
            }
        },
    }
}

impl ScoreData {
    /// The backup entry of `record` played at `time`.
    pub fn from_record_time(record: &ScoreRecord, time: i64) -> (r: ScoreData)
        ensures
            r == score_data_of(play_result_of(*record), time),
    {
        ScoreData {
            song_id: record.song_id.clone(),
            version: 1,
            difficulty: record.difficulty,
            score: record.score,
            shiny: record.shiny,
            pure: record.pure,
            far: record.far,
            lost: record.lost,
            health: record.health,
            modifier: record.modifier,
            time_played: time,
            ct: 0,
        }
    }
}

impl ClearLampData {
    /// The clear-type entry of `record`.
    pub fn from_record(record: &ScoreRecord) -> (r: ClearLampData)
        ensures
            r == clear_lamp_of(play_result_of(*record)),
    {
        ClearLampData { song_id: record.song_id.clone(), difficulty: record.difficulty, clear_type: record.clear_type, ct: 0 }
    }
}

impl ClearedSongData {
    /// The grade entry of `record`.
    pub fn from_record(record: &ScoreRecord) -> (r: ClearedSongData)
        ensures
            r == cleared_song_of(play_result_of(*record)),
    {
        ClearedSongData { song_id: record.song_id.clone(), difficulty: record.difficulty, grade: record.score2grade() }
    }
}

/// A player's backup.
pub struct BackupData {
    pub user_id: isize,
    pub version: isize,
    pub scores: Vec<ScoreData>,
    pub clearlamps: Vec<ClearLampData>,
    pub clearedsongs: Vec<ClearedSongData>,
    pub unlocklist: Vec<UnlocklistData>,
    pub installid: String,
    pub devicemodelname: String,
    pub story: Vec<StoryData>,
    pub created_at: i64,
    pub checksums: Vec<(String, String)>,
}

impl BackupData {
    /// An empty backup of version 1, made at `created_at`, for user 0.
    pub fn new(created_at: i64) -> (r: BackupData)
        ensures
            r.user_id == 0,
            r.version == 1,
            r.scores@.len() == 0,
            r.clearlamps@.len() == 0,
            r.clearedsongs@.len() == 0,
            r.unlocklist@.len() == 0,
            r.installid@.len() == 0,
            r.devicemodelname@.len() == 0,
            r.story@.len() == 0,
            r.created_at == created_at,
            r.checksums@.len() == 0,
    {
        BackupData {
            user_id: 0,
            version: 1,
            scores: Vec::new(),
            clearlamps: Vec::new(),
            clearedsongs: Vec::new(),
            unlocklist: Vec::new(),
            installid: String::new(),
            devicemodelname: String::new(),
            story: Vec::new(),
            created_at,
            checksums: Vec::new(),
        }
    }

    /// An empty backup of version 1 for user `user_id`, made at `created_at`.
    pub fn new_with_id(user_id: isize, created_at: i64) -> (r: BackupData)
        ensures
            r.user_id == user_id,
            r.version == 1,
            r.scores@.len() == 0,
            r.clearlamps@.len() == 0,
            r.clearedsongs@.len() == 0,
            r.unlocklist@.len() == 0,
            r.installid@.len() == 0,
            r.devicemodelname@.len() == 0,
            r.story@.len() == 0,
            r.created_at == created_at,
            r.checksums@.len() == 0,
    {
        let mut data = BackupData::new(created_at);
        data.user_id = user_id;
        data
    }

    /// The plays that this backup restores: see `received_scores` and `with_lamps`.
    pub fn received_plays(&self) -> (r: Vec<(PlayResult, i64)>)
        ensures
            r@ == with_lamps(received_scores(self.scores@), self.clearlamps@),
    {
        let mut received: Vec<(PlayResult, i64)> = Vec::new();
        let mut i: usize = 0;
        while i < self.scores.len()
            invariant
                i <= self.scores.len(),
                received@ == received_scores(self.scores@.subrange(0, i as int)),
            decreases self.scores.len() - i,
        {
            assert(self.scores@.subrange(0, i + 1).drop_last() =~= self.scores@.subrange(0, i as int));
            let d = &self.scores[i];
            let item = (d.restored(0), d.time_played);
            match find_received(&received, &d.song_id, d.difficulty) {
                Some(k) => {
                    received.set(k, item);
                },
                None => {
                    received.push(item);
                },
            }
            i += 1;
        }
        assert(self.scores@.subrange(0, self.scores.len() as int) =~= self.scores@);
        let ghost base = received@;
        let mut j: usize = 0;
        while j < self.clearlamps.len()
            invariant
                j <= self.clearlamps.len(),
                base == received_scores(self.scores@),
                received@ == with_lamps(base, self.clearlamps@.subrange(0, j as int)),
            decreases self.clearlamps.len() - j,
        {
            assert(self.clearlamps@.subrange(0, j + 1).drop_last() =~= self.clearlamps@.subrange(0, j as int));
            let lamp = &self.clearlamps[j];
            match find_received(&received, &lamp.song_id, lamp.difficulty) {
                Some(k) => {
                    let old_play = &received[k].0;
                    let play = PlayResult {
                        song_id: old_play.song_id.clone(),
                        difficulty: old_play.difficulty,
                        score: old_play.score,
                        shiny: old_play.shiny,
                        pure: old_play.pure,
                        far: old_play.far,
                        lost: old_play.lost,
                        health: old_play.health,
                        modifier: old_play.modifier,
                        clear_type: lamp.clear_type,
                    };
                    let at = received[k].1;
                    received.set(k, (play, at));
                },
                None => {},
            }
            j += 1;
        }
        assert(self.clearlamps@.subrange(0, self.clearlamps.len() as int) =~= self.clearlamps@);
        received
    }

    /// Restores the backup's scores for user `user_id`: see `restore`. When
    /// any score was accepted the install id is cleared.
    pub fn update_score_on_cloud(&mut self, conn: &mut DBAccessManager, user_id: isize) -> (r: Result<(), ScoreError>)
        requires
            old(conn).wf(),
        ensures
            final(conn).wf(),
            final(conn).catalog == old(conn).catalog,
            ({
                let (players, res) = restore(
                    player_views(old(conn).players@),
                    old(conn).catalog.charts@,
                    with_lamps(received_scores(old(self).scores@), old(self).clearlamps@),
                    user_id,
                    false,
                );
                &&& player_views(final(conn).players@) == players
                &&& match res {
                    Ok(updated) => r is Ok && if updated {
                        final(self).installid@.len() == 0
                    } else {
                        final(self).installid == old(self).installid
                    },
                    Err(e) => r == Err::<(), ScoreError>(e) && final(self).installid == old(self).installid,
                }
            }),
            final(self).user_id == old(self).user_id,
            final(self).version == old(self).version,
            final(self).scores == old(self).scores,
            final(self).clearlamps == old(self).clearlamps,
            final(self).clearedsongs == old(self).clearedsongs,
            final(self).unlocklist == old(self).unlocklist,
            final(self).devicemodelname == old(self).devicemodelname,
            final(self).story == old(self).story,
            final(self).created_at == old(self).created_at,
            final(self).checksums == old(self).checksums,
    {
        let received = self.received_plays();
        let ghost goal = restore(player_views(conn.players@), conn.catalog.charts@, received@, user_id, false);
        let ghost charts = conn.catalog.charts@;
        let mut updated = false;
        let mut i: usize = 0;
        assert(received@.subrange(0, received@.len() as int) =~= received@);
        while i < received.len()
            invariant
                i <= received.len(),
                conn.wf(),
                conn.catalog.charts@ == charts,
                conn.catalog == old(conn).catalog,
                restore(player_views(conn.players@), charts, received@.subrange(i as int, received@.len() as int), user_id, updated)
                    == goal,
                goal == restore(
                    player_views(old(conn).players@),
                    old(conn).catalog.charts@,
                    with_lamps(received_scores(old(self).scores@), old(self).clearlamps@),
                    user_id,
                    false,
                ),
            decreases received.len() - i,
        {
            let ghost recs = received@.subrange(i as int, received@.len() as int);
            assert(recs.subrange(1, recs.len() as int) =~= received@.subrange(i + 1, received@.len() as int));
            assert(recs[0] == received@[i as int]);
            let ghost before = player_views(conn.players@);
            let play = &received[i].0;
            let at = received[i].1;
            match best_score_for(conn, user_id, play) {
                Some(best) => {
                    if best < play.score {
                        match upload_play(conn, play, user_id, at) {
                            Ok(_) => {
                                updated = true;
                            },
                            Err(e) => {
                                assert(restore(before, charts, recs, user_id, updated) == (
                                    player_views(conn.players@),
                                    Err::<bool, ScoreError>(e),
                                ));
                                return Err(e);
                            },
                        }
                    }
                },
                None => {
                    let r = upload_play(conn, play, user_id, at);
                    if r.is_ok() {
                        updated = true;
                    }
                },
            }
            i += 1;
        }
        if updated {
            self.installid = String::new();
        }
        Ok(())
    }

    /// Appends the personal bests of user `user_id` to the backup: each one's
    /// score, clear type and grade.
    pub fn get_score_data(&mut self, conn: &DBAccessManager, user_id: isize)
        ensures
            ({
                let bests = player_bests(player_views(conn.players@), user_id);
                &&& final(self).scores@ == old(self).scores@ + bests.map_values(
                    |e: ScoreEvent| score_data_of(e.play, e.played_at),
                )
                &&& final(self).clearlamps@ == old(self).clearlamps@ + bests.map_values(
                    |e: ScoreEvent| clear_lamp_of(e.play),
                )
                &&& final(self).clearedsongs@ == old(self).clearedsongs@ + bests.map_values(
                    |e: ScoreEvent| cleared_song_of(e.play),
                )
            }),
            final(self).user_id == old(self).user_id,
            final(self).version == old(self).version,
            final(self).unlocklist == old(self).unlocklist,
            final(self).installid == old(self).installid,
            final(self).devicemodelname == old(self).devicemodelname,
            final(self).story == old(self).story,
            final(self).created_at == old(self).created_at,
            final(self).checksums == old(self).checksums,
    {
        let records = get_all_best_scores(conn, user_id);
        let ghost bests = player_bests(player_views(conn.players@), user_id);
        let ghost scores0 = self.scores@;
        let ghost lamps0 = self.clearlamps@;
        let ghost songs0 = self.clearedsongs@;
        assert(records@.len() == bests.len());
        let mut i: usize = 0;
        while i < records.len()
            invariant
                i <= records.len(),
                records@.len() == bests.len(),
                all_best_scores(player_views(conn.players@), user_id, records@),
                bests == player_bests(player_views(conn.players@), user_id),
                self.scores@ == scores0 + bests.subrange(0, i as int).map_values(
                    |e: ScoreEvent| score_data_of(e.play, e.played_at),
                ),
                self.clearlamps@ == lamps0 + bests.subrange(0, i as int).map_values(
                    |e: ScoreEvent| clear_lamp_of(e.play),
                ),
                self.clearedsongs@ == songs0 + bests.subrange(0, i as int).map_values(
                    |e: ScoreEvent| cleared_song_of(e.play),
                ),
                self.user_id == old(self).user_id,
                self.version == old(self).version,
                self.unlocklist == old(self).unlocklist,
                self.installid == old(self).installid,
                self.devicemodelname == old(self).devicemodelname,
                self.story == old(self).story,
                self.created_at == old(self).created_at,
                self.checksums == old(self).checksums,
            decreases records.len() - i,
        {
            let (record, time) = (&records[i].0, records[i].1);
            assert(play_result_of(records@[i as int].0) == bests[i as int].play && records@[i as int].1 == bests[i as int].played_at);
            self.scores.push(ScoreData::from_record_time(record, time));
            self.clearlamps.push(ClearLampData::from_record(record));
            self.clearedsongs.push(ClearedSongData::from_record(record));
            assert(bests.subrange(0, i + 1) =~= bests.subrange(0, i as int).push(bests[i as int]));
            assert(self.scores@ =~= scores0 + bests.subrange(0, i + 1).map_values(
                |e: ScoreEvent| score_data_of(e.play, e.played_at),
            ));
            assert(self.clearlamps@ =~= lamps0 + bests.subrange(0, i + 1).map_values(
                |e: ScoreEvent| clear_lamp_of(e.play),
            ));
            assert(self.clearedsongs@ =~= songs0 + bests.subrange(0, i + 1).map_values(
                |e: ScoreEvent| cleared_song_of(e.play),
            ));
            i += 1;
        }
        assert(bests.subrange(0, records.len() as int) =~= bests);
    }
}

} // verus!

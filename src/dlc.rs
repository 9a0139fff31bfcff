//! Downloadable content: requests for song and chart downloads, and their
//! checksums and download URLs.
use vstd::prelude::*;
use vstd::string::StringExecFns;

verus! {

/// What a purchase is for.
#[derive(PartialEq, Eq, Structural, Clone, Copy, Debug)]
pub enum ItemType {
    Pack,
    Single,
}

/// A request for download information: for the listed songs (all songs when
/// the list is empty), with or without download URLs.
pub struct DLRequest {
    pub need_url: bool,
    /// Song ids, such as `ifi`, `onefr` or `fractureray`.
    pub song_ids: Vec<String>,
}

impl DLRequest {
    /// A request for every song, without URLs.
    pub fn empty_request() -> (r: DLRequest)
        ensures
            !r.need_url,
            r.song_ids@.len() == 0,
    {
        DLRequest { need_url: false, song_ids: Vec::new() }
    }

    /// A request for the listed songs.
    pub fn with_id_list(song_ids: Vec<String>, need_url: bool) -> (r: DLRequest)
        ensures
            r.need_url == need_url,
            r.song_ids@ == song_ids@,
    {
        DLRequest { need_url, song_ids }
    }
}

/// What the catalog holds on one chart of a downloadable song.
pub struct DLItem {
    pub song_id: String,
    pub audio_checksum: String,
    pub song_dl: bool,
    pub difficulty: String,
    pub chart_checksum: String,
    pub chart_dl: bool,
}

/// `http://host/prefix/songs/` followed by `rest`.
pub open spec fn static_url(host: Seq<char>, prefix: Seq<char>, songs: Seq<char>, rest: Seq<char>) -> Seq<char> {
    "http://"@ + host + "/"@ + prefix + "/"@ + songs + "/"@ + rest
}

/// Appends `http://host/prefix/songs/song_id/` to `out`.
fn append_song_dir(out: &mut String, hostname: &str, prefix_static_file: &str, songs_dirname: &str, song_id: &str)
    ensures
        final(out)@ == old(out)@ + static_url(hostname@, prefix_static_file@, songs_dirname@, song_id@ + "/"@),
{
    proof {
        reveal_strlit("http://");
        reveal_strlit("/");
    }
    out.append("http://");
    out.append(hostname);
    out.append("/");
    out.append(prefix_static_file);
    out.append("/");
    out.append(songs_dirname);
    out.append("/");
    out.append(song_id);
    out.append("/");
    assert(final(out)@ =~= old(out)@ + static_url(hostname@, prefix_static_file@, songs_dirname@, song_id@ + "/"@));
}

impl DLItem {
    /// The URL of the song's audio file.
    pub fn song_dl_url(&self, hostname: &str, prefix_static_file: &str, songs_dirname: &str) -> (r: String)
        ensures
            r@ == static_url(hostname@, prefix_static_file@, songs_dirname@, self.song_id@ + "/"@ + "base.ogg"@),
    {
        let mut url = String::new();
        append_song_dir(&mut url, hostname, prefix_static_file, songs_dirname, self.song_id.as_str());
        url.append("base.ogg");
        assert(url@ =~= static_url(hostname@, prefix_static_file@, songs_dirname@, self.song_id@ + "/"@ + "base.ogg"@));
        url
    }

    /// The URL of the chart file.
    pub fn chart_dl_url(&self, hostname: &str, prefix_static_file: &str, songs_dirname: &str) -> (r: String)
        ensures
            r@ == static_url(
                hostname@,
                prefix_static_file@,
                songs_dirname@,
                self.song_id@ + "/"@ + self.difficulty@ + ".aff"@,
            ),
    {
        let mut url = String::new();
        append_song_dir(&mut url, hostname, prefix_static_file, songs_dirname, self.song_id.as_str());
        url.append(self.difficulty.as_str());
        url.append(".aff");
        assert(url@ =~= static_url(
            hostname@,
            prefix_static_file@,
            songs_dirname@,
            self.song_id@ + "/"@ + self.difficulty@ + ".aff"@,
        ));
        url
    }
}

/// A checksum and a download URL; either may be empty.
pub struct InfoItem {
    pub checksum: String,
    pub url: String,
}

impl InfoItem {
    /// An item with an empty checksum and URL.
    pub fn new() -> (r: InfoItem)
        ensures
            r.checksum@.len() == 0,
            r.url@.len() == 0,
    {
        InfoItem { checksum: String::new(), url: String::new() }
    }

    /// Whether both the checksum and the URL are empty.
    pub fn is_empty(&self) -> (r: bool)
        ensures
            r == (self.checksum@.len() == 0 && self.url@.len() == 0),
    {
        self.checksum.as_str().unicode_len() == 0 && self.url.as_str().unicode_len() == 0
    }
}

/// Checksums and URLs for one song: its audio, and its charts keyed by
/// difficulty (one entry per difficulty, in the order they were first seen).
pub struct DlcInfo {
    pub audio: InfoItem,
    pub chart: Vec<(String, InfoItem)>,
}

/// The checksum and URL of an item.
pub open spec fn item_view(i: InfoItem) -> (Seq<char>, Seq<char>) {
    (i.checksum@, i.url@)
}

/// What a song's download information holds: its audio item, and its chart
/// items keyed by difficulty.
pub struct DlcInfoView {
    pub audio: (Seq<char>, Seq<char>),
    pub chart: Seq<(Seq<char>, (Seq<char>, Seq<char>))>,
}

/// The chart items of a song, as keys and items.
pub open spec fn chart_view(c: Seq<(String, InfoItem)>) -> Seq<(Seq<char>, (Seq<char>, Seq<char>))> {
    c.map_values(|e: (String, InfoItem)| (e.0@, item_view(e.1)))
}

/// What a song's download information holds.
pub open spec fn dlc_view(d: DlcInfo) -> DlcInfoView {
    DlcInfoView { audio: item_view(d.audio), chart: chart_view(d.chart@) }
}

/// The download information of several songs, keyed by song id.
pub open spec fn dlc_list_view(l: Seq<(String, DlcInfo)>) -> Seq<(Seq<char>, DlcInfoView)> {
    l.map_values(|e: (String, DlcInfo)| (e.0@, dlc_view(e.1)))
}

/// Position of the first entry of `s` under key `k`, or -1.
pub open spec fn key_position<V>(s: Seq<(Seq<char>, V)>, k: Seq<char>) -> int
    decreases s.len(),
{
    if s.len() == 0 {
        -1
    } else {
        let i = key_position(s.drop_last(), k);
        if i >= 0 {
            i
        } else if s.last().0 == k {
            s.len() - 1
        } else {
            -1
        }
    }
}

/// The URL of a song's audio file.
pub open spec fn song_url(host: Seq<char>, prefix: Seq<char>, songs: Seq<char>, song_id: Seq<char>) -> Seq<char> {
    static_url(host, prefix, songs, song_id + "/"@ + "base.ogg"@)
}

/// The URL of a chart file.
pub open spec fn chart_url(host: Seq<char>, prefix: Seq<char>, songs: Seq<char>, song_id: Seq<char>, difficulty: Seq<char>) -> Seq<char> {
    static_url(host, prefix, songs, song_id + "/"@ + difficulty + ".aff"@)
}

/// Where the files are served: host name, prefix of static files and
/// directory of songs.
pub struct UrlBase {
    pub hostname: Seq<char>,
    pub prefix: Seq<char>,
    pub songs: Seq<char>,
}

/// A song's audio item after `item`: it takes the item's audio checksum, and
/// its URL when URLs are asked for, when the audio is downloadable and the
/// checksum is not empty.
pub open spec fn audio_after(a: (Seq<char>, Seq<char>), item: DLItem, need_url: bool, base: UrlBase) -> (Seq<char>, Seq<char>) {
    if item.song_dl && item.audio_checksum@.len() > 0 {
        (
            item.audio_checksum@,
            if need_url {
                song_url(base.hostname, base.prefix, base.songs, item.song_id@)
            } else {
                a.1
            },
        )
    } else {
        a
    }
}

/// A song's chart items after `item`: when the chart is downloadable and its
/// checksum not empty, the item of its difficulty (added when missing) takes
/// the checksum, and the URL when URLs are asked for.
pub open spec fn charts_after(
    c: Seq<(Seq<char>, (Seq<char>, Seq<char>))>,
    item: DLItem,
    need_url: bool,
    base: UrlBase,
) -> Seq<(Seq<char>, (Seq<char>, Seq<char>))> {
    if item.chart_dl && item.chart_checksum@.len() > 0 {
        let i = key_position(c, item.difficulty@);
        let prev: (Seq<char>, Seq<char>) = if 0 <= i < c.len() { c[i].1 } else { (seq![], seq![]) };
        let new = (
            item.chart_checksum@,
            if need_url {
                chart_url(base.hostname, base.prefix, base.songs, item.song_id@, item.difficulty@)
            } else {
                prev.1
            },
        );
        if 0 <= i < c.len() {
            c.update(i, (item.difficulty@, new))
        } else {
            c.push((item.difficulty@, new))
        }
    } else {
        c
    }
}

/// The download information after `item`: items with nothing downloadable are
/// skipped; else the entry of the item's song (added when missing) takes the
/// item's audio and chart.
pub open spec fn list_after(
    l: Seq<(Seq<char>, DlcInfoView)>,
    item: DLItem,
    need_url: bool,
    base: UrlBase,
) -> Seq<(Seq<char>, DlcInfoView)> {
    if !(item.chart_dl || item.song_dl) {
        l
    } else {
        let i = key_position(l, item.song_id@);
        let prev = if 0 <= i < l.len() {
            l[i].1
        } else {
            DlcInfoView { audio: (seq![], seq![]), chart: seq![] }
        };
        let new = DlcInfoView {
            audio: audio_after(prev.audio, item, need_url, base),
            chart: charts_after(prev.chart, item, need_url, base),
        };
        if 0 <= i < l.len() {
            l.update(i, (item.song_id@, new))
        } else {
            l.push((item.song_id@, new))
        }
    }
}

/// The download information after the items `items`, in order.
pub open spec fn list_after_all(
    l: Seq<(Seq<char>, DlcInfoView)>,
    items: Seq<DLItem>,
    need_url: bool,
    base: UrlBase,
) -> Seq<(Seq<char>, DlcInfoView)>
    decreases items.len(),
{
    if items.len() == 0 {
        l
    } else {
        list_after(list_after_all(l, items.drop_last(), need_url, base), items.last(), need_url, base)
    }
}

pub proof fn lemma_key_position<V>(s: Seq<(Seq<char>, V)>, k: Seq<char>)
    ensures
        -1 <= key_position(s, k) < s.len(),
        key_position(s, k) >= 0 ==> s[key_position(s, k)].0 == k,
    decreases s.len(),
{
    if s.len() > 0 {
        lemma_key_position(s.drop_last(), k);
    }
}

/// Finds the first entry of `s` under key `k`.
pub fn find_key<V>(s: &Vec<(String, V)>, k: &String) -> (r: Option<usize>)
    ensures
        match r {
            Some(i) => i as int == key_position(s@.map_values(|e: (String, V)| (e.0@, ())), k@) && i < s.len(),
            None => key_position(s@.map_values(|e: (String, V)| (e.0@, ())), k@) == -1,
        },
{
    let ghost keys = s@.map_values(|e: (String, V)| (e.0@, ()));
    let mut found: Option<usize> = None;
    let mut j: usize = 0;
    while j < s.len()
        invariant
            j <= s.len(),
            keys == s@.map_values(|e: (String, V)| (e.0@, ())),
            match found {
                Some(i) => i as int == key_position(keys.subrange(0, j as int), k@) && i < j,
                None => key_position(keys.subrange(0, j as int), k@) == -1,
            },
        decreases s.len() - j,
    {
        assert(keys.subrange(0, j + 1).drop_last() =~= keys.subrange(0, j as int));
        if found.is_none() && s[j].0 == *k {
            found = Some(j);
        }
        j += 1;
    }
    assert(keys.subrange(0, s.len() as int) =~= keys);
    found
}

/// The position of a key depends on the keys alone.
proof fn lemma_key_position_keys<V, W>(s: Seq<(Seq<char>, V)>, t: Seq<(Seq<char>, W)>, k: Seq<char>)
    requires
        s.len() == t.len(),
        forall|i: int| 0 <= i < s.len() ==> s[i].0 == t[i].0,
    ensures
        key_position(s, k) == key_position(t, k),
    decreases s.len(),
{
    if s.len() > 0 {
        lemma_key_position_keys(s.drop_last(), t.drop_last(), k);
    }
}

/// Updates a song's audio item by `item`; see `audio_after`.
fn update_audio(audio: &mut InfoItem, item: &DLItem, need_url: bool, hostname: &str, prefix_static_file: &str, songs_dirname: &str)
    ensures
        item_view(*final(audio)) == audio_after(
            item_view(*old(audio)),
            *item,
            need_url,
            UrlBase { hostname: hostname@, prefix: prefix_static_file@, songs: songs_dirname@ },
        ),
{
    if item.song_dl && item.audio_checksum.as_str().unicode_len() != 0 {
        audio.checksum = item.audio_checksum.clone();
        if need_url {
            audio.url = item.song_dl_url(hostname, prefix_static_file, songs_dirname);
        }
    }
}

/// Updates a song's chart items by `item`; see `charts_after`.
fn update_charts(
    chart: &mut Vec<(String, InfoItem)>,
    item: &DLItem,
    need_url: bool,
    hostname: &str,
    prefix_static_file: &str,
    songs_dirname: &str,
)
    ensures
        chart_view(final(chart)@) == charts_after(
            chart_view(old(chart)@),
            *item,
            need_url,
            UrlBase { hostname: hostname@, prefix: prefix_static_file@, songs: songs_dirname@ },
        ),
{
    if item.chart_dl && item.chart_checksum.as_str().unicode_len() != 0 {
        update_chart_entry(chart, item, need_url, hostname, prefix_static_file, songs_dirname);
    }
}

/// Sets the item at position `i`, keeping its key.
fn replace_entry(chart: &mut Vec<(String, InfoItem)>, i: usize, checksum: String, url: String)
    requires
        i < old(chart)@.len(),
    ensures
        final(chart)@.len() == old(chart)@.len(),
        forall|k: int| 0 <= k < final(chart)@.len() && k != i ==> final(chart)@[k] == old(chart)@[k],
        final(chart)@[i as int].0 == old(chart)@[i as int].0,
        final(chart)@[i as int].1.checksum == checksum,
        final(chart)@[i as int].1.url == url,
{
    let key = chart[i].0.clone();
    chart.set(i, (key, InfoItem { checksum, url }));
}

/// Updates the chart item of `item`'s difficulty, adding it when missing.
fn update_chart_entry(
    chart: &mut Vec<(String, InfoItem)>,
    item: &DLItem,
    need_url: bool,
    hostname: &str,
    prefix_static_file: &str,
    songs_dirname: &str,
)
    requires
        item.chart_dl && item.chart_checksum@.len() > 0,
    ensures
        chart_view(final(chart)@) == charts_after(
            chart_view(old(chart)@),
            *item,
            need_url,
            UrlBase { hostname: hostname@, prefix: prefix_static_file@, songs: songs_dirname@ },
        ),
{
    let ghost before = chart_view(chart@);
    proof {
        lemma_key_position_keys(before, chart@.map_values(|e: (String, InfoItem)| (e.0@, ())), item.difficulty@);
        lemma_key_position(before, item.difficulty@);
    }
    match find_key(&*chart, &item.difficulty) {
        Some(i) => {
            let url = if need_url {
                item.chart_dl_url(hostname, prefix_static_file, songs_dirname)
            } else {
                chart[i].1.url.clone()
            };
            let ghost prev = chart_view(chart@);
            replace_entry(chart, i, item.chart_checksum.clone(), url);
            assert(chart_view(chart@) =~= prev.update(i as int, (item.difficulty@, (item.chart_checksum@, url@))));
        },
        None => {
            let mut entry = InfoItem::new();
            assert(entry.url@ =~= seq![]);
            entry.checksum = item.chart_checksum.clone();
            if need_url {
                entry.url = item.chart_dl_url(hostname, prefix_static_file, songs_dirname);
            }
            let key = item.difficulty.clone();
            chart.push((key, entry));
            assert(chart_view(chart@) =~= before.push((item.difficulty@, item_view(entry))));
        },
    }
}

/// Adds one item to the download information; see `list_after`.
fn add_item(
    infoes: &mut Vec<(String, DlcInfo)>,
    item: &DLItem,
    need_url: bool,
    hostname: &str,
    prefix_static_file: &str,
    songs_dirname: &str,
)
    ensures
        dlc_list_view(final(infoes)@) == list_after(
            dlc_list_view(old(infoes)@),
            *item,
            need_url,
            UrlBase { hostname: hostname@, prefix: prefix_static_file@, songs: songs_dirname@ },
        ),
{
    if item.chart_dl || item.song_dl {
        add_downloadable_item(infoes, item, need_url, hostname, prefix_static_file, songs_dirname);
    }
}

/// Adds an item with something downloadable; see `list_after`.
fn add_downloadable_item(
    infoes: &mut Vec<(String, DlcInfo)>,
    item: &DLItem,
    need_url: bool,
    hostname: &str,
    prefix_static_file: &str,
    songs_dirname: &str,
)
    requires
        item.chart_dl || item.song_dl,
    ensures
        dlc_list_view(final(infoes)@) == list_after(
            dlc_list_view(old(infoes)@),
            *item,
            need_url,
            UrlBase { hostname: hostname@, prefix: prefix_static_file@, songs: songs_dirname@ },
        ),
{
    let ghost before = dlc_list_view(infoes@);
    proof {
        lemma_key_position_keys(before, infoes@.map_values(|e: (String, DlcInfo)| (e.0@, ())), item.song_id@);
        lemma_key_position(before, item.song_id@);
    }
    match find_key(&*infoes, &item.song_id) {
        Some(i) => {
            let ghost whole = infoes@;
            let mut removed = infoes.remove(i);
            assert(removed.0@ == item.song_id@ && dlc_view(removed.1) == before[i as int].1) by {
                assert(before[i as int] == (whole[i as int].0@, dlc_view(whole[i as int].1)));
            }
            update_audio(&mut removed.1.audio, item, need_url, hostname, prefix_static_file, songs_dirname);
            update_charts(&mut removed.1.chart, item, need_url, hostname, prefix_static_file, songs_dirname);
            let ghost info = removed.1;
            infoes.insert(i, removed);
            assert(dlc_list_view(infoes@) =~= before.update(i as int, (item.song_id@, dlc_view(info))));
        },
        None => {
            let mut info = DlcInfo { audio: InfoItem::new(), chart: Vec::new() };
            assert(chart_view(info.chart@) =~= seq![]);
            assert(info.audio.url@ =~= seq![]);
            assert(info.audio.checksum@ =~= seq![]);
            update_audio(&mut info.audio, item, need_url, hostname, prefix_static_file, songs_dirname);
            update_charts(&mut info.chart, item, need_url, hostname, prefix_static_file, songs_dirname);
            infoes.push((item.song_id.clone(), info));
            assert(dlc_list_view(infoes@) =~= before.push((item.song_id@, dlc_view(info))));
        },
    }
}

/// Adds the downloadable items `items` to the download information `infoes`,
/// in order; see `list_after_all`.
pub fn get_purchase_form_table(
    infoes: &mut Vec<(String, DlcInfo)>,
    items: &Vec<DLItem>,
    need_url: bool,
    hostname: &str,
    prefix_static_file: &str,
    songs_dirname: &str,
)
    ensures
        dlc_list_view(final(infoes)@) == list_after_all(
            dlc_list_view(old(infoes)@),
            items@,
            need_url,
            UrlBase { hostname: hostname@, prefix: prefix_static_file@, songs: songs_dirname@ },
        ),
{
    let ghost start = dlc_list_view(infoes@);
    let ghost base = UrlBase { hostname: hostname@, prefix: prefix_static_file@, songs: songs_dirname@ };
    let mut i: usize = 0;
    while i < items.len()
        invariant
            i <= items.len(),
            start == dlc_list_view(old(infoes)@),
            base == (UrlBase { hostname: hostname@, prefix: prefix_static_file@, songs: songs_dirname@ }),
            dlc_list_view(infoes@) == list_after_all(start, items@.subrange(0, i as int), need_url, base),
        decreases items.len() - i,
    {
        assert(items@.subrange(0, i + 1).drop_last() =~= items@.subrange(0, i as int));
        add_item(infoes, &items[i], need_url, hostname, prefix_static_file, songs_dirname);
        i += 1;
    }
    assert(items@.subrange(0, items.len() as int) =~= items@);
}

} // verus!

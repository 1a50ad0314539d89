//! The streams of a movie or an episode.

use crate::config::Config;
use crate::encoding;
use crate::error;
use crate::error::AppError;
use crate::index;
use crate::index::types::{EntryView, FileInfo, FileView, IndexEntry};
use crate::index::IndexView;
use crate::metadata::MetadataView;
use crate::paths;
use crate::paths::{opt_text, MediaPath};
use crate::scanner;
use crate::scanner::naming::PlanView;
use crate::scanner::{MediaScanner, PathProbe};
use crate::text;
use std::sync::Arc;
use vstd::prelude::*;
use vstd::utf8;

verus! {

/// The streams of a title.
#[derive(Debug)]
pub struct StreamResponse {
    pub streams: Vec<Stream>,
}

/// One stream.
#[derive(Debug)]
pub struct Stream {
    pub url: String,
    pub title: String,
    pub name: String,
    pub behavior_hints: BehaviorHints,
}

/// What a player may want to know about a stream.
#[derive(Debug)]
pub struct BehaviorHints {
    pub binge_group: String,
    pub video_size: Option<u64>,
    pub filename: Option<String>,
}

/// What streams are made from.
#[derive(Clone)]
pub struct StreamState<'a> {
    pub scanner: &'a MediaScanner,
    pub config: Arc<Config>,
}

/// The content of a [`Stream`].
pub ghost struct StreamView {
    pub url: Seq<char>,
    pub title: Seq<char>,
    pub name: Seq<char>,
    pub binge_group: Seq<char>,
    pub video_size: Option<u64>,
    pub filename: Option<Seq<char>>,
}

impl View for Stream {
    type V = StreamView;

    open spec fn view(&self) -> StreamView {
        StreamView {
            url: self.url@,
            title: self.title@,
            name: self.name@,
            binge_group: self.behavior_hints.binge_group@,
            video_size: self.behavior_hints.video_size,
            filename: opt_text(self.behavior_hints.filename),
        }
    }
}

impl View for StreamResponse {
    type V = Seq<StreamView>;

    open spec fn view(&self) -> Seq<StreamView> {
        self.streams@.map_values(|s: Stream| s@)
    }
}

/// What a request asks for.
pub ghost enum Target {
    /// An episode of the series known under an identifier.
    Episode(Seq<char>, u16, u16),
    /// What is known under an identifier.
    Title(Seq<char>),
    /// An episode without a readable season.
    NoSeason,
    /// An episode without a readable episode number.
    NoEpisode,
}

/// What a request asks for. A series is asked for as `id:season:episode`; whatever stands
/// behind is ignored, and so is `.json` at the end.
pub open spec fn target(content_type: Seq<char>, requested: Seq<char>) -> Target {
    let id = text::without_suffix(requested, ".json"@);
    if content_type == "series"@ && id.contains(':') {
        let parts = text::split(id, ':');
        let season = if parts.len() > 1 {
            text::u16_value(parts[1])
        } else {
            None
        };
        let episode = if parts.len() > 2 {
            text::u16_value(parts[2])
        } else {
            None
        };
        match (season, episode) {
            (None, _) => Target::NoSeason,
            (Some(_), None) => Target::NoEpisode,
            (Some(season), Some(episode)) => Target::Episode(parts[0], season, episode),
        }
    } else {
        Target::Title(id)
    }
}

/// What a request finds: a file, no file, or the reason why it is refused.
pub open spec fn found(
    index: IndexView,
    content_type: Seq<char>,
    requested: Seq<char>,
) -> Result<Option<FileView>, Seq<char>> {
    match target(content_type, requested) {
        Target::NoSeason => Err("Invalid season"@),
        Target::NoEpisode => Err("Invalid episode"@),
        Target::Episode(id, season, episode) => Ok(
            index::find_episode(index::episodes_of(index, id), season, episode),
        ),
        Target::Title(id) => match index::lookup(index, id) {
            Some(EntryView::Movie(file)) => Ok(Some(file)),
            Some(EntryView::Series(_)) => Err("Series requires season:episode format"@),
            None => Ok(None),
        },
    }
}

/// The URL that the server is reached at: the configured one without slashes at its end, or
/// the local one.
pub open spec fn server_url(config: Config) -> Seq<char> {
    match config.base_url {
        Some(url) => text::trim_end(url@, '/'),
        None => "http://localhost:"@ + text::decimal(config.port as nat),
    }
}

/// The value of the `path` parameter that stands for a path with this text.
pub open spec fn path_parameter(path_text: Seq<char>) -> Seq<char> {
    encoding::base64(utf8::encode_utf8(path_text))
}

/// The URL of the video at a path with this text. It carries the token, if there is one.
pub open spec fn video_url(config: Config, path_text: Seq<char>) -> Seq<char> {
    let root = match config.auth_token {
        Some(token) => server_url(config) + "/"@ + token@,
        None => server_url(config),
    };
    root + "/video?path="@ + path_parameter(path_text)
}

/// How a stream is titled: by the video's title, and the file's name if that can be shown.
pub open spec fn stream_title(title: Seq<char>, file_name: Option<Seq<char>>) -> Seq<char> {
    match file_name {
        Some(name) => "🎞️ "@ + title + "\n📦 "@ + name,
        None => "🎞️ "@ + title,
    }
}

/// The stream of a file.
pub open spec fn file_stream(
    config: Config,
    file: FileView,
    file_size: Option<u64>,
) -> StreamView {
    let file_name = paths::utf8_text(paths::file_name(file.file_path));
    StreamView {
        url: video_url(config, encoding::utf8_lossy(file.file_path)),
        title: stream_title(file.title, file_name),
        name: "🏠 Lanio"@,
        binge_group: "lanio"@,
        video_size: file_size,
        filename: file_name,
    }
}

/// Whether the text of a path is short enough for its encoding to fit in one allocation.
pub open spec fn encodable(path: &MediaPath) -> bool {
    encoding::base64_len(utf8::encode_utf8(path.lossy()).len()) <= isize::MAX
}

/// A movie that was just filed is found under its identifier.
pub proof fn law_filed_movie_is_found(
    index: IndexView,
    path: Seq<u8>,
    plan: PlanView,
    metadata: MetadataView,
    content_type: Seq<char>,
)
    requires
        index::sound(index),
        !plan.is_series,
        !".json"@.is_suffix_of(metadata.imdb_id),
        content_type != "series"@ || !metadata.imdb_id.contains(':'),
    ensures
        found(
            scanner::with_video(index, path, plan, metadata),
            content_type,
            metadata.imdb_id,
        ) == Ok::<Option<FileView>, Seq<char>>(Some(scanner::indexed_file(path, plan, metadata))),
{
    let id = metadata.imdb_id;
    let file = scanner::indexed_file(path, plan, metadata);
    index::law_put_then_lookup(index, id, EntryView::Movie(file), id);
}

/// How an episode is asked for.
pub open spec fn episode_request(id: Seq<char>, season: u16, episode: u16) -> Seq<char> {
    id + ":"@ + text::decimal(season as nat) + ":"@ + text::decimal(episode as nat)
}

/// A request for an episode is understood as it was meant.
pub proof fn law_episode_request(id: Seq<char>, season: u16, episode: u16)
    requires
        !id.contains(':'),
    ensures
        target("series"@, episode_request(id, season, episode)) == Target::Episode(
            id,
            season,
            episode,
        ),
{
    let s = text::decimal(season as nat);
    let e = text::decimal(episode as nat);
    let requested = episode_request(id, season, episode);
    reveal_strlit(":");
    reveal_strlit(".json");
    text::law_u16_round_trip(season);
    text::law_u16_round_trip(episode);
    text::lemma_decimal_value(season as nat);
    text::lemma_decimal_value(episode as nat);
    assert(!s.contains(':'));
    assert(!e.contains(':'));
    let start = id.push(':') + s;
    assert(requested =~= start.push(':') + e);
    assert(!".json"@.is_suffix_of(requested)) by {
        if ".json"@.is_suffix_of(requested) {
            let n = requested.len() as int;
            assert(requested.subrange(n - 5, n)[4] == requested[n - 1]);
            assert(requested[n - 1] == e[e.len() - 1]);
        }
    }
    assert(requested[id.len() as int] == ':');
    text::lemma_split_single(id, ':');
    text::lemma_split_append(id, ':', s);
    text::lemma_split_append(start, ':', e);
    assert(text::split(requested, ':') =~= seq![id, s, e]);
}

/// An episode that was just filed is found by its identifier, season and episode.
pub proof fn law_filed_episode_is_found(
    index: IndexView,
    path: Seq<u8>,
    plan: PlanView,
    metadata: MetadataView,
    season: u16,
    episode: u16,
)
    requires
        index::sound(index),
        plan.is_series,
        plan.season == Some(season),
        plan.episode == Some(episode),
        !metadata.imdb_id.contains(':'),
    ensures
        found(
            scanner::with_video(index, path, plan, metadata),
            "series"@,
            episode_request(metadata.imdb_id, season, episode),
        ) == Ok::<Option<FileView>, Seq<char>>(Some(scanner::indexed_file(path, plan, metadata))),
{
    let id = metadata.imdb_id;
    let file = scanner::indexed_file(path, plan, metadata);
    let before = index::episodes_of(index, id);
    let episodes = index::with_episode(before, file);
    law_episode_request(id, season, episode);
    if index::known(index, id) {
        assert(index::sound_entry(index[index::place(index, id)].1));
    }
    index::law_with_episode(before, file);
    index::law_put_then_lookup(index, id, EntryView::Series(episodes), id);
    index::law_episode_is_found_at_its_place(episodes, file, season, episode);
}

/// A request for a movie that was renamed finds it at its new path, in whichever order the old
/// and the new path were reported.
pub proof fn law_renamed_movie_is_found(
    index: IndexView,
    gone: Seq<u8>,
    probe: PathProbe,
    path: Seq<u8>,
    plan: PlanView,
    metadata: MetadataView,
    content_type: Seq<char>,
)
    requires
        index::sound(index),
        scanner::video_path(gone),
        !probe.exists,
        !paths::same_path(path, gone),
        !plan.is_series,
        !".json"@.is_suffix_of(metadata.imdb_id),
        content_type != "series"@ || !metadata.imdb_id.contains(':'),
    ensures
        ({
            let old_first = scanner::with_video(
                scanner::after_rename(index, gone, probe),
                path,
                plan,
                metadata,
            );
            let new_first = scanner::after_rename(
                scanner::with_video(index, path, plan, metadata),
                gone,
                probe,
            );
            let renamed = Ok::<Option<FileView>, Seq<char>>(
                Some(scanner::indexed_file(path, plan, metadata)),
            );
            &&& found(old_first, content_type, metadata.imdb_id) == renamed
            &&& found(new_first, content_type, metadata.imdb_id) == renamed
        }),
{
    let id = metadata.imdb_id;
    let file = scanner::indexed_file(path, plan, metadata);
    index::law_purge_keeps_sound(index, gone, false);
    law_filed_movie_is_found(
        scanner::after_rename(index, gone, probe),
        path,
        plan,
        metadata,
        content_type,
    );
    index::law_put_then_lookup(index, id, EntryView::Movie(file), id);
    index::law_purge_then_lookup(
        scanner::with_video(index, path, plan, metadata),
        gone,
        false,
        id,
    );
}

/// A request for an episode that was renamed finds it at its new path, in whichever order the
/// old and the new path were reported.
pub proof fn law_renamed_episode_is_found(
    index: IndexView,
    gone: Seq<u8>,
    probe: PathProbe,
    path: Seq<u8>,
    plan: PlanView,
    metadata: MetadataView,
    season: u16,
    episode: u16,
)
    requires
        index::sound(index),
        scanner::video_path(gone),
        !probe.exists,
        !paths::same_path(path, gone),
        plan.is_series,
        plan.season == Some(season),
        plan.episode == Some(episode),
        !metadata.imdb_id.contains(':'),
    ensures
        ({
            let old_first = scanner::with_video(
                scanner::after_rename(index, gone, probe),
                path,
                plan,
                metadata,
            );
            let new_first = scanner::after_rename(
                scanner::with_video(index, path, plan, metadata),
                gone,
                probe,
            );
            let request = episode_request(metadata.imdb_id, season, episode);
            let renamed = Ok::<Option<FileView>, Seq<char>>(
                Some(scanner::indexed_file(path, plan, metadata)),
            );
            &&& found(old_first, "series"@, request) == renamed
            &&& found(new_first, "series"@, request) == renamed
        }),
{
    let id = metadata.imdb_id;
    let file = scanner::indexed_file(path, plan, metadata);
    let added = scanner::with_video(index, path, plan, metadata);
    let new_first = scanner::after_rename(added, gone, probe);
    index::law_purge_keeps_sound(index, gone, false);
    law_filed_episode_is_found(
        scanner::after_rename(index, gone, probe),
        path,
        plan,
        metadata,
        season,
        episode,
    );
    law_episode_request(id, season, episode);
    scanner::law_renamed_video_is_served(index, gone, probe, path, plan, metadata, id, file);
    scanner::law_filed_video_is_served(index, path, plan, metadata, id, file);
    index::law_purge_keeps_sound(added, gone, false);
    index::law_serves_what_is_known(new_first, id, file);
    index::law_purge_then_lookup(added, gone, false, id);
    let episodes = index::episodes_of(new_first, id);
    assert(index::sound_entry(new_first[index::place(new_first, id)].1));
    index::law_episode_is_found_at_its_place(episodes, file, season, episode);
}

/// A request for a movie whose file was removed finds nothing.
pub proof fn law_removed_movie_is_not_found(
    index: IndexView,
    path: Seq<u8>,
    exists: bool,
    file: FileView,
    content_type: Seq<char>,
    id: Seq<char>,
)
    requires
        index::sound(index),
        scanner::video_path(path),
        index::lookup(index, id) == Some(EntryView::Movie(file)),
        paths::same_path(file.file_path, path),
        !".json"@.is_suffix_of(id),
        content_type != "series"@ || !id.contains(':'),
    ensures
        found(scanner::after_removal(index, path, exists), content_type, id) == Ok::<
            Option<FileView>,
            Seq<char>,
        >(None),
{
    index::law_purge_then_lookup(index, path, false, id);
}

/// A series is not served without a season and an episode.
pub proof fn law_series_needs_an_episode(
    index: IndexView,
    content_type: Seq<char>,
    id: Seq<char>,
)
    requires
        scanner::is_series(index, id),
        !id.contains(':'),
        !".json"@.is_suffix_of(id),
    ensures
        found(index, content_type, id) == Err::<Option<FileView>, Seq<char>>(
            "Series requires season:episode format"@,
        ),
{
}

/// A request for streams may carry `.json` behind the identifier.
pub proof fn law_json_is_optional(index: IndexView, content_type: Seq<char>, id: Seq<char>)
    requires
        !".json"@.is_suffix_of(id),
    ensures
        found(index, content_type, id + ".json"@) == found(index, content_type, id),
{
    text::lemma_without_suffix(id, ".json"@);
}

/// Filing an episode leaves every other one where it was: a file of the same series with
/// another season or another episode number is still found by its own.
pub proof fn law_filing_keeps_other_episodes(
    index: IndexView,
    path: Seq<u8>,
    plan: PlanView,
    metadata: MetadataView,
    file: FileView,
    season: u16,
    episode: u16,
)
    requires
        index::sound(index),
        plan.is_series,
        !metadata.imdb_id.contains(':'),
        index::lookup(index, metadata.imdb_id) matches Some(EntryView::Series(episodes))
            && episodes.contains(file),
        file.season == Some(season),
        file.episode == Some(episode),
        file.season != plan.season || file.episode != plan.episode,
    ensures
        found(index, "series"@, episode_request(metadata.imdb_id, season, episode)) == Ok::<
            Option<FileView>,
            Seq<char>,
        >(Some(file)),
        found(
            scanner::with_video(index, path, plan, metadata),
            "series"@,
            episode_request(metadata.imdb_id, season, episode),
        ) == Ok::<Option<FileView>, Seq<char>>(Some(file)),
{
    let id = metadata.imdb_id;
    let new = scanner::indexed_file(path, plan, metadata);
    let before = index::episodes_of(index, id);
    let after = index::with_episode(before, new);
    law_episode_request(id, season, episode);
    assert(index::sound_entry(index[index::place(index, id)].1));
    index::law_with_episode(before, new);
    index::law_put_then_lookup(index, id, EntryView::Series(after), id);
    index::law_episode_is_found_at_its_place(before, file, season, episode);
    index::law_episode_is_found_at_its_place(after, file, season, episode);
}

/// A request for an episode finds a file of that series with just that season and episode
/// number, and finds nothing only where there is none.
pub proof fn law_found_episode_is_the_one_asked_for(
    index: IndexView,
    id: Seq<char>,
    season: u16,
    episode: u16,
    file: FileView,
)
    requires
        !id.contains(':'),
    ensures
        match found(index, "series"@, episode_request(id, season, episode)) {
            Ok(Some(f)) => f.season == Some(season) && f.episode == Some(episode) && (index::lookup(
                index,
                id,
            ) matches Some(EntryView::Series(episodes)) && episodes.contains(f)),
            Ok(None) => index::lookup(index, id) matches Some(EntryView::Series(episodes))
                ==> episodes.contains(file) ==> file.season != Some(season) || file.episode != Some(
                episode,
            ),
            Err(_) => false,
        },
{
    law_episode_request(id, season, episode);
    index::law_find_episode(index::episodes_of(index, id), season, episode);
}

/// A request is read as identifier, season and episode, whatever stands behind a third colon.
/// A season that is no number is refused, then an episode that is none.
pub proof fn law_series_requests(
    index: IndexView,
    id: Seq<char>,
    season: Seq<char>,
    episode: Seq<char>,
    rest: Seq<char>,
)
    requires
        !id.contains(':') && !season.contains(':') && !episode.contains(':'),
        !".json"@.is_suffix_of(id + ":"@ + season),
        !".json"@.is_suffix_of(id + ":"@ + season + ":"@ + episode),
        !".json"@.is_suffix_of(id + ":"@ + season + ":"@ + episode + ":"@ + rest),
    ensures
        ({
            let short = found(index, "series"@, id + ":"@ + season);
            let plain = found(index, "series"@, id + ":"@ + season + ":"@ + episode);
            let long = found(index, "series"@, id + ":"@ + season + ":"@ + episode + ":"@ + rest);
            &&& long == plain
            &&& text::u16_value(season) is None ==> short == Err::<Option<FileView>, Seq<char>>(
                "Invalid season"@,
            ) && plain == Err::<Option<FileView>, Seq<char>>("Invalid season"@)
            &&& text::u16_value(season) is Some ==> short == Err::<Option<FileView>, Seq<char>>(
                "Invalid episode"@,
            )
            &&& text::u16_value(season) is Some && text::u16_value(episode) is None ==> plain
                == Err::<Option<FileView>, Seq<char>>("Invalid episode"@)
            &&& text::u16_value(season) matches Some(s) ==> text::u16_value(episode) matches Some(e)
                ==> plain == found(index, "series"@, episode_request(id, s, e))
        }),
{
    reveal_strlit(":");
    let a = id.push(':') + season;
    let b = a.push(':') + episode;
    let c = b.push(':') + rest;
    assert(id + ":"@ + season =~= a);
    assert(id + ":"@ + season + ":"@ + episode =~= b);
    assert(id + ":"@ + season + ":"@ + episode + ":"@ + rest =~= c);
    text::lemma_split_single(id, ':');
    text::lemma_split_append(id, ':', season);
    text::lemma_split_append(a, ':', episode);
    text::lemma_split_concat(b, ':', rest);
    assert(text::split(a, ':') =~= seq![id, season]);
    assert(text::split(b, ':') =~= seq![id, season, episode]);
    assert(text::split(c, ':') =~= seq![id, season, episode] + text::split(rest, ':'));
    assert(a[id.len() as int] == ':');
    assert(b[id.len() as int] == ':');
    assert(c[id.len() as int] == ':');
    if let (Some(s), Some(e)) = (text::u16_value(season), text::u16_value(episode)) {
        law_episode_request(id, s, e);
    }
}

/// Any other request finds the movie known under the identifier; it finds nothing where nothing
/// is known, and is refused where a series is.
pub proof fn law_title_requests(index: IndexView, content_type: Seq<char>, id: Seq<char>)
    requires
        content_type != "series"@ || !id.contains(':'),
        !".json"@.is_suffix_of(id),
    ensures
        match index::lookup(index, id) {
            Some(EntryView::Movie(file)) => found(index, content_type, id) == Ok::<
                Option<FileView>,
                Seq<char>,
            >(Some(file)),
            Some(EntryView::Series(_)) => found(index, content_type, id) == Err::<
                Option<FileView>,
                Seq<char>,
            >("Series requires season:episode format"@),
            None => found(index, content_type, id) == Ok::<Option<FileView>, Seq<char>>(None),
        },
{
}

/// Without a base URL, a link leads to the configured port of this machine.
pub proof fn law_local_link(config: Config, path_text: Seq<char>)
    requires
        config.base_url is None,
    ensures
        ("http://localhost:"@ + text::decimal(config.port as nat) + "/"@).is_prefix_of(
            video_url(config, path_text),
        ),
        config.auth_token is None ==> video_url(config, path_text) == "http://localhost:"@
            + text::decimal(config.port as nat) + "/video?path="@ + encoding::base64(
            utf8::encode_utf8(path_text),
        ),
        config.auth_token matches Some(token) ==> video_url(config, path_text)
            == "http://localhost:"@ + text::decimal(config.port as nat) + "/"@ + token@
            + "/video?path="@ + encoding::base64(utf8::encode_utf8(path_text)),
{
    reveal_strlit("/");
    reveal_strlit("/video?path=");
    let start = "http://localhost:"@ + text::decimal(config.port as nat) + "/"@;
    let url = video_url(config, path_text);
    assert(url.subrange(0, start.len() as int) =~= start);
}

/// Without a base URL, links of servers on different ports differ.
pub proof fn law_ports_tell_links_apart(a: Config, b: Config, x: Seq<char>, y: Seq<char>)
    requires
        a.base_url is None,
        b.base_url is None,
        a.port != b.port,
    ensures
        video_url(a, x) != video_url(b, y),
{
    reveal_strlit("/");
    law_local_link(a, x);
    law_local_link(b, y);
    let host = "http://localhost:"@;
    let (p, q) = (text::decimal(a.port as nat), text::decimal(b.port as nat));
    text::lemma_decimal_value(a.port as nat);
    text::lemma_decimal_value(b.port as nat);
    if video_url(a, x) == video_url(b, y) {
        let url = video_url(a, x);
        let (start, other) = (host + p + "/"@, host + q + "/"@);
        let n = host.len() as int;
        assert(start =~= url.subrange(0, start.len() as int));
        assert(other =~= url.subrange(0, other.len() as int));
        assert(start[n + p.len()] == '/');
        assert(other[n + q.len()] == '/');
        if p.len() < q.len() {
            assert(url[n + p.len()] == start[n + p.len()]);
            assert(url[n + p.len()] == other[n + p.len()]);
            assert(other[n + p.len()] == q[p.len() as int]);
        } else if q.len() < p.len() {
            assert(url[n + q.len()] == other[n + q.len()]);
            assert(url[n + q.len()] == start[n + q.len()]);
            assert(start[n + q.len()] == p[q.len() as int]);
        } else {
            assert forall|i: int| 0 <= i < p.len() implies p[i] == q[i] by {
                assert(start[n + i] == p[i]);
                assert(other[n + i] == q[i]);
            }
            assert(p =~= q);
        }
    }
}

/// With a base URL, a link leads there, however many slashes that ends in; then follow the
/// token, if there is one, and the encoded path.
pub proof fn law_link_under_base_url(
    config: Config,
    path_text: Seq<char>,
    root: Seq<char>,
    slashes: nat,
)
    requires
        root.len() == 0 || root.last() != '/',
        config.base_url matches Some(url) && url@ == root + Seq::new(slashes, |i: int| '/'),
    ensures
        config.auth_token is None ==> video_url(config, path_text) == root + "/video?path="@
            + encoding::base64(utf8::encode_utf8(path_text)),
        config.auth_token matches Some(token) ==> video_url(config, path_text) == root + "/"@
            + token@ + "/video?path="@ + encoding::base64(utf8::encode_utf8(path_text)),
{
    text::law_trim_end_takes_the_tail(root, '/', slashes);
}

/// Under one configuration, links to different paths differ.
pub proof fn law_paths_tell_links_apart(config: Config, x: Seq<char>, y: Seq<char>)
    requires
        x != y,
    ensures
        video_url(config, x) != video_url(config, y),
{
    broadcast use utf8::encode_utf8_decode_utf8;

    let root = match config.auth_token {
        Some(token) => server_url(config) + "/"@ + token@,
        None => server_url(config),
    } + "/video?path="@;
    let (p, q) = (path_parameter(x), path_parameter(y));
    if video_url(config, x) == video_url(config, y) {
        assert((root + p).skip(root.len() as int) =~= p);
        assert((root + q).skip(root.len() as int) =~= q);
        encoding::law_base64_injective(utf8::encode_utf8(x), utf8::encode_utf8(y));
        assert(utf8::decode_utf8(utf8::encode_utf8(x)) == x);
        assert(utf8::decode_utf8(utf8::encode_utf8(y)) == y);
    }
}

/// Nothing but base URL, port and token has a say in links: not the public URL, nor the media
/// directory, nor the password itself. The port has none where there is a base URL.
pub proof fn law_what_links_depend_on(a: Config, b: Config, path_text: Seq<char>)
    requires
        a.base_url == b.base_url,
        a.auth_token == b.auth_token,
        a.base_url is None ==> a.port == b.port,
    ensures
        video_url(a, path_text) == video_url(b, path_text),
{
}

/// What a stream says: the link to the file, a title made of the video's title and, on a line
/// of its own, the file's name, and for the player the size and the name of the file.
pub proof fn law_stream_of_a_file(config: Config, file: FileView, file_size: Option<u64>)
    ensures
        ({
            let stream = file_stream(config, file, file_size);
            let name = paths::utf8_text(paths::file_name(file.file_path));
            &&& stream.url == video_url(config, encoding::utf8_lossy(file.file_path))
            &&& stream.name == "🏠 Lanio"@
            &&& stream.binge_group == "lanio"@
            &&& stream.video_size == file_size
            &&& stream.filename == name
            &&& name is None ==> stream.title == "🎞️ "@ + file.title
            &&& name matches Some(n) ==> stream.title == "🎞️ "@ + file.title + "\n📦 "@ + n
        }),
{
}

/// The content of a response is that of its streams in their order, and that of a stream its
/// fields.
pub proof fn law_stream_content(response: StreamResponse, i: int)
    requires
        0 <= i < response.streams@.len(),
    ensures
        response@.len() == response.streams@.len(),
        response@[i].url == response.streams@[i].url@,
        response@[i].title == response.streams@[i].title@,
        response@[i].name == response.streams@[i].name@,
        response@[i].binge_group == response.streams@[i].behavior_hints.binge_group@,
        response@[i].video_size == response.streams@[i].behavior_hints.video_size,
        match response.streams@[i].behavior_hints.filename {
            Some(name) => response@[i].filename == Some(name@),
            None => response@[i].filename is None,
        },
{
}

/// Finds the file that a request asks for.
pub fn find_stream<'a>(content_type: &str, id: &str, state: &StreamState<'a>) -> (res: Result<
    Option<&'a FileInfo>,
    AppError,
>)
    ensures
        match (found(state.scanner.index@, content_type@, id@), res) {
            (Ok(Some(file)), Ok(Some(info))) => info@ == file,
            (Ok(None), Ok(None)) => true,
            (Err(reason), Err(e)) => e.reason() == reason,
            _ => false,
        },
        index::sound(state.scanner.index@),
{
    proof {
        use_type_invariant(&state.scanner.index);
    }
    let id = text::strip_suffix(id, ".json");
    if text::same_text(content_type, "series") && text::contains_char(id.as_str(), ':') {
        let parts = text::split_chars(id.as_str(), ':');
        let ghost pieces = text::split(id@, ':');
        assert(pieces.len() == parts@.len());
        assert(forall|i: int| 0 <= i < parts@.len() ==> pieces[i] == (#[trigger] parts@[i])@);
        proof {
            text::lemma_split_nonempty(id@, ':');
        }
        let season = if parts.len() > 1 {
            text::parse_u16(&parts[1])
        } else {
            None
        };
        let episode = if parts.len() > 2 {
            text::parse_u16(&parts[2])
        } else {
            None
        };
        let season: u16 = match season {
            Some(season) => season,
            None => {
                return Err(error::invalid_path("Invalid season"));
            },
        };
        let episode: u16 = match episode {
            Some(episode) => episode,
            None => {
                return Err(error::invalid_path("Invalid episode"));
            },
        };
        let imdb_id = text::text_between(&parts[0], 0, parts[0].len());
        assert(imdb_id@ =~= pieces[0]);
        Ok(state.scanner.index.get_episode(imdb_id.as_str(), season, episode))
    } else {
        match state.scanner.index.get(id.as_str()) {
            Some(IndexEntry::Movie(file)) => Ok(Some(file)),
            Some(IndexEntry::Series(_)) => Err(
                error::invalid_path("Series requires season:episode format"),
            ),
            None => Ok(None),
        }
    }
}

/// The URL that the server is reached at.
fn base_url(config: &Config) -> (res: String)
    ensures
        res@ == server_url(*config),
{
    match &config.base_url {
        Some(url) => text::trim_end_matches(url.as_str(), '/'),
        None => {
            let mut url = "http://localhost:".to_owned();
            url.append(text::decimal_text(config.port as u64).as_str());
            url
        },
    }
}

/// Whether the text of a path is short enough for its encoding to fit in one allocation.
pub fn is_encodable(path: &MediaPath) -> (res: bool)
    ensures
        res == encodable(path),
{
    let n: usize = path.to_string_lossy().as_bytes().len();
    (n as u128 + 2) / 3 * 4 <= isize::MAX as u128
}

/// The URL of the video at a path.
pub fn stream_url(config: &Config, path: &MediaPath) -> (res: String)
    requires
        encodable(path),
    ensures
        res@ == video_url(*config, encoding::utf8_lossy(path@)),
        utf8::valid_utf8(path@) ==> res@ == video_url(*config, utf8::decode_utf8(path@)),
{
    let encoded_path = encoding::base64_encode(path.to_string_lossy().as_bytes());
    let mut url = base_url(config);
    if let Some(token) = &config.auth_token {
        url.append("/");
        url.append(token.as_str());
    }
    url.append("/video?path=");
    url.append(encoded_path.as_str());
    url
}

/// The stream of a file.
pub fn build_stream(config: &Config, file: &FileInfo, file_size: Option<u64>) -> (res: Stream)
    requires
        encodable(&file.file_path),
    ensures
        res@ == file_stream(*config, file@, file_size),
        utf8::valid_utf8(file@.file_path) ==> res@.url == video_url(
            *config,
            utf8::decode_utf8(file@.file_path),
        ),
{
    let url = stream_url(config, &file.file_path);
    let filename = file.file_path.file_name();
    let mut display = "🎞️ ".to_owned();
    display.append(file.title.as_str());
    if let Some(name) = &filename {
        display.append("\n📦 ");
        display.append(name.as_str());
    }
    Stream {
        url,
        title: display,
        name: "🏠 Lanio".to_owned(),
        behavior_hints: BehaviorHints {
            binge_group: "lanio".to_owned(),
            video_size: file_size,
            filename,
        },
    }
}

/// Answers a request for the streams of what was found.
pub fn stream_inner(config: &Config, file: Option<&FileInfo>, file_size: Option<u64>) -> (res:
    StreamResponse)
    requires
        file matches Some(file) ==> encodable(&file.file_path),
    ensures
        res@ == (match file {
            Some(file) => seq![file_stream(*config, file@, file_size)],
            None => Seq::empty(),
        }),
        file matches Some(file) ==> utf8::valid_utf8(file@.file_path) ==> res@[0].url == video_url(
            *config,
            utf8::decode_utf8(file@.file_path),
        ),
{
    let mut streams: Vec<Stream> = Vec::new();
    if let Some(file) = file {
        streams.push(build_stream(config, file, file_size));
    }
    let res = StreamResponse { streams };
    assert(res@ =~= (match file {
        Some(file) => seq![file_stream(*config, file@, file_size)],
        None => Seq::empty(),
    }));
    res
}

} // verus!

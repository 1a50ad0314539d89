//! Keeping the index in step with the media directory.

pub mod naming;
pub mod rebuild;

use crate::config::Config;
use crate::encoding;
use crate::index;
use crate::index::types;
use crate::index::types::{ContentType, FileInfo, ParsedMetadata};
use crate::index::{IndexView, MediaIndex};
use crate::metadata::{Metadata, MetadataView, TmdbClient};
use crate::paths;
use crate::paths::MediaPath;
use crate::scanner::naming::{IndexPlan, PlanView};
use crate::text;
use std::sync::Arc;
use vstd::prelude::*;
use vstd::utf8;

verus! {

/// The scanner: the index, what it takes to fill it, and whether a scan is under way.
#[derive(Debug)]
pub struct MediaScanner {
    pub index: MediaIndex,
    pub tmdb_client: Arc<TmdbClient>,
    pub config: Arc<Config>,
    pub scanning: bool,
}

/// What the file system says about a path, links followed.
#[derive(Debug, Clone, Copy)]
pub struct PathProbe {
    pub is_file: bool,
    pub is_dir: bool,
    pub exists: bool,
}

/// What happened to a path.
#[derive(Debug, Clone, Copy, PartialEq, Eq, Structural)]
pub enum EventKind {
    Create,
    Remove,
    Modify,
    Other,
}

/// What is left to do about an event once the index has dropped what is gone.
#[derive(Debug, Clone, Copy, PartialEq, Eq, Structural)]
pub enum FollowUp {
    Nothing,
    IndexFile,
    IndexDirectory,
}

/// What the file system says about a directory entry itself, links not followed.
#[derive(Debug, Clone, Copy)]
pub struct LinkMetadata {
    pub is_file: bool,
    pub is_symlink: bool,
}

/// One entry of a directory tree. The metadata is missing where it could not be read.
#[derive(Debug)]
pub struct DirEntry {
    pub path: MediaPath,
    pub link: Option<LinkMetadata>,
}

/// Whether a lower-case extension is one of a video file.
pub open spec fn video_extension(ext: Seq<char>) -> bool {
    ||| ext == "mkv"@
    ||| ext == "mp4"@
    ||| ext == "avi"@
    ||| ext == "mov"@
    ||| ext == "wmv"@
    ||| ext == "flv"@
    ||| ext == "webm"@
    ||| ext == "m4v"@
    ||| ext == "mpg"@
    ||| ext == "mpeg"@
    ||| ext == "m2ts"@
    ||| ext == "ts"@
    ||| ext == "vob"@
}

/// Whether a path has the extension of a video file, in upper or lower case.
pub open spec fn video_path(path: Seq<u8>) -> bool {
    match paths::utf8_text(paths::extension(path)) {
        Some(ext) => video_extension(encoding::lowercase(ext)),
        None => false,
    }
}

/// Whether a path without an extension in UTF-8 is no video, and one whose extension is ASCII
/// is a video exactly if that extension, with `A` to `Z` in lower case, is one of a video file.
pub open spec fn judged_by_ascii_case(path: Seq<u8>) -> bool {
    match paths::utf8_text(paths::extension(path)) {
        Some(ext) => utf8::is_ascii_chars(ext) ==> video_path(path) == video_extension(
            ext.map_values(|c: char| encoding::ascii_lower(c)),
        ),
        None => !video_path(path),
    }
}

/// Whether a path that is not there looks like a directory that went away.
pub open spec fn vanished_dir(path: Seq<u8>, exists: bool) -> bool {
    !exists && paths::extension(path) is None
}

/// The index once a path was reported removed.
pub open spec fn after_removal(index: IndexView, path: Seq<u8>, exists: bool) -> IndexView {
    if video_path(path) {
        index::purged(index, path, false)
    } else if vanished_dir(path, exists) {
        index::purged(index, path, true)
    } else {
        index
    }
}

/// The index once a path was reported modified or renamed: what is gone is dropped.
pub open spec fn after_rename(index: IndexView, path: Seq<u8>, probe: PathProbe) -> IndexView {
    if video_path(path) {
        if probe.exists {
            index
        } else {
            index::purged(index, path, false)
        }
    } else if !probe.is_dir && vanished_dir(path, probe.exists) {
        index::purged(index, path, true)
    } else {
        index
    }
}

/// What is left to do about a path that was reported created.
pub open spec fn follow_creation(path: Seq<u8>, probe: PathProbe) -> FollowUp {
    if probe.is_file && video_path(path) {
        FollowUp::IndexFile
    } else if probe.is_dir {
        FollowUp::IndexDirectory
    } else {
        FollowUp::Nothing
    }
}

/// What is left to do about a path that was reported modified or renamed.
pub open spec fn follow_rename(path: Seq<u8>, probe: PathProbe) -> FollowUp {
    if video_path(path) {
        if probe.exists {
            FollowUp::IndexFile
        } else {
            FollowUp::Nothing
        }
    } else if probe.is_dir {
        FollowUp::IndexDirectory
    } else {
        FollowUp::Nothing
    }
}

/// The index once an event was handled.
pub open spec fn after_event(
    index: IndexView,
    kind: EventKind,
    path: Seq<u8>,
    probe: PathProbe,
) -> IndexView {
    match kind {
        EventKind::Remove => after_removal(index, path, probe.exists),
        EventKind::Modify => after_rename(index, path, probe),
        EventKind::Create | EventKind::Other => index,
    }
}

/// What is left to do about an event.
pub open spec fn follow_event(kind: EventKind, path: Seq<u8>, probe: PathProbe) -> FollowUp {
    match kind {
        EventKind::Create => follow_creation(path, probe),
        EventKind::Modify => follow_rename(path, probe),
        EventKind::Remove | EventKind::Other => FollowUp::Nothing,
    }
}

/// Whether a directory entry is a video: a file or a link with the extension of one.
pub open spec fn video_entry(entry: DirEntry) -> bool {
    match entry.link {
        Some(link) => (link.is_file || link.is_symlink) && video_path(entry.path@),
        None => false,
    }
}

/// The paths of the videos among directory entries, in their order.
pub open spec fn video_files(entries: Seq<DirEntry>) -> Seq<Seq<u8>>
    decreases entries.len(),
{
    if entries.len() == 0 {
        Seq::empty()
    } else {
        let before = video_files(entries.drop_last());
        if video_entry(entries.last()) {
            before.push(entries.last().path@)
        } else {
            before
        }
    }
}

/// The bytes of each path.
pub open spec fn path_views(list: Seq<MediaPath>) -> Seq<Seq<u8>> {
    list.map_values(|p: MediaPath| p@)
}

/// What the index keeps of a video that the movie database knows.
pub open spec fn indexed_file(
    path: Seq<u8>,
    plan: PlanView,
    metadata: MetadataView,
) -> types::FileView {
    types::FileView {
        imdb_id: metadata.imdb_id,
        title: plan.title,
        year: plan.year,
        content_type: if plan.is_series {
            ContentType::Series
        } else {
            ContentType::Movie
        },
        file_path: path,
        season: plan.season,
        episode: plan.episode,
        poster: metadata.poster_url,
    }
}

/// The index with a video filed under the identifier that the movie database gave.
pub open spec fn with_video(
    index: IndexView,
    path: Seq<u8>,
    plan: PlanView,
    metadata: MetadataView,
) -> IndexView {
    let file = indexed_file(path, plan, metadata);
    let id = metadata.imdb_id;
    if plan.is_series {
        index::put(
            index,
            id,
            types::EntryView::Series(index::with_episode(index::episodes_of(index, id), file)),
        )
    } else {
        index::put(index, id, types::EntryView::Movie(file))
    }
}

/// The content of an optional answer.
pub open spec fn opt_metadata(metadata: Option<Metadata>) -> Option<MetadataView> {
    match metadata {
        Some(metadata) => Some(metadata@),
        None => None,
    }
}

/// The index once the movie database answered about a video; without an answer it stays.
pub open spec fn after_answer(
    index: IndexView,
    path: Seq<u8>,
    plan: PlanView,
    answer: Option<MetadataView>,
) -> IndexView {
    match answer {
        Some(metadata) => with_video(index, path, plan, metadata),
        None => index,
    }
}

/// Whether a series is known under `id`.
pub open spec fn is_series(index: IndexView, id: Seq<char>) -> bool {
    index::lookup(index, id) matches Some(types::EntryView::Series(_))
}

/// A filed video is served under its identifier. Nothing else comes in, and only files under
/// the same identifier can go: a movie that stood there, or the file of the same episode.
pub proof fn law_filed_video_is_served(
    index: IndexView,
    path: Seq<u8>,
    plan: PlanView,
    metadata: MetadataView,
    id: Seq<char>,
    file: types::FileView,
)
    requires
        index::sound(index),
    ensures
        index::sound(with_video(index, path, plan, metadata)),
        index::serves(
            with_video(index, path, plan, metadata),
            metadata.imdb_id,
            indexed_file(path, plan, metadata),
        ),
        index::serves(with_video(index, path, plan, metadata), id, file) ==> index::serves(
            index,
            id,
            file,
        ) || (id == metadata.imdb_id && file == indexed_file(path, plan, metadata)),
        index::serves(index, id, file) && id != metadata.imdb_id ==> index::serves(
            with_video(index, path, plan, metadata),
            id,
            file,
        ),
        index::serves(index, id, file) && plan.is_series && is_series(index, id)
            && !index::same_place(file, indexed_file(path, plan, metadata)) ==> index::serves(
            with_video(index, path, plan, metadata),
            id,
            file,
        ),
        is_series(with_video(index, path, plan, metadata), metadata.imdb_id) == plan.is_series,
        id != metadata.imdb_id ==> is_series(with_video(index, path, plan, metadata), id)
            == is_series(index, id),
{
    let after = with_video(index, path, plan, metadata);
    let new = indexed_file(path, plan, metadata);
    let new_id = metadata.imdb_id;
    let known_before = index::episodes_of(index, new_id);
    let entry = if plan.is_series {
        types::EntryView::Series(index::with_episode(known_before, new))
    } else {
        types::EntryView::Movie(new)
    };
    if index::known(index, new_id) {
        assert(index::sound_entry(index[index::place(index, new_id)].1));
    }
    index::law_with_episode(known_before, new);
    index::law_put_then_lookup(index, new_id, entry, new_id);
    index::law_put_then_lookup(index, new_id, entry, id);
    index::law_serves_what_is_known(after, new_id, new);
    index::law_serves_what_is_known(after, id, file);
    index::law_serves_what_is_known(index, id, file);
    if plan.is_series && id == new_id && index::holds(entry, file) && file != new {
        let episodes = index::with_episode(known_before, new);
        let i = choose|i: int| 0 <= i < episodes.len() && episodes[i] == file;
        assert(known_before[i] == file);
    }
}

/// A video that was reported removed is served no more; everything else is.
pub proof fn law_removed_video_is_not_served(
    index: IndexView,
    path: Seq<u8>,
    exists: bool,
    id: Seq<char>,
    file: types::FileView,
)
    requires
        video_path(path),
    ensures
        index::serves(after_removal(index, path, exists), id, file) <==> index::serves(
            index,
            id,
            file,
        ) && !paths::same_path(file.file_path, path),
{
    index::law_purge_removes_exactly(index, path, false, id, file);
}

/// What lay in a directory that went away is served no more; everything else is. It makes no
/// difference whether the directory was reported removed or renamed.
pub proof fn law_removed_directory_is_not_served(
    index: IndexView,
    path: Seq<u8>,
    probe: PathProbe,
    id: Seq<char>,
    file: types::FileView,
)
    requires
        !video_path(path),
        !probe.is_dir,
        !probe.exists,
        paths::extension(path) is None,
    ensures
        index::serves(after_removal(index, path, probe.exists), id, file) <==> index::serves(
            index,
            id,
            file,
        ) && !paths::lies_under(file.file_path, path),
        after_rename(index, path, probe) == after_removal(index, path, probe.exists),
{
    index::law_purge_removes_exactly(index, path, true, id, file);
}

/// A renamed video is served from its new path, and nothing from its old one, in whichever
/// order the old and the new path were reported.
pub proof fn law_renamed_video_is_served(
    index: IndexView,
    gone: Seq<u8>,
    probe: PathProbe,
    path: Seq<u8>,
    plan: PlanView,
    metadata: MetadataView,
    id: Seq<char>,
    file: types::FileView,
)
    requires
        index::sound(index),
        video_path(gone),
        !probe.exists,
        !paths::same_path(path, gone),
    ensures
        ({
            let old_first = with_video(after_rename(index, gone, probe), path, plan, metadata);
            let new_first = after_rename(with_video(index, path, plan, metadata), gone, probe);
            let renamed = indexed_file(path, plan, metadata);
            &&& index::serves(old_first, metadata.imdb_id, renamed)
            &&& index::serves(new_first, metadata.imdb_id, renamed)
            &&& index::serves(old_first, id, file) ==> !paths::same_path(file.file_path, gone)
            &&& index::serves(new_first, id, file) ==> !paths::same_path(file.file_path, gone)
        }),
{
    let renamed = indexed_file(path, plan, metadata);
    let dropped = after_rename(index, gone, probe);
    index::law_purge_keeps_sound(index, gone, false);
    law_filed_video_is_served(dropped, path, plan, metadata, id, file);
    index::law_purge_removes_exactly(index, gone, false, id, file);
    let added = with_video(index, path, plan, metadata);
    law_filed_video_is_served(index, path, plan, metadata, id, file);
    index::law_purge_removes_exactly(added, gone, false, id, file);
    index::law_purge_removes_exactly(added, gone, false, metadata.imdb_id, renamed);
}

/// A path is a video if the text of its extension, in lower case, is one of these.
pub proof fn law_video_path(path: Seq<u8>)
    ensures
        video_path(path) <==> (paths::utf8_text(paths::extension(path)) matches Some(ext) && seq![
            "mkv"@,
            "mp4"@,
            "avi"@,
            "mov"@,
            "wmv"@,
            "flv"@,
            "webm"@,
            "m4v"@,
            "mpg"@,
            "mpeg"@,
            "m2ts"@,
            "ts"@,
            "vob"@,
        ].contains(encoding::lowercase(ext))),
{
    let all = seq![
        "mkv"@,
        "mp4"@,
        "avi"@,
        "mov"@,
        "wmv"@,
        "flv"@,
        "webm"@,
        "m4v"@,
        "mpg"@,
        "mpeg"@,
        "m2ts"@,
        "ts"@,
        "vob"@,
    ];
    assert(all[0] == "mkv"@ && all[1] == "mp4"@ && all[2] == "avi"@ && all[3] == "mov"@ && all[4]
        == "wmv"@ && all[5] == "flv"@ && all[6] == "webm"@ && all[7] == "m4v"@ && all[8] == "mpg"@
        && all[9] == "mpeg"@ && all[10] == "m2ts"@ && all[11] == "ts"@ && all[12] == "vob"@);
}

/// A report of a removal changes nothing where the path is no video and is still there, or has
/// an extension; nor does a report of a change where the path is still there, or is a directory,
/// or has an extension and is no video.
pub proof fn law_other_reports_change_nothing(index: IndexView, path: Seq<u8>, probe: PathProbe)
    ensures
        !video_path(path) && (probe.exists || paths::extension(path) is Some) ==> after_removal(
            index,
            path,
            probe.exists,
        ) == index,
        probe.exists ==> after_rename(index, path, probe) == index,
        !video_path(path) && (probe.is_dir || paths::extension(path) is Some) ==> after_rename(
            index,
            path,
            probe,
        ) == index,
{
}

/// A video that was reported changed and is no longer there is served no more; everything else
/// is.
pub proof fn law_vanished_video_is_not_served(
    index: IndexView,
    path: Seq<u8>,
    probe: PathProbe,
    id: Seq<char>,
    file: types::FileView,
)
    requires
        video_path(path),
        !probe.exists,
    ensures
        index::serves(after_rename(index, path, probe), id, file) <==> index::serves(
            index,
            id,
            file,
        ) && !paths::same_path(file.file_path, path),
{
    index::law_purge_removes_exactly(index, path, false, id, file);
}

/// What each kind of event does to the index, and what it leaves to do.
pub proof fn law_events(index: IndexView, path: Seq<u8>, probe: PathProbe)
    ensures
        after_event(index, EventKind::Create, path, probe) == index,
        after_event(index, EventKind::Other, path, probe) == index,
        after_event(index, EventKind::Remove, path, probe) == after_removal(
            index,
            path,
            probe.exists,
        ),
        after_event(index, EventKind::Modify, path, probe) == after_rename(index, path, probe),
        follow_event(EventKind::Remove, path, probe) == FollowUp::Nothing,
        follow_event(EventKind::Other, path, probe) == FollowUp::Nothing,
        follow_event(EventKind::Create, path, probe) == FollowUp::IndexFile <==> probe.is_file
            && video_path(path),
        follow_event(EventKind::Create, path, probe) == FollowUp::IndexDirectory <==> probe.is_dir
            && !(probe.is_file && video_path(path)),
        follow_event(EventKind::Modify, path, probe) == FollowUp::IndexFile <==> probe.exists
            && video_path(path),
        follow_event(EventKind::Modify, path, probe) == FollowUp::IndexDirectory <==> probe.is_dir
            && !video_path(path),
{
}

/// No event by itself brings anything into the index.
pub proof fn law_events_add_nothing(
    index: IndexView,
    kind: EventKind,
    path: Seq<u8>,
    probe: PathProbe,
    id: Seq<char>,
    file: types::FileView,
)
    requires
        index::serves(after_event(index, kind, path, probe), id, file),
    ensures
        index::serves(index, id, file),
{
    index::law_purge_removes_exactly(index, path, false, id, file);
    index::law_purge_removes_exactly(index, path, true, id, file);
}

/// The videos of two trees, one after the other, are those of the first and then those of the
/// second. One entry is a video if it is a file or a link and its path is a video's.
pub proof fn law_video_files(a: Seq<DirEntry>, b: Seq<DirEntry>, entry: DirEntry)
    ensures
        video_files(a + b) == video_files(a) + video_files(b),
        video_files(Seq::empty()).len() == 0,
        (entry.link matches Some(link) && (link.is_file || link.is_symlink)) && video_path(
            entry.path@,
        ) ==> video_files(seq![entry]) == seq![entry.path@],
        entry.link is None || !(entry.link->0.is_file || entry.link->0.is_symlink) || !video_path(
            entry.path@,
        ) ==> video_files(seq![entry]).len() == 0,
    decreases b.len(),
{
    reveal_with_fuel(video_files, 2);
    assert(seq![entry].drop_last() =~= Seq::empty());
    if b.len() == 0 {
        assert(a + b =~= a);
        assert(video_files(a) + video_files(b) =~= video_files(a));
    } else {
        law_video_files(a, b.drop_last(), entry);
        assert((a + b).drop_last() =~= a + b.drop_last());
        assert(video_files(a + b) =~= video_files(a) + video_files(b));
    }
}

/// The bytes of a list of paths are those of each, in their order.
pub proof fn law_path_contents(list: Seq<MediaPath>)
    ensures
        path_views(list).len() == list.len(),
        forall|i: int| 0 <= i < list.len() ==> #[trigger] path_views(list)[i] == list[i]@,
{
}

/// A filed movie is what is then known under its identifier: its path, what the plan says of
/// it, and the identifier and poster that the movie database gave.
pub proof fn law_filed_movie(
    index: IndexView,
    path: Seq<u8>,
    plan: PlanView,
    metadata: MetadataView,
)
    requires
        index::sound(index),
        !plan.is_series,
    ensures
        index::lookup(with_video(index, path, plan, metadata), metadata.imdb_id) matches Some(
            types::EntryView::Movie(file),
        ) && file.imdb_id == metadata.imdb_id && file.title == plan.title && file.year == plan.year
            && file.content_type == ContentType::Movie && file.file_path == path && file.season
            == plan.season && file.episode == plan.episode && file.poster == metadata.poster_url,
{
    let file = indexed_file(path, plan, metadata);
    index::law_put_then_lookup(
        index,
        metadata.imdb_id,
        types::EntryView::Movie(file),
        metadata.imdb_id,
    );
}

/// A filed episode is then among the episodes known under its identifier, with its path, what
/// the plan says of it, and the identifier and poster that the movie database gave. The
/// episodes with another season or another number are those from before.
pub proof fn law_filed_episode(
    index: IndexView,
    path: Seq<u8>,
    plan: PlanView,
    metadata: MetadataView,
    other: types::FileView,
)
    requires
        index::sound(index),
        plan.is_series,
    ensures
        index::lookup(with_video(index, path, plan, metadata), metadata.imdb_id) matches Some(
            types::EntryView::Series(episodes),
        ) && episodes.contains(
            types::FileView {
                imdb_id: metadata.imdb_id,
                title: plan.title,
                year: plan.year,
                content_type: ContentType::Series,
                file_path: path,
                season: plan.season,
                episode: plan.episode,
                poster: metadata.poster_url,
            },
        ) && (other.season != plan.season || other.episode != plan.episode ==> (episodes.contains(
            other,
        ) <==> (index::lookup(index, metadata.imdb_id) matches Some(
            types::EntryView::Series(before),
        ) && before.contains(other)))) && (other.season == plan.season && other.episode
            == plan.episode && episodes.contains(other) ==> other.file_path == path),
{
    let id = metadata.imdb_id;
    let file = indexed_file(path, plan, metadata);
    let before = index::episodes_of(index, id);
    if index::known(index, id) {
        assert(index::sound_entry(index[index::place(index, id)].1));
    }
    index::law_with_episode(before, file);
    index::law_put_then_lookup(
        index,
        id,
        types::EntryView::Series(index::with_episode(before, file)),
        id,
    );
}

/// Filing a video changes nothing under other identifiers.
pub proof fn law_filing_keeps_other_titles(
    index: IndexView,
    path: Seq<u8>,
    plan: PlanView,
    metadata: MetadataView,
    id: Seq<char>,
)
    requires
        index::sound(index),
        id != metadata.imdb_id,
    ensures
        index::lookup(with_video(index, path, plan, metadata), id) == index::lookup(index, id),
{
    let new_id = metadata.imdb_id;
    let file = indexed_file(path, plan, metadata);
    let before = index::episodes_of(index, new_id);
    if index::known(index, new_id) {
        assert(index::sound_entry(index[index::place(index, new_id)].1));
    }
    index::law_with_episode(before, file);
    index::law_put_then_lookup(index, new_id, types::EntryView::Movie(file), id);
    index::law_put_then_lookup(
        index,
        new_id,
        types::EntryView::Series(index::with_episode(before, file)),
        id,
    );
}

/// Without an answer nothing is filed, and with one the video is.
pub proof fn law_answers(
    index: IndexView,
    path: Seq<u8>,
    plan: PlanView,
    answer: Option<Metadata>,
)
    ensures
        match answer {
            Some(metadata) => after_answer(index, path, plan, opt_metadata(answer)) == with_video(
                index,
                path,
                plan,
                metadata@,
            ),
            None => after_answer(index, path, plan, opt_metadata(answer)) == index,
        },
{
}

/// States that differ at most in the index agree in everything else.
pub proof fn law_same_but_index(a: MediaScanner, b: MediaScanner)
    ensures
        a.same_but_index(b) <==> a.tmdb_client == b.tmdb_client && a.config == b.config
            && a.scanning == b.scanning,
{
}

/// Whether a lower-case extension is one of a video file.
pub fn is_video_extension(ext: &str) -> (res: bool)
    ensures
        res == video_extension(ext@),
{
    text::same_text(ext, "mkv") || text::same_text(ext, "mp4") || text::same_text(ext, "avi")
        || text::same_text(ext, "mov") || text::same_text(ext, "wmv") || text::same_text(ext, "flv")
        || text::same_text(ext, "webm") || text::same_text(ext, "m4v") || text::same_text(
        ext,
        "mpg",
    ) || text::same_text(ext, "mpeg") || text::same_text(ext, "m2ts") || text::same_text(ext, "ts")
        || text::same_text(ext, "vob")
}

impl MediaScanner {
    pub fn new(
        index: MediaIndex,
        tmdb_client: Arc<TmdbClient>,
        config: Arc<Config>,
    ) -> (res: Self)
        ensures
            res.index == index,
            index::sound(res.index@),
            res.tmdb_client == tmdb_client,
            res.config == config,
            !res.scanning,
    {
        proof {
            use_type_invariant(&index);
        }
        MediaScanner { index, tmdb_client, config, scanning: false }
    }

    /// Whether two states of a scanner differ at most in the index.
    pub open spec fn same_but_index(self, other: Self) -> bool {
        self.tmdb_client == other.tmdb_client && self.config == other.config && self.scanning
            == other.scanning
    }

    /// Whether a path has the extension of a video file.
    pub fn is_video_file(&self, path: &MediaPath) -> (res: bool)
        ensures
            res == video_path(path@),
            judged_by_ascii_case(path@),
    {
        match path.extension() {
            Some(ext) => is_video_extension(ext.as_str().to_lowercase().as_str()),
            None => false,
        }
    }

    /// Whether a path leads to a file with the extension of a video file.
    pub fn is_existing_video_file(&self, path: &MediaPath, is_file: bool) -> (res: bool)
        ensures
            res == (is_file && video_path(path@)),
            judged_by_ascii_case(path@),
    {
        let is_video = self.is_video_file(path);
        is_file && is_video
    }

    /// What is left to do about a path that was reported created.
    pub fn handle_creation(&self, path: &MediaPath, probe: PathProbe) -> (res: FollowUp)
        ensures
            res == follow_creation(path@, probe),
            judged_by_ascii_case(path@),
    {
        if self.is_existing_video_file(path, probe.is_file) {
            FollowUp::IndexFile
        } else if probe.is_dir {
            FollowUp::IndexDirectory
        } else {
            FollowUp::Nothing
        }
    }

    /// Drops what went away with a path that was reported removed.
    pub fn handle_removal(&mut self, path: &MediaPath, exists: bool)
        ensures
            final(self).index@ == after_removal(old(self).index@, path@, exists),
            judged_by_ascii_case(path@),
            index::sound(final(self).index@),
            final(self).same_but_index(*old(self)),
    {
        proof {
            use_type_invariant(&self.index);
        }
        if self.is_video_file(path) {
            self.index.remove_by_path(path);
        } else if !exists && !path.has_extension() {
            self.index.remove_by_dir(path);
        }
    }

    /// Drops what went away with a path that was reported modified or renamed, and says what
    /// is left to do.
    pub fn handle_rename(&mut self, path: &MediaPath, probe: PathProbe) -> (res: FollowUp)
        ensures
            res == follow_rename(path@, probe),
            final(self).index@ == after_rename(old(self).index@, path@, probe),
            judged_by_ascii_case(path@),
            index::sound(final(self).index@),
            final(self).same_but_index(*old(self)),
    {
        proof {
            use_type_invariant(&self.index);
        }
        if self.is_video_file(path) {
            if probe.exists {
                FollowUp::IndexFile
            } else {
                self.index.remove_by_path(path);
                FollowUp::Nothing
            }
        } else if probe.is_dir {
            FollowUp::IndexDirectory
        } else {
            if !probe.exists && !path.has_extension() {
                self.index.remove_by_dir(path);
            }
            FollowUp::Nothing
        }
    }

    /// Handles one path of a file system event.
    pub fn handle_event(&mut self, kind: EventKind, path: &MediaPath, probe: PathProbe) -> (res:
        FollowUp)
        ensures
            res == follow_event(kind, path@, probe),
            final(self).index@ == after_event(old(self).index@, kind, path@, probe),
            kind != EventKind::Other ==> judged_by_ascii_case(path@),
            index::sound(final(self).index@),
            final(self).same_but_index(*old(self)),
    {
        proof {
            use_type_invariant(&self.index);
        }
        match kind {
            EventKind::Create => self.handle_creation(path, probe),
            EventKind::Remove => {
                self.handle_removal(path, probe.exists);
                FollowUp::Nothing
            },
            EventKind::Modify => self.handle_rename(path, probe),
            EventKind::Other => FollowUp::Nothing,
        }
    }

    /// The videos among the entries of a directory tree.
    pub fn scan_directory(&self, entries: &Vec<DirEntry>) -> (res: Vec<MediaPath>)
        ensures
            path_views(res@) == video_files(entries@),
            forall|i: int|
                0 <= i < entries@.len() ==> judged_by_ascii_case((#[trigger] entries@[i]).path@),
    {
        let mut files: Vec<MediaPath> = Vec::new();
        let mut i: usize = 0;
        assert(entries@.take(0) =~= Seq::empty());
        assert(path_views(files@) =~= video_files(entries@.take(0)));
        while i < entries.len()
            invariant
                i <= entries.len(),
                path_views(files@) == video_files(entries@.take(i as int)),
                forall|j: int|
                    0 <= j < i ==> judged_by_ascii_case((#[trigger] entries@[j]).path@),
            decreases entries.len() - i,
        {
            let entry = &entries[i];
            assert(entries@.take(i + 1).drop_last() =~= entries@.take(i as int));
            assert(entries@.take(i + 1).last() == *entry);
            let is_valid_target = match &entry.link {
                Some(link) => link.is_file || link.is_symlink,
                None => false,
            };
            let is_video = self.is_video_file(&entry.path);
            let ghost before = files@;
            if is_valid_target && is_video {
                files.push(entry.path.clone());
                assert(path_views(files@) =~= path_views(before).push(entry.path@));
            }
            i = i + 1;
        }
        assert(entries@.take(i as int) =~= entries@);
        files
    }

    /// Files a video once the movie database answered about it. Without an answer the index
    /// stays as it is, and so it says.
    pub fn index_file(&mut self, path: &MediaPath, plan: IndexPlan, metadata: Option<Metadata>) -> (
    res: bool)
        ensures
            res == metadata is Some,
            metadata is None ==> final(self).index@ == old(self).index@,
            metadata matches Some(answer) ==> final(self).index@ == with_video(
                old(self).index@,
                path@,
                plan@,
                answer@,
            ),
            final(self).index@ == after_answer(
                old(self).index@,
                path@,
                plan@,
                opt_metadata(metadata),
            ),
            index::sound(final(self).index@),
            final(self).same_but_index(*old(self)),
    {
        proof {
            use_type_invariant(&self.index);
        }
        let metadata = match metadata {
            Some(metadata) => metadata,
            None => {
                return false;
            },
        };
        let imdb_id = metadata.imdb_id.clone();
        let file = FileInfo {
            imdb_id: metadata.imdb_id,
            title: plan.title,
            year: plan.year,
            content_type: if plan.is_series {
                ContentType::Series
            } else {
                ContentType::Movie
            },
            file_path: path.clone(),
            parsed: ParsedMetadata { season: plan.season, episode: plan.episode },
            poster: metadata.poster_url,
        };
        match file.content_type {
            ContentType::Movie => {
                self.index.insert_movie(imdb_id, file);
            },
            ContentType::Series => {
                self.index.insert_episode(imdb_id, file);
            },
        }
        true
    }
}

} // verus!

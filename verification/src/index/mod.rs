//! The index of the video files that can be served, by IMDb identifier.

pub mod types;

use crate::index::types::{FileInfo, IndexEntry};
use crate::paths;
use crate::paths::MediaPath;
use crate::text;
use vstd::prelude::*;

verus! {

/// One identifier and what is known under it.
#[derive(Debug)]
struct Slot {
    id: String,
    entry: IndexEntry,
}

/// The video files that can be served, by IMDb identifier.
#[derive(Debug)]
pub struct MediaIndex {
    slots: Vec<Slot>,
}

/// The content of an index: each identifier with what is known under it.
pub type IndexView = Seq<(Seq<char>, types::EntryView)>;

/// Whether something is known under `id`.
pub open spec fn known(index: IndexView, id: Seq<char>) -> bool {
    exists|i: int| 0 <= i < index.len() && (#[trigger] index[i]).0 == id
}

/// Where `id` stands, if something is known under it.
pub open spec fn place(index: IndexView, id: Seq<char>) -> int {
    choose|i: int| 0 <= i < index.len() && (#[trigger] index[i]).0 == id
}

/// What is known under `id`.
pub open spec fn lookup(index: IndexView, id: Seq<char>) -> Option<types::EntryView> {
    if known(index, id) {
        Some(index[place(index, id)].1)
    } else {
        None
    }
}

/// The index in which `entry` is what is known under `id`.
pub open spec fn put(index: IndexView, id: Seq<char>, entry: types::EntryView) -> IndexView {
    if known(index, id) {
        index.update(place(index, id), (id, entry))
    } else {
        index.push((id, entry))
    }
}

/// Whether two files claim the same place in a series.
pub open spec fn same_place(a: types::FileView, b: types::FileView) -> bool {
    a.season == b.season && a.episode == b.episode
}

/// The episodes with `file` among them, in place of any that claims its place.
pub open spec fn with_episode(
    episodes: Seq<types::FileView>,
    file: types::FileView,
) -> Seq<types::FileView> {
    if exists|i: int| 0 <= i < episodes.len() && same_place(#[trigger] episodes[i], file) {
        episodes.update(
            choose|i: int| 0 <= i < episodes.len() && same_place(#[trigger] episodes[i], file),
            file,
        )
    } else {
        episodes.push(file)
    }
}

/// The episodes known under `id`: none where nothing or a movie is.
pub open spec fn episodes_of(index: IndexView, id: Seq<char>) -> Seq<types::FileView> {
    match lookup(index, id) {
        Some(types::EntryView::Series(episodes)) => episodes,
        _ => Seq::empty(),
    }
}

/// The file with this season and episode number, if there is one.
pub open spec fn find_episode(
    episodes: Seq<types::FileView>,
    season: u16,
    episode: u16,
) -> Option<types::FileView> {
    if exists|i: int|
        0 <= i < episodes.len() && is_episode(#[trigger] episodes[i], season, episode) {
        Some(
            episodes[choose|i: int|
                0 <= i < episodes.len() && is_episode(#[trigger] episodes[i], season, episode)],
        )
    } else {
        None
    }
}

/// Whether a file has this season and episode number.
pub open spec fn is_episode(file: types::FileView, season: u16, episode: u16) -> bool {
    file.season == Some(season) && file.episode == Some(episode)
}

/// The movies with their identifiers, in the order of the index.
pub open spec fn movies(index: IndexView) -> Seq<(Seq<char>, types::FileView)>
    decreases index.len(),
{
    if index.len() == 0 {
        Seq::empty()
    } else {
        let before = movies(index.drop_last());
        match index.last().1 {
            types::EntryView::Movie(file) => before.push((index.last().0, file)),
            types::EntryView::Series(_) => before,
        }
    }
}

/// The first episode of each series with its identifier, in the order of the index.
pub open spec fn series(index: IndexView) -> Seq<(Seq<char>, types::FileView)>
    decreases index.len(),
{
    if index.len() == 0 {
        Seq::empty()
    } else {
        let before = series(index.drop_last());
        match index.last().1 {
            types::EntryView::Movie(_) => before,
            types::EntryView::Series(episodes) => before.push((index.last().0, episodes[0])),
        }
    }
}

/// What a removal is aimed at: one file, or everything under a directory.
pub open spec fn hit(path: Seq<u8>, target: Seq<u8>, whole_dir: bool) -> bool {
    if whole_dir {
        paths::lies_under(path, target)
    } else {
        paths::same_path(path, target)
    }
}

/// The files that a removal leaves.
pub open spec fn spared(
    files: Seq<types::FileView>,
    target: Seq<u8>,
    whole_dir: bool,
) -> Seq<types::FileView>
    decreases files.len(),
{
    if files.len() == 0 {
        Seq::empty()
    } else {
        let before = spared(files.drop_last(), target, whole_dir);
        if hit(files.last().file_path, target, whole_dir) {
            before
        } else {
            before.push(files.last())
        }
    }
}

/// The index that a removal leaves: a series without episodes goes too.
pub open spec fn purged(index: IndexView, target: Seq<u8>, whole_dir: bool) -> IndexView
    decreases index.len(),
{
    if index.len() == 0 {
        Seq::empty()
    } else {
        let before = purged(index.drop_last(), target, whole_dir);
        match index.last().1 {
            types::EntryView::Movie(file) => if hit(file.file_path, target, whole_dir) {
                before
            } else {
                before.push(index.last())
            },
            types::EntryView::Series(episodes) => {
                let rest = spared(episodes, target, whole_dir);
                if rest.len() == 0 {
                    before
                } else {
                    before.push((index.last().0, types::EntryView::Series(rest)))
                }
            },
        }
    }
}

/// Whether `file` is the movie, or one of the episodes, of an entry.
pub open spec fn holds(entry: types::EntryView, file: types::FileView) -> bool {
    match entry {
        types::EntryView::Movie(movie) => movie == file,
        types::EntryView::Series(episodes) => episodes.contains(file),
    }
}

/// Whether `file` is served under `id`.
pub open spec fn serves(index: IndexView, id: Seq<char>, file: types::FileView) -> bool {
    exists|i: int|
        0 <= i < index.len() && (#[trigger] index[i]).0 == id && holds(index[i].1, file)
}

/// Whether each identifier stands once.
pub open spec fn unique_ids(index: IndexView) -> bool {
    forall|i: int, j: int|
        0 <= i < j < index.len() ==> (#[trigger] index[i]).0 != (#[trigger] index[j]).0
}

/// Whether a series has episodes, each at a place of its own.
pub open spec fn sound_entry(entry: types::EntryView) -> bool {
    match entry {
        types::EntryView::Movie(_) => true,
        types::EntryView::Series(episodes) => {
            &&& episodes.len() > 0
            &&& forall|i: int, j: int|
                0 <= i < j < episodes.len() ==> !same_place(
                    #[trigger] episodes[i],
                    #[trigger] episodes[j],
                )
        },
    }
}

/// What every index keeps to: each identifier stands once, and each series has episodes, each
/// at a place of its own.
pub open spec fn sound(index: IndexView) -> bool {
    &&& unique_ids(index)
    &&& forall|i: int| 0 <= i < index.len() ==> sound_entry((#[trigger] index[i]).1)
}

spec fn slot_view(slot: Slot) -> (Seq<char>, types::EntryView) {
    (slot.id@, slot.entry@)
}

spec fn slot_views(slots: Seq<Slot>) -> IndexView {
    slots.map_values(|s: Slot| slot_view(s))
}

/// The content of a list of files with their identifiers.
pub open spec fn pair_views(
    list: Seq<(String, FileInfo)>,
) -> Seq<(Seq<char>, types::FileView)> {
    list.map_values(|p: (String, FileInfo)| (p.0@, p.1@))
}

impl View for MediaIndex {
    type V = IndexView;

    closed spec fn view(&self) -> IndexView {
        slot_views(self.slots@)
    }
}

/// An identifier that stands at `i` stands nowhere else.
proof fn lemma_place(index: IndexView, i: int)
    requires
        unique_ids(index),
        0 <= i < index.len(),
    ensures
        known(index, index[i].0),
        place(index, index[i].0) == i,
        lookup(index, index[i].0) == Some(index[i].1),
{
    let id = index[i].0;
    let p = place(index, id);
    assert(0 <= p < index.len() && index[p].0 == id);
    if p < i {
        assert(index[p].0 != index[i].0);
    } else if i < p {
        assert(index[i].0 != index[p].0);
    }
}

/// What is put under an identifier is then known under it, and nothing else changes.
pub proof fn law_put_then_lookup(
    index: IndexView,
    id: Seq<char>,
    entry: types::EntryView,
    other: Seq<char>,
)
    requires
        sound(index),
        sound_entry(entry),
    ensures
        sound(put(index, id, entry)),
        lookup(put(index, id, entry), other) == (if other == id {
            Some(entry)
        } else {
            lookup(index, other)
        }),
{
    let after = put(index, id, entry);
    if known(index, id) {
        let p = place(index, id);
        lemma_place(index, p);
        assert forall|i: int, j: int| 0 <= i < j < after.len() implies (#[trigger] after[i]).0 != (
        #[trigger] after[j]).0 by {
            assert(index[i].0 != index[j].0);
        }
        lemma_place(after, p);
        if other != id && known(index, other) {
            let q = place(index, other);
            assert(after[q] == index[q]);
            lemma_place(after, q);
        }
        if other != id && known(after, other) {
            let q = place(after, other);
            assert(after[q] == index[q]);
        }
    } else {
        let n = index.len() as int;
        assert forall|i: int, j: int| 0 <= i < j < after.len() implies (#[trigger] after[i]).0 != (
        #[trigger] after[j]).0 by {
            assert(index[i].0 == after[i].0);
            if j < n {
                assert(index[j].0 == after[j].0);
            }
        }
        lemma_place(after, n);
        if other != id && known(index, other) {
            let q = place(index, other);
            assert(after[q] == index[q]);
            lemma_place(after, q);
        }
        if other != id && known(after, other) {
            let q = place(after, other);
            assert(after[q] == index[q]);
        }
    }
}

/// What is served under an identifier is what is known under it.
pub proof fn law_serves_what_is_known(index: IndexView, id: Seq<char>, file: types::FileView)
    requires
        sound(index),
    ensures
        serves(index, id, file) <==> match lookup(index, id) {
            Some(entry) => holds(entry, file),
            None => false,
        },
{
    if serves(index, id, file) {
        let i = choose|i: int|
            0 <= i < index.len() && (#[trigger] index[i]).0 == id && holds(index[i].1, file);
        lemma_place(index, i);
    }
    if known(index, id) {
        let p = place(index, id);
        assert(index[p].0 == id);
    }
}

/// Adding an episode leaves each place in the series to one file.
pub proof fn law_with_episode(
    episodes: Seq<types::FileView>,
    file: types::FileView,
)
    requires
        episodes.len() == 0 || sound_entry(types::EntryView::Series(episodes)),
    ensures
        sound_entry(types::EntryView::Series(with_episode(episodes, file))),
        with_episode(episodes, file).contains(file),
        forall|f: types::FileView|
            !same_place(f, file) ==> (episodes.contains(f) <==> with_episode(
                episodes,
                file,
            ).contains(f)),
        forall|f: types::FileView|
            f.season != file.season || f.episode != file.episode ==> (episodes.contains(f)
                <==> #[trigger] with_episode(episodes, file).contains(f)),
        forall|f: types::FileView|
            f.season == file.season && f.episode == file.episode && #[trigger] with_episode(
                episodes,
                file,
            ).contains(f) ==> f == file,
        forall|i: int|
            0 <= i < episodes.len() && (episodes[i].season != file.season || episodes[i].episode
                != file.episode) ==> #[trigger] with_episode(episodes, file)[i] == episodes[i],
        with_episode(episodes, file).len() == episodes.len() + (if exists|i: int|
            0 <= i < episodes.len() && (#[trigger] episodes[i]).season == file.season
                && episodes[i].episode == file.episode {
            0int
        } else {
            1int
        }),
{
    let after = with_episode(episodes, file);
    if exists|i: int| 0 <= i < episodes.len() && same_place(#[trigger] episodes[i], file) {
        let p = choose|i: int| 0 <= i < episodes.len() && same_place(#[trigger] episodes[i], file);
        assert(after[p] == file);
        assert forall|i: int, j: int| 0 <= i < j < after.len() implies !same_place(
            #[trigger] after[i],
            #[trigger] after[j],
        ) by {
            assert(!same_place(episodes[i], episodes[j]));
        }
        assert forall|f: types::FileView| !same_place(f, file) implies (episodes.contains(f)
            <==> after.contains(f)) by {
            if episodes.contains(f) {
                let i = choose|i: int| 0 <= i < episodes.len() && episodes[i] == f;
                assert(after[i] == f);
            }
            if after.contains(f) {
                let i = choose|i: int| 0 <= i < after.len() && after[i] == f;
                assert(episodes[i] == f);
            }
        }
    } else {
        assert(after[episodes.len() as int] == file);
        assert forall|f: types::FileView| !same_place(f, file) implies (episodes.contains(f)
            <==> after.contains(f)) by {
            if episodes.contains(f) {
                let i = choose|i: int| 0 <= i < episodes.len() && episodes[i] == f;
                assert(after[i] == f);
            }
            if after.contains(f) {
                let i = choose|i: int| 0 <= i < after.len() && after[i] == f;
                assert(episodes[i] == f);
            }
        }
    }
}

/// A search by season and episode finds a file of just these numbers, if there is one.
pub proof fn law_find_episode(episodes: Seq<types::FileView>, season: u16, episode: u16)
    ensures
        match find_episode(episodes, season, episode) {
            Some(file) => episodes.contains(file) && file.season == Some(season) && file.episode
                == Some(episode),
            None => forall|f: types::FileView| #[trigger]
                episodes.contains(f) ==> f.season != Some(season) || f.episode != Some(episode),
        },
{
    if find_episode(episodes, season, episode) is None {
        assert forall|f: types::FileView| #[trigger] episodes.contains(f) implies f.season != Some(
            season,
        ) || f.episode != Some(episode) by {
            let i = choose|i: int| 0 <= i < episodes.len() && episodes[i] == f;
            assert(!is_episode(episodes[i], season, episode));
        }
    }
}

/// The episodes known under an identifier are those of the series that it stands for.
pub proof fn law_episodes_of(index: IndexView, id: Seq<char>)
    ensures
        match lookup(index, id) {
            Some(types::EntryView::Series(episodes)) => episodes_of(index, id) == episodes,
            Some(types::EntryView::Movie(_)) => episodes_of(index, id).len() == 0,
            None => episodes_of(index, id).len() == 0,
        },
{
}

/// No identifier is listed twice, neither among the movies nor among the series nor in both.
pub proof fn law_titles_are_listed_once(index: IndexView, i: int, j: int)
    requires
        sound(index),
    ensures
        0 <= i < j < movies(index).len() ==> movies(index)[i].0 != movies(index)[j].0,
        0 <= i < j < series(index).len() ==> series(index)[i].0 != series(index)[j].0,
        0 <= i < movies(index).len() && 0 <= j < series(index).len() ==> movies(index)[i].0
            != series(index)[j].0,
        movies(index).len() + series(index).len() == index.len(),
    decreases index.len(),
{
    if index.len() > 0 {
        let rest = index.drop_last();
        let last = index.last();
        lemma_sound_rest(index);
        law_titles_are_listed_once(rest, i, j);
        law_titles_are_listed_once(rest, 0, 0);
        assert forall|k: int| 0 <= k < movies(rest).len() implies (#[trigger] movies(rest)[k]).0
            != last.0 by {
            let (id, file) = movies(rest)[k];
            assert(movies(rest).contains((id, file)));
            lemma_movies(rest, id, file);
            let n = choose|n: int|
                0 <= n < rest.len() && #[trigger] rest[n] == (id, types::EntryView::Movie(file));
            assert(index[n] == rest[n]);
            assert(index[n].0 != index[index.len() - 1].0);
        }
        assert forall|k: int| 0 <= k < series(rest).len() implies (#[trigger] series(rest)[k]).0
            != last.0 by {
            let (id, file) = series(rest)[k];
            assert(series(rest).contains((id, file)));
            lemma_series(rest, id, file);
            let n = choose|n: int|
                0 <= n < rest.len() && (#[trigger] rest[n]).0 == id && starts_series(
                    rest[n].1,
                    file,
                );
            assert(index[n] == rest[n]);
            assert(index[n].0 != index[index.len() - 1].0);
        }
    }
}

/// A removal of one path keeps, in their order, the files of other paths; a removal of a
/// directory keeps the files that do not lie under it.
pub proof fn law_spared_files(files: Seq<types::FileView>, target: Seq<u8>)
    ensures
        spared(files, target, false) == files.filter(
            |f: types::FileView| !paths::same_path(f.file_path, target),
        ),
        spared(files, target, true) == files.filter(
            |f: types::FileView| !paths::lies_under(f.file_path, target),
        ),
    decreases files.len(),
{
    reveal(Seq::filter);
    if files.len() > 0 {
        law_spared_files(files.drop_last(), target);
    }
}

/// The content of a list of files with identifiers is that of its pairs, in their order.
pub proof fn law_pair_contents(list: Seq<(String, FileInfo)>)
    ensures
        pair_views(list).len() == list.len(),
        forall|i: int|
            0 <= i < list.len() ==> #[trigger] pair_views(list)[i] == (list[i].0@, list[i].1@),
{
}

/// The movies of an index are the entries that are movies.
pub proof fn law_movies(index: IndexView, id: Seq<char>, file: types::FileView)
    requires
        sound(index),
    ensures
        movies(index).contains((id, file)) <==> lookup(index, id) == Some(
            types::EntryView::Movie(file),
        ),
{
    lemma_movies(index, id, file);
    if movies(index).contains((id, file)) {
        let i = choose|i: int|
            0 <= i < index.len() && #[trigger] index[i] == (id, types::EntryView::Movie(file));
        lemma_place(index, i);
    }
    if lookup(index, id) == Some(types::EntryView::Movie(file)) {
        let p = place(index, id);
        assert(index[p] == (id, types::EntryView::Movie(file)));
    }
}

/// The series of an index are the entries that are series, each by its first episode.
pub proof fn law_series(index: IndexView, id: Seq<char>, file: types::FileView)
    requires
        sound(index),
    ensures
        series(index).contains((id, file)) <==> (lookup(index, id) matches Some(
            types::EntryView::Series(episodes),
        ) && episodes[0] == file),
{
    lemma_series(index, id, file);
    if series(index).contains((id, file)) {
        let i = choose|i: int|
            0 <= i < index.len() && (#[trigger] index[i]).0 == id && starts_series(
                index[i].1,
                file,
            );
        lemma_place(index, i);
    }
    if known(index, id) {
        let p = place(index, id);
        assert(index[p].0 == id);
    }
}

spec fn starts_series(entry: types::EntryView, file: types::FileView) -> bool {
    entry matches types::EntryView::Series(episodes) && episodes[0] == file
}

proof fn lemma_movies(index: IndexView, id: Seq<char>, file: types::FileView)
    ensures
        movies(index).contains((id, file)) <==> exists|i: int|
            0 <= i < index.len() && #[trigger] index[i] == (id, types::EntryView::Movie(file)),
    decreases index.len(),
{
    if index.len() > 0 {
        let rest = index.drop_last();
        let last = index.last();
        lemma_movies(rest, id, file);
        match last.1 {
            types::EntryView::Movie(movie) => {
                lemma_push_contains(movies(rest), (last.0, movie), (id, file));
            },
            _ => {},
        }
        if movies(index).contains((id, file)) {
            if movies(rest).contains((id, file)) {
                let i = choose|i: int|
                    0 <= i < rest.len() && #[trigger] rest[i] == (
                        id,
                        types::EntryView::Movie(file),
                    );
                assert(index[i] == rest[i]);
            } else {
                assert(index[index.len() - 1] == last);
            }
        }
        if exists|i: int|
            0 <= i < index.len() && #[trigger] index[i] == (id, types::EntryView::Movie(file)) {
            let i = choose|i: int|
                0 <= i < index.len() && #[trigger] index[i] == (id, types::EntryView::Movie(file));
            if i < rest.len() {
                assert(rest[i] == index[i]);
            }
        }
    }
}

proof fn lemma_series(index: IndexView, id: Seq<char>, file: types::FileView)
    ensures
        series(index).contains((id, file)) <==> exists|i: int|
            0 <= i < index.len() && (#[trigger] index[i]).0 == id && starts_series(
                index[i].1,
                file,
            ),
    decreases index.len(),
{
    if index.len() > 0 {
        let rest = index.drop_last();
        let last = index.last();
        lemma_series(rest, id, file);
        match last.1 {
            types::EntryView::Series(episodes) => {
                lemma_push_contains(series(rest), (last.0, episodes[0]), (id, file));
            },
            _ => {},
        }
        if series(index).contains((id, file)) {
            if series(rest).contains((id, file)) {
                let i = choose|i: int|
                    0 <= i < rest.len() && (#[trigger] rest[i]).0 == id && starts_series(
                        rest[i].1,
                        file,
                    );
                assert(index[i] == rest[i]);
            } else {
                assert(index[index.len() - 1] == last);
            }
        }
        if exists|i: int|
            0 <= i < index.len() && (#[trigger] index[i]).0 == id && starts_series(
                index[i].1,
                file,
            ) {
            let i = choose|i: int|
                0 <= i < index.len() && (#[trigger] index[i]).0 == id && starts_series(
                    index[i].1,
                    file,
                );
            if i < rest.len() {
                assert(rest[i] == index[i]);
            }
        }
    }
}

/// A removal takes exactly the movies that it is aimed at off the list of movies.
pub proof fn law_purge_filters_movies(index: IndexView, target: Seq<u8>, whole_dir: bool)
    ensures
        movies(purged(index, target, whole_dir)) == movies(index).filter(
            |title: (Seq<char>, types::FileView)| !hit(title.1.file_path, target, whole_dir),
        ),
    decreases index.len(),
{
    reveal(Seq::filter);
    let keep = |title: (Seq<char>, types::FileView)| !hit(title.1.file_path, target, whole_dir);
    if index.len() > 0 {
        let rest = index.drop_last();
        let last = index.last();
        let before = purged(rest, target, whole_dir);
        law_purge_filters_movies(rest, target, whole_dir);
        match last.1 {
            types::EntryView::Movie(file) => {
                assert(movies(index).drop_last() =~= movies(rest));
                if !hit(file.file_path, target, whole_dir) {
                    assert(before.push(last).drop_last() =~= before);
                }
            },
            types::EntryView::Series(episodes) => {
                let left = spared(episodes, target, whole_dir);
                assert(before.push((last.0, types::EntryView::Series(left))).drop_last()
                    =~= before);
            },
        }
    }
}

/// A removal leaves exactly the files that it is not aimed at.
proof fn lemma_spared(files: Seq<types::FileView>, target: Seq<u8>, whole_dir: bool)
    ensures
        forall|f: types::FileView| #[trigger]
            spared(files, target, whole_dir).contains(f) <==> files.contains(f) && !hit(
                f.file_path,
                target,
                whole_dir,
            ),
        sound_entry(types::EntryView::Series(files)) && spared(files, target, whole_dir).len() > 0
            ==> sound_entry(types::EntryView::Series(spared(files, target, whole_dir))),
    decreases files.len(),
{
    let after = spared(files, target, whole_dir);
    if files.len() > 0 {
        let rest = files.drop_last();
        let before = spared(rest, target, whole_dir);
        let last = files.last();
        lemma_spared(rest, target, whole_dir);
        assert forall|f: types::FileView| #[trigger] after.contains(f) <==> files.contains(f)
            && !hit(f.file_path, target, whole_dir) by {
            assert(files =~= rest.push(last));
            lemma_push_contains(rest, last, f);
            lemma_push_contains(before, last, f);
        }
        if sound_entry(types::EntryView::Series(files)) && after.len() > 0 {
            assert forall|i: int, j: int| 0 <= i < j < after.len() implies !same_place(
                #[trigger] after[i],
                #[trigger] after[j],
            ) by {
                if rest.len() > 0 {
                    assert forall|i: int, j: int| 0 <= i < j < rest.len() implies !same_place(
                        #[trigger] rest[i],
                        #[trigger] rest[j],
                    ) by {
                        assert(!same_place(files[i], files[j]));
                    }
                }
                if j < before.len() {
                    assert(!same_place(before[i], before[j]));
                } else {
                    assert(before.contains(before[i]));
                    let k = choose|k: int| 0 <= k < rest.len() && rest[k] == before[i];
                    assert(files[k] == before[i]);
                    assert(!same_place(files[k], files[files.len() - 1]));
                }
            }
        }
    }
}

proof fn lemma_push_contains<T>(s: Seq<T>, last: T, x: T)
    ensures
        s.push(last).contains(x) <==> s.contains(x) || x == last,
{
    if s.contains(x) {
        let i = choose|i: int| 0 <= i < s.len() && s[i] == x;
        assert(s.push(last)[i] == x);
    }
    if x == last {
        assert(s.push(last)[s.len() as int] == x);
    }
    if s.push(last).contains(x) && x != last {
        let i = choose|i: int| 0 <= i < s.push(last).len() && s.push(last)[i] == x;
        assert(s[i] == x);
    }
}

proof fn lemma_push_serves(
    index: IndexView,
    slot: (Seq<char>, types::EntryView),
    id: Seq<char>,
    file: types::FileView,
)
    ensures
        serves(index.push(slot), id, file) <==> serves(index, id, file) || (slot.0 == id && holds(
            slot.1,
            file,
        )),
{
    let after = index.push(slot);
    if serves(index, id, file) {
        let i = choose|i: int|
            0 <= i < index.len() && (#[trigger] index[i]).0 == id && holds(index[i].1, file);
        assert(after[i] == index[i]);
    }
    if slot.0 == id && holds(slot.1, file) {
        assert(after[index.len() as int] == slot);
    }
    if serves(after, id, file) {
        let i = choose|i: int|
            0 <= i < after.len() && (#[trigger] after[i]).0 == id && holds(after[i].1, file);
        if i < index.len() {
            assert(index[i] == after[i]);
        }
    }
}

/// A removal takes away exactly the files that it is aimed at: the others are still served
/// under the same identifiers.
pub proof fn law_purge_removes_exactly(
    index: IndexView,
    target: Seq<u8>,
    whole_dir: bool,
    id: Seq<char>,
    file: types::FileView,
)
    ensures
        serves(purged(index, target, whole_dir), id, file) <==> serves(index, id, file) && !hit(
            file.file_path,
            target,
            whole_dir,
        ),
    decreases index.len(),
{
    if index.len() > 0 {
        let rest = index.drop_last();
        let last = index.last();
        let before = purged(rest, target, whole_dir);
        law_purge_removes_exactly(rest, target, whole_dir, id, file);
        assert(index =~= rest.push(last));
        lemma_push_serves(rest, last, id, file);
        match last.1 {
            types::EntryView::Movie(_) => {
                lemma_push_serves(before, last, id, file);
            },
            types::EntryView::Series(episodes) => {
                lemma_spared(episodes, target, whole_dir);
                let kept = spared(episodes, target, whole_dir);
                lemma_push_serves(before, (last.0, types::EntryView::Series(kept)), id, file);
                assert(kept.contains(file) <==> episodes.contains(file) && !hit(
                    file.file_path,
                    target,
                    whole_dir,
                ));
            },
        }
    }
}

/// An index without its last entry is as sound.
proof fn lemma_sound_rest(index: IndexView)
    requires
        sound(index),
        index.len() > 0,
    ensures
        sound(index.drop_last()),
{
    let rest = index.drop_last();
    assert forall|i: int, j: int| 0 <= i < j < rest.len() implies (#[trigger] rest[i]).0 != (
    #[trigger] rest[j]).0 by {
        assert(index[i].0 != index[j].0);
    }
    assert forall|i: int| 0 <= i < rest.len() implies sound_entry((#[trigger] rest[i]).1) by {
        assert(index[i] == rest[i]);
    }
}

/// A removal keeps an index sound and brings in no new identifier.
pub proof fn law_purge_keeps_sound(index: IndexView, target: Seq<u8>, whole_dir: bool)
    requires
        sound(index),
    ensures
        sound(purged(index, target, whole_dir)),
        forall|id: Seq<char>| #[trigger]
            known(purged(index, target, whole_dir), id) ==> known(index, id),
    decreases index.len(),
{
    let after = purged(index, target, whole_dir);
    if index.len() > 0 {
        let rest = index.drop_last();
        let last = index.last();
        let before = purged(rest, target, whole_dir);
        lemma_sound_rest(index);
        law_purge_keeps_sound(rest, target, whole_dir);
        assert(sound_entry(index[index.len() - 1].1));
        match last.1 {
            types::EntryView::Series(episodes) => {
                lemma_spared(episodes, target, whole_dir);
            },
            _ => {},
        }
        assert forall|i: int| 0 <= i < before.len() implies (#[trigger] before[i]).0 != last.0 by {
            assert(known(before, before[i].0));
            assert(known(rest, before[i].0));
            let k = place(rest, before[i].0);
            assert(rest[k] == index[k]);
            assert(index[k].0 != index[index.len() - 1].0);
        }
        assert forall|i: int, j: int| 0 <= i < j < after.len() implies (#[trigger] after[i]).0 != (
        #[trigger] after[j]).0 by {
            assert(after[i] == before[i]);
            if j < before.len() {
                assert(after[j] == before[j]);
            }
        }
        assert forall|i: int| 0 <= i < after.len() implies sound_entry((#[trigger] after[i]).1) by {
            if i < before.len() {
                assert(after[i] == before[i]);
            }
        }
        assert forall|id: Seq<char>| #[trigger] known(after, id) implies known(index, id) by {
            let i = place(after, id);
            if i < before.len() {
                assert(before[i].0 == id);
                assert(known(before, id));
                let k = place(rest, id);
                assert(index[k].0 == id);
            } else {
                assert(index[index.len() - 1].0 == id);
            }
        }
    }
}

/// The last entry answers for its own identifier, and the others for theirs.
proof fn lemma_push_lookup(
    index: IndexView,
    slot: (Seq<char>, types::EntryView),
    id: Seq<char>,
)
    requires
        unique_ids(index.push(slot)),
    ensures
        lookup(index.push(slot), id) == (if slot.0 == id {
            Some(slot.1)
        } else {
            lookup(index, id)
        }),
{
    let after = index.push(slot);
    let n = index.len() as int;
    assert(after[n] == slot);
    if slot.0 == id {
        lemma_place(after, n);
    } else {
        if known(index, id) {
            let p = place(index, id);
            assert(after[p] == index[p]);
            lemma_place(after, p);
        }
        if known(after, id) {
            let p = place(after, id);
            assert(index[p] == after[p]);
        }
    }
}

/// What a removal leaves of an entry: nothing of a movie that it is aimed at, nor of a series
/// whose episodes it takes all.
pub open spec fn remainder(
    entry: types::EntryView,
    target: Seq<u8>,
    whole_dir: bool,
) -> Option<types::EntryView> {
    match entry {
        types::EntryView::Movie(file) => if hit(file.file_path, target, whole_dir) {
            None
        } else {
            Some(entry)
        },
        types::EntryView::Series(episodes) => if spared(episodes, target, whole_dir).len() == 0 {
            None
        } else {
            Some(types::EntryView::Series(spared(episodes, target, whole_dir)))
        },
    }
}

/// After a removal, what is known under an identifier is what it left of what was known there.
pub proof fn law_purge_then_lookup(
    index: IndexView,
    target: Seq<u8>,
    whole_dir: bool,
    id: Seq<char>,
)
    requires
        sound(index),
    ensures
        lookup(purged(index, target, whole_dir), id) == (match lookup(index, id) {
            Some(entry) => remainder(entry, target, whole_dir),
            None => None,
        }),
    decreases index.len(),
{
    if index.len() > 0 {
        let rest = index.drop_last();
        let last = index.last();
        let before = purged(rest, target, whole_dir);
        lemma_sound_rest(index);
        law_purge_keeps_sound(rest, target, whole_dir);
        law_purge_keeps_sound(index, target, whole_dir);
        law_purge_then_lookup(rest, target, whole_dir, id);
        assert(index =~= rest.push(last));
        lemma_push_lookup(rest, last, id);
        if last.0 == id && known(rest, id) {
            let p = place(rest, id);
            assert(index[p].0 != index[index.len() - 1].0);
        }
        match remainder(last.1, target, whole_dir) {
            Some(entry) => {
                lemma_push_lookup(before, (last.0, entry), id);
            },
            None => {
                assert(known(before, id) ==> known(rest, id));
            },
        }
    }
}

/// The file at a place of a series is found by the season and episode of that place.
pub proof fn law_episode_is_found_at_its_place(
    episodes: Seq<types::FileView>,
    file: types::FileView,
    season: u16,
    episode: u16,
)
    requires
        sound_entry(types::EntryView::Series(episodes)),
        episodes.contains(file),
        is_episode(file, season, episode),
    ensures
        find_episode(episodes, season, episode) == Some(file),
{
    let k = choose|i: int| 0 <= i < episodes.len() && episodes[i] == file;
    assert(is_episode(episodes[k], season, episode));
    let i = choose|i: int|
        0 <= i < episodes.len() && is_episode(#[trigger] episodes[i], season, episode);
    if i < k {
        assert(!same_place(episodes[i], episodes[k]));
    } else if k < i {
        assert(!same_place(episodes[k], episodes[i]));
    }
}

impl MediaIndex {
    /// Every index is sound.
    #[verifier::type_invariant]
    pub open spec fn inv(self) -> bool {
        sound(self@)
    }

    /// An index of nothing.
    pub fn new() -> (res: Self)
        ensures
            res@ == IndexView::empty(),
            sound(res@),
    {
        let res = MediaIndex { slots: Vec::new() };
        assert(res@ =~= IndexView::empty());
        res
    }

    /// Forgets everything.
    pub fn clear(&mut self)
        ensures
            final(self)@ == IndexView::empty(),
            sound(final(self)@),
    {
        self.slots = Vec::new();
        assert(self@ =~= IndexView::empty());
    }

    /// Where `id` stands.
    fn find(&self, id: &str) -> (res: Option<usize>)
        ensures
            match res {
                Some(i) => i < self@.len() && self@[i as int].0 == id@ && place(self@, id@) == i
                    && known(self@, id@) && lookup(self@, id@) == Some(self@[i as int].1),
                None => !known(self@, id@),
            },
    {
        proof {
            use_type_invariant(self);
        }
        let mut i: usize = 0;
        while i < self.slots.len()
            invariant
                i <= self.slots.len(),
                sound(self@),
                forall|j: int| 0 <= j < i ==> (#[trigger] self@[j]).0 != id@,
            decreases self.slots.len() - i,
        {
            assert(self@[i as int] == slot_view(self.slots@[i as int]));
            if text::same_text(self.slots[i].id.as_str(), id) {
                proof {
                    lemma_place(self@, i as int);
                }
                return Some(i);
            }
            i = i + 1;
        }
        None
    }

    /// What is known under `id`.
    pub fn get(&self, id: &str) -> (res: Option<&IndexEntry>)
        ensures
            match res {
                Some(entry) => lookup(self@, id@) == Some(entry@),
                None => lookup(self@, id@) is None,
            },
            sound(self@),
    {
        proof {
            use_type_invariant(self);
        }
        match self.find(id) {
            Some(i) => {
                assert(self@[i as int] == slot_view(self.slots@[i as int]));
                Some(&self.slots[i].entry)
            },
            None => None,
        }
    }

    /// The file with this season and episode number of the series known under `id`.
    pub fn get_episode(&self, id: &str, season: u16, episode: u16) -> (res: Option<&FileInfo>)
        ensures
            match res {
                Some(file) => find_episode(episodes_of(self@, id@), season, episode) == Some(
                    file@,
                ),
                None => find_episode(episodes_of(self@, id@), season, episode) is None,
            },
            sound(self@),
    {
        proof {
            use_type_invariant(self);
        }
        match self.get(id) {
            Some(IndexEntry::Series(episodes)) => {
                let ghost views = types::file_views(episodes@);
                assert(sound_entry(self@[place(self@, id@)].1));
                let mut i: usize = 0;
                while i < episodes.len()
                    invariant
                        i <= episodes.len(),
                        sound(self@),
                        views == types::file_views(episodes@),
                        episodes_of(self@, id@) == views,
                        sound_entry(types::EntryView::Series(views)),
                        forall|j: int|
                            0 <= j < i ==> !is_episode(#[trigger] views[j], season, episode),
                    decreases episodes.len() - i,
                {
                    assert(views[i as int] == episodes@[i as int]@);
                    let place = &episodes[i].parsed;
                    if place.season == Some(season) && place.episode == Some(episode) {
                        proof {
                            let p = choose|j: int|
                                0 <= j < views.len() && is_episode(
                                    #[trigger] views[j],
                                    season,
                                    episode,
                                );
                            assert(is_episode(views[i as int], season, episode));
                            if p < i {
                                assert(!same_place(views[p], views[i as int]));
                            } else if i < p {
                                assert(!same_place(views[i as int], views[p]));
                            }
                        }
                        return Some(&episodes[i]);
                    }
                    i = i + 1;
                }
                None
            },
            _ => None,
        }
    }

    /// Makes `entry` what is known under `id`.
    fn replace(&mut self, id: String, entry: IndexEntry)
        requires
            sound_entry(entry@),
        ensures
            final(self)@ == put(old(self)@, id@, entry@),
            sound(final(self)@),
    {
        proof {
            use_type_invariant(&*self);
            law_put_then_lookup(self@, id@, entry@, id@);
        }
        let ghost expected = put(self@, id@, entry@);
        let found = self.find(id.as_str());
        let mut slots: Vec<Slot> = Vec::new();
        std::mem::swap(&mut slots, &mut self.slots);
        let slot = Slot { id, entry };
        match found {
            Some(i) => {
                slots.set(i, slot);
            },
            None => {
                slots.push(slot);
            },
        }
        assert(slot_views(slots@) =~= expected);
        self.slots = slots;
    }

    /// Makes a movie what is known under `imdb_id`.
    pub fn insert_movie(&mut self, imdb_id: String, file: FileInfo)
        ensures
            final(self)@ == put(old(self)@, imdb_id@, types::EntryView::Movie(file@)),
            sound(final(self)@),
    {
        self.replace(imdb_id, IndexEntry::Movie(file));
    }

    /// Adds an episode to the series known under `imdb_id`, in place of any file that claims
    /// the same season and episode. A movie known under `imdb_id` gives way to the series.
    pub fn insert_episode(&mut self, imdb_id: String, file: FileInfo)
        ensures
            final(self)@ == put(
                old(self)@,
                imdb_id@,
                types::EntryView::Series(with_episode(episodes_of(old(self)@, imdb_id@), file@)),
            ),
            sound(final(self)@),
    {
        proof {
            use_type_invariant(&*self);
            let id = imdb_id@;
            let known_before = episodes_of(self@, id);
            if known(self@, id) {
                assert(sound_entry(self@[place(self@, id)].1));
            }
            law_with_episode(known_before, file@);
            law_put_then_lookup(
                self@,
                id,
                types::EntryView::Series(with_episode(known_before, file@)),
                id,
            );
        }
        let ghost before = self@;
        let ghost expected = put(
            before,
            imdb_id@,
            types::EntryView::Series(with_episode(episodes_of(before, imdb_id@), file@)),
        );
        let found = self.find(imdb_id.as_str());
        let mut slots: Vec<Slot> = Vec::new();
        std::mem::swap(&mut slots, &mut self.slots);
        match found {
            Some(i) => {
                assert(before[i as int] == slot_view(slots@[i as int]));
                let ghost all = slots@;
                let slot = slots.remove(i);
                let known_episodes = match slot.entry {
                    IndexEntry::Series(episodes) => episodes,
                    IndexEntry::Movie(_) => Vec::new(),
                };
                assert(types::file_views(known_episodes@) =~= episodes_of(before, imdb_id@));
                let episodes = add_episode(known_episodes, file);
                slots.insert(i, Slot { id: imdb_id, entry: IndexEntry::Series(episodes) });
                assert(slots@ =~= all.update(i as int, slots@[i as int]));
            },
            None => {
                let known_episodes: Vec<FileInfo> = Vec::new();
                assert(types::file_views(known_episodes@) =~= episodes_of(before, imdb_id@));
                let episodes = add_episode(known_episodes, file);
                slots.push(Slot { id: imdb_id, entry: IndexEntry::Series(episodes) });
            },
        }
        assert(slot_views(slots@) =~= expected);
        self.slots = slots;
    }

    /// All movies with their identifiers.
    pub fn get_all_movies(&self) -> (res: Vec<(String, FileInfo)>)
        ensures
            pair_views(res@) == movies(self@),
            sound(self@),
    {
        proof {
            use_type_invariant(self);
        }
        let mut out: Vec<(String, FileInfo)> = Vec::new();
        let mut i: usize = 0;
        assert(self@.take(0) =~= IndexView::empty());
        assert(pair_views(out@) =~= movies(self@.take(0)));
        while i < self.slots.len()
            invariant
                i <= self.slots.len(),
                pair_views(out@) == movies(self@.take(i as int)),
            decreases self.slots.len() - i,
        {
            let slot = &self.slots[i];
            assert(self@.take(i + 1).drop_last() =~= self@.take(i as int));
            assert(self@.take(i + 1).last() == slot_view(*slot));
            let ghost before = out@;
            match &slot.entry {
                IndexEntry::Movie(file) => {
                    out.push((slot.id.clone(), file.clone()));
                    assert(pair_views(out@) =~= pair_views(before).push((slot.id@, file@)));
                },
                IndexEntry::Series(_) => {},
            }
            i = i + 1;
        }
        assert(self@.take(i as int) =~= self@);
        out
    }

    /// All series with their identifiers, each by its first episode.
    pub fn get_all_series(&self) -> (res: Vec<(String, FileInfo)>)
        ensures
            pair_views(res@) == series(self@),
            sound(self@),
    {
        proof {
            use_type_invariant(self);
        }
        let mut out: Vec<(String, FileInfo)> = Vec::new();
        let mut i: usize = 0;
        assert(self@.take(0) =~= IndexView::empty());
        assert(pair_views(out@) =~= series(self@.take(0)));
        while i < self.slots.len()
            invariant
                i <= self.slots.len(),
                sound(self@),
                pair_views(out@) == series(self@.take(i as int)),
            decreases self.slots.len() - i,
        {
            let slot = &self.slots[i];
            assert(self@.take(i + 1).drop_last() =~= self@.take(i as int));
            assert(self@.take(i + 1).last() == slot_view(*slot));
            assert(sound_entry(self@[i as int].1));
            let ghost before = out@;
            match &slot.entry {
                IndexEntry::Movie(_) => {},
                IndexEntry::Series(episodes) => {
                    assert(types::file_views(episodes@).len() > 0);
                    out.push((slot.id.clone(), episodes[0].clone()));
                    assert(pair_views(out@) =~= pair_views(before).push(
                        (slot.id@, types::file_views(episodes@)[0]),
                    ));
                },
            }
            i = i + 1;
        }
        assert(self@.take(i as int) =~= self@);
        out
    }

    /// Forgets the files that a removal is aimed at.
    fn purge(&mut self, target: &MediaPath, whole_dir: bool)
        ensures
            final(self)@ == purged(old(self)@, target@, whole_dir),
            sound(final(self)@),
    {
        proof {
            use_type_invariant(&*self);
            law_purge_keeps_sound(self@, target@, whole_dir);
        }
        let ghost all = self@;
        let mut slots: Vec<Slot> = Vec::new();
        std::mem::swap(&mut slots, &mut self.slots);
        let ghost source = slots@;
        let mut kept: Vec<Slot> = Vec::new();
        assert(all.take(0) =~= IndexView::empty());
        assert(slot_views(kept@) =~= purged(all.take(0), target@, whole_dir));
        for slot in it: slots.into_iter()
            invariant
                it.seq() == source,
                all == slot_views(source),
                slot_views(kept@) == purged(all.take(it.index()), target@, whole_dir),
        {
            let ghost before = kept@;
            let ghost this = slot_view(slot);
            let ghost so_far = all.take(it.index());
            let ghost next = all.take(it.index() + 1);
            assert(next.drop_last() =~= so_far);
            assert(next.last() == this);
            let Slot { id, entry } = slot;
            match entry {
                IndexEntry::Movie(file) => {
                    if !is_hit(&file.file_path, target, whole_dir) {
                        kept.push(Slot { id, entry: IndexEntry::Movie(file) });
                        assert(slot_views(kept@) =~= slot_views(before).push(this));
                    }
                },
                IndexEntry::Series(episodes) => {
                    let rest = spare(episodes, target, whole_dir);
                    if rest.len() > 0 {
                        let ghost left = (id@, types::EntryView::Series(types::file_views(rest@)));
                        kept.push(Slot { id, entry: IndexEntry::Series(rest) });
                        assert(slot_views(kept@) =~= slot_views(before).push(left));
                    }
                },
            }
            assert(slot_views(kept@) == purged(next, target@, whole_dir));
        }
        assert(all.take(source.len() as int) =~= all);
        self.slots = kept;
    }

    /// Forgets the file at `path`.
    pub fn remove_by_path(&mut self, path: &MediaPath)
        ensures
            final(self)@ == purged(old(self)@, path@, false),
            sound(final(self)@),
    {
        self.purge(path, false);
    }

    /// Forgets every file under the directory `dir`.
    pub fn remove_by_dir(&mut self, dir: &MediaPath)
        ensures
            final(self)@ == purged(old(self)@, dir@, true),
            sound(final(self)@),
    {
        self.purge(dir, true);
    }
}

/// Whether a removal is aimed at a path.
fn is_hit(path: &MediaPath, target: &MediaPath, whole_dir: bool) -> (res: bool)
    ensures
        res == hit(path@, target@, whole_dir),
{
    if whole_dir {
        path.starts_with(target)
    } else {
        path.same_path(target)
    }
}

/// The files that a removal leaves.
fn spare(files: Vec<FileInfo>, target: &MediaPath, whole_dir: bool) -> (res: Vec<FileInfo>)
    ensures
        types::file_views(res@) == spared(types::file_views(files@), target@, whole_dir),
{
    let ghost source = files@;
    let ghost all = types::file_views(source);
    let mut kept: Vec<FileInfo> = Vec::new();
    assert(all.take(0) =~= Seq::empty());
    assert(types::file_views(kept@) =~= spared(all.take(0), target@, whole_dir));
    for file in it: files.into_iter()
        invariant
            it.seq() == source,
            all == types::file_views(source),
            types::file_views(kept@) == spared(all.take(it.index()), target@, whole_dir),
    {
        let ghost before = kept@;
        let ghost this = file@;
        assert(all.take(it.index() + 1).drop_last() =~= all.take(it.index()));
        assert(all.take(it.index() + 1).last() == this);
        if !is_hit(&file.file_path, target, whole_dir) {
            kept.push(file);
            assert(types::file_views(kept@) =~= types::file_views(before).push(this));
        }
    }
    assert(all.take(source.len() as int) =~= all);
    kept
}

/// The episodes with `file` among them.
fn add_episode(known_episodes: Vec<FileInfo>, file: FileInfo) -> (res: Vec<FileInfo>)
    requires
        known_episodes@.len() == 0 || sound_entry(
            types::EntryView::Series(types::file_views(known_episodes@)),
        ),
    ensures
        types::file_views(res@) == with_episode(types::file_views(known_episodes@), file@),
{
    let mut episodes = known_episodes;
    let ghost views = types::file_views(episodes@);
    let mut i: usize = 0;
    while i < episodes.len()
        invariant
            i <= episodes.len(),
            views == types::file_views(episodes@),
            views == types::file_views(known_episodes@),
            views.len() == 0 || sound_entry(types::EntryView::Series(views)),
            forall|j: int| 0 <= j < i ==> !same_place(#[trigger] views[j], file@),
        decreases episodes.len() - i,
    {
        assert(views[i as int] == episodes@[i as int]@);
        let place = &episodes[i].parsed;
        if place.season == file.parsed.season && place.episode == file.parsed.episode {
            proof {
                let p = choose|j: int| 0 <= j < views.len() && same_place(#[trigger] views[j], file@);
                assert(same_place(views[i as int], file@));
                if i < p {
                    assert(!same_place(views[i as int], views[p]));
                }
            }
            let ghost new = file@;
            episodes.set(i, file);
            assert(types::file_views(episodes@) =~= with_episode(views, new));
            return episodes;
        }
        i = i + 1;
    }
    let ghost new = file@;
    episodes.push(file);
    assert(types::file_views(episodes@) =~= with_episode(views, new));
    episodes
}

} // verus!

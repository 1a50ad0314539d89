//! The catalogs of movies and series.

use crate::index;
use crate::index::types::{EntryView, FileInfo, FileView};
use crate::index::IndexView;
use crate::metadata::MetadataView;
use crate::paths;
use crate::paths::opt_text;
use crate::scanner;
use crate::scanner::naming::PlanView;
use crate::scanner::MediaScanner;
use crate::text;
use vstd::prelude::*;

verus! {

/// A catalog.
#[derive(Debug)]
pub struct CatalogResponse {
    pub metas: Vec<Meta>,
}

/// One title of a catalog.
#[derive(Debug)]
pub struct Meta {
    pub id: String,
    pub content_type: String,
    pub name: String,
    pub poster: Option<String>,
}

/// What a catalog is made from.
#[derive(Clone, Copy)]
pub struct CatalogState<'a> {
    pub scanner: &'a MediaScanner,
}

/// The content of a [`Meta`].
pub ghost struct MetaView {
    pub id: Seq<char>,
    pub content_type: Seq<char>,
    pub name: Seq<char>,
    pub poster: Option<Seq<char>>,
}

impl View for Meta {
    type V = MetaView;

    open spec fn view(&self) -> MetaView {
        MetaView {
            id: self.id@,
            content_type: self.content_type@,
            name: self.name@,
            poster: opt_text(self.poster),
        }
    }
}

impl View for CatalogResponse {
    type V = Seq<MetaView>;

    open spec fn view(&self) -> Seq<MetaView> {
        self.metas@.map_values(|m: Meta| m@)
    }
}

/// How a file with its identifier is listed.
pub open spec fn listed(content_type: Seq<char>, title: (Seq<char>, FileView)) -> MetaView {
    MetaView { id: title.0, content_type, name: title.1.title, poster: title.1.poster }
}

/// How files with their identifiers are listed.
pub open spec fn listing(
    content_type: Seq<char>,
    titles: Seq<(Seq<char>, FileView)>,
) -> Seq<MetaView> {
    titles.map_values(|title: (Seq<char>, FileView)| listed(content_type, title))
}

/// What a catalog lists: the movies, the series, or nothing for a catalog that does not exist.
pub open spec fn catalog(
    index: IndexView,
    content_type: Seq<char>,
    catalog_id: Seq<char>,
) -> Seq<MetaView> {
    let id = text::without_suffix(catalog_id, ".json"@);
    if content_type == "movie"@ && id == "lanio-movies"@ {
        listing("movie"@, index::movies(index))
    } else if content_type == "series"@ && id == "lanio-series"@ {
        listing("series"@, index::series(index))
    } else {
        Seq::empty()
    }
}

/// The movie catalog lists exactly the movies that the index knows.
pub proof fn law_movie_catalog(index: IndexView, meta: MetaView)
    requires
        index::sound(index),
    ensures
        catalog(index, "movie"@, "lanio-movies"@).contains(meta) <==> exists|
            id: Seq<char>,
            file: FileView,
        |
            #[trigger] listed("movie"@, (id, file)) == meta && index::lookup(index, id) == Some(
                EntryView::Movie(file),
            ),
        catalog(index, "movie"@, "lanio-movies"@).contains(meta) <==> (index::lookup(
            index,
            meta.id,
        ) matches Some(EntryView::Movie(file)) && meta.content_type == "movie"@ && meta.name
            == file.title && meta.poster == file.poster),
{
    lemma_catalog_ids();
    let titles = index::movies(index);
    let all = listing("movie"@, titles);
    if all.contains(meta) {
        let i = choose|i: int| 0 <= i < all.len() && all[i] == meta;
        let (id, file) = titles[i];
        assert(titles.contains((id, file)));
        index::law_movies(index, id, file);
        assert(listed("movie"@, (id, file)) == meta);
    }
    if exists|id: Seq<char>, file: FileView|
        #[trigger] listed("movie"@, (id, file)) == meta && index::lookup(index, id) == Some(
            EntryView::Movie(file),
        ) {
        let (id, file) = choose|id: Seq<char>, file: FileView|
            #[trigger] listed("movie"@, (id, file)) == meta && index::lookup(index, id) == Some(
                EntryView::Movie(file),
            );
        index::law_movies(index, id, file);
        let i = choose|i: int| 0 <= i < titles.len() && titles[i] == (id, file);
        assert(all[i] == meta);
    }
    if let Some(EntryView::Movie(file)) = index::lookup(index, meta.id) {
        assert(listed("movie"@, (meta.id, file)).id == meta.id);
    }
}

/// The series catalog lists exactly the series that the index knows, each by its first episode.
pub proof fn law_series_catalog(index: IndexView, meta: MetaView)
    requires
        index::sound(index),
    ensures
        catalog(index, "series"@, "lanio-series"@).contains(meta) <==> exists|
            id: Seq<char>,
            file: FileView,
        |
            #[trigger] listed("series"@, (id, file)) == meta && (index::lookup(index, id) matches Some(
                EntryView::Series(episodes),
            ) && episodes[0] == file),
        catalog(index, "series"@, "lanio-series"@).contains(meta) <==> (index::lookup(
            index,
            meta.id,
        ) matches Some(EntryView::Series(episodes)) && meta.content_type == "series"@ && meta.name
            == episodes[0].title && meta.poster == episodes[0].poster),
{
    lemma_catalog_ids();
    let titles = index::series(index);
    let all = listing("series"@, titles);
    if all.contains(meta) {
        let i = choose|i: int| 0 <= i < all.len() && all[i] == meta;
        let (id, file) = titles[i];
        assert(titles.contains((id, file)));
        index::law_series(index, id, file);
        assert(listed("series"@, (id, file)) == meta);
    }
    if exists|id: Seq<char>, file: FileView|
        #[trigger] listed("series"@, (id, file)) == meta && (index::lookup(index, id) matches Some(
            EntryView::Series(episodes),
        ) && episodes[0] == file) {
        let (id, file) = choose|id: Seq<char>, file: FileView|
            #[trigger] listed("series"@, (id, file)) == meta && (index::lookup(
                index,
                id,
            ) matches Some(EntryView::Series(episodes)) && episodes[0] == file);
        index::law_series(index, id, file);
        let i = choose|i: int| 0 <= i < titles.len() && titles[i] == (id, file);
        assert(all[i] == meta);
    }
    if let Some(EntryView::Series(episodes)) = index::lookup(index, meta.id) {
        assert(listed("series"@, (meta.id, episodes[0])).id == meta.id);
    }
}

/// The catalogs list the titles of the index one for one and in its order, each under its
/// identifier, with its kind, its title and its poster.
pub proof fn law_catalogs_list_in_order(index: IndexView)
    ensures
        ({
            let listed_movies = catalog(index, "movie"@, "lanio-movies"@);
            let listed_series = catalog(index, "series"@, "lanio-series"@);
            &&& listed_movies.len() == index::movies(index).len()
            &&& listed_series.len() == index::series(index).len()
            &&& forall|i: int|
                0 <= i < listed_movies.len() ==> (#[trigger] listed_movies[i]).content_type
                    == "movie"@ && listed_movies[i].id == index::movies(index)[i].0
                    && listed_movies[i].name == index::movies(index)[i].1.title
                    && listed_movies[i].poster == index::movies(index)[i].1.poster
            &&& forall|i: int|
                0 <= i < listed_series.len() ==> (#[trigger] listed_series[i]).content_type
                    == "series"@ && listed_series[i].id == index::series(index)[i].0
                    && listed_series[i].name == index::series(index)[i].1.title
                    && listed_series[i].poster == index::series(index)[i].1.poster
        }),
{
    lemma_catalog_ids();
}

/// No catalog lists an identifier twice.
pub proof fn law_catalogs_list_once(index: IndexView, i: int, j: int)
    requires
        index::sound(index),
        0 <= i < j,
    ensures
        j < catalog(index, "movie"@, "lanio-movies"@).len() ==> catalog(
            index,
            "movie"@,
            "lanio-movies"@,
        )[i].id != catalog(index, "movie"@, "lanio-movies"@)[j].id,
        j < catalog(index, "series"@, "lanio-series"@).len() ==> catalog(
            index,
            "series"@,
            "lanio-series"@,
        )[i].id != catalog(index, "series"@, "lanio-series"@)[j].id,
{
    lemma_catalog_ids();
    index::law_titles_are_listed_once(index, i, j);
}

/// There is no other catalog than that of movies and that of series, each with or without
/// `.json` behind its name.
pub proof fn law_other_catalogs_are_empty(
    index: IndexView,
    content_type: Seq<char>,
    catalog_id: Seq<char>,
)
    requires
        content_type != "movie"@ || (catalog_id != "lanio-movies"@ && catalog_id
            != "lanio-movies.json"@),
        content_type != "series"@ || (catalog_id != "lanio-series"@ && catalog_id
            != "lanio-series.json"@),
    ensures
        catalog(index, content_type, catalog_id).len() == 0,
{
    reveal_strlit(".json");
    reveal_strlit("lanio-movies");
    reveal_strlit("lanio-movies.json");
    reveal_strlit("lanio-series");
    reveal_strlit("lanio-series.json");
    assert("lanio-movies"@ + ".json"@ =~= "lanio-movies.json"@);
    assert("lanio-series"@ + ".json"@ =~= "lanio-series.json"@);
    if ".json"@.is_suffix_of(catalog_id) {
        assert(catalog_id.take(catalog_id.len() - 5) + ".json"@ =~= catalog_id);
    }
}

/// A movie that was just filed is in the movie catalog, under its title.
pub proof fn law_filed_movie_is_listed(
    index: IndexView,
    path: Seq<u8>,
    plan: PlanView,
    metadata: MetadataView,
)
    requires
        index::sound(index),
        !plan.is_series,
    ensures
        catalog(
            scanner::with_video(index, path, plan, metadata),
            "movie"@,
            "lanio-movies"@,
        ).contains(
            MetaView {
                id: metadata.imdb_id,
                content_type: "movie"@,
                name: plan.title,
                poster: metadata.poster_url,
            },
        ),
{
    let id = metadata.imdb_id;
    let file = scanner::indexed_file(path, plan, metadata);
    let after = scanner::with_video(index, path, plan, metadata);
    index::law_put_then_lookup(index, id, EntryView::Movie(file), id);
    law_movie_catalog(after, listed("movie"@, (id, file)));
}

/// The series of an episode that was just filed is in the series catalog.
pub proof fn law_filed_episode_is_listed(
    index: IndexView,
    path: Seq<u8>,
    plan: PlanView,
    metadata: MetadataView,
)
    requires
        index::sound(index),
        plan.is_series,
    ensures
        exists|meta: MetaView|
            #[trigger] catalog(
                scanner::with_video(index, path, plan, metadata),
                "series"@,
                "lanio-series"@,
            ).contains(meta) && meta.id == metadata.imdb_id,
{
    let id = metadata.imdb_id;
    let file = scanner::indexed_file(path, plan, metadata);
    let after = scanner::with_video(index, path, plan, metadata);
    let before = index::episodes_of(index, id);
    let episodes = index::with_episode(before, file);
    if index::known(index, id) {
        assert(index::sound_entry(index[index::place(index, id)].1));
    }
    index::law_with_episode(before, file);
    index::law_put_then_lookup(index, id, EntryView::Series(episodes), id);
    let meta = listed("series"@, (id, episodes[0]));
    law_series_catalog(after, meta);
    assert(meta.id == id);
}

/// A series is listed by the title and poster of its first episode: the one that was filed
/// first, or what was filed in its place.
pub proof fn law_series_is_listed_by_its_first_episode(
    index: IndexView,
    path: Seq<u8>,
    plan: PlanView,
    metadata: MetadataView,
)
    requires
        index::sound(index),
        plan.is_series,
    ensures
        ({
            let after = catalog(
                scanner::with_video(index, path, plan, metadata),
                "series"@,
                "lanio-series"@,
            );
            let fresh = MetaView {
                id: metadata.imdb_id,
                content_type: "series"@,
                name: plan.title,
                poster: metadata.poster_url,
            };
            match index::lookup(index, metadata.imdb_id) {
                Some(EntryView::Series(before)) => {
                    if before[0].season != plan.season || before[0].episode != plan.episode {
                        after.contains(
                            MetaView {
                                id: metadata.imdb_id,
                                content_type: "series"@,
                                name: before[0].title,
                                poster: before[0].poster,
                            },
                        )
                    } else {
                        after.contains(fresh)
                    }
                },
                _ => after.contains(fresh),
            }
        }),
{
    let id = metadata.imdb_id;
    let file = scanner::indexed_file(path, plan, metadata);
    let after = scanner::with_video(index, path, plan, metadata);
    let before = index::episodes_of(index, id);
    let episodes = index::with_episode(before, file);
    if index::known(index, id) {
        assert(index::sound_entry(index[index::place(index, id)].1));
    }
    index::law_with_episode(before, file);
    index::law_put_then_lookup(index, id, EntryView::Series(episodes), id);
    law_series_catalog(after, listed("series"@, (id, episodes[0])));
    if before.len() > 0 && !(before[0].season != plan.season || before[0].episode
        != plan.episode) {
        let k = choose|i: int| 0 <= i < episodes.len() && episodes[i] == file;
        if k > 0 {
            assert(episodes[0] != file ==> index::same_place(episodes[0], before[0]));
            assert(!index::same_place(episodes[0], episodes[k]));
        }
    }
}

/// The content of a catalog is that of its titles in their order, and that of a title its
/// fields.
pub proof fn law_catalog_content(response: CatalogResponse, i: int)
    requires
        0 <= i < response.metas@.len(),
    ensures
        response@.len() == response.metas@.len(),
        response@[i].id == response.metas@[i].id@,
        response@[i].content_type == response.metas@[i].content_type@,
        response@[i].name == response.metas@[i].name@,
        match response.metas@[i].poster {
            Some(url) => response@[i].poster == Some(url@),
            None => response@[i].poster is None,
        },
{
}

/// A file that was removed is in the movie catalog no more, and every other movie stays.
pub proof fn law_removed_movie_is_not_listed(index: IndexView, path: Seq<u8>)
    ensures
        catalog(index::purged(index, path, false), "movie"@, "lanio-movies"@) == listing(
            "movie"@,
            index::movies(index).filter(
                |title: (Seq<char>, FileView)| !paths::same_path(title.1.file_path, path),
            ),
        ),
{
    lemma_catalog_ids();
    index::law_purge_filters_movies(index, path, false);
    let keep = |title: (Seq<char>, FileView)| !paths::same_path(title.1.file_path, path);
    let spare = |title: (Seq<char>, FileView)| !index::hit(title.1.file_path, path, false);
    assert(keep =~= spare);
}

/// A request for a catalog may carry `.json` behind the catalog's name.
pub proof fn law_json_is_optional(
    index: IndexView,
    content_type: Seq<char>,
    catalog_id: Seq<char>,
)
    requires
        !".json"@.is_suffix_of(catalog_id),
    ensures
        catalog(index, content_type, catalog_id + ".json"@) == catalog(
            index,
            content_type,
            catalog_id,
        ),
{
    text::lemma_without_suffix(catalog_id, ".json"@);
}

proof fn lemma_catalog_ids()
    ensures
        text::without_suffix("lanio-movies"@, ".json"@) == "lanio-movies"@,
        text::without_suffix("lanio-series"@, ".json"@) == "lanio-series"@,
        "movie"@ != "series"@,
{
    reveal_strlit(".json");
    reveal_strlit("lanio-movies");
    reveal_strlit("lanio-series");
    reveal_strlit("movie");
    reveal_strlit("series");
    assert("movie"@.len() != "series"@.len());
    if ".json"@.is_suffix_of("lanio-movies"@) {
        assert(".json"@[4] == "lanio-movies"@.subrange(7, 12)[4]);
    }
    if ".json"@.is_suffix_of("lanio-series"@) {
        assert(".json"@[4] == "lanio-series"@.subrange(7, 12)[4]);
    }
}

/// Lists files with their identifiers.
fn list_titles(content_type: &str, titles: Vec<(String, FileInfo)>) -> (res: Vec<Meta>)
    ensures
        res@.map_values(|m: Meta| m@) == listing(content_type@, index::pair_views(titles@)),
{
    let ghost source = titles@;
    let ghost expected = listing(content_type@, index::pair_views(source));
    let mut metas: Vec<Meta> = Vec::new();
    assert(metas@.map_values(|m: Meta| m@) =~= expected.take(0));
    for title in it: titles.into_iter()
        invariant
            it.seq() == source,
            expected == listing(content_type@, index::pair_views(source)),
            metas@.map_values(|m: Meta| m@) == expected.take(it.index()),
    {
        let ghost before = metas@;
        let (imdb_id, file) = title;
        let meta = Meta {
            id: imdb_id,
            content_type: content_type.to_owned(),
            name: file.title,
            poster: file.poster,
        };
        let ghost view = meta@;
        assert(view == expected[it.index()]);
        metas.push(meta);
        assert(metas@.map_values(|m: Meta| m@) =~= before.map_values(|m: Meta| m@).push(view));
        assert(expected.take(it.index() + 1) =~= expected.take(it.index()).push(view));
    }
    assert(expected.take(source.len() as int) =~= expected);
    metas
}

/// Answers a request for a catalog.
pub fn catalog_inner(content_type: String, catalog_id: String, state: &CatalogState) -> (res:
    CatalogResponse)
    ensures
        res@ == catalog(state.scanner.index@, content_type@, catalog_id@),
        index::sound(state.scanner.index@),
{
    proof {
        use_type_invariant(&state.scanner.index);
    }
    let catalog_id = text::strip_suffix(catalog_id.as_str(), ".json");
    let is_movies = text::same_text(content_type.as_str(), "movie") && text::same_text(
        catalog_id.as_str(),
        "lanio-movies",
    );
    let is_series = text::same_text(content_type.as_str(), "series") && text::same_text(
        catalog_id.as_str(),
        "lanio-series",
    );
    let metas = if is_movies {
        list_titles("movie", state.scanner.index.get_all_movies())
    } else if is_series {
        list_titles("series", state.scanner.index.get_all_series())
    } else {
        Vec::new()
    };
    CatalogResponse { metas }
}

} // verus!

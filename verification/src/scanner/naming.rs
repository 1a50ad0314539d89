//! What a file's name and its directory's name say about what the file is.

use crate::metadata::{MetadataQuery, QueryView};
use crate::paths;
use crate::paths::{opt_text, MediaPath};
use vstd::prelude::*;

verus! {

/// What a file or directory name says.
#[derive(Debug)]
pub struct ParsedFilename {
    pub title: String,
    pub year: Option<u16>,
    pub season: Option<u16>,
    pub episode: Option<u16>,
    pub is_series: bool,
}

/// What to file a video under, and what to ask the movie database about it.
#[derive(Debug)]
pub struct IndexPlan {
    pub title: String,
    pub year: Option<u16>,
    pub season: Option<u16>,
    pub episode: Option<u16>,
    pub is_series: bool,
    pub query: MetadataQuery,
}

/// The content of a [`ParsedFilename`].
pub ghost struct ParsedView {
    pub title: Seq<char>,
    pub year: Option<u16>,
    pub season: Option<u16>,
    pub episode: Option<u16>,
    pub is_series: bool,
}

/// The content of an [`IndexPlan`].
pub ghost struct PlanView {
    pub title: Seq<char>,
    pub year: Option<u16>,
    pub season: Option<u16>,
    pub episode: Option<u16>,
    pub is_series: bool,
    pub query: QueryView,
}

impl View for ParsedFilename {
    type V = ParsedView;

    open spec fn view(&self) -> ParsedView {
        ParsedView {
            title: self.title@,
            year: self.year,
            season: self.season,
            episode: self.episode,
            is_series: self.is_series,
        }
    }
}

impl View for IndexPlan {
    type V = PlanView;

    open spec fn view(&self) -> PlanView {
        PlanView {
            title: self.title@,
            year: self.year,
            season: self.season,
            episode: self.episode,
            is_series: self.is_series,
            query: self.query@,
        }
    }
}

/// The content of an optional parsed name.
pub open spec fn opt_parsed(parsed: Option<ParsedFilename>) -> Option<ParsedView> {
    match parsed {
        Some(parsed) => Some(parsed@),
        None => None,
    }
}

/// The content of an optional plan.
pub open spec fn opt_plan(plan: Option<IndexPlan>) -> Option<PlanView> {
    match plan {
        Some(plan) => Some(plan@),
        None => None,
    }
}

/// Whether an episode takes title and year from its directory: it has no title of its own and
/// the directory has one.
pub open spec fn takes_parent_title(parsed: ParsedView, parent: Option<ParsedView>) -> bool {
    parsed.is_series && parsed.title.len() == 0 && match parent {
        Some(parent) => parent.title.len() > 0,
        None => false,
    }
}

/// The title to file a video under.
pub open spec fn chosen_title(parsed: ParsedView, parent: Option<ParsedView>) -> Seq<char> {
    if takes_parent_title(parsed, parent) {
        parent->0.title
    } else {
        parsed.title
    }
}

/// The year to file a video under: the directory's only where its title is taken too and the
/// file name has none.
pub open spec fn chosen_year(parsed: ParsedView, parent: Option<ParsedView>) -> Option<u16> {
    if takes_parent_title(parsed, parent) && parsed.year is None {
        parent->0.year
    } else {
        parsed.year
    }
}

/// The IMDb identifier that the names give: the file's own, else for an episode the
/// directory's.
pub open spec fn chosen_id(
    parsed: ParsedView,
    own_id: Option<Seq<char>>,
    parent_id: Option<Seq<char>>,
) -> Option<Seq<char>> {
    if own_id is None && parsed.is_series {
        parent_id
    } else {
        own_id
    }
}

/// The plan for a video: none without a title. An identifier in a name goes before a search by
/// title.
pub open spec fn plan(
    parsed: ParsedView,
    own_id: Option<Seq<char>>,
    parent_id: Option<Seq<char>>,
    parent: Option<ParsedView>,
) -> Option<PlanView> {
    let title = chosen_title(parsed, parent);
    let year = chosen_year(parsed, parent);
    if title.len() == 0 {
        None
    } else {
        Some(
            PlanView {
                title,
                year,
                season: parsed.season,
                episode: parsed.episode,
                is_series: parsed.is_series,
                query: match chosen_id(parsed, own_id, parent_id) {
                    Some(id) => QueryView::ByImdbId(id),
                    None => if parsed.is_series {
                        QueryView::TvShow(title, year)
                    } else {
                        QueryView::Movie(title, year)
                    },
                },
            },
        )
    }
}

/// Whether `parse` can read `name` as `view`.
pub open spec fn reads<P: Fn(&str) -> ParsedFilename>(
    parse: P,
    name: Seq<char>,
    view: ParsedView,
) -> bool {
    exists|s: &str, parsed: ParsedFilename|
        s@ == name && parsed@ == view && call_ensures(parse, (s,), parsed)
}

/// Whether `extract` can find `id` in `name`.
pub open spec fn finds<E: Fn(&str) -> Option<String>>(
    extract: E,
    name: Seq<char>,
    id: Option<Seq<char>>,
) -> bool {
    exists|s: &str, found: Option<String>|
        s@ == name && opt_text(found) == id && call_ensures(extract, (s,), found)
}

/// The name that a path is judged by: its file name, or the empty name where it has none.
pub open spec fn judged_name(path: Seq<u8>) -> Seq<char> {
    match paths::utf8_text(paths::file_name(path)) {
        Some(name) => name,
        None => Seq::empty(),
    }
}

/// Whether these are what `parse` and `extract` make of the names in `path`. The directory's
/// name is looked at only for an episode, and only for what the file's own name lacks.
pub open spec fn names_give<P: Fn(&str) -> ParsedFilename, E: Fn(&str) -> Option<String>>(
    parse: P,
    extract: E,
    path: Seq<u8>,
    parsed: ParsedView,
    own_id: Option<Seq<char>>,
    parent_id: Option<Seq<char>>,
    parent: Option<ParsedView>,
) -> bool {
    let parent_name = if parsed.is_series {
        paths::utf8_text(paths::parent_name(path))
    } else {
        None
    };
    &&& reads(parse, judged_name(path), parsed)
    &&& finds(extract, judged_name(path), own_id)
    &&& match parent_name {
        Some(name) => {
            &&& if own_id is None {
                finds(extract, name, parent_id)
            } else {
                parent_id is None
            }
            &&& if parsed.title.len() == 0 {
                parent is Some && reads(parse, name, parent->0)
            } else {
                parent is None
            }
        },
        None => parent_id is None && parent is None,
    }
}

/// Every plan has a title, and a video without a plan has none.
pub proof fn law_plan_has_a_title(
    parsed: ParsedView,
    own_id: Option<Seq<char>>,
    parent_id: Option<Seq<char>>,
    parent: Option<ParsedView>,
)
    ensures
        match plan(parsed, own_id, parent_id, parent) {
            Some(plan) => plan.title.len() > 0,
            None => parsed.title.len() == 0,
        },
{
}

/// An identifier in the file name is what the movie database is asked for, whatever else the
/// names say.
pub proof fn law_identifier_goes_before_search(
    parsed: ParsedView,
    id: Seq<char>,
    parent_id: Option<Seq<char>>,
    parent: Option<ParsedView>,
)
    ensures
        plan(parsed, Some(id), parent_id, parent) matches Some(plan) ==> plan.query
            == QueryView::ByImdbId(id),
{
}

/// What a movie's directory is called makes no difference.
pub proof fn law_movie_ignores_its_directory(
    parsed: ParsedView,
    own_id: Option<Seq<char>>,
    parent_id: Option<Seq<char>>,
    parent: Option<ParsedView>,
)
    requires
        !parsed.is_series,
    ensures
        plan(parsed, own_id, parent_id, parent) == plan(parsed, own_id, None, None),
{
}

/// A title in the file's name is the plan's, with the year beside it. An episode without one
/// goes by its directory's title, and by the directory's year where its own name has none.
/// Where neither gives a title there is no plan. Season, episode and kind are the file's own.
pub proof fn law_plan_takes_title_and_year(
    parsed: ParsedView,
    own_id: Option<Seq<char>>,
    parent_id: Option<Seq<char>>,
    parent: Option<ParsedView>,
)
    ensures
        ({
            let res = plan(parsed, own_id, parent_id, parent);
            &&& parsed.title.len() > 0 ==> (res matches Some(p) && p.title == parsed.title && p.year
                == parsed.year)
            &&& parsed.title.len() == 0 && parsed.is_series && parent is Some
                && parent->0.title.len() > 0 ==> (res matches Some(p) && p.title == parent->0.title
                && (parsed.year is Some ==> p.year == parsed.year) && (parsed.year is None
                ==> p.year == parent->0.year))
            &&& parsed.title.len() == 0 && (!parsed.is_series || parent is None
                || parent->0.title.len() == 0) ==> res is None
            &&& res matches Some(p) ==> p.season == parsed.season && p.episode == parsed.episode
                && p.is_series == parsed.is_series
        }),
{
}

/// The movie database is asked for the identifier in the file's name, else for an episode the
/// one in the directory's. Without an identifier an episode is searched for as a series and
/// anything else as a movie, by exactly the plan's own title and year, so never by no title.
pub proof fn law_plan_asks_for_what_it_files(
    parsed: ParsedView,
    own_id: Option<Seq<char>>,
    parent_id: Option<Seq<char>>,
    parent: Option<ParsedView>,
)
    requires
        plan(parsed, own_id, parent_id, parent) is Some,
    ensures
        ({
            let p = plan(parsed, own_id, parent_id, parent)->0;
            &&& own_id matches Some(id) ==> p.query == QueryView::ByImdbId(id)
            &&& own_id is None && p.is_series && parent_id is Some ==> p.query
                == QueryView::ByImdbId(parent_id->0)
            &&& own_id is None && p.is_series && parent_id is None ==> p.query == QueryView::TvShow(
                p.title,
                p.year,
            )
            &&& own_id is None && !p.is_series ==> p.query == QueryView::Movie(p.title, p.year)
            &&& p.query matches QueryView::TvShow(title, _) ==> title.len() > 0
            &&& p.query matches QueryView::Movie(title, _) ==> title.len() > 0
        }),
{
}

/// With readers that are functions of the name, a file's plan comes from its own name and, for
/// an episode, from its directory's name, just as if both were always read.
pub proof fn law_plan_comes_from_the_names<
    P: Fn(&str) -> ParsedFilename,
    E: Fn(&str) -> Option<String>,
>(
    parse: P,
    extract: E,
    read: spec_fn(Seq<char>) -> ParsedView,
    find: spec_fn(Seq<char>) -> Option<Seq<char>>,
    path: Seq<u8>,
    parsed: ParsedView,
    own_id: Option<Seq<char>>,
    parent_id: Option<Seq<char>>,
    parent: Option<ParsedView>,
)
    requires
        forall|s: &str, out: ParsedFilename| #[trigger]
            call_ensures(parse, (s,), out) ==> out@ == read(s@),
        forall|s: &str, out: Option<String>| #[trigger]
            call_ensures(extract, (s,), out) ==> opt_text(out) == find(s@),
        names_give(parse, extract, path, parsed, own_id, parent_id, parent),
    ensures
        ({
            let res = plan(parsed, own_id, parent_id, parent);
            let name = paths::utf8_text(paths::file_name(path));
            let dir = paths::utf8_text(paths::parent_name(path));
            match (name, dir) {
                (Some(n), Some(d)) => res == plan(read(n), find(n), find(d), Some(read(d))),
                (Some(n), None) => res == plan(read(n), find(n), None, None),
                (None, Some(d)) => res == plan(
                    read(Seq::empty()),
                    find(Seq::empty()),
                    find(d),
                    Some(read(d)),
                ),
                (None, None) => res == plan(read(Seq::empty()), find(Seq::empty()), None, None),
            }
        }),
{
}

/// The content of what a name says, and of a plan, is the fields of each; that of an optional
/// one is there where that one is.
pub proof fn law_contents(parsed: ParsedFilename, planned: IndexPlan)
    ensures
        parsed@.title == parsed.title@,
        parsed@.year == parsed.year,
        parsed@.season == parsed.season,
        parsed@.episode == parsed.episode,
        parsed@.is_series == parsed.is_series,
        planned@.title == planned.title@,
        planned@.year == planned.year,
        planned@.season == planned.season,
        planned@.episode == planned.episode,
        planned@.is_series == planned.is_series,
        planned@.query == planned.query@,
        opt_parsed(Some(parsed)) == Some(parsed@),
        opt_parsed(None) is None,
        opt_plan(Some(planned)) == Some(planned@),
        opt_plan(None) is None,
{
}

/// The plan for a video whose names have been read.
pub fn make_plan(
    parsed: ParsedFilename,
    own_id: Option<String>,
    parent_id: Option<String>,
    parent: Option<ParsedFilename>,
) -> (res: Option<IndexPlan>)
    ensures
        opt_plan(res) == plan(parsed@, opt_text(own_id), opt_text(parent_id), opt_parsed(parent)),
{
    let mut title = parsed.title;
    let mut year = parsed.year;
    let mut imdb_id = own_id;
    if parsed.is_series {
        if imdb_id.is_none() {
            imdb_id = parent_id;
        }
        if title.as_str().is_empty() {
            if let Some(parent_parsed) = parent {
                if !parent_parsed.title.as_str().is_empty() {
                    title = parent_parsed.title;
                    if year.is_none() {
                        year = parent_parsed.year;
                    }
                }
            }
        }
    }
    if title.as_str().is_empty() {
        return None;
    }
    let query = match imdb_id {
        Some(id) => MetadataQuery::ByImdbId(id),
        None => if parsed.is_series {
            MetadataQuery::TvShow { title: title.clone(), year }
        } else {
            MetadataQuery::Movie { title: title.clone(), year }
        },
    };
    Some(
        IndexPlan {
            title,
            year,
            season: parsed.season,
            episode: parsed.episode,
            is_series: parsed.is_series,
            query,
        },
    )
}

/// The plan for the video at `path`, whose names `parse_filename` and `extract_imdb_id` read.
pub fn plan_file<P: Fn(&str) -> ParsedFilename, E: Fn(&str) -> Option<String>>(
    path: &MediaPath,
    parse_filename: P,
    extract_imdb_id: E,
) -> (res: Option<IndexPlan>)
    requires
        forall|name: &str| call_requires(parse_filename, (name,)),
        forall|name: &str| call_requires(extract_imdb_id, (name,)),
    ensures
        exists|
            parsed: ParsedView,
            own_id: Option<Seq<char>>,
            parent_id: Option<Seq<char>>,
            parent: Option<ParsedView>,
        |
            #[trigger] names_give(
                parse_filename,
                extract_imdb_id,
                path@,
                parsed,
                own_id,
                parent_id,
                parent,
            ) && opt_plan(res) == plan(parsed, own_id, parent_id, parent),
{
    let file_name = match path.file_name() {
        Some(name) => name,
        None => String::new(),
    };
    let name = file_name.as_str();
    let parsed = parse_filename(name);
    let own_id = extract_imdb_id(name);
    let ghost parsed_view = parsed@;
    let ghost own_view = opt_text(own_id);
    assert(reads(parse_filename, judged_name(path@), parsed_view)) by {
        assert(name@ == judged_name(path@));
    }
    assert(finds(extract_imdb_id, judged_name(path@), own_view)) by {
        assert(name@ == judged_name(path@));
    }
    let mut parent_id: Option<String> = None;
    let mut parent: Option<ParsedFilename> = None;
    if parsed.is_series {
        if let Some(parent_name) = path.parent_name() {
            let dir = parent_name.as_str();
            if own_id.is_none() {
                let found = extract_imdb_id(dir);
                assert(finds(extract_imdb_id, parent_name@, opt_text(found))) by {
                    assert(dir@ == parent_name@);
                }
                parent_id = found;
            }
            if parsed.title.as_str().is_empty() {
                let read = parse_filename(dir);
                assert(reads(parse_filename, parent_name@, read@)) by {
                    assert(dir@ == parent_name@);
                }
                parent = Some(read);
            }
        }
    }
    proof {
        assert(names_give(
            parse_filename,
            extract_imdb_id,
            path@,
            parsed_view,
            own_view,
            opt_text(parent_id),
            opt_parsed(parent),
        ));
    }
    make_plan(parsed, own_id, parent_id, parent)
}

} // verus!

//! What is asked of the movie database, and what it answers.

use crate::paths::opt_text;
use vstd::prelude::*;

verus! {

/// Where and as whom to reach the movie database.
#[derive(Debug)]
pub struct TmdbClient {
    pub api_key: String,
    pub base_url: String,
    pub image_base_url: String,
}

impl TmdbClient {
    pub fn new(api_key: String, base_url: String, image_base_url: String) -> (res: Self)
        ensures
            res.api_key == api_key,
            res.base_url == base_url,
            res.image_base_url == image_base_url,
    {
        TmdbClient { api_key, base_url, image_base_url }
    }
}

/// One question to the movie database.
#[derive(Debug)]
pub enum MetadataQuery {
    /// The title with this IMDb identifier.
    ByImdbId(String),
    /// The series that goes by this title.
    TvShow { title: String, year: Option<u16> },
    /// The movie that goes by this title.
    Movie { title: String, year: Option<u16> },
}

/// What the movie database knows of a title.
#[derive(Debug)]
pub struct Metadata {
    pub imdb_id: String,
    pub poster_url: Option<String>,
}

/// The content of a [`MetadataQuery`].
pub ghost enum QueryView {
    ByImdbId(Seq<char>),
    TvShow(Seq<char>, Option<u16>),
    Movie(Seq<char>, Option<u16>),
}

/// The content of a [`Metadata`].
pub ghost struct MetadataView {
    pub imdb_id: Seq<char>,
    pub poster_url: Option<Seq<char>>,
}

impl View for MetadataQuery {
    type V = QueryView;

    open spec fn view(&self) -> QueryView {
        match self {
            MetadataQuery::ByImdbId(id) => QueryView::ByImdbId(id@),
            MetadataQuery::TvShow { title, year } => QueryView::TvShow(title@, *year),
            MetadataQuery::Movie { title, year } => QueryView::Movie(title@, *year),
        }
    }
}

impl View for Metadata {
    type V = MetadataView;

    open spec fn view(&self) -> MetadataView {
        MetadataView { imdb_id: self.imdb_id@, poster_url: opt_text(self.poster_url) }
    }
}

/// The content of a question is its kind with what it asks for, and that of an answer its
/// fields.
pub proof fn law_question_and_answer(text: String, year: Option<u16>, answer: Metadata)
    ensures
        MetadataQuery::ByImdbId(text)@ == QueryView::ByImdbId(text@),
        (MetadataQuery::TvShow { title: text, year })@ == QueryView::TvShow(text@, year),
        (MetadataQuery::Movie { title: text, year })@ == QueryView::Movie(text@, year),
        answer@.imdb_id == answer.imdb_id@,
        match answer.poster_url {
            Some(url) => answer@.poster_url == Some(url@),
            None => answer@.poster_url is None,
        },
{
}

} // verus!

//! What the index keeps of each video file.

use crate::paths::{opt_text, MediaPath};
use vstd::prelude::*;

verus! {

/// Whether a file is a movie or an episode of a series.
#[derive(Debug, Clone, Copy, PartialEq, Eq, Structural)]
pub enum ContentType {
    Movie,
    Series,
}

/// The place of an episode in its series, as far as the file name tells.
#[derive(Debug, Clone, Copy)]
pub struct ParsedMetadata {
    pub season: Option<u16>,
    pub episode: Option<u16>,
}

/// One video file.
#[derive(Debug)]
pub struct FileInfo {
    pub imdb_id: String,
    pub title: String,
    pub year: Option<u16>,
    pub content_type: ContentType,
    pub file_path: MediaPath,
    pub parsed: ParsedMetadata,
    pub poster: Option<String>,
}

/// What is known under one IMDb identifier: a movie, or the episodes of a series.
#[derive(Debug)]
pub enum IndexEntry {
    Movie(FileInfo),
    Series(Vec<FileInfo>),
}

/// The content of a [`FileInfo`].
pub ghost struct FileView {
    pub imdb_id: Seq<char>,
    pub title: Seq<char>,
    pub year: Option<u16>,
    pub content_type: ContentType,
    pub file_path: Seq<u8>,
    pub season: Option<u16>,
    pub episode: Option<u16>,
    pub poster: Option<Seq<char>>,
}

/// The content of an [`IndexEntry`].
pub ghost enum EntryView {
    Movie(FileView),
    Series(Seq<FileView>),
}

impl View for FileInfo {
    type V = FileView;

    open spec fn view(&self) -> FileView {
        FileView {
            imdb_id: self.imdb_id@,
            title: self.title@,
            year: self.year,
            content_type: self.content_type,
            file_path: self.file_path@,
            season: self.parsed.season,
            episode: self.parsed.episode,
            poster: opt_text(self.poster),
        }
    }
}

impl Clone for FileInfo {
    fn clone(&self) -> (res: Self)
        ensures
            res@ == self@,
    {
        let poster = match &self.poster {
            Some(url) => Some(url.clone()),
            None => None,
        };
        FileInfo {
            imdb_id: self.imdb_id.clone(),
            title: self.title.clone(),
            year: self.year,
            content_type: self.content_type,
            file_path: self.file_path.clone(),
            parsed: self.parsed,
            poster,
        }
    }
}

/// The contents of a list of files.
pub open spec fn file_views(files: Seq<FileInfo>) -> Seq<FileView> {
    files.map_values(|f: FileInfo| f@)
}

/// The content of a file's record is its fields.
pub proof fn law_file_content(file: FileInfo)
    ensures
        file@.imdb_id == file.imdb_id@,
        file@.title == file.title@,
        file@.year == file.year,
        file@.content_type == file.content_type,
        file@.file_path == file.file_path@,
        file@.season == file.parsed.season,
        file@.episode == file.parsed.episode,
        file@.poster is Some == file.poster is Some,
        file.poster matches Some(url) ==> file@.poster == Some(url@),
{
}

/// The content of an entry is that of its movie, or of its episodes in their order.
pub proof fn law_entry_content(file: FileInfo, episodes: Vec<FileInfo>)
    ensures
        IndexEntry::Movie(file)@ == EntryView::Movie(file@),
        IndexEntry::Series(episodes)@ matches EntryView::Series(files) && files.len()
            == episodes@.len() && forall|i: int|
            0 <= i < files.len() ==> #[trigger] files[i] == episodes@[i]@,
{
}

impl View for IndexEntry {
    type V = EntryView;

    open spec fn view(&self) -> EntryView {
        match self {
            IndexEntry::Movie(file) => EntryView::Movie(file@),
            IndexEntry::Series(episodes) => EntryView::Series(file_views(episodes@)),
        }
    }
}

} // verus!

use vstd::prelude::*;

verus! {

/// A rectangular region of one rendered line that activates a hyperlink.
/// Coordinates are display-width columns, not byte or char offsets.
pub struct LinkRegion {
    pub url: String,
    pub line_index: usize,
    pub x_start: usize,
    pub x_end: usize,
}

impl Clone for LinkRegion {
    fn clone(&self) -> (r: Self)
        ensures
            r.url@ == self.url@,
            r.line_index == self.line_index,
            r.x_start == self.x_start,
            r.x_end == self.x_end,
    {
        LinkRegion {
            url: self.url.clone(),
            line_index: self.line_index,
            x_start: self.x_start,
            x_end: self.x_end,
        }
    }
}

/// Metadata extracted from a fetched page.
pub struct PageMetadata {
    pub title: String,
}

/// The interaction mode a tab is in.
#[derive(Clone, Copy, PartialEq, Eq, Structural, Debug)]
pub enum InputMode {
    Normal,
    Editing,
    Visual,
    Search,
}

/// An anchor/cursor selection over (line, character) coordinates.
/// The endpoints are unordered: either one may come first in the buffer.
#[derive(Clone, Copy, PartialEq, Eq, Structural, Debug)]
pub struct Selection {
    pub start_line: usize,
    pub start_char: usize,
    pub end_line: usize,
    pub end_char: usize,
}

/// One occurrence of the search query: char offsets into a line's text.
#[derive(Clone, Copy, PartialEq, Eq, Structural, Debug)]
pub struct SearchMatch {
    pub line_index: usize,
    pub start_char: usize,
    pub end_char: usize,
}

/// The live search: the query, all its matches, and which one is current.
/// `current_match_index` is meaningful only while `matches` is non-empty.
pub struct SearchState {
    pub query: String,
    pub matches: Vec<SearchMatch>,
    pub current_match_index: usize,
}

/// Progress of a file download shown in a tab.
#[derive(PartialEq, Eq, Debug)]
pub enum DownloadStatus {
    Active,
    Completed,
    Failed(String),
}

/// State of a download owned by a tab.
pub struct Download {
    pub id: usize,
    pub filename: String,
    pub bytes_downloaded: u64,
    pub total_size: Option<u64>,
    pub status: DownloadStatus,
}

/// A pending "download this file?" question.
pub struct DownloadPrompt {
    pub url: String,
}

/// The visible window onto the line buffer.
#[derive(Clone, Copy, PartialEq, Eq, Structural, Debug)]
pub struct Viewport {
    pub scroll_offset: usize,
    pub height: usize,
}

} // verus!

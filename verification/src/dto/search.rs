//! Records of the search surface.

use vstd::prelude::*;

verus! {

/// The free search parameters a client may pass.
pub struct SearchQuery {
    pub q: Option<String>,
    pub title: Option<String>,
    pub author: Option<String>,
    pub publisher: Option<String>,
    pub isbn: Option<String>,
}

/// A book row as handed to clients by the search surface.
pub struct SearchBookDTO {
    pub book_id: i32,
    pub title: String,
    pub published_date: Option<String>,
    pub isbn: Option<String>,
    pub file_type: Option<String>,
    pub file_path: Option<String>,
    pub cover_image_path: Option<String>,
}

/// An author row as handed to clients by the search surface.
pub struct AuthorDTO {
    pub author_id: i32,
    pub name: String,
}

} // verus!

//! Records of the bookmark surface.

use vstd::prelude::*;

verus! {

/// A bookmark as handed to clients.
pub struct BookmarkDTO {
    pub bookmark_id: Option<i32>,
    pub user_id: i32,
    pub book_id: i32,
    pub chapter_title: Option<String>,
    pub page_number: Option<i32>,
    pub position: String,
    pub created_at: Option<String>,
}

/// A new bookmark as handed in by clients.
pub struct NewBookmarkDTO {
    pub book_id: i32,
    pub chapter_title: Option<String>,
    pub page_number: Option<i32>,
    pub position: String,
}

/// The query selecting one book's bookmarks.
pub struct BookQueryParams {
    pub book_id: i32,
}

} // verus!

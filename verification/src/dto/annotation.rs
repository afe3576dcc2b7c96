//! Records of the annotation surface.

use vstd::prelude::*;

verus! {

/// An annotation as handed to clients.
pub struct AnnotationDTO {
    pub annotation_id: Option<i32>,
    pub user_id: i32,
    pub book_id: i32,
    pub chapter_title: Option<String>,
    pub start_position: String,
    pub end_position: String,
    pub highlighted_text: Option<String>,
    pub note: Option<String>,
    pub color: Option<String>,
    pub created_at: Option<String>,
    pub updated_at: Option<String>,
}

/// A new annotation as handed in by clients.
pub struct NewAnnotationDTO {
    pub book_id: i32,
    pub chapter_title: Option<String>,
    pub start_position: String,
    pub end_position: String,
    pub highlighted_text: Option<String>,
    pub note: Option<String>,
    pub color: Option<String>,
}

/// The fields of an annotation a client may change.
pub struct UpdateAnnotationDTO {
    pub chapter_title: Option<String>,
    pub start_position: Option<String>,
    pub end_position: Option<String>,
    pub highlighted_text: Option<String>,
    pub note: Option<String>,
    pub color: Option<String>,
}

/// The query selecting one book's annotations.
pub struct BookQueryParams {
    pub book_id: i32,
}

} // verus!

//! Records of the reading-progress surface.

use vstd::prelude::*;

verus! {

/// The query selecting one book's reading progress.
pub struct BookQueryParams {
    pub book_id: i32,
}

} // verus!

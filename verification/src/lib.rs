//! Verified core of a personal e-book library service.
//!
//! The centrepiece is the e-book content pipeline: opening a packaged
//! container, extracting bibliographic metadata and a cover image, and
//! rendering the whole book into one self-contained HTML document with
//! every resolvable image reference inlined.

pub mod authentication;
pub mod bindings;
pub mod container;
pub mod cover;
pub mod dto;
pub mod errors;
pub mod manifest;
pub mod markup;
pub mod metadata;
pub mod paths;
pub mod render;
pub mod scanner;
pub mod text;
pub mod token;

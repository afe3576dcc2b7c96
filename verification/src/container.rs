//! The container reader: an open archive handle together with the
//! manifest model parsed from its package document.

use vstd::prelude::*;
use crate::bindings;
use crate::errors::{OpenError, ReadError};
use crate::manifest::Manifest;

verus! {

/// One open container: the archive handle and its manifest model.
pub struct Container {
    pub handle: rbook::Epub,
    pub manifest: Manifest,
}

impl Container {
    /// Opens the container at `path` and parses its package document
    /// into the manifest model. Fails only when the archive cannot be
    /// opened or is not a valid package.
    pub fn open(path: &str) -> (r: Result<Container, OpenError>) {
        match bindings::open_epub(path) {
            Err(e) => Err(e),
            Ok(handle) => {
                let manifest = bindings::manifest_model(&handle);
                Ok(Container { handle, manifest })
            },
        }
    }

    /// Decodes the bytes of the entry with the given identifier as text.
    pub fn read_text(&self, id: &str) -> (r: Result<String, ReadError>) {
        bindings::read_text(&self.handle, id)
    }

    /// The raw bytes of the resource at the given location.
    pub fn read_bytes(&self, location: &str) -> (r: Result<Vec<u8>, ReadError>) {
        bindings::read_bytes(&self.handle, location)
    }
}

} // verus!

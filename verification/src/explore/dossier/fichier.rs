use vstd::prelude::*;

use crate::fic::{FileMeta, Stamp};
use crate::text::{file_name, path_file_name};

verus! {

/// A file found by an [`crate::explore::Explore`].
pub struct Fichier {
    pub modify: Stamp,
    pub len: u64,
    pub name: String,
}

impl Fichier {
    /// The file at `path` as seen through its metadata; nothing when the
    /// metadata could not be read.
    pub fn new(path: &str, meta: Option<FileMeta>) -> (r: Option<Fichier>)
        requires
            file_name(path@) is Some,
        ensures
            meta is None ==> r is None,
            meta is Some ==> r is Some && r->0.name@ == file_name(path@)->0 && r->0.len == meta->0.len
                && r->0.modify == meta->0.modify,
    {
        let name = match path_file_name(path) {
            Some(n) => n,
            None => String::new(),
        };
        match meta {
            None => None,
            Some(m) => Some(Fichier { modify: m.modify, len: m.len, name }),
        }
    }
}

} // verus!

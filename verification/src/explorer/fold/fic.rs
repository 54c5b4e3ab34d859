use vstd::prelude::*;

use crate::fic::{FileMeta, Stamp};
use crate::text::{file_name, path_file_name};

verus! {

/// A file compared by its full modification time.
pub struct Fic {
    pub modify: Stamp,
    pub len: u64,
    pub name: String,
}

/// Result of comparing a source file with a destination file.
#[derive(Clone, Copy)]
pub enum FicComp {
    Same,
    SizeChange(u64, u64),
    DateChange(Stamp, Stamp),
}

/// The comparison: a size difference first; then, for a non-empty source,
/// any difference of the modification times; else the same.
pub open spec fn compare(a: Fic, b: Fic) -> FicComp {
    if a.len != b.len {
        FicComp::SizeChange(a.len, b.len)
    } else if a.len != 0 && a.modify != b.modify {
        FicComp::DateChange(a.modify, b.modify)
    } else {
        FicComp::Same
    }
}

impl Fic {
    /// The file at `path` as seen through its metadata; nothing when the
    /// metadata could not be read.
    pub fn new(path: &str, meta: Option<FileMeta>) -> (r: Option<Fic>)
        requires
            file_name(path@) is Some,
        ensures
            meta is None ==> r is None,
            meta is Some ==> r is Some && r->0.name@ == file_name(path@)->0 && r->0.len == meta->0.len
                && r->0.modify == meta->0.modify,
    {
        let name = match path_file_name(path) {
            Some(n) => n,
            None => String::new(),
        };
        match meta {
            None => None,
            Some(m) => Some(Fic { modify: m.modify, len: m.len, name }),
        }
    }

    /// Compares this source file with the destination file `f`.
    pub fn comp(&self, f: &Fic) -> (r: FicComp)
        ensures
            r == compare(*self, *f),
    {
        if self.len != f.len {
            return FicComp::SizeChange(self.len, f.len);
        }
        if self.len != 0 {
            if self.modify.secs != f.modify.secs || self.modify.nanos != f.modify.nanos {
                return FicComp::DateChange(self.modify, f.modify);
            }
        }
        FicComp::Same
    }
}

} // verus!

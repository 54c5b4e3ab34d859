use vstd::prelude::*;

use crate::text::{file_name, path_file_name};

pub mod fichier;

pub use fichier::Fichier;

verus! {

/// A folder found by an [`crate::explore::Explore`]: its files and
/// sub-folders in the order found.
pub struct Dossier {
    pub name: String,
    pub fichiers: Vec<Fichier>,
    pub dossiers: Vec<Dossier>,
}

impl Dossier {
    /// An empty folder named after the last component of `dir`, or after
    /// the whole path when it has none.
    pub fn new(dir: &str) -> (r: Dossier)
        ensures
            r.name@ == match file_name(dir@) {
                Some(n) => n,
                None => dir@,
            },
            r.fichiers@.len() == 0,
            r.dossiers@.len() == 0,
    {
        let n = match path_file_name(dir) {
            Some(n) => n,
            None => String::from_str(dir),
        };
        Dossier { name: n, fichiers: Vec::new(), dossiers: Vec::new() }
    }

    /// Adds a sub-folder after the others.
    pub fn add_dossier(&mut self, doss: Dossier)
        ensures
            final(self).dossiers@ == old(self).dossiers@.push(doss),
            final(self).fichiers@ == old(self).fichiers@,
            final(self).name == old(self).name,
    {
        self.dossiers.push(doss);
    }

    /// Adds a file after the others.
    pub fn add_fichier(&mut self, fic: Fichier)
        ensures
            final(self).fichiers@ == old(self).fichiers@.push(fic),
            final(self).dossiers@ == old(self).dossiers@,
            final(self).name == old(self).name,
    {
        self.fichiers.push(fic);
    }
}

} // verus!

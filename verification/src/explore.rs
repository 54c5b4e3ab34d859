use vstd::prelude::*;

use crate::text::{dec_u64, decimal};

pub mod dossier;

pub use dossier::{Dossier, Fichier};

verus! {

/// Counts what a walk over a folder tree met: folders and files explored,
/// and those that could not be read.
pub struct Explore {
    pub folder_explored_count: u32,
    pub folder_forbidden_count: u32,
    pub file_explored_count: u32,
    pub file_forbidden_count: u32,
}

/// `Total <folders>/<forbidden> dir && <files>/<forbidden> files`
pub open spec fn count_text(e: Explore) -> Seq<char> {
    "Total "@ + decimal(e.folder_explored_count as nat) + "/"@ + decimal(e.folder_forbidden_count as nat)
        + " dir && "@ + decimal(e.file_explored_count as nat) + "/"@ + decimal(
        e.file_forbidden_count as nat,
    ) + " files"@
}

impl Explore {
    /// Nothing counted yet.
    pub fn new() -> (r: Explore)
        ensures
            r.folder_explored_count == 0,
            r.folder_forbidden_count == 0,
            r.file_explored_count == 0,
            r.file_forbidden_count == 0,
    {
        Explore { folder_explored_count: 0, folder_forbidden_count: 0, file_explored_count: 0, file_forbidden_count: 0 }
    }

    /// A folder that could not be listed.
    pub fn unreadable(&mut self)
        requires
            old(self).folder_forbidden_count < u32::MAX,
        ensures
            final(self).folder_forbidden_count == old(self).folder_forbidden_count + 1,
            final(self).folder_explored_count == old(self).folder_explored_count,
            final(self).file_explored_count == old(self).file_explored_count,
            final(self).file_forbidden_count == old(self).file_forbidden_count,
    {
        self.folder_forbidden_count = self.folder_forbidden_count + 1;
    }

    /// A sub-folder found and explored into `doss`, which holds it after.
    pub fn found_dossier(&mut self, doss: &mut Dossier, sous_doss: Dossier)
        requires
            old(self).folder_explored_count < u32::MAX,
        ensures
            final(self).folder_explored_count == old(self).folder_explored_count + 1,
            final(self).folder_forbidden_count == old(self).folder_forbidden_count,
            final(self).file_explored_count == old(self).file_explored_count,
            final(self).file_forbidden_count == old(self).file_forbidden_count,
            final(doss).dossiers@ == old(doss).dossiers@.push(sous_doss),
            final(doss).fichiers@ == old(doss).fichiers@,
            final(doss).name == old(doss).name,
    {
        self.folder_explored_count = self.folder_explored_count + 1;
        doss.add_dossier(sous_doss);
    }

    /// A file found in `doss`: kept when it could be read, counted as
    /// forbidden otherwise.
    pub fn found_fichier(&mut self, doss: &mut Dossier, fic: Option<Fichier>)
        requires
            old(self).file_explored_count < u32::MAX,
            old(self).file_forbidden_count < u32::MAX,
        ensures
            final(self).file_explored_count == old(self).file_explored_count + 1,
            final(self).folder_explored_count == old(self).folder_explored_count,
            final(self).folder_forbidden_count == old(self).folder_forbidden_count,
            fic is Some ==> final(self).file_forbidden_count == old(self).file_forbidden_count
                && final(doss).fichiers@ == old(doss).fichiers@.push(fic->0),
            fic is None ==> final(self).file_forbidden_count == old(self).file_forbidden_count + 1
                && final(doss).fichiers@ == old(doss).fichiers@,
            final(doss).dossiers@ == old(doss).dossiers@,
            final(doss).name == old(doss).name,
    {
        self.file_explored_count = self.file_explored_count + 1;
        match fic {
            Some(f) => doss.add_fichier(f),
            None => {
                self.file_forbidden_count = self.file_forbidden_count + 1;
            },
        }
    }

    /// The line that shows the counts.
    pub fn display_count(&self) -> (r: String)
        ensures
            r@ == count_text(*self),
    {
        let mut r = String::from_str("Total ");
        let a = dec_u64(self.folder_explored_count as u64);
        r.append(a.as_str());
        r.append("/");
        let b = dec_u64(self.folder_forbidden_count as u64);
        r.append(b.as_str());
        r.append(" dir && ");
        let c = dec_u64(self.file_explored_count as u64);
        r.append(c.as_str());
        r.append("/");
        let d = dec_u64(self.file_forbidden_count as u64);
        r.append(d.as_str());
        r.append(" files");
        r
    }
}

} // verus!

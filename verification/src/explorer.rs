use vstd::prelude::*;

pub mod fold;

use crate::constant::{DSTREADER, SRCREADER};
use crate::fic::Fic;
use crate::fold::Fold;
use crate::logger::{log_line, Logger};
use crate::paramcli::{clone_strings, Options};
use crate::readconf::strs;
use crate::span::{duration_text, Span};
use crate::text::{contains, path_debug, path_debug_text, dec_u64, decimal, file_name, has_infix};

verus! {

/// Which side a folder belongs to.
pub enum Place {
    Src,
    Dst,
}

impl Place {
    /// The name of the reader of this side.
    pub fn to_name(&self) -> (r: String)
        ensures
            r@ == match self {
                Place::Src => SRCREADER@,
                Place::Dst => DSTREADER@,
            },
    {
        match self {
            Place::Src => String::from_str(SRCREADER),
            Place::Dst => String::from_str(DSTREADER),
        }
    }

    /// The same side.
    pub fn clone(&self) -> (r: Place)
        ensures
            r == *self,
    {
        match self {
            Place::Src => Place::Src,
            Place::Dst => Place::Dst,
        }
    }

    /// `source` or `destination`, as the side is displayed.
    pub fn to_string(&self) -> (r: String)
        ensures
            r@ == match self {
                Place::Src => "source"@,
                Place::Dst => "destination"@,
            },
    {
        match self {
            Place::Src => String::from_str("source"),
            Place::Dst => String::from_str("destination"),
        }
    }
}


/// Whether the path contains one of the exceptions.
pub open spec fn excepted(exceptions: Seq<Seq<char>>, dir: Seq<char>) -> bool {
    exists|i: int| 0 <= i < exceptions.len() && has_infix(dir, #[trigger] exceptions[i])
}

/// The text of the line of a finished exploration.
pub open spec fn summary_text(dir: Seq<char>, folders: u32, forbidden_folders: u32, files: u32, forbidden_files: u32) -> Seq<char> {
    "Folder: "@ + path_debug_text(dir) + " Folder total/forbidden "@ + decimal(folders as nat) + "/"@
        + decimal(forbidden_folders as nat) + " Files total/forbidden "@ + decimal(files as nat) + "/"@
        + decimal(forbidden_files as nat)
}

/// The explorer of one side: its decisions while a folder tree is read.
/// The log lines it produces wait in `notes` until they are taken.
pub struct Explorer {
    pub ignore_err: bool,
    pub folder_forbidden_count: u32,
    pub file_forbidden_count: u32,
    pub exceptions: Vec<String>,
    pub logger: Logger,
    pub notes: Vec<String>,
}

impl Explorer {
    /// An explorer named `n` with the options `o`.
    pub fn new(n: String, o: &Options) -> (r: Explorer)
        ensures
            r.ignore_err == o.ignore_err,
            r.folder_forbidden_count == 0,
            r.file_forbidden_count == 0,
            strs(r.exceptions@) == strs(o.exceptions@),
            r.logger.name@ == n@,
            r.logger.verbose == o.verbose,
            r.notes@.len() == 0,
    {
        let log = Logger::new(n, o.verbose);
        Explorer {
            ignore_err: o.ignore_err,
            folder_forbidden_count: 0,
            file_forbidden_count: 0,
            exceptions: clone_strings(&o.exceptions),
            logger: log,
            notes: Vec::new(),
        }
    }

    /// The lines produced since the last call; none are left.
    pub fn take_notes(&mut self) -> (r: Vec<String>)
        ensures
            strs(r@) == strs(old(self).notes@),
            final(self).notes@.len() == 0,
            final(self).ignore_err == old(self).ignore_err,
            final(self).folder_forbidden_count == old(self).folder_forbidden_count,
            final(self).file_forbidden_count == old(self).file_forbidden_count,
            strs(final(self).exceptions@) == strs(old(self).exceptions@),
            final(self).logger == old(self).logger,
    {
        let mut r: Vec<String> = Vec::new();
        std::mem::swap(&mut r, &mut self.notes);
        r
    }

    /// Whether the folder `dir` is skipped: its path contains one of the
    /// exceptions; then an error line says so.
    pub fn is_exception(&mut self, dir: &str) -> (r: bool)
        ensures
            r == excepted(strs(old(self).exceptions@), dir@),
            r ==> strs(final(self).notes@) == strs(old(self).notes@).push(
                log_line(old(self).logger.name@, "!Error! ==> "@ + path_debug_text(dir@) + " in exceptions"@),
            ),
            !r ==> strs(final(self).notes@) == strs(old(self).notes@),
            final(self).ignore_err == old(self).ignore_err,
            final(self).folder_forbidden_count == old(self).folder_forbidden_count,
            final(self).file_forbidden_count == old(self).file_forbidden_count,
            final(self).exceptions@ == old(self).exceptions@,
            final(self).logger == old(self).logger,
    {
        let mut i: usize = 0;
        while i < self.exceptions.len()
            invariant
                i <= self.exceptions.len(),
                *self == *old(self),
                forall|k: int| 0 <= k < i ==> !has_infix(dir@, #[trigger] strs(self.exceptions@)[k]),
            decreases self.exceptions.len() - i,
        {
            if contains(dir, self.exceptions[i].as_str()) {
                let mut m = path_debug(dir);
                m.append(" in exceptions");
                let line = self.logger.error(m);
                let ghost before = strs(self.notes@);
                let ghost lv = line@;
                assert(lv =~= log_line(self.logger.name@, "!Error! ==> "@ + path_debug_text(dir@) + " in exceptions"@));
                self.notes.push(line);
                assert(strs(self.notes@) =~= before.push(lv));
                assert(strs(self.exceptions@)[i as int] == self.exceptions@[i as int]@);
                return true;
            }
            assert(strs(self.exceptions@)[i as int] == self.exceptions@[i as int]@);
            i = i + 1;
        }
        false
    }

    /// Starts reading the tree at `dir`: the counts go back to zero, a
    /// verbose line announces it, and the root folder is made.
    pub fn start(&mut self, dir: &str) -> (r: Fold)
        ensures
            r.is_empty_named(dir@),
            r.wf(),
            final(self).folder_forbidden_count == 0,
            final(self).file_forbidden_count == 0,
            strs(final(self).notes@) == strs(old(self).notes@) + (if old(self).logger.verbose {
                seq![log_line(old(self).logger.name@, "Reading Folder: "@ + path_debug_text(dir@) + " "@)]
            } else {
                Seq::empty()
            }),
            final(self).ignore_err == old(self).ignore_err,
            final(self).exceptions@ == old(self).exceptions@,
            final(self).logger == old(self).logger,
    {
        let mut m = String::from_str("Reading Folder: ");
        let q = path_debug(dir);
        m.append(q.as_str());
        m.append(" ");
        let ghost before = strs(self.notes@);
        match self.logger.verbose(m) {
            Some(l) => {
                let ghost lv = l@;
                self.notes.push(l);
                assert(strs(self.notes@) =~= before.push(lv));
            },
            None => {
                assert(strs(self.notes@) =~= before + Seq::<Seq<char>>::empty());
            },
        }
        self.folder_forbidden_count = 0;
        self.file_forbidden_count = 0;
        Fold::new_root(dir)
    }
}


impl Explorer {
    /// Adds a log line to the notes.
    fn note(&mut self, line: String)
        ensures
            strs(final(self).notes@) == strs(old(self).notes@).push(line@),
            final(self).ignore_err == old(self).ignore_err,
            final(self).folder_forbidden_count == old(self).folder_forbidden_count,
            final(self).file_forbidden_count == old(self).file_forbidden_count,
            final(self).exceptions@ == old(self).exceptions@,
            final(self).logger == old(self).logger,
    {
        let ghost before = strs(self.notes@);
        let ghost lv = line@;
        self.notes.push(line);
        assert(strs(self.notes@) =~= before.push(lv));
    }

    /// The folder `dir` could not be listed (`err` tells why): an error
    /// line, one more forbidden folder, and the folder marked forbidden.
    pub fn unreadable(&mut self, dir: &str, err: &str, fold: &mut Fold)
        requires
            old(self).folder_forbidden_count < u32::MAX,
        ensures
            strs(final(self).notes@) == strs(old(self).notes@).push(
                log_line(old(self).logger.name@, "!Error! ==> "@ + err@ + " on "@ + path_debug_text(dir@)),
            ),
            final(self).folder_forbidden_count == old(self).folder_forbidden_count + 1,
            final(self).file_forbidden_count == old(self).file_forbidden_count,
            final(self).ignore_err == old(self).ignore_err,
            final(self).exceptions@ == old(self).exceptions@,
            final(self).logger == old(self).logger,
            final(fold).forbidden,
            final(fold).name == old(fold).name,
            final(fold).fics == old(fold).fics,
            final(fold).folds == old(fold).folds,
            final(fold).folder_count == old(fold).folder_count,
            final(fold).file_count == old(fold).file_count,
    {
        let mut m = String::from_str(err);
        m.append(" on ");
        let q = path_debug(dir);
        m.append(q.as_str());
        let line = self.logger.error(m);
        assert(line@ =~= log_line(self.logger.name@, "!Error! ==> "@ + err@ + " on "@ + path_debug_text(dir@)));
        self.note(line);
        self.folder_forbidden_count = self.folder_forbidden_count + 1;
        fold.forbidden = true;
    }

    /// An entry of a folder could not be read (`err` tells why): an error
    /// line; the reading goes on only when errors are ignored (otherwise
    /// the program stops).
    pub fn entry_failed(&mut self, err: &str) -> (r: bool)
        ensures
            r == old(self).ignore_err,
            strs(final(self).notes@) == strs(old(self).notes@).push(
                log_line(old(self).logger.name@, "!Error! ==> "@ + err@),
            ),
            final(self).folder_forbidden_count == old(self).folder_forbidden_count,
            final(self).file_forbidden_count == old(self).file_forbidden_count,
            final(self).ignore_err == old(self).ignore_err,
            final(self).exceptions@ == old(self).exceptions@,
            final(self).logger == old(self).logger,
    {
        let line = self.logger.error(String::from_str(err));
        self.note(line);
        self.ignore_err
    }

    /// A file read in `fold`: counted as forbidden when its metadata could
    /// not be read, and added to the folder.
    pub fn add_file(&mut self, fold: &mut Fold, fic: Fic)
        requires
            file_name(fic.name@) is Some,
            old(fold).file_count < u32::MAX,
            old(self).file_forbidden_count < u32::MAX,
        ensures
            final(self).file_forbidden_count == old(self).file_forbidden_count + if fic.forbidden {
                1int
            } else {
                0int
            },
            final(self).folder_forbidden_count == old(self).folder_forbidden_count,
            final(self).notes@ == old(self).notes@,
            final(self).ignore_err == old(self).ignore_err,
            final(self).exceptions@ == old(self).exceptions@,
            final(self).logger == old(self).logger,
            final(fold).fic_entries() == crate::fold::put(
                old(fold).fic_entries(),
                crate::text::lowercase(file_name(fic.name@)->0),
                fic,
            ),
            final(fold).file_count == old(fold).file_count + 1,
            final(fold).folder_count == old(fold).folder_count,
            final(fold).folds@ == old(fold).folds@,
            final(fold).name@ == old(fold).name@,
            final(fold).forbidden == old(fold).forbidden,
            old(fold).wf() && fic.wf() ==> final(fold).wf(),
            crate::fold::fic_added(*old(fold), *final(fold), fic),
    {
        if fic.forbidden {
            self.file_forbidden_count = self.file_forbidden_count + 1;
        }
        fold.add_fic(fic);
    }

    /// The line that closes the reading of `dir` into `fold`, which took
    /// `elapsed`: the totals and the forbidden counts (verbose only), and
    /// the time that counts.
    pub fn finish(&self, dir: &str, fold: &Fold, elapsed: Span) -> (r: (Option<String>, Span))
        requires
            elapsed.wf(),
        ensures
            self.logger.verbose ==> r.0 is Some && r.0->0@ == log_line(
                self.logger.name@,
                summary_text(
                    dir@,
                    fold.folder_count,
                    self.folder_forbidden_count,
                    fold.file_count,
                    self.file_forbidden_count,
                ) + " in "@ + duration_text(elapsed.secs, elapsed.nanos),
            ) && r.1 == elapsed,
            !self.logger.verbose ==> r.0 is None && r.1.total() == 0,
    {
        let c = fold.get_counts();
        let mut m = String::from_str("Folder: ");
        let q = path_debug(dir);
        m.append(q.as_str());
        m.append(" Folder total/forbidden ");
        let a = dec_u64(c.0 as u64);
        m.append(a.as_str());
        m.append("/");
        let b = dec_u64(self.folder_forbidden_count as u64);
        m.append(b.as_str());
        m.append(" Files total/forbidden ");
        let d = dec_u64(c.1 as u64);
        m.append(d.as_str());
        m.append("/");
        let e = dec_u64(self.file_forbidden_count as u64);
        m.append(e.as_str());
        let ghost mv = m@;
        assert(mv =~= summary_text(dir@, fold.folder_count, self.folder_forbidden_count, fold.file_count, self.file_forbidden_count));
        self.logger.timed(m, elapsed)
    }
}

} // verus!

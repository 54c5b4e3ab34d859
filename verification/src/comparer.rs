use vstd::prelude::*;

use crate::fic::{compare, stamp_debug, utc_day_time, utc_in_range, Fic, FicComp, Stamp};
use crate::fold::{entries, find, find_key, lemma_find, lookup, Fold};
use crate::logger::{log_line, Logger, MessageType};
use crate::paramcli::Options;
use crate::scriptgen::{Command, CommandView};
use crate::span::{duration_text, Span};
use crate::text::{path_debug, path_debug_text, dec_u64, decimal, join_path, path_join};

verus! {

/// What a comparison produces, in order: script commands and log lines.
pub enum Event {
    Cmd(Command),
    Note(String),
}

pub enum EventView {
    Cmd(CommandView),
    Note(Seq<char>),
}

impl View for Event {
    type V = EventView;

    open spec fn view(&self) -> EventView {
        match self {
            Event::Cmd(c) => EventView::Cmd(c@),
            Event::Note(s) => EventView::Note(s@),
        }
    }
}

/// The views of a sequence of events.
pub open spec fn evs(s: Seq<Event>) -> Seq<EventView> {
    s.map_values(|e: Event| e@)
}

/// A forbidden folder met while errors are not ignored: the comparison
/// stops there and the program must terminate.  `root` is the path that
/// the message names and `key` the folder's key.
pub struct Refusal {
    pub root: String,
    pub key: String,
}

/// Why a walk stopped, by characters: a forbidden folder (the path that
/// the message names, and the folder's key), or a file time whose date
/// chrono cannot write.
pub enum StopView {
    Refused(Seq<char>, Seq<char>),
    BadDate,
}

/// Why a walk stopped: a forbidden folder while errors are not ignored, or
/// a file time beyond chrono's range met while writing a verbose date line
/// (where the program panics, as chrono's conversion of such a time does).
pub enum Stop {
    Refused(Refusal),
    BadDate,
}

/// A refusal by its characters.
pub open spec fn refusal_view(r: Option<Refusal>) -> Option<StopView> {
    match r {
        Some(x) => Some(StopView::Refused(x.root@, x.key@)),
        None => None,
    }
}

/// A stop by its characters.
pub open spec fn stop_view(r: Option<Stop>) -> Option<StopView> {
    match r {
        Some(Stop::Refused(x)) => Some(StopView::Refused(x.root@, x.key@)),
        Some(Stop::BadDate) => Some(StopView::BadDate),
        None => None,
    }
}

/// `"<root>"\"<key>" is forbidden`
pub open spec fn refusal_text(root: Seq<char>, key: Seq<char>) -> Seq<char> {
    path_debug_text(root) + "\\"@ + path_debug_text(key) + " is forbidden"@
}

impl Refusal {
    /// The message with which the program stops.
    pub fn message(&self) -> (r: String)
        ensures
            r@ == refusal_text(self.root@, self.key@),
    {
        let mut r = path_debug(self.root.as_str());
        r.append("\\");
        let k = path_debug(self.key.as_str());
        r.append(k.as_str());
        r.append(" is forbidden");
        r
    }
}

/// Events, then why the walk stopped, if it did.
pub type Trace = (Seq<EventView>, Option<StopView>);

/// `a`, then `b` unless `a` stopped.
pub open spec fn and_then(a: Trace, b: Trace) -> Trace {
    if a.1 is Some {
        a
    } else {
        (a.0 + b.0, b.1)
    }
}

/// A log line when `on`, nothing otherwise.
pub open spec fn note_if(on: bool, line: Seq<char>) -> Seq<EventView> {
    if on {
        seq![EventView::Note(line)]
    } else {
        Seq::<EventView>::empty()
    }
}

/// `"<root>"\"<key>" is forbidden -> ignoring`
pub open spec fn ignoring_text(root: Seq<char>, key: Seq<char>) -> Seq<char> {
    path_debug_text(root) + "\\"@ + path_debug_text(key) + " is forbidden -> ignoring"@
}

/// A forbidden folder: a refusal naming `report`, or, when errors are
/// ignored, a warning naming `warn`.
pub open spec fn forbidden_step(c: Comparer, report: Seq<char>, warn: Seq<char>, key: Seq<char>) -> Trace {
    if !c.ignore_err {
        (Seq::<EventView>::empty(), Some(StopView::Refused(report, key)))
    } else {
        (
            seq![EventView::Note(log_line(c.logger.name@, "Warning ==> "@ + ignoring_text(warn, key)))],
            None,
        )
    }
}

/// `DEBUG diff "<name>" size difference <t1>/<t2>`
pub open spec fn size_text(name: Seq<char>, t1: u64, t2: u64) -> Seq<char> {
    "DEBUG diff "@ + path_debug_text(name) + " size difference "@ + decimal(t1 as nat) + "/"@ + decimal(
        t2 as nat,
    )
}

/// `DEBUG diff    "<name>"  date difference <d1>-<d2> (raw:<d1>/<d2>)`
pub open spec fn date_text(name: Seq<char>, d1: Stamp, d2: Stamp) -> Seq<char> {
    "DEBUG diff    "@ + path_debug_text(name) + "  date difference "@ + utc_day_time(d1.secs, d1.nanos) + "-"@
        + utc_day_time(d2.secs, d2.nanos)
        + " (raw:"@ + stamp_debug(d1) + "/"@ + stamp_debug(d2) + ")"@
}

/// What a source file `f` under key `k` gives: a copy into `rd` when the
/// destination has no file under that key or a different one (a date
/// difference counts unless dates are ignored), with verbose lines that
/// tell the difference.
pub open spec fn file_copy_events(
    c: Comparer,
    k: Seq<char>,
    f: Fic,
    dst: Fold,
    rs: Seq<char>,
    rd: Seq<char>,
) -> Seq<EventView> {
    let copy = EventView::Cmd(CommandView::Copy(join_path(rs, f.name@), rd));
    match lookup(entries(dst.fics@), k) {
        None => seq![copy],
        Some(g) => match compare(f, g, c.crypt) {
            FicComp::Same => Seq::<EventView>::empty(),
            FicComp::SizeChange(t1, t2) => note_if(
                c.logger.verbose,
                log_line(c.logger.name@, size_text(f.name@, t1, t2)),
            ) + seq![copy],
            FicComp::DateChange(d1, d2) => note_if(
                c.verbose && c.logger.verbose,
                log_line(c.logger.name@, date_text(f.name@, d1, d2)),
            ) + if c.ignore_date_diff {
                Seq::<EventView>::empty()
            } else {
                seq![copy]
            },
        },
    }
}

/// Whether the verbose date line for the source file `f` under key `k`
/// cannot be written: the comparer is verbose, `dst` has a file under that
/// key that differs by date, and one of the two times is beyond chrono's
/// range.
pub open spec fn date_fails(c: Comparer, k: Seq<char>, f: Fic, dst: Fold) -> bool {
    c.verbose && match lookup(entries(dst.fics@), k) {
        None => false,
        Some(g) => match compare(f, g, c.crypt) {
            FicComp::DateChange(d1, d2) => !utc_in_range(d1.secs) || !utc_in_range(d2.secs),
            _ => false,
        },
    }
}

/// What the source file `f` under key `k` gives: its events, or a stop
/// before any of them when its date line cannot be written.
pub open spec fn file_step(c: Comparer, k: Seq<char>, f: Fic, dst: Fold, rs: Seq<char>, rd: Seq<char>) -> Trace {
    if date_fails(c, k, f, dst) {
        (Seq::<EventView>::empty(), Some(StopView::BadDate))
    } else {
        (file_copy_events(c, k, f, dst, rs, rd), None)
    }
}

/// The copies for the files of `src` from position `j` on, up to a stop.
pub open spec fn copy_files(c: Comparer, src: Fold, dst: Fold, rs: Seq<char>, rd: Seq<char>, j: int) -> Trace
    decreases src.fics@.len() - j,
{
    if j < 0 || j >= src.fics@.len() {
        (Seq::<EventView>::empty(), None)
    } else {
        and_then(
            file_step(c, src.fics@[j].0@, src.fics@[j].1, dst, rs, rd),
            copy_files(c, src, dst, rs, rd, j + 1),
        )
    }
}

/// What the copy walk produces for the sub-folders of `src` from position
/// `i` on, then for its files: a recursive copy for a folder missing from
/// `dst`, the walk of both folders for one present in both, and for a
/// forbidden folder on either side a refusal or a warning.
pub open spec fn copy_dirs(c: Comparer, src: Fold, dst: Fold, rs: Seq<char>, rd: Seq<char>, i: int) -> Trace
    decreases src, src.folds@.len() - i,
{
    if i < 0 || i >= src.folds@.len() {
        copy_files(c, src, dst, rs, rd, 0)
    } else {
        let k = src.folds@[i].0@;
        let child = src.folds@[i].1;
        let ns = join_path(rs, child.name@);
        let nd = join_path(rd, child.name@);
        let step: Trace = if child.forbidden {
            forbidden_step(c, rs, rs, k)
        } else {
            match lookup(entries(dst.folds@), k) {
                None => (seq![EventView::Cmd(CommandView::CopyRecurs(ns, nd))], None),
                Some(dchild) => if dchild.forbidden {
                    forbidden_step(c, rs, rd, k)
                } else {
                    copy_dirs(c, child, dchild, ns, nd, 0)
                },
            }
        };
        and_then(step, copy_dirs(c, src, dst, rs, rd, i + 1))
    }
}

/// The comparer: finds what to copy from a source to its destination, or
/// what to delete from the destination.
pub struct Comparer {
    pub verbose: bool,
    pub crypt: bool,
    pub ignore_err: bool,
    pub logger: Logger,
    pub ignore_date_diff: bool,
}

impl Comparer {
    /// A comparer named `n` with the options `o`.
    pub fn new(n: String, o: &Options) -> (r: Comparer)
        ensures
            r.verbose == o.verbose,
            r.crypt == o.crypt,
            r.ignore_err == o.ignore_err,
            r.ignore_date_diff == o.ignore_date_diff,
            r.logger.name@ == n@,
            r.logger.verbose == o.verbose,
    {
        let log = Logger::new(n, o.verbose);
        Comparer {
            verbose: o.verbose,
            crypt: o.crypt,
            ignore_err: o.ignore_err,
            logger: log,
            ignore_date_diff: o.ignore_date_diff,
        }
    }

    /// A forbidden folder: pushes the warning, or returns the refusal.
    fn forbid(&self, report: &str, warn: &str, key: &String, out: &mut Vec<Event>) -> (r: Option<Refusal>)
        ensures
            evs(final(out)@) == evs(old(out)@) + forbidden_step(*self, report@, warn@, key@).0,
            refusal_view(r) == forbidden_step(*self, report@, warn@, key@).1,
    {
        if !self.ignore_err {
            assert(evs(out@) =~= evs(old(out)@) + Seq::<EventView>::empty());
            Some(Refusal { root: String::from_str(report), key: key.clone() })
        } else {
            let mut msg = path_debug(warn);
            msg.append("\\");
            let k = path_debug(key.as_str());
            msg.append(k.as_str());
            msg.append(" is forbidden -> ignoring");
            let line = self.logger.warning(msg);
            out.push(Event::Note(line));
            assert(evs(out@) =~= evs(old(out)@) + forbidden_step(*self, report@, warn@, key@).0);
            None
        }
    }
}


/// Pushes a line when the logger gives one.
fn push_note(line: Option<String>, out: &mut Vec<Event>)
    ensures
        line is Some ==> evs(final(out)@) == evs(old(out)@).push(EventView::Note(line->0@)),
        line is None ==> evs(final(out)@) == evs(old(out)@),
{
    match line {
        Some(l) => {
            out.push(Event::Note(l));
            assert(evs(out@) =~= evs(old(out)@).push(EventView::Note(line->0@)));
        },
        None => {
            assert(evs(out@) =~= evs(old(out)@));
        },
    }
}

/// Pushes a command for the script.
fn deal_with_cmd(c: Command, out: &mut Vec<Event>)
    ensures
        evs(final(out)@) == evs(old(out)@).push(EventView::Cmd(c@)),
{
    let ghost cv = c@;
    out.push(Event::Cmd(c));
    assert(evs(out@) =~= evs(old(out)@).push(EventView::Cmd(cv)));
}

impl Comparer {
    /// Pushes what the source file `f` under key `k` gives; tells whether
    /// it stopped on a date that chrono cannot write.
    fn push_file_events(
        &self,
        k: &String,
        f: &Fic,
        dst: &Fold,
        rs: &str,
        rd: &str,
        out: &mut Vec<Event>,
    ) -> (stopped: bool)
        requires
            f.wf(),
            dst.times_wf(),
        ensures
            evs(final(out)@) == evs(old(out)@) + file_step(*self, k@, *f, *dst, rs@, rd@).0,
            stopped == file_step(*self, k@, *f, *dst, rs@, rd@).1 is Some,
    {
        let ghost start = evs(out@);
        match find_key(&dst.fics, k) {
            None => {
                let a = path_join(rs, f.name.as_str());
                deal_with_cmd(Command::Copy(a, String::from_str(rd)), out);
                assert(evs(out@) =~= start + file_copy_events(*self, k@, *f, *dst, rs@, rd@));
                false
            },
            Some(j) => {
                proof {
                    lemma_find(entries(dst.fics@), k@);
                    assert(entries(dst.fics@)[j as int] == (dst.fics@[j as int].0@, dst.fics@[j as int].1));
                }
                let g = &dst.fics[j].1;
                let ghost evs_spec = file_copy_events(*self, k@, *f, *dst, rs@, rd@);
                match f.comp(g, self.crypt) {
                    FicComp::Same => {
                        assert(evs(out@) =~= start + evs_spec);
                        false
                    },
                    FicComp::SizeChange(t1, t2) => {
                        let mut m = String::from_str("DEBUG diff ");
                        let q = path_debug(f.name.as_str());
                        m.append(q.as_str());
                        m.append(" size difference ");
                        let a = dec_u64(t1);
                        m.append(a.as_str());
                        m.append("/");
                        let b = dec_u64(t2);
                        m.append(b.as_str());
                        let ghost mv = m@;
                        assert(mv == size_text(f.name@, t1, t2));
                        push_note(self.logger.verbose(m), out);
                        let c = path_join(rs, f.name.as_str());
                        deal_with_cmd(Command::Copy(c, String::from_str(rd)), out);
                        assert(evs(out@) =~= start + evs_spec);
                        false
                    },
                    FicComp::DateChange(d1, d2) => {
                        assert(dst.fics@[j as int].1.modify.wf());
                        if self.verbose {
                            let a = match d1.utc() {
                                Some(t) => t,
                                None => {
                                    assert(evs(out@) =~= start + Seq::<EventView>::empty());
                                    return true;
                                },
                            };
                            let b = match d2.utc() {
                                Some(t) => t,
                                None => {
                                    assert(evs(out@) =~= start + Seq::<EventView>::empty());
                                    return true;
                                },
                            };
                            let mut m = String::from_str("DEBUG diff    ");
                            let q = path_debug(f.name.as_str());
                            m.append(q.as_str());
                            m.append("  date difference ");
                            m.append(a.as_str());
                            m.append("-");
                            m.append(b.as_str());
                            m.append(" (raw:");
                            let ra = d1.debug_text();
                            m.append(ra.as_str());
                            m.append("/");
                            let rb = d2.debug_text();
                            m.append(rb.as_str());
                            m.append(")");
                            let ghost mv = m@;
                            assert(mv == date_text(f.name@, d1, d2));
                            push_note(self.logger.verbose(m), out);
                        }
                        let ghost mid = evs(out@);
                        assert(mid == start + note_if(
                            self.verbose && self.logger.verbose,
                            log_line(self.logger.name@, date_text(f.name@, d1, d2)),
                        ));
                        if !self.ignore_date_diff {
                            let c = path_join(rs, f.name.as_str());
                            deal_with_cmd(Command::Copy(c, String::from_str(rd)), out);
                        }
                        assert(evs(out@) =~= start + evs_spec);
                        false
                    },
                }
            },
        }
    }
}


impl Comparer {
    /// Walks `src` and `dst` (reached as `racine_src` and `racine_dst`),
    /// pushing the copies and log lines; stops at a refusal.
    fn gen_copy_recurse(
        &self,
        src: &Fold,
        dst: &Fold,
        racine_src: &str,
        racine_dst: &str,
        out: &mut Vec<Event>,
    ) -> (r: Option<Stop>)
        requires
            src.fics_wf(),
            dst.times_wf(),
        ensures
            evs(final(out)@) == evs(old(out)@) + copy_dirs(*self, *src, *dst, racine_src@, racine_dst@, 0).0,
            stop_view(r) == copy_dirs(*self, *src, *dst, racine_src@, racine_dst@, 0).1,
        decreases *src,
    {
        let ghost rs = racine_src@;
        let ghost rd = racine_dst@;
        let mut i: usize = 0;
        while i < src.folds.len()
            invariant
                i <= src.folds.len(),
                src.fics_wf(),
                dst.times_wf(),
                rs == racine_src@,
                rd == racine_dst@,
                evs(out@) + copy_dirs(*self, *src, *dst, rs, rd, i as int).0 == evs(old(out)@)
                    + copy_dirs(*self, *src, *dst, rs, rd, 0).0,
                copy_dirs(*self, *src, *dst, rs, rd, i as int).1 == copy_dirs(*self, *src, *dst, rs, rd, 0).1,
            decreases src.folds.len() - i,
        {
            let ghost before = evs(out@);
            let ghost rest = copy_dirs(*self, *src, *dst, rs, rd, i as int + 1);
            let key = &src.folds[i].0;
            let child = &src.folds[i].1;
            assert(child.fics_wf());
            let ghost step: Trace = if child.forbidden {
                forbidden_step(*self, rs, rs, key@)
            } else {
                match lookup(entries(dst.folds@), key@) {
                    None => (seq![EventView::Cmd(CommandView::CopyRecurs(join_path(rs, child.name@), join_path(rd, child.name@)))], None),
                    Some(dchild) => if dchild.forbidden {
                        forbidden_step(*self, rs, rd, key@)
                    } else {
                        copy_dirs(*self, *child, dchild, join_path(rs, child.name@), join_path(rd, child.name@), 0)
                    },
                }
            };
            assert(copy_dirs(*self, *src, *dst, rs, rd, i as int) == and_then(step, rest));
            if child.forbidden {
                if let Some(x) = self.forbid(racine_src, racine_src, key, out) {
                    return Some(Stop::Refused(x));
                }
            } else {
                match find_key(&dst.folds, key) {
                    None => {
                        let a = path_join(racine_src, child.name.as_str());
                        let b = path_join(racine_dst, child.name.as_str());
                        deal_with_cmd(Command::CopyRecurs(a, b), out);
                    },
                    Some(j) => {
                        proof {
                            lemma_find(entries(dst.folds@), key@);
                            assert(entries(dst.folds@)[j as int] == (dst.folds@[j as int].0@, dst.folds@[j as int].1));
                        }
                        let dchild = &dst.folds[j].1;
                        assert(dchild.times_wf());
                        if dchild.forbidden {
                            if let Some(x) = self.forbid(racine_src, racine_dst, key, out) {
                                return Some(Stop::Refused(x));
                            }
                        } else {
                            let a = path_join(racine_src, child.name.as_str());
                            let b = path_join(racine_dst, child.name.as_str());
                            let r = self.gen_copy_recurse(child, dchild, a.as_str(), b.as_str(), out);
                            if r.is_some() {
                                return r;
                            }
                        }
                    },
                }
            }
            assert(evs(out@) =~= before + step.0);
            i = i + 1;
        }
        assert(copy_dirs(*self, *src, *dst, rs, rd, i as int) == copy_files(*self, *src, *dst, rs, rd, 0));
        let mut j: usize = 0;
        while j < src.fics.len()
            invariant
                j <= src.fics.len(),
                src.fics_wf(),
                dst.times_wf(),
                rs == racine_src@,
                rd == racine_dst@,
                evs(out@) + copy_files(*self, *src, *dst, rs, rd, j as int).0 == evs(old(out)@)
                    + copy_dirs(*self, *src, *dst, rs, rd, 0).0,
                copy_files(*self, *src, *dst, rs, rd, j as int).1 == copy_dirs(*self, *src, *dst, rs, rd, 0).1,
            decreases src.fics.len() - j,
        {
            let ghost before = evs(out@);
            let key = &src.fics[j].0;
            let f = &src.fics[j].1;
            assert(f.wf());
            let stopped = self.push_file_events(key, f, dst, racine_src, racine_dst, out);
            let ghost step = file_step(*self, key@, *f, *dst, rs, rd);
            assert(copy_files(*self, *src, *dst, rs, rd, j as int) == and_then(
                step,
                copy_files(*self, *src, *dst, rs, rd, j as int + 1),
            ));
            if stopped {
                assert(evs(out@) =~= before + Seq::<EventView>::empty());
                return Some(Stop::BadDate);
            }
            assert(evs(out@) + copy_files(*self, *src, *dst, rs, rd, j as int + 1).0 =~= before
                + copy_files(*self, *src, *dst, rs, rd, j as int).0);
            j = j + 1;
        }
        assert(evs(out@) =~= evs(old(out)@) + copy_dirs(*self, *src, *dst, rs, rd, 0).0);
        None
    }
}


/// The deletions for the files of `dst` from position `j` on: a file
/// whose key the source lacks is deleted.
pub open spec fn remove_files(src: Fold, dst: Fold, rd: Seq<char>, j: int) -> Seq<EventView>
    decreases dst.fics@.len() - j,
{
    if j < 0 || j >= dst.fics@.len() {
        Seq::<EventView>::empty()
    } else {
        let k = dst.fics@[j].0@;
        let g = dst.fics@[j].1;
        let here = match lookup(entries(src.fics@), k) {
            None => seq![EventView::Cmd(CommandView::RemoveFile(join_path(rd, g.name@)))],
            Some(_) => Seq::<EventView>::empty(),
        };
        here + remove_files(src, dst, rd, j + 1)
    }
}

/// What the removal walk produces for the sub-folders of `dst` from
/// position `i` on, then for its files: the deletion of a folder that the
/// source lacks (with its counts), the walk of both folders for one
/// present in both, and for a forbidden folder on either side a refusal or
/// a warning.
pub open spec fn remove_dirs(c: Comparer, src: Fold, dst: Fold, rs: Seq<char>, rd: Seq<char>, i: int) -> Trace
    decreases dst, dst.folds@.len() - i,
{
    if i < 0 || i >= dst.folds@.len() {
        (remove_files(src, dst, rd, 0), None)
    } else {
        let k = dst.folds@[i].0@;
        let dchild = dst.folds@[i].1;
        let ns = join_path(rs, dchild.name@);
        let nd = join_path(rd, dchild.name@);
        let step: Trace = if dchild.forbidden {
            forbidden_step(c, rd, rd, k)
        } else {
            match lookup(entries(src.folds@), k) {
                None => (
                    seq![EventView::Cmd(CommandView::RemoveFold(nd, dchild.folder_count, dchild.file_count))],
                    None,
                ),
                Some(schild) => if schild.forbidden {
                    forbidden_step(c, rs, rs, k)
                } else {
                    remove_dirs(c, schild, dchild, ns, nd, 0)
                },
            }
        };
        and_then(step, remove_dirs(c, src, dst, rs, rd, i + 1))
    }
}

/// The verbose line that opens a comparison.
pub open spec fn opening(c: Comparer, text: Seq<char>, name: Seq<char>) -> Seq<EventView> {
    note_if(c.logger.verbose, log_line(c.logger.name@, text + path_debug_text(name)))
}

impl Comparer {
    /// Walks `src` and `dst` pushing the deletions; stops at a refusal.
    fn gen_remove_recurse(
        &self,
        src: &Fold,
        dst: &Fold,
        racine_src: &str,
        racine_dst: &str,
        out: &mut Vec<Event>,
    ) -> (r: Option<Refusal>)
        ensures
            evs(final(out)@) == evs(old(out)@) + remove_dirs(*self, *src, *dst, racine_src@, racine_dst@, 0).0,
            refusal_view(r) == remove_dirs(*self, *src, *dst, racine_src@, racine_dst@, 0).1,
        decreases *dst,
    {
        let ghost rs = racine_src@;
        let ghost rd = racine_dst@;
        let mut i: usize = 0;
        while i < dst.folds.len()
            invariant
                i <= dst.folds.len(),
                rs == racine_src@,
                rd == racine_dst@,
                evs(out@) + remove_dirs(*self, *src, *dst, rs, rd, i as int).0 == evs(old(out)@)
                    + remove_dirs(*self, *src, *dst, rs, rd, 0).0,
                remove_dirs(*self, *src, *dst, rs, rd, i as int).1 == remove_dirs(*self, *src, *dst, rs, rd, 0).1,
            decreases dst.folds.len() - i,
        {
            let ghost before = evs(out@);
            let ghost rest = remove_dirs(*self, *src, *dst, rs, rd, i as int + 1);
            let key = &dst.folds[i].0;
            let dchild = &dst.folds[i].1;
            let ghost step: Trace = if dchild.forbidden {
                forbidden_step(*self, rd, rd, key@)
            } else {
                match lookup(entries(src.folds@), key@) {
                    None => (
                        seq![EventView::Cmd(CommandView::RemoveFold(join_path(rd, dchild.name@), dchild.folder_count, dchild.file_count))],
                        None,
                    ),
                    Some(schild) => if schild.forbidden {
                        forbidden_step(*self, rs, rs, key@)
                    } else {
                        remove_dirs(*self, schild, *dchild, join_path(rs, dchild.name@), join_path(rd, dchild.name@), 0)
                    },
                }
            };
            assert(remove_dirs(*self, *src, *dst, rs, rd, i as int) == and_then(step, rest));
            if dchild.forbidden {
                let r = self.forbid(racine_dst, racine_dst, key, out);
                if r.is_some() {
                    return r;
                }
            } else {
                match find_key(&src.folds, key) {
                    None => {
                        let a = path_join(racine_dst, dchild.name.as_str());
                        let d = dchild.get_counts();
                        deal_with_cmd(Command::RemoveFold(a, d.0, d.1), out);
                    },
                    Some(j) => {
                        proof {
                            lemma_find(entries(src.folds@), key@);
                            assert(entries(src.folds@)[j as int] == (src.folds@[j as int].0@, src.folds@[j as int].1));
                        }
                        let schild = &src.folds[j].1;
                        if schild.forbidden {
                            let r = self.forbid(racine_src, racine_src, key, out);
                            if r.is_some() {
                                return r;
                            }
                        } else {
                            let a = path_join(racine_src, dchild.name.as_str());
                            let b = path_join(racine_dst, dchild.name.as_str());
                            let r = self.gen_remove_recurse(schild, dchild, a.as_str(), b.as_str(), out);
                            if r.is_some() {
                                return r;
                            }
                        }
                    },
                }
            }
            assert(evs(out@) =~= before + step.0);
            i = i + 1;
        }
        assert(remove_dirs(*self, *src, *dst, rs, rd, i as int) == (remove_files(*src, *dst, rd, 0), None::<StopView>));
        let mut j: usize = 0;
        while j < dst.fics.len()
            invariant
                j <= dst.fics.len(),
                rd == racine_dst@,
                evs(out@) + remove_files(*src, *dst, rd, j as int) == evs(old(out)@)
                    + remove_dirs(*self, *src, *dst, rs, rd, 0).0,
                remove_dirs(*self, *src, *dst, rs, rd, 0).1 is None,
            decreases dst.fics.len() - j,
        {
            let ghost before = evs(out@);
            let key = &dst.fics[j].0;
            let g = &dst.fics[j].1;
            match find_key(&src.fics, key) {
                None => {
                    let a = path_join(racine_dst, g.name.as_str());
                    deal_with_cmd(Command::RemoveFile(a), out);
                },
                Some(_) => {},
            }
            assert(evs(out@) + remove_files(*src, *dst, rd, j as int + 1) =~= before
                + remove_files(*src, *dst, rd, j as int));
            j = j + 1;
        }
        assert(evs(out@) =~= evs(old(out)@) + remove_dirs(*self, *src, *dst, rs, rd, 0).0);
        None
    }

    /// Finds what to copy from `src` to `dst`: the verbose opening line,
    /// then the events of the copy walk from the two roots, and what
    /// stopped it, if anything (a forbidden folder, or a date that chrono
    /// cannot write, on which the program panics).
    pub fn gen_copy(&self, src: &Fold, dst: &Fold) -> (r: (Vec<Event>, Option<Stop>))
        requires
            src.fics_wf(),
            dst.times_wf(),
        ensures
            evs(r.0@) == opening(*self, "Compare to find new/modify from "@, src.name@) + copy_dirs(
                *self,
                *src,
                *dst,
                src.name@,
                dst.name@,
                0,
            ).0,
            stop_view(r.1) == copy_dirs(*self, *src, *dst, src.name@, dst.name@, 0).1,
    {
        let mut out: Vec<Event> = Vec::new();
        let mut m = String::from_str("Compare to find new/modify from ");
        let q = path_debug(src.name.as_str());
        m.append(q.as_str());
        push_note(self.logger.verbose(m), &mut out);
        assert(evs(out@) =~= opening(*self, "Compare to find new/modify from "@, src.name@));
        let r = self.gen_copy_recurse(src, dst, src.name.as_str(), dst.name.as_str(), &mut out);
        (out, r)
    }

    /// The line that closes the search for copies from `src`, which took
    /// `elapsed` (verbose only), and the time that counts.
    pub fn copies_found(&self, src: &Fold, elapsed: Span) -> (r: (Option<String>, Span))
        requires
            elapsed.wf(),
        ensures
            self.logger.verbose ==> r.0 is Some && r.0->0@ == log_line(
                self.logger.name@,
                "Finished finding copies from "@ + path_debug_text(src.name@) + " in "@ + duration_text(
                    elapsed.secs,
                    elapsed.nanos,
                ),
            ) && r.1 == elapsed,
            !self.logger.verbose ==> r.0 is None && r.1.total() == 0,
    {
        let mut m = String::from_str("Finished finding copies from ");
        let q = path_debug(src.name.as_str());
        m.append(q.as_str());
        self.logger.timed(m, elapsed)
    }

    /// The line that closes the search for deletions from `dst`, which took
    /// `elapsed` (verbose only), and the time that counts.
    pub fn removals_found(&self, dst: &Fold, elapsed: Span) -> (r: (Option<String>, Span))
        requires
            elapsed.wf(),
        ensures
            self.logger.verbose ==> r.0 is Some && r.0->0@ == log_line(
                self.logger.name@,
                "finished finding what to deletes from "@ + path_debug_text(dst.name@) + " in "@ + duration_text(
                    elapsed.secs,
                    elapsed.nanos,
                ),
            ) && r.1 == elapsed,
            !self.logger.verbose ==> r.0 is None && r.1.total() == 0,
    {
        let mut m = String::from_str("finished finding what to deletes from ");
        let q = path_debug(dst.name.as_str());
        m.append(q.as_str());
        self.logger.timed(m, elapsed)
    }

    /// Finds what to delete from `dst`: the verbose opening line, then the
    /// events of the removal walk from the two roots, and the refusal that
    /// stopped it, if any.
    pub fn gen_remove(&self, src: &Fold, dst: &Fold) -> (r: (Vec<Event>, Option<Refusal>))
        ensures
            evs(r.0@) == opening(*self, "Compare to find what to remove from "@, dst.name@) + remove_dirs(
                *self,
                *src,
                *dst,
                src.name@,
                dst.name@,
                0,
            ).0,
            refusal_view(r.1) == remove_dirs(*self, *src, *dst, src.name@, dst.name@, 0).1,
    {
        let mut out: Vec<Event> = Vec::new();
        let mut m = String::from_str("Compare to find what to remove from ");
        let q = path_debug(dst.name.as_str());
        m.append(q.as_str());
        push_note(self.logger.verbose(m), &mut out);
        assert(evs(out@) =~= opening(*self, "Compare to find what to remove from "@, dst.name@));
        let r = self.gen_remove_recurse(src, dst, src.name.as_str(), dst.name.as_str(), &mut out);
        (out, r)
    }
}


/// No folder below `f`, at any depth, is forbidden.
pub open spec fn all_readable(f: Fold) -> bool
    decreases f,
{
    forall|i: int|
        0 <= i < f.folds@.len() ==> !(#[trigger] f.folds@[i]).1.forbidden && all_readable(f.folds@[i].1)
}

/// With unique keys, the key at position `i` is found at `i`.
pub proof fn lemma_find_own_key<V>(s: Seq<(Seq<char>, V)>, i: int)
    requires
        crate::fold::keys_unique(s),
        0 <= i < s.len(),
    ensures
        find(s, s[i].0) == i,
        lookup(s, s[i].0) == Some(s[i].1),
{
    lemma_find(s, s[i].0);
}

proof fn lemma_copy_files_onto_itself(c: Comparer, f: Fold, rs: Seq<char>, rd: Seq<char>, j: int)
    requires
        !c.crypt,
        f.wf(),
        0 <= j,
    ensures
        copy_files(c, f, f, rs, rd, j) == (Seq::<EventView>::empty(), None::<StopView>),
    decreases f.fics@.len() - j,
{
    if j < f.fics@.len() {
        lemma_copy_files_onto_itself(c, f, rs, rd, j + 1);
        let e = entries(f.fics@);
        assert(e[j] == (f.fics@[j].0@, f.fics@[j].1));
        lemma_find_own_key(e, j);
        assert(file_copy_events(c, f.fics@[j].0@, f.fics@[j].1, f, rs, rd) =~= Seq::<EventView>::empty());
        assert(!date_fails(c, f.fics@[j].0@, f.fics@[j].1, f));
        assert(copy_files(c, f, f, rs, rd, j).0 =~= Seq::<EventView>::empty());
    }
}

/// Copying a well-formed tree onto itself, without the `crypt` rule and
/// with no forbidden folder in it, finds nothing: no command, no line, no
/// refusal.
pub proof fn lemma_copy_onto_itself(c: Comparer, f: Fold, rs: Seq<char>, rd: Seq<char>, i: int)
    requires
        !c.crypt,
        f.wf(),
        all_readable(f),
        0 <= i,
    ensures
        copy_dirs(c, f, f, rs, rd, i) == (Seq::<EventView>::empty(), None::<StopView>),
    decreases f, f.folds@.len() - i,
{
    if i >= f.folds@.len() {
        lemma_copy_files_onto_itself(c, f, rs, rd, 0);
    } else {
        let e = entries(f.folds@);
        assert(e[i] == (f.folds@[i].0@, f.folds@[i].1));
        lemma_find_own_key(e, i);
        let child = f.folds@[i].1;
        assert(child.wf());
        assert(all_readable(child));
        lemma_copy_onto_itself(c, child, join_path(rs, child.name@), join_path(rd, child.name@), 0);
        lemma_copy_onto_itself(c, f, rs, rd, i + 1);
        assert(copy_dirs(c, f, f, rs, rd, i).0 =~= Seq::<EventView>::empty());
    }
}

proof fn lemma_remove_files_from_itself(f: Fold, rd: Seq<char>, j: int)
    requires
        keys_unique_fics(f),
        0 <= j,
    ensures
        remove_files(f, f, rd, j) == Seq::<EventView>::empty(),
    decreases f.fics@.len() - j,
{
    if j < f.fics@.len() {
        lemma_remove_files_from_itself(f, rd, j + 1);
        let e = entries(f.fics@);
        assert(e[j] == (f.fics@[j].0@, f.fics@[j].1));
        lemma_find_own_key(e, j);
        assert(remove_files(f, f, rd, j) =~= Seq::<EventView>::empty());
    }
}

/// The file keys of `f` are unique.
pub open spec fn keys_unique_fics(f: Fold) -> bool {
    crate::fold::keys_unique(entries(f.fics@))
}

/// Removing from a well-formed tree what its own copy lacks, with no
/// forbidden folder in it, finds nothing: no command, no line, no refusal.
pub proof fn lemma_remove_from_itself(c: Comparer, f: Fold, rs: Seq<char>, rd: Seq<char>, i: int)
    requires
        f.wf(),
        all_readable(f),
        0 <= i,
    ensures
        remove_dirs(c, f, f, rs, rd, i) == (Seq::<EventView>::empty(), None::<StopView>),
    decreases f, f.folds@.len() - i,
{
    if i >= f.folds@.len() {
        lemma_remove_files_from_itself(f, rd, 0);
    } else {
        let e = entries(f.folds@);
        assert(e[i] == (f.folds@[i].0@, f.folds@[i].1));
        lemma_find_own_key(e, i);
        let child = f.folds@[i].1;
        assert(child.wf());
        assert(all_readable(child));
        lemma_remove_from_itself(c, child, join_path(rs, child.name@), join_path(rd, child.name@), 0);
        lemma_remove_from_itself(c, f, rs, rd, i + 1);
        assert(remove_dirs(c, f, f, rs, rd, i).0 =~= Seq::<EventView>::empty());
    }
}

/// A source file that the destination holds under its key with another
/// length is copied, without the `crypt` rule, whatever the date rule and
/// the verbosity: its events end with the copy into the destination
/// folder, and no date stops the walk there.
pub proof fn lemma_size_change_copied(
    c: Comparer,
    k: Seq<char>,
    f: Fic,
    dst: Fold,
    rs: Seq<char>,
    rd: Seq<char>,
)
    requires
        !c.crypt,
        lookup(entries(dst.fics@), k) is Some,
        lookup(entries(dst.fics@), k)->0.len != f.len,
    ensures
        !date_fails(c, k, f, dst),
        file_step(c, k, f, dst, rs, rd).1 is None,
        file_step(c, k, f, dst, rs, rd).0.len() > 0,
        file_step(c, k, f, dst, rs, rd).0.last() == EventView::Cmd(CommandView::Copy(join_path(rs, f.name@), rd)),
{
    crate::fic::lemma_compare_plain(f, lookup(entries(dst.fics@), k)->0);
}

/// A forbidden source sub-folder yields no command in the copy walk: when
/// errors are not ignored the walk stops there, with no event, refusing
/// the source path and the folder's key; when they are ignored it yields
/// only the warning that names them, and the walk goes on with the next
/// sub-folders as if the forbidden one were not there.
pub proof fn lemma_copy_skips_forbidden_source(
    c: Comparer,
    src: Fold,
    dst: Fold,
    rs: Seq<char>,
    rd: Seq<char>,
    i: int,
)
    requires
        0 <= i < src.folds@.len(),
        src.folds@[i].1.forbidden,
    ensures
        !c.ignore_err ==> copy_dirs(c, src, dst, rs, rd, i) == (
            Seq::<EventView>::empty(),
            Some(StopView::Refused(rs, src.folds@[i].0@)),
        ),
        c.ignore_err ==> copy_dirs(c, src, dst, rs, rd, i) == (
            seq![
                EventView::Note(
                    log_line(c.logger.name@, "Warning ==> "@ + ignoring_text(rs, src.folds@[i].0@)),
                ),
            ] + copy_dirs(c, src, dst, rs, rd, i + 1).0,
            copy_dirs(c, src, dst, rs, rd, i + 1).1,
        ),
{
}

/// A destination sub-folder whose source counterpart is forbidden yields
/// no command in the removal walk: when errors are not ignored the walk
/// stops there, with no event, refusing the source path and the key; when
/// they are ignored it yields only the warning that names them, and the
/// walk goes on with the next sub-folders.  (Nothing under a folder that
/// could not be read is deleted from the destination.)
pub proof fn lemma_remove_skips_forbidden_source(
    c: Comparer,
    src: Fold,
    dst: Fold,
    rs: Seq<char>,
    rd: Seq<char>,
    i: int,
)
    requires
        0 <= i < dst.folds@.len(),
        !dst.folds@[i].1.forbidden,
        lookup(entries(src.folds@), dst.folds@[i].0@) is Some,
        lookup(entries(src.folds@), dst.folds@[i].0@)->0.forbidden,
    ensures
        !c.ignore_err ==> remove_dirs(c, src, dst, rs, rd, i) == (
            Seq::<EventView>::empty(),
            Some(StopView::Refused(rs, dst.folds@[i].0@)),
        ),
        c.ignore_err ==> remove_dirs(c, src, dst, rs, rd, i) == (
            seq![
                EventView::Note(
                    log_line(c.logger.name@, "Warning ==> "@ + ignoring_text(rs, dst.folds@[i].0@)),
                ),
            ] + remove_dirs(c, src, dst, rs, rd, i + 1).0,
            remove_dirs(c, src, dst, rs, rd, i + 1).1,
        ),
{
}

/// A forbidden destination sub-folder yields no command in the removal
/// walk either: a refusal naming the destination path, or only a warning.
pub proof fn lemma_remove_skips_forbidden_destination(
    c: Comparer,
    src: Fold,
    dst: Fold,
    rs: Seq<char>,
    rd: Seq<char>,
    i: int,
)
    requires
        0 <= i < dst.folds@.len(),
        dst.folds@[i].1.forbidden,
    ensures
        !c.ignore_err ==> remove_dirs(c, src, dst, rs, rd, i) == (
            Seq::<EventView>::empty(),
            Some(StopView::Refused(rd, dst.folds@[i].0@)),
        ),
        c.ignore_err ==> remove_dirs(c, src, dst, rs, rd, i) == (
            seq![
                EventView::Note(
                    log_line(c.logger.name@, "Warning ==> "@ + ignoring_text(rd, dst.folds@[i].0@)),
                ),
            ] + remove_dirs(c, src, dst, rs, rd, i + 1).0,
            remove_dirs(c, src, dst, rs, rd, i + 1).1,
        ),
{
}

/// A readable source sub-folder whose counterpart in the destination is
/// forbidden yields no command in the copy walk either: a refusal naming
/// the source path, or only a warning naming the destination path.
pub proof fn lemma_copy_skips_forbidden_destination(
    c: Comparer,
    src: Fold,
    dst: Fold,
    rs: Seq<char>,
    rd: Seq<char>,
    i: int,
)
    requires
        0 <= i < src.folds@.len(),
        !src.folds@[i].1.forbidden,
        lookup(entries(dst.folds@), src.folds@[i].0@) is Some,
        lookup(entries(dst.folds@), src.folds@[i].0@)->0.forbidden,
    ensures
        !c.ignore_err ==> copy_dirs(c, src, dst, rs, rd, i) == (
            Seq::<EventView>::empty(),
            Some(StopView::Refused(rs, src.folds@[i].0@)),
        ),
        c.ignore_err ==> copy_dirs(c, src, dst, rs, rd, i) == (
            seq![
                EventView::Note(
                    log_line(c.logger.name@, "Warning ==> "@ + ignoring_text(rd, src.folds@[i].0@)),
                ),
            ] + copy_dirs(c, src, dst, rs, rd, i + 1).0,
            copy_dirs(c, src, dst, rs, rd, i + 1).1,
        ),
{
}

/// A readable source sub-folder that the destination lacks is copied
/// whole, with one recursive copy from the source path into the
/// destination path of that name, then the walk goes on.
pub proof fn lemma_copy_missing_folder(c: Comparer, src: Fold, dst: Fold, rs: Seq<char>, rd: Seq<char>, i: int)
    requires
        0 <= i < src.folds@.len(),
        !src.folds@[i].1.forbidden,
        lookup(entries(dst.folds@), src.folds@[i].0@) is None,
    ensures
        copy_dirs(c, src, dst, rs, rd, i) == (
            seq![
                EventView::Cmd(
                    CommandView::CopyRecurs(
                        join_path(rs, src.folds@[i].1.name@),
                        join_path(rd, src.folds@[i].1.name@),
                    ),
                ),
            ] + copy_dirs(c, src, dst, rs, rd, i + 1).0,
            copy_dirs(c, src, dst, rs, rd, i + 1).1,
        ),
{
}

/// A source file that the destination lacks is copied into the
/// destination folder; one that differs only by date is copied exactly
/// when dates are not ignored (its only other event being the verbose
/// line); one that compares the same gives nothing.
pub proof fn lemma_file_copy_cases(c: Comparer, k: Seq<char>, f: Fic, dst: Fold, rs: Seq<char>, rd: Seq<char>)
    ensures
        lookup(entries(dst.fics@), k) is None ==> file_copy_events(c, k, f, dst, rs, rd) == seq![
            EventView::Cmd(CommandView::Copy(join_path(rs, f.name@), rd)),
        ],
        lookup(entries(dst.fics@), k) is Some && compare(f, lookup(entries(dst.fics@), k)->0, c.crypt)
            == FicComp::Same ==> file_copy_events(c, k, f, dst, rs, rd).len() == 0,
        lookup(entries(dst.fics@), k) is Some && compare(f, lookup(entries(dst.fics@), k)->0, c.crypt) is DateChange
            ==> (c.ignore_date_diff ==> forall|j: int|
            0 <= j < file_copy_events(c, k, f, dst, rs, rd).len() ==> (#[trigger] file_copy_events(
                c,
                k,
                f,
                dst,
                rs,
                rd,
            )[j]) is Note) && (!c.ignore_date_diff ==> file_copy_events(c, k, f, dst, rs, rd).last()
            == EventView::Cmd(CommandView::Copy(join_path(rs, f.name@), rd))),
{
}

/// A readable destination sub-folder that the source lacks is deleted,
/// with its folder count passed first and its file count second (the
/// order in which the deletion command takes them), then the walk goes
/// on.
pub proof fn lemma_remove_missing_folder(
    c: Comparer,
    src: Fold,
    dst: Fold,
    rs: Seq<char>,
    rd: Seq<char>,
    i: int,
)
    requires
        0 <= i < dst.folds@.len(),
        !dst.folds@[i].1.forbidden,
        lookup(entries(src.folds@), dst.folds@[i].0@) is None,
    ensures
        remove_dirs(c, src, dst, rs, rd, i) == (
            seq![
                EventView::Cmd(
                    CommandView::RemoveFold(
                        join_path(rd, dst.folds@[i].1.name@),
                        dst.folds@[i].1.folder_count,
                        dst.folds@[i].1.file_count,
                    ),
                ),
            ] + remove_dirs(c, src, dst, rs, rd, i + 1).0,
            remove_dirs(c, src, dst, rs, rd, i + 1).1,
        ),
{
}

/// A destination file is deleted exactly when the source has no file
/// under its key, and then by its path in the destination.
pub proof fn lemma_remove_file_cases(src: Fold, dst: Fold, rd: Seq<char>, j: int)
    requires
        0 <= j < dst.fics@.len(),
    ensures
        lookup(entries(src.fics@), dst.fics@[j].0@) is None ==> remove_files(src, dst, rd, j) == seq![
            EventView::Cmd(CommandView::RemoveFile(join_path(rd, dst.fics@[j].1.name@))),
        ] + remove_files(src, dst, rd, j + 1),
        lookup(entries(src.fics@), dst.fics@[j].0@) is Some ==> remove_files(src, dst, rd, j) == remove_files(
            src,
            dst,
            rd,
            j + 1,
        ),
{
    assert(Seq::<EventView>::empty() + remove_files(src, dst, rd, j + 1) =~= remove_files(src, dst, rd, j + 1));
}

} // verus!

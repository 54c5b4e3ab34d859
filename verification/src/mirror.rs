use vstd::prelude::*;

use crate::comparer::{
    all_readable, and_then, copy_dirs, copy_files, file_copy_events, file_step, lemma_find_own_key, note_if,
    remove_dirs, remove_files, Comparer, EventView, StopView,
};
use crate::fic::{compare, Fic, FicComp};
use crate::fold::{entries, find, keys_unique, lemma_find, lookup, Fold};
use crate::text::join_path;

verus! {

/// No script command among the events (log lines only).
pub open spec fn no_cmds(e: Seq<EventView>) -> bool {
    forall|i: int| 0 <= i < e.len() ==> (#[trigger] e[i]) is Note
}

/// Whether key `k` is among the entries.
pub open spec fn has_key<V>(s: Seq<(Seq<char>, V)>, k: Seq<char>) -> bool {
    find(s, k) >= 0
}

/// The destination file `g` needs no copy of the source file `f`: they
/// compare the same, or differ only by date while dates are ignored.
pub open spec fn same_enough(c: Comparer, f: Fic, g: Fic) -> bool {
    match compare(f, g, c.crypt) {
        FicComp::Same => true,
        FicComp::DateChange(_, _) => c.ignore_date_diff,
        FicComp::SizeChange(_, _) => false,
    }
}

/// The destination `d` mirrors the source `s`: the same keys of folders
/// and of files at every level, and every file of `d` the same enough as
/// the file of `s` under its key.
pub open spec fn mirrors(c: Comparer, s: Fold, d: Fold) -> bool
    decreases s,
{
    &&& forall|k: Seq<char>| #[trigger] has_key(entries(s.folds@), k) == has_key(entries(d.folds@), k)
    &&& forall|k: Seq<char>| #[trigger] has_key(entries(s.fics@), k) == has_key(entries(d.fics@), k)
    &&& forall|i: int|
        0 <= i < s.folds@.len() ==> mirrors(
            c,
            (#[trigger] s.folds@[i]).1,
            lookup(entries(d.folds@), s.folds@[i].0@)->0,
        )
    &&& forall|i: int|
        0 <= i < s.fics@.len() ==> same_enough(
            c,
            (#[trigger] s.fics@[i]).1,
            lookup(entries(d.fics@), s.fics@[i].0@)->0,
        )
}

pub proof fn lemma_no_cmds_concat(a: Seq<EventView>, b: Seq<EventView>)
    ensures
        no_cmds(a + b) == (no_cmds(a) && no_cmds(b)),
{
    if no_cmds(a + b) {
        assert forall|i: int| 0 <= i < a.len() implies (#[trigger] a[i]) is Note by {
            assert((a + b)[i] == a[i]);
        }
        assert forall|i: int| 0 <= i < b.len() implies (#[trigger] b[i]) is Note by {
            assert((a + b)[a.len() + i] == b[i]);
        }
    }
    if no_cmds(a) && no_cmds(b) {
        assert forall|i: int| 0 <= i < (a + b).len() implies (#[trigger] (a + b)[i]) is Note by {
            if i < a.len() {
                assert((a + b)[i] == a[i]);
            } else {
                assert((a + b)[i] == b[i - a.len()]);
            }
        }
    }
}

/// The files of `s` from position `j` on are present in `d` and the same
/// enough there.
pub open spec fn files_quiet(c: Comparer, s: Fold, d: Fold, j: int) -> bool {
    forall|i: int|
        j <= i < s.fics@.len() ==> has_key(entries(d.fics@), (#[trigger] s.fics@[i]).0@) && same_enough(
            c,
            s.fics@[i].1,
            lookup(entries(d.fics@), s.fics@[i].0@)->0,
        )
}

pub proof fn lemma_copy_files_quiet(c: Comparer, s: Fold, d: Fold, rs: Seq<char>, rd: Seq<char>, j: int)
    requires
        0 <= j,
        copy_files(c, s, d, rs, rd, j).1 is None,
    ensures
        no_cmds(copy_files(c, s, d, rs, rd, j).0) == files_quiet(c, s, d, j),
    decreases s.fics@.len() - j,
{
    if j < s.fics@.len() {
        let k = s.fics@[j].0@;
        let f = s.fics@[j].1;
        let step = file_step(c, k, f, d, rs, rd);
        let rest = copy_files(c, s, d, rs, rd, j + 1);
        assert(copy_files(c, s, d, rs, rd, j) == and_then(step, rest));
        assert(step.1 is None);
        assert(rest.1 is None);
        lemma_copy_files_quiet(c, s, d, rs, rd, j + 1);
        let here = file_copy_events(c, k, f, d, rs, rd);
        assert(step.0 == here);
        assert(copy_files(c, s, d, rs, rd, j).0 == here + rest.0);
        lemma_no_cmds_concat(here, rest.0);
        let copy = EventView::Cmd(crate::scriptgen::CommandView::Copy(join_path(rs, f.name@), rd));
        lemma_find(entries(d.fics@), k);
        match lookup(entries(d.fics@), k) {
            None => {
                assert(here == seq![copy]);
                assert(!no_cmds(here)) by {
                    assert(here[0] == copy);
                }
            },
            Some(g) => {
                match compare(f, g, c.crypt) {
                    FicComp::Same => {
                        assert(no_cmds(here));
                    },
                    FicComp::SizeChange(t1, t2) => {
                        let n = note_if(c.logger.verbose, crate::logger::log_line(c.logger.name@, crate::comparer::size_text(f.name@, t1, t2)));
                        assert(here == n + seq![copy]);
                        assert(!no_cmds(here)) by {
                            assert(here[n.len() as int] == copy);
                        }
                    },
                    FicComp::DateChange(d1, d2) => {
                        let n = note_if(c.verbose && c.logger.verbose, crate::logger::log_line(c.logger.name@, crate::comparer::date_text(f.name@, d1, d2)));
                        assert(no_cmds(n));
                        if c.ignore_date_diff {
                            assert(here =~= n);
                        } else {
                            assert(here == n + seq![copy]);
                            assert(!no_cmds(here)) by {
                                assert(here[n.len() as int] == copy);
                            }
                        }
                    },
                }
            },
        }
        assert(files_quiet(c, s, d, j) == (has_key(entries(d.fics@), k) && same_enough(c, f, lookup(entries(d.fics@), k)->0) && files_quiet(c, s, d, j + 1)));
    } else {
        assert(no_cmds(copy_files(c, s, d, rs, rd, j).0));
    }
}


/// The sub-folders of `s` from position `i` on are present in `d`, and
/// the copy walk of each with its counterpart produces no command.
pub open spec fn dirs_copy_quiet(c: Comparer, s: Fold, d: Fold, rs: Seq<char>, rd: Seq<char>, i: int) -> bool {
    forall|j: int|
        i <= j < s.folds@.len() ==> has_key(entries(d.folds@), (#[trigger] s.folds@[j]).0@) && no_cmds(
            copy_dirs(
                c,
                s.folds@[j].1,
                lookup(entries(d.folds@), s.folds@[j].0@)->0,
                join_path(rs, s.folds@[j].1.name@),
                join_path(rd, s.folds@[j].1.name@),
                0,
            ).0,
        )
}

/// When the copy walk of readable trees does not stop (on a date that
/// chrono cannot write), it produces no command exactly when every
/// sub-folder is present with a quiet walk and every file is present and
/// the same enough; and the walk of no sub-folder stops.
pub proof fn lemma_copy_dirs_quiet(c: Comparer, s: Fold, d: Fold, rs: Seq<char>, rd: Seq<char>, i: int)
    requires
        0 <= i,
        all_readable(s),
        all_readable(d),
        copy_dirs(c, s, d, rs, rd, i).1 is None,
    ensures
        forall|j: int|
            i <= j < s.folds@.len() && has_key(entries(d.folds@), (#[trigger] s.folds@[j]).0@) ==> copy_dirs(
                c,
                s.folds@[j].1,
                lookup(entries(d.folds@), s.folds@[j].0@)->0,
                join_path(rs, s.folds@[j].1.name@),
                join_path(rd, s.folds@[j].1.name@),
                0,
            ).1 is None,
        no_cmds(copy_dirs(c, s, d, rs, rd, i).0) == (dirs_copy_quiet(c, s, d, rs, rd, i) && files_quiet(
            c,
            s,
            d,
            0,
        )),
    decreases s, s.folds@.len() - i,
{
    if i >= s.folds@.len() {
        lemma_copy_files_quiet(c, s, d, rs, rd, 0);
    } else {
        let rest = copy_dirs(c, s, d, rs, rd, i + 1);
        let k = s.folds@[i].0@;
        let child = s.folds@[i].1;
        assert(!child.forbidden && all_readable(child));
        let ns = join_path(rs, child.name@);
        let nd = join_path(rd, child.name@);
        lemma_find(entries(d.folds@), k);
        match lookup(entries(d.folds@), k) {
            None => {
                assert(rest.1 is None);
                lemma_copy_dirs_quiet(c, s, d, rs, rd, i + 1);
                let step: (Seq<EventView>, Option<StopView>) = (
                    seq![EventView::Cmd(crate::scriptgen::CommandView::CopyRecurs(ns, nd))],
                    None,
                );
                assert(copy_dirs(c, s, d, rs, rd, i) == (step.0 + rest.0, rest.1));
                lemma_no_cmds_concat(step.0, rest.0);
                assert(!no_cmds(step.0)) by {
                    assert(step.0[0] is Cmd);
                }
                assert(!has_key(entries(d.folds@), k));
            },
            Some(dchild) => {
                let fi = find(entries(d.folds@), k);
                assert(entries(d.folds@)[fi] == (d.folds@[fi].0@, d.folds@[fi].1));
                assert(dchild == d.folds@[fi].1);
                assert(!dchild.forbidden && all_readable(dchild));
                let step = copy_dirs(c, child, dchild, ns, nd, 0);
                assert(copy_dirs(c, s, d, rs, rd, i) == and_then(step, rest));
                assert(step.1 is None);
                assert(rest.1 is None);
                lemma_copy_dirs_quiet(c, s, d, rs, rd, i + 1);
                lemma_copy_dirs_quiet(c, child, dchild, ns, nd, 0);
                assert(copy_dirs(c, s, d, rs, rd, i) == (step.0 + rest.0, rest.1));
                lemma_no_cmds_concat(step.0, rest.0);
            },
        }
        assert(dirs_copy_quiet(c, s, d, rs, rd, i) == (has_key(entries(d.folds@), k) && no_cmds(
            copy_dirs(c, child, lookup(entries(d.folds@), k)->0, ns, nd, 0).0,
        ) && dirs_copy_quiet(c, s, d, rs, rd, i + 1)));
    }
}


/// The files of `d` from position `j` on are present in `s`.
pub open spec fn files_remove_quiet(s: Fold, d: Fold, j: int) -> bool {
    forall|i: int| j <= i < d.fics@.len() ==> has_key(entries(s.fics@), (#[trigger] d.fics@[i]).0@)
}

pub proof fn lemma_remove_files_quiet(s: Fold, d: Fold, rd: Seq<char>, j: int)
    requires
        0 <= j,
    ensures
        no_cmds(remove_files(s, d, rd, j)) == files_remove_quiet(s, d, j),
    decreases d.fics@.len() - j,
{
    if j < d.fics@.len() {
        lemma_remove_files_quiet(s, d, rd, j + 1);
        let k = d.fics@[j].0@;
        let g = d.fics@[j].1;
        let here = match lookup(entries(s.fics@), k) {
            None => seq![EventView::Cmd(crate::scriptgen::CommandView::RemoveFile(join_path(rd, g.name@)))],
            Some(_) => Seq::<EventView>::empty(),
        };
        assert(remove_files(s, d, rd, j) == here + remove_files(s, d, rd, j + 1));
        lemma_no_cmds_concat(here, remove_files(s, d, rd, j + 1));
        if !has_key(entries(s.fics@), k) {
            assert(!no_cmds(here)) by {
                assert(here[0] is Cmd);
            }
        }
        assert(files_remove_quiet(s, d, j) == (has_key(entries(s.fics@), k) && files_remove_quiet(s, d, j + 1)));
    } else {
        assert(no_cmds(remove_files(s, d, rd, j)));
    }
}

/// The sub-folders of `d` from position `i` on are present in `s`, and
/// the removal walk of each with its counterpart produces no command.
pub open spec fn dirs_remove_quiet(c: Comparer, s: Fold, d: Fold, rs: Seq<char>, rd: Seq<char>, i: int) -> bool {
    forall|j: int|
        i <= j < d.folds@.len() ==> has_key(entries(s.folds@), (#[trigger] d.folds@[j]).0@) && no_cmds(
            remove_dirs(
                c,
                lookup(entries(s.folds@), d.folds@[j].0@)->0,
                d.folds@[j].1,
                join_path(rs, d.folds@[j].1.name@),
                join_path(rd, d.folds@[j].1.name@),
                0,
            ).0,
        )
}

/// On readable trees the removal walk never stops, and produces no
/// command exactly when every sub-folder of the destination is in the
/// source with a quiet walk and every file of the destination is in the
/// source.
pub proof fn lemma_remove_dirs_quiet(c: Comparer, s: Fold, d: Fold, rs: Seq<char>, rd: Seq<char>, i: int)
    requires
        0 <= i,
        all_readable(s),
        all_readable(d),
    ensures
        remove_dirs(c, s, d, rs, rd, i).1 is None,
        no_cmds(remove_dirs(c, s, d, rs, rd, i).0) == (dirs_remove_quiet(c, s, d, rs, rd, i)
            && files_remove_quiet(s, d, 0)),
    decreases d, d.folds@.len() - i,
{
    if i >= d.folds@.len() {
        lemma_remove_files_quiet(s, d, rd, 0);
    } else {
        lemma_remove_dirs_quiet(c, s, d, rs, rd, i + 1);
        let rest = remove_dirs(c, s, d, rs, rd, i + 1);
        let k = d.folds@[i].0@;
        let dchild = d.folds@[i].1;
        assert(!dchild.forbidden && all_readable(dchild));
        let ns = join_path(rs, dchild.name@);
        let nd = join_path(rd, dchild.name@);
        lemma_find(entries(s.folds@), k);
        match lookup(entries(s.folds@), k) {
            None => {
                let step: (Seq<EventView>, Option<(Seq<char>, Seq<char>)>) = (
                    seq![EventView::Cmd(crate::scriptgen::CommandView::RemoveFold(nd, dchild.folder_count, dchild.file_count))],
                    None,
                );
                assert(remove_dirs(c, s, d, rs, rd, i) == (step.0 + rest.0, rest.1));
                lemma_no_cmds_concat(step.0, rest.0);
                assert(!no_cmds(step.0)) by {
                    assert(step.0[0] is Cmd);
                }
                assert(!has_key(entries(s.folds@), k));
            },
            Some(schild) => {
                let fi = find(entries(s.folds@), k);
                assert(entries(s.folds@)[fi] == (s.folds@[fi].0@, s.folds@[fi].1));
                assert(schild == s.folds@[fi].1);
                assert(!schild.forbidden && all_readable(schild));
                lemma_remove_dirs_quiet(c, schild, dchild, ns, nd, 0);
                let step = remove_dirs(c, schild, dchild, ns, nd, 0);
                assert(remove_dirs(c, s, d, rs, rd, i) == (step.0 + rest.0, rest.1));
                lemma_no_cmds_concat(step.0, rest.0);
            },
        }
        assert(dirs_remove_quiet(c, s, d, rs, rd, i) == (has_key(entries(s.folds@), k) && no_cmds(
            remove_dirs(c, lookup(entries(s.folds@), k)->0, dchild, ns, nd, 0).0,
        ) && dirs_remove_quiet(c, s, d, rs, rd, i + 1)));
    }
}


/// For the sub-folder of `s` at position `i`, when `d` has its key: both
/// walks of the pair are quiet exactly when the pair mirrors.
pub open spec fn pair_law(
    c: Comparer,
    s: Fold,
    d: Fold,
    rs1: Seq<char>,
    rd1: Seq<char>,
    rs2: Seq<char>,
    rd2: Seq<char>,
    i: int,
) -> bool {
    let k = s.folds@[i].0@;
    let child = s.folds@[i].1;
    let dchild = lookup(entries(d.folds@), k)->0;
    has_key(entries(d.folds@), k) ==> ((no_cmds(
        copy_dirs(c, child, dchild, join_path(rs1, child.name@), join_path(rd1, child.name@), 0).0,
    ) && no_cmds(
        remove_dirs(c, child, dchild, join_path(rs2, dchild.name@), join_path(rd2, dchild.name@), 0).0,
    )) == mirrors(c, child, dchild))
}

/// The script for a pair of readable, well-formed trees holds no command
/// exactly when the destination already mirrors the source: the copy walk
/// and the removal walk are both quiet if and only if `d` mirrors `s`
/// (provided the copy walk does not stop on a date that chrono cannot
/// write, where the program panics).
pub proof fn lemma_quiet_iff_mirrors(
    c: Comparer,
    s: Fold,
    d: Fold,
    rs1: Seq<char>,
    rd1: Seq<char>,
    rs2: Seq<char>,
    rd2: Seq<char>,
)
    requires
        s.wf(),
        d.wf(),
        all_readable(s),
        all_readable(d),
        copy_dirs(c, s, d, rs1, rd1, 0).1 is None,
    ensures
        (no_cmds(copy_dirs(c, s, d, rs1, rd1, 0).0) && no_cmds(remove_dirs(c, s, d, rs2, rd2, 0).0)) == mirrors(
            c,
            s,
            d,
        ),
    decreases s,
{
    lemma_copy_dirs_quiet(c, s, d, rs1, rd1, 0);
    lemma_remove_dirs_quiet(c, s, d, rs2, rd2, 0);
    let sf = entries(s.folds@);
    let df = entries(d.folds@);
    let sx = entries(s.fics@);
    let dx = entries(d.fics@);
    assert forall|i: int| 0 <= i < s.folds@.len() implies #[trigger] pair_law(c, s, d, rs1, rd1, rs2, rd2, i) by {
        let k = s.folds@[i].0@;
        let child = s.folds@[i].1;
        if has_key(df, k) {
            lemma_find(df, k);
            let j = find(df, k);
            assert(df[j] == (d.folds@[j].0@, d.folds@[j].1));
            let dchild = d.folds@[j].1;
            assert(lookup(df, k)->0 == dchild);
            assert(child.wf() && dchild.wf());
            assert(all_readable(child) && all_readable(dchild));
            assert(has_key(entries(d.folds@), s.folds@[i].0@));
            lemma_quiet_iff_mirrors(
                c,
                child,
                dchild,
                join_path(rs1, child.name@),
                join_path(rd1, child.name@),
                join_path(rs2, dchild.name@),
                join_path(rd2, dchild.name@),
            );
        }
    }
    // Each key at its own position.
    assert forall|i: int| 0 <= i < s.folds@.len() implies sf[i].0 == (#[trigger] s.folds@[i]).0@ && find(sf, s.folds@[i].0@) == i && has_key(sf, s.folds@[i].0@) by {
        assert(sf[i] == (s.folds@[i].0@, s.folds@[i].1));
        lemma_find_own_key(sf, i);
    }
    assert forall|j: int| 0 <= j < d.folds@.len() implies df[j].0 == (#[trigger] d.folds@[j]).0@ && find(df, d.folds@[j].0@) == j && has_key(df, d.folds@[j].0@) by {
        assert(df[j] == (d.folds@[j].0@, d.folds@[j].1));
        lemma_find_own_key(df, j);
    }
    assert forall|i: int| 0 <= i < s.fics@.len() implies sx[i].0 == (#[trigger] s.fics@[i]).0@ && find(sx, s.fics@[i].0@) == i && has_key(sx, s.fics@[i].0@) by {
        assert(sx[i] == (s.fics@[i].0@, s.fics@[i].1));
        lemma_find_own_key(sx, i);
    }
    assert forall|j: int| 0 <= j < d.fics@.len() implies dx[j].0 == (#[trigger] d.fics@[j]).0@ && find(dx, d.fics@[j].0@) == j && has_key(dx, d.fics@[j].0@) by {
        assert(dx[j] == (d.fics@[j].0@, d.fics@[j].1));
        lemma_find_own_key(dx, j);
    }
    let quiet = no_cmds(copy_dirs(c, s, d, rs1, rd1, 0).0) && no_cmds(remove_dirs(c, s, d, rs2, rd2, 0).0);
    if quiet {
        assert(dirs_copy_quiet(c, s, d, rs1, rd1, 0) && files_quiet(c, s, d, 0));
        assert(dirs_remove_quiet(c, s, d, rs2, rd2, 0) && files_remove_quiet(s, d, 0));
        assert forall|k: Seq<char>| #[trigger] has_key(sf, k) == has_key(df, k) by {
            if has_key(sf, k) {
                lemma_find(sf, k);
                let i = find(sf, k);
                assert(s.folds@[i].0@ == sf[i].0);
            }
            if has_key(df, k) {
                lemma_find(df, k);
                let j = find(df, k);
                assert(d.folds@[j].0@ == df[j].0);
            }
        }
        assert forall|k: Seq<char>| #[trigger] has_key(sx, k) == has_key(dx, k) by {
            if has_key(sx, k) {
                lemma_find(sx, k);
                let i = find(sx, k);
                assert(s.fics@[i].0@ == sx[i].0);
            }
            if has_key(dx, k) {
                lemma_find(dx, k);
                let j = find(dx, k);
                assert(d.fics@[j].0@ == dx[j].0);
            }
        }
        assert forall|i: int| 0 <= i < s.folds@.len() implies mirrors(
            c,
            (#[trigger] s.folds@[i]).1,
            lookup(df, s.folds@[i].0@)->0,
        ) by {
            let k = s.folds@[i].0@;
            assert(has_key(df, k));
            lemma_find(df, k);
            let j = find(df, k);
            assert(d.folds@[j].0@ == k);
            assert(lookup(sf, k)->0 == s.folds@[i].1) by {
                assert(find(sf, k) == i);
            }
            assert(lookup(df, k)->0 == d.folds@[j].1);
            assert(pair_law(c, s, d, rs1, rd1, rs2, rd2, i));
        }
        assert forall|i: int| 0 <= i < s.fics@.len() implies same_enough(
            c,
            (#[trigger] s.fics@[i]).1,
            lookup(dx, s.fics@[i].0@)->0,
        ) by {}
        assert(mirrors(c, s, d));
    }
    if mirrors(c, s, d) {
        assert forall|i: int| 0 <= i < s.folds@.len() implies has_key(df, (#[trigger] s.folds@[i]).0@) && no_cmds(
            copy_dirs(
                c,
                s.folds@[i].1,
                lookup(df, s.folds@[i].0@)->0,
                join_path(rs1, s.folds@[i].1.name@),
                join_path(rd1, s.folds@[i].1.name@),
                0,
            ).0,
        ) by {
            let k = s.folds@[i].0@;
            assert(has_key(sf, k));
            assert(has_key(df, k));
            assert(pair_law(c, s, d, rs1, rd1, rs2, rd2, i));
        }
        assert(dirs_copy_quiet(c, s, d, rs1, rd1, 0));
        assert forall|i: int| 0 <= i < s.fics@.len() implies has_key(dx, (#[trigger] s.fics@[i]).0@) && same_enough(
            c,
            s.fics@[i].1,
            lookup(dx, s.fics@[i].0@)->0,
        ) by {
            assert(has_key(sx, s.fics@[i].0@));
        }
        assert(files_quiet(c, s, d, 0));
        assert forall|j: int| 0 <= j < d.folds@.len() implies has_key(sf, (#[trigger] d.folds@[j]).0@) && no_cmds(
            remove_dirs(
                c,
                lookup(sf, d.folds@[j].0@)->0,
                d.folds@[j].1,
                join_path(rs2, d.folds@[j].1.name@),
                join_path(rd2, d.folds@[j].1.name@),
                0,
            ).0,
        ) by {
            let k = d.folds@[j].0@;
            assert(has_key(df, k));
            assert(has_key(sf, k));
            lemma_find(sf, k);
            let i = find(sf, k);
            assert(s.folds@[i].0@ == k);
            assert(lookup(sf, k)->0 == s.folds@[i].1);
            assert(lookup(df, k)->0 == d.folds@[j].1) by {
                assert(find(df, k) == j);
            }
            assert(pair_law(c, s, d, rs1, rd1, rs2, rd2, i));
        }
        assert(dirs_remove_quiet(c, s, d, rs2, rd2, 0));
        assert forall|j: int| 0 <= j < d.fics@.len() implies has_key(sx, (#[trigger] d.fics@[j]).0@) by {
            assert(has_key(dx, d.fics@[j].0@));
        }
        assert(files_remove_quiet(s, d, 0));
    }
}

} // verus!

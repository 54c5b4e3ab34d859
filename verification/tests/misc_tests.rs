use synch::explore::{Dossier, Explore, Fichier};
use synch::explorer::fold::fic::{Fic as OldFic, FicComp};
use synch::explorer::{Explorer, Place};
use synch::fic::{FileMeta, Fic, Stamp};
use synch::fold::Fold;
use synch::join::Joiner;
use synch::logger::{Logger, MessageType};
use synch::paramcli::Options;
use synch::progression::{value, Action, Progression};
use synch::span::Span;
use synch::writer::WriterConsole;

#[test]
fn logger_lines() {
    let l = Logger::new("Joiner".to_string(), false);
    assert_eq!(l.starting(), "Joiner says: 'Starting'");
    assert_eq!(l.log("hello".to_string()), "Joiner says: 'hello'");
    assert_eq!(l.error("bad".to_string()), "Joiner says: '!Error! ==> bad'");
    assert_eq!(l.warning("hmm".to_string()), "Joiner says: 'Warning ==> hmm'");
    assert_eq!(l.verbose("v".to_string()), None);
    let (line, t) = l.timed("x".to_string(), Span::new(3, 0));
    assert!(line.is_none());
    assert_eq!((t.secs, t.nanos), (0, 0));
    let v = Logger::new("R".to_string(), true);
    assert_eq!(v.verbose("v".to_string()), Some("R says: 'v'".to_string()));
    let (line, t) = v.timed("x".to_string(), Span::new(1, 500_000_000));
    assert_eq!(line, Some("R says: 'x in 1.5s'".to_string()));
    assert_eq!((t.secs, t.nanos), (1, 500_000_000));
    let (line, t) = v.dual_timed("d".to_string(), Span::new(0, 15_000_000), Span::new(2, 0));
    assert_eq!(line, "R says: 'd in 15ms/2s '");
    assert_eq!(t.secs, 2);
    assert_eq!(MessageType::Grave("stop".to_string()).to_string(), "!Major Error! ==> stop. STOPPING");
}

#[test]
fn span_sums() {
    let a = Span::new(1, 600_000_000);
    let b = Span::new(2, 700_000_000);
    let c = a.add(&b);
    assert_eq!((c.secs, c.nanos), (4, 300_000_000));
    assert_eq!(Span::zero().add(&a).nanos, 600_000_000);
    let d = std::time::Duration::new(1, 600_000_000) + std::time::Duration::new(2, 700_000_000);
    assert_eq!((c.secs, c.nanos), (d.as_secs(), d.subsec_nanos()));
    assert_eq!(Span::new(0, 1500).text(), format!("{:?}", std::time::Duration::new(0, 1500)));
}

#[test]
fn places() {
    assert_eq!(Place::Src.to_name(), "SrcReader");
    assert_eq!(Place::Dst.to_name(), "DstReader");
    assert_eq!(Place::Src.to_string(), "source");
    assert_eq!(Place::Dst.clone().to_string(), "destination");
}

#[test]
fn progression_counts() {
    assert_eq!(value(Action::Read), 5);
    assert_eq!(value(Action::Join), 1);
    assert_eq!(value(Action::Compare), 2);
    let mut p = Progression::new(2);
    assert_eq!(p.total, 32);
    assert_eq!(p.run(Action::Read), 15);
    assert_eq!(p.run(Action::Compare), 21);
    assert_eq!(p.show(), 21);
}

fn fold(name: &str) -> Fold {
    Fold::new_root(name)
}

#[test]
fn joiner_pairs_in_order() {
    let mut j = Joiner::new(true);
    assert_eq!(j.take_notes(), vec!["Joiner says: 'Starting'".to_string()]);
    assert!(j.receive(Place::Src, fold("s1")).is_none());
    assert!(j.receive(Place::Src, fold("s2")).is_none());
    let p = j.receive(Place::Dst, fold("d1")).expect("a pair");
    assert_eq!((p.0.name.as_str(), p.1.name.as_str()), ("s1", "d1"));
    let p = j.receive(Place::Dst, fold("d2")).expect("a pair");
    assert_eq!((p.0.name.as_str(), p.1.name.as_str()), ("s2", "d2"));
    assert!(j.receive(Place::Dst, fold("d3")).is_none());
    assert_eq!((j.nb_src, j.nb_dst, j.nb_comp), (2, 3, 2));
    let notes = j.take_notes();
    assert_eq!(notes[0], "Joiner says: 'receive source data'");
    assert_eq!(notes[2], "Joiner says: 'receive destination data'");
    assert_eq!(notes[3], "Joiner says: 'got a pair -> sending to comparers'");
    assert_eq!(
        j.finish(Span::new(1, 0), Span::new(2, 0)),
        "Joiner says: 'finished all (src:2 dst:3 cmp:2) in 1s/2s '"
    );
}

fn options(exceptions: &[&str]) -> Options {
    Options {
        verbose: true,
        crypt: false,
        ignore_err: false,
        exceptions: exceptions.iter().map(|s| s.to_string()).collect(),
        ignore_date_diff: false,
    }
}

#[test]
fn explorer_decisions() {
    let mut e = Explorer::new("SrcReader".to_string(), &options(&["tmp", "cache"]));
    let mut root = e.start("/r");
    assert_eq!(root.name, "/r");
    assert_eq!(e.take_notes(), vec!["SrcReader says: 'Reading Folder: \"/r\" '".to_string()]);
    assert!(e.is_exception("/r/x/tmp/y"));
    assert!(!e.is_exception("/r/x/y"));
    assert_eq!(e.take_notes(), vec!["SrcReader says: '!Error! ==> \"/r/x/tmp/y\" in exceptions'".to_string()]);
    let mut sub = Fold::new("/r/locked");
    e.unreadable("/r/locked", "Permission denied", &mut sub);
    assert!(sub.forbidden);
    assert_eq!(e.folder_forbidden_count, 1);
    root.add_fold(sub);
    e.add_file(&mut root, Fic::new("/r/f", None, Stamp { secs: 0, nanos: 0 }));
    e.add_file(
        &mut root,
        Fic::new("/r/g", Some(FileMeta { len: 1, modify: Stamp { secs: 5, nanos: 0 }, modify_second: 5 }), Stamp { secs: 0, nanos: 0 }),
    );
    assert_eq!(e.file_forbidden_count, 1);
    assert!(!e.entry_failed("oops"));
    let (line, _) = e.finish("/r", &root, Span::new(0, 0));
    assert_eq!(line, Some("SrcReader says: 'Folder: \"/r\" Folder total/forbidden 1/1 Files total/forbidden 2/1 in 0ns'".to_string()));
    let notes = e.take_notes();
    assert_eq!(notes[0], "SrcReader says: '!Error! ==> Permission denied on \"/r/locked\"'");
    assert_eq!(notes[1], "SrcReader says: '!Error! ==> oops'");
}

#[test]
fn explore_counts() {
    let mut x = Explore::new();
    let mut d = Dossier::new("/a/b");
    assert_eq!(d.name, "b");
    x.found_dossier(&mut d, Dossier::new("/a/b/c"));
    x.found_fichier(&mut d, Fichier::new("/a/b/f", Some(FileMeta { len: 3, modify: Stamp { secs: 1, nanos: 0 }, modify_second: 1 })));
    x.found_fichier(&mut d, Fichier::new("/a/b/g", None));
    x.unreadable();
    assert_eq!(d.dossiers.len(), 1);
    assert_eq!(d.fichiers.len(), 1);
    assert_eq!(x.display_count(), "Total 1/1 dir && 2/1 files");
}

#[test]
fn console_writer_counts() {
    let mut w = WriterConsole::new();
    assert_eq!(w.write("a".to_string()), "a");
    w.write("b".to_string());
    assert_eq!(w.get_nb_ecr(), 2);
}

#[test]
fn old_file_comparison() {
    let m = |secs: i64, nanos: u32, len: u64| FileMeta { len, modify: Stamp { secs, nanos }, modify_second: secs };
    let a = OldFic::new("/a", Some(m(1, 5, 3))).expect("file");
    let b = OldFic::new("/b", Some(m(1, 6, 3))).expect("file");
    assert!(matches!(a.comp(&b), FicComp::DateChange(_, _)));
    assert!(matches!(a.comp(&a), FicComp::Same));
    let c = OldFic::new("/c", Some(m(1, 5, 4))).expect("file");
    assert!(matches!(a.comp(&c), FicComp::SizeChange(3, 4)));
    assert!(OldFic::new("/d", None).is_none());
}

#[test]
fn log_closing_line() {
    let l = Logger::new("Logger".to_string(), false);
    assert_eq!(
        l.closing_line(7, Span::new(0, 2_000_000), Span::new(3, 0)),
        "Logger says: '7 lines writes in 2ms/3s'"
    );
}

#[test]
fn full_progress_run_reaches_100() {
    let n: usize = 1;
    let mut p = Progression::new(n);
    let steps = [
        Action::Read, Action::Read, Action::Join, Action::Compare,
        Action::Join, Action::Compare,
    ];
    let mut last = 0;
    for a in steps {
        let v = p.run(a);
        assert!(v >= last && v <= 100);
        last = v;
    }
    assert_eq!(last, 100);
    assert_eq!(p.actual, p.total);
}

#[test]
fn console_writer_counts_each_write() {
    let mut w = WriterConsole::new();
    for k in 1..=5 {
        assert_eq!(w.write(format!("line {}", k)), format!("line {}", k));
        assert_eq!(w.get_nb_ecr(), k);
    }
}

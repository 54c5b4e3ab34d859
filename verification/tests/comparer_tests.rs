use synch::comparer::{Comparer, Event, Stop};
use synch::fic::{Fic, Stamp};
use synch::fold::Fold;
use synch::paramcli::Options;
use synch::scriptgen::Command;

fn fic(name: &str, len: u64, secs: i64) -> Fic {
    Fic { forbidden: false, modify: Stamp { secs, nanos: 0 }, modify_second: secs, len, name: name.to_string() }
}

fn options(verbose: bool, crypt: bool, ignore_err: bool, ignore_date_diff: bool) -> Options {
    Options { verbose, crypt, ignore_err, exceptions: Vec::new(), ignore_date_diff }
}

fn texts(events: &[Event]) -> Vec<String> {
    events
        .iter()
        .map(|e| match e {
            Event::Cmd(c) => c.to_command(),
            Event::Note(l) => format!("note: {}", l),
        })
        .collect()
}

fn commands(events: &[Event]) -> Vec<String> {
    events
        .iter()
        .filter_map(|e| match e {
            Event::Cmd(c) => Some(c.to_command()),
            Event::Note(_) => None,
        })
        .collect()
}

/// /s: A/{f1}, x (2 bytes), same (3 bytes)
fn source() -> Fold {
    let mut a = Fold::new("/s/A");
    a.add_fic(fic("f1", 1, 10));
    let mut s = Fold::new_root("/s");
    s.add_fold(a);
    s.add_fic(fic("x", 2, 10));
    s.add_fic(fic("same", 3, 10));
    s
}

#[test]
fn copy_into_empty_destination() {
    let c = Comparer::new("CompPlus".to_string(), &options(false, false, false, false));
    let src = source();
    let dst = Fold::new_root("/d");
    let (events, refusal) = c.gen_copy(&src, &dst);
    assert!(refusal.is_none());
    assert_eq!(
        texts(&events),
        vec![
            "cp --preserve=all -r \"/s/A/\" \"/d/A\" ".to_string(),
            "cp --preserve=all \"/s/x\" \"/d\" ".to_string(),
            "cp --preserve=all \"/s/same\" \"/d\" ".to_string(),
        ]
    );
}

#[test]
fn copy_only_what_differs() {
    let c = Comparer::new("CompPlus".to_string(), &options(false, false, false, false));
    let src = source();
    let mut a = Fold::new("/d/a");
    a.add_fic(fic("F1", 1, 11));
    let mut dst = Fold::new_root("/d");
    dst.add_fold(a);
    dst.add_fic(fic("X", 5, 10));
    dst.add_fic(fic("same", 3, 10));
    let (events, refusal) = c.gen_copy(&src, &dst);
    assert!(refusal.is_none());
    assert_eq!(
        commands(&events),
        vec!["cp --preserve=all \"/s/A/f1\" \"/d/A\" ".to_string(), "cp --preserve=all \"/s/x\" \"/d\" ".to_string()]
    );
}

#[test]
fn date_difference_ignored_on_request() {
    let c = Comparer::new("CompPlus".to_string(), &options(false, false, false, true));
    let mut src = Fold::new_root("/s");
    src.add_fic(fic("f", 4, 10));
    let mut dst = Fold::new_root("/d");
    dst.add_fic(fic("f", 4, 20));
    let (events, _) = c.gen_copy(&src, &dst);
    assert!(commands(&events).is_empty());
    let c2 = Comparer::new("CompPlus".to_string(), &options(false, false, false, false));
    let (events2, _) = c2.gen_copy(&src, &dst);
    assert_eq!(commands(&events2), vec!["cp --preserve=all \"/s/f\" \"/d\" ".to_string()]);
}

#[test]
fn verbose_lines_tell_the_differences() {
    let c = Comparer::new("CompPlus".to_string(), &options(true, false, false, false));
    let mut src = Fold::new_root("/s");
    src.add_fic(fic("f", 4, 1_600_000_000));
    src.add_fic(fic("g", 4, 10));
    let mut dst = Fold::new_root("/d");
    dst.add_fic(fic("f", 4, 1_600_000_001));
    dst.add_fic(fic("g", 6, 10));
    let (events, _) = c.gen_copy(&src, &dst);
    assert_eq!(
        texts(&events),
        vec![
            "note: CompPlus says: 'Compare to find new/modify from \"/s\"'".to_string(),
            "note: CompPlus says: 'DEBUG diff    \"f\"  date difference 13/09/2020 12:26:40-13/09/2020 12:26:41 (raw:SystemTime { tv_sec: 1600000000, tv_nsec: 0 }/SystemTime { tv_sec: 1600000001, tv_nsec: 0 })'".to_string(),
            "cp --preserve=all \"/s/f\" \"/d\" ".to_string(),
            "note: CompPlus says: 'DEBUG diff \"g\" size difference 4/6'".to_string(),
            "cp --preserve=all \"/s/g\" \"/d\" ".to_string(),
        ]
    );
}

#[test]
fn remove_what_source_lacks() {
    let c = Comparer::new("CompMinus".to_string(), &options(false, false, false, false));
    let src = source();
    let mut old = Fold::new("/d/Old");
    old.add_fic(fic("o", 1, 1));
    let mut a = Fold::new("/d/A");
    a.add_fic(fic("gone", 1, 1));
    let mut dst = Fold::new_root("/d");
    dst.add_fold(old);
    dst.add_fold(a);
    dst.add_fic(fic("x", 2, 10));
    dst.add_fic(fic("extra", 2, 10));
    let (events, refusal) = c.gen_remove(&src, &dst);
    assert!(refusal.is_none());
    assert_eq!(
        texts(&events),
        vec!["rm -rf \"/d/Old\"".to_string(), "rm -f \"/d/A/gone\" ".to_string(), "rm -f \"/d/extra\" ".to_string()]
    );
}

#[test]
fn identical_trees_give_nothing() {
    let c = Comparer::new("CompPlus".to_string(), &options(false, false, false, false));
    let (e1, r1) = c.gen_copy(&source(), &source());
    assert!(e1.is_empty() && r1.is_none());
    let (e2, r2) = c.gen_remove(&source(), &source());
    assert!(e2.is_empty() && r2.is_none());
}

#[test]
fn forbidden_folder_refused() {
    let c = Comparer::new("CompPlus".to_string(), &options(false, false, false, false));
    let mut bad = Fold::new("/s/Bad");
    bad.forbidden = true;
    let mut src = Fold::new_root("/s");
    src.add_fold(bad);
    src.add_fic(fic("x", 1, 1));
    let dst = Fold::new_root("/d");
    let (events, refusal) = c.gen_copy(&src, &dst);
    assert!(events.is_empty());
    let r = match refusal.expect("a refusal") {
        Stop::Refused(r) => r,
        Stop::BadDate => panic!("not a date stop"),
    };
    assert_eq!(r.root, "/s");
    assert_eq!(r.key, "bad");
    assert_eq!(r.message(), "\"/s\"\\\"bad\" is forbidden");
}

#[test]
fn forbidden_folder_ignored_on_request() {
    let c = Comparer::new("CompPlus".to_string(), &options(false, false, true, false));
    let mut bad = Fold::new("/d/Bad");
    bad.forbidden = true;
    let mut src = Fold::new_root("/s");
    src.add_fold(Fold::new("/s/Bad"));
    src.add_fic(fic("x", 1, 1));
    let mut dst = Fold::new_root("/d");
    dst.add_fold(bad);
    let (events, refusal) = c.gen_copy(&src, &dst);
    assert!(refusal.is_none());
    assert_eq!(
        texts(&events),
        vec![
            "note: CompPlus says: 'Warning ==> \"/d\"\\\"bad\" is forbidden -> ignoring'".to_string(),
            "cp --preserve=all \"/s/x\" \"/d\" ".to_string(),
        ]
    );
    let cm = Comparer::new("CompMinus".to_string(), &options(false, false, true, false));
    let (events, refusal) = cm.gen_remove(&src, &dst);
    assert!(refusal.is_none());
    assert_eq!(texts(&events), vec!["note: CompMinus says: 'Warning ==> \"/d\"\\\"bad\" is forbidden -> ignoring'".to_string()]);
}

#[test]
fn removal_of_big_folder_asks() {
    let c = Comparer::new("CompMinus".to_string(), &options(false, false, false, false));
    let mut big = Fold::new("/d/Big");
    for i in 0..11 {
        big.add_fic(fic(&format!("f{}", i), 1, 1));
    }
    let mut dst = Fold::new_root("/d");
    dst.add_fold(big);
    let src = Fold::new_root("/s");
    let (events, _) = c.gen_remove(&src, &dst);
    match &events[0] {
        Event::Cmd(Command::RemoveFold(p, folders, files)) => {
            assert_eq!(p, "/d/Big");
            assert_eq!((*folders, *files), (0, 11));
        }
        _ => panic!("expected a folder removal"),
    }
    assert_eq!(
        commands(&events)[0],
        "echo \"/d/Big\" Contains 11 folders and 0  files.\necho Do you wish to delete this folder? \"Yes\" will Proceed, Anything Else will keep it\n    read yn\n        case $yn in\n            Yes) rm -rf \"/d/Big\";;\n            *) echo avoid delete ;;\n        esac\n"
    );
}

#[test]
fn mirrored_trees_need_no_command() {
    let c = Comparer::new("CompPlus".to_string(), &options(true, false, false, true));
    let src = source();
    let mut a = Fold::new("/d/a");
    a.add_fic(fic("F1", 1, 99));
    let mut dst = Fold::new_root("/d");
    dst.add_fic(fic("SAME", 3, 10));
    dst.add_fold(a);
    dst.add_fic(fic("X", 2, 10));
    let (e1, r1) = c.gen_copy(&src, &dst);
    let (e2, r2) = c.gen_remove(&src, &dst);
    assert!(r1.is_none() && r2.is_none());
    assert!(commands(&e1).is_empty());
    assert!(commands(&e2).is_empty());
    // one more file on either side breaks the mirror
    let mut more = Fold::new_root("/d");
    more.add_fic(fic("extra", 1, 1));
    let (e3, _) = c.gen_remove(&Fold::new_root("/s"), &more);
    assert_eq!(commands(&e3), vec!["rm -f \"/d/extra\" ".to_string()]);
}

#[test]
fn file_checks_of_trees() {
    let src = source();
    assert!(src.check_fics());
    let mut bad = Fold::new_root("/b");
    let mut f = fic("f", 1, 1);
    f.modify.nanos = 1_000_000_000;
    bad.add_fic(f);
    assert!(!bad.check_fics());
    let mut outer = Fold::new_root("/o");
    outer.add_fold(bad);
    assert!(!outer.check_fics());
}

#[test]
fn search_closing_lines_quote_paths() {
    let c = Comparer::new("CompPlus".to_string(), &options(true, false, false, false));
    let s = Fold::new_root("/src/it's");
    let (line, t) = c.copies_found(&s, synch::span::Span::new(1, 0));
    let q = format!("{:?}", std::path::Path::new("/src/it's"));
    assert_eq!(line, Some(format!("CompPlus says: 'Finished finding copies from {} in 1s'", q)));
    assert_eq!(t.secs, 1);
    let (line, _) = c.removals_found(&s, synch::span::Span::new(0, 0));
    assert_eq!(line, Some(format!("CompPlus says: 'finished finding what to deletes from {} in 0ns'", q)));
    let q = Comparer::new("CompMinus".to_string(), &options(false, false, false, false));
    let (line, t) = q.copies_found(&s, synch::span::Span::new(1, 0));
    assert!(line.is_none());
    assert_eq!((t.secs, t.nanos), (0, 0));
}

#[test]
fn date_beyond_chrono_stops_the_verbose_walk() {
    let c = Comparer::new("CompPlus".to_string(), &options(true, false, false, false));
    let mut src = Fold::new_root("/s");
    src.add_fic(fic("a", 4, 1));
    src.add_fic(fic("b", 4, 9_000_000_000_000));
    src.add_fic(fic("c", 4, 1));
    let mut dst = Fold::new_root("/d");
    dst.add_fic(fic("b", 4, 5));
    let (events, stop) = c.gen_copy(&src, &dst);
    assert!(matches!(stop, Some(Stop::BadDate)));
    assert_eq!(
        commands(&events),
        vec!["cp --preserve=all \"/s/a\" \"/d\" ".to_string()]
    );
    let quiet = Comparer::new("CompPlus".to_string(), &options(false, false, false, false));
    let (events, stop) = quiet.gen_copy(&src, &dst);
    assert!(stop.is_none());
    assert_eq!(commands(&events).len(), 3);
}

use synch::fic::{Fic, Stamp};
use synch::fold::{find_key, to_lower, Fold};

fn fic(name: &str, len: u64) -> Fic {
    Fic { forbidden: false, modify: Stamp { secs: 1, nanos: 0 }, modify_second: 1, len, name: name.to_string() }
}

#[test]
fn new_root_keeps_whole_path() {
    let f = Fold::new_root("/home/user/Docs");
    assert_eq!(f.name, "/home/user/Docs");
    assert_eq!(f.get_counts(), (0, 0));
    assert!(!f.forbidden);
}

#[test]
fn new_keeps_last_name() {
    assert_eq!(Fold::new("/home/user/Docs").name, "Docs");
    assert_eq!(Fold::new("/").name, "/");
}

#[test]
fn files_are_keyed_in_lower_case() {
    let mut f = Fold::new_root("/r");
    f.add_fic(fic("ReadMe.TXT", 3));
    assert_eq!(f.fics.len(), 1);
    assert_eq!(f.fics[0].0, "readme.txt");
    assert_eq!(f.fics[0].1.name, "ReadMe.TXT");
    assert_eq!(find_key(&f.fics, &"readme.txt".to_string()), Some(0));
    assert_eq!(find_key(&f.fics, &"other".to_string()), None);
}

#[test]
fn same_key_replaces_but_still_counts() {
    let mut f = Fold::new_root("/r");
    f.add_fic(fic("a.txt", 3));
    f.add_fic(fic("b.txt", 4));
    f.add_fic(fic("A.TXT", 5));
    assert_eq!(f.fics.len(), 2);
    assert_eq!(f.fics[0].1.len, 5);
    assert_eq!(f.fics[0].1.name, "A.TXT");
    assert_eq!(f.get_counts(), (0, 3));
}

#[test]
fn sub_folder_counts_add_up() {
    let mut sub = Fold::new("/r/Sub");
    sub.add_fic(fic("x", 1));
    sub.add_fic(fic("y", 1));
    let mut subsub = Fold::new("/r/Sub/Deep");
    subsub.add_fic(fic("z", 1));
    sub.add_fold(subsub);
    assert_eq!(sub.get_counts(), (1, 3));
    let mut root = Fold::new_root("/r");
    root.add_fic(fic("top", 1));
    root.add_fold(sub);
    assert_eq!(root.get_counts(), (2, 4));
    assert_eq!(root.folds[0].0, "sub");
}

#[test]
fn lower_case_of_names() {
    assert_eq!(to_lower(&"ÉtÉ.Txt".to_string()), "été.txt");
}

#[test]
fn read_tree_counts_and_keys_every_level() {
    let mut deep = Fold::new("/r/A/Deep");
    deep.add_fic(fic("F.TXT", 1));
    let mut a = Fold::new("/r/A");
    a.add_fic(fic("One", 1));
    a.add_fold(deep);
    let mut b = Fold::new("/r/B");
    b.add_fic(fic("two", 1));
    let mut root = Fold::new_root("/r");
    root.add_fold(a);
    root.add_fold(b);
    root.add_fic(fic("Top", 1));
    assert_eq!(root.get_counts(), (3, 4));
    assert_eq!(root.folds[0].1.get_counts(), (1, 2));
    assert_eq!(root.folds[0].1.folds[0].1.get_counts(), (0, 1));
    assert_eq!(root.folds[1].1.get_counts(), (0, 1));
    let keys: Vec<&str> = root.folds.iter().map(|e| e.0.as_str()).collect();
    assert_eq!(keys, vec!["a", "b"]);
    assert_eq!(root.folds[0].1.fics[0].0, "one");
    assert_eq!(root.folds[0].1.folds[0].1.fics[0].0, "f.txt");
    assert_eq!(root.fics[0].0, "top");
}

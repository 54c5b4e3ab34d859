use synch::fic::{FileMeta, Fic, FicComp, Stamp};

fn fic(len: u64, secs: i64) -> Fic {
    Fic {
        forbidden: false,
        modify: Stamp { secs, nanos: 0 },
        modify_second: secs,
        len,
        name: "a.txt".to_string(),
    }
}

#[test]
fn comp_same_file() {
    assert!(matches!(fic(10, 5).comp(&fic(10, 5), false), FicComp::Same));
}

#[test]
fn comp_size_change() {
    assert!(matches!(fic(10, 5).comp(&fic(11, 5), false), FicComp::SizeChange(10, 11)));
}

#[test]
fn comp_date_change() {
    match fic(10, 5).comp(&fic(10, 6), false) {
        FicComp::DateChange(a, b) => {
            assert_eq!(a.secs, 5);
            assert_eq!(b.secs, 6);
        }
        _ => panic!("expected a date change"),
    }
}

#[test]
fn comp_empty_file_ignores_date() {
    assert!(matches!(fic(0, 5).comp(&fic(0, 6), false), FicComp::Same));
}

#[test]
fn comp_crypt_header() {
    assert!(matches!(fic(5000, 5).comp(&fic(9096, 5), true), FicComp::Same));
    assert!(matches!(fic(5000, 5).comp(&fic(5000, 5), true), FicComp::SizeChange(5000, 5000)));
    assert!(matches!(fic(100, 5).comp(&fic(100, 5), true), FicComp::Same));
    assert!(matches!(fic(100, 5).comp(&fic(4196, 5), false), FicComp::SizeChange(100, 4196)));
}

#[test]
fn new_file_from_metadata() {
    let m = FileMeta { len: 12, modify: Stamp { secs: 100, nanos: 5 }, modify_second: 100 };
    let f = Fic::new("/x/y/Doc.TXT", Some(m), Stamp { secs: 1, nanos: 0 });
    assert_eq!(f.name, "Doc.TXT");
    assert!(!f.forbidden);
    assert_eq!(f.len, 12);
    assert_eq!(f.modify_second, 100);
}

#[test]
fn new_file_without_metadata_is_forbidden() {
    let f = Fic::new("/x/y/z", None, Stamp { secs: 77, nanos: 3 });
    assert!(f.forbidden);
    assert_eq!(f.len, 0);
    assert_eq!(f.modify_second, 0);
    assert_eq!(f.modify, Stamp { secs: 77, nanos: 3 });
}

#[test]
fn stamp_texts() {
    let s = Stamp { secs: 1_600_000_000, nanos: 7 };
    assert_eq!(s.debug_text(), "SystemTime { tv_sec: 1600000000, tv_nsec: 7 }");
    assert_eq!(s.utc(), Some("13/09/2020 12:26:40".to_string()));
    let far = Stamp { secs: 9_000_000_000_000, nanos: 0 };
    assert_eq!(far.utc(), None);
}

#[test]
fn stamp_debug_matches_system_time() {
    let t = std::time::UNIX_EPOCH + std::time::Duration::new(1_600_000_000, 7);
    assert_eq!(format!("{:?}", t), Stamp { secs: 1_600_000_000, nanos: 7 }.debug_text());
}

#[test]
fn utc_dates_up_to_chrono_limits() {
    let last = Stamp { secs: 8_210_266_876_799, nanos: 999_999_999 };
    assert!(last.utc().is_some());
    assert_eq!(Stamp { secs: 8_210_266_876_800, nanos: 0 }.utc(), None);
    let first = Stamp { secs: -8_334_601_228_800, nanos: 0 };
    assert!(first.utc().is_some());
    assert_eq!(Stamp { secs: -8_334_601_228_801, nanos: 0 }.utc(), None);
}

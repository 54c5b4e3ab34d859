use synch::paramcli::{get_param, scan_args, ArgScan, ParamError, Paramcli, RawParams};
use synch::readconf::{get_val, Readconf};

fn args(v: &[&str]) -> Vec<String> {
    v.iter().map(|s| s.to_string()).collect()
}

fn parsed(v: &[&str]) -> RawParams {
    match scan_args(&args(v)) {
        ArgScan::Parsed(p) => p,
        ArgScan::Help(_) => panic!("unexpected help"),
    }
}

#[test]
fn param_values() {
    assert_eq!(get_param("/src:c:\\data".to_string()), "c:\\data");
    assert_eq!(get_param("/src:/home/a".to_string()), "/home/a");
    assert_eq!(get_param("/src:".to_string()), ":");
    assert_eq!(get_param("/src:a:".to_string()), "a::");
    assert_eq!(get_param("/src::x".to_string()), "x");
    assert_eq!(get_param("/verbose".to_string()), "");
}

#[test]
fn line_values() {
    assert_eq!(get_val("source=/a/b"), "/a/b");
    assert_eq!(get_val("source=a=b"), "a=b");
    assert_eq!(get_val("source==a"), "a");
    assert_eq!(get_val("nothing"), "");
}

#[test]
fn scan_reads_everything() {
    let p = parsed(&["/SRC:/a", "/dst:/b", "/fic:out.sh", "/Verbose", "/crypt", "/IGNORE_ERR", "/ignore_date_diff", "junk"]);
    assert_eq!(p.source, vec!["/a".to_string()]);
    assert_eq!(p.destination, vec!["/b".to_string()]);
    assert_eq!(p.fic, "out.sh");
    assert!(p.verbose && p.crypt && p.ignore_err && p.ignore_date_diff);
    assert_eq!(p.conf, "");
}

#[test]
fn scan_help() {
    assert!(matches!(scan_args(&args(&[])), ArgScan::Help(0)));
    assert!(matches!(scan_args(&args(&["/src:a", "/?"])), ArgScan::Help(2)));
    assert!(matches!(scan_args(&args(&["-HELP", "/src:a"])), ArgScan::Help(1)));
}

#[test]
fn parameters_checked() {
    let ok = Paramcli::new(parsed(&["/src:/a", "/dst:/b", "/fic:o.sh"]), None);
    let p = match ok {
        Ok(p) => p,
        Err(_) => panic!("expected parameters"),
    };
    assert_eq!(p.source, vec!["/a".to_string()]);
    assert_eq!(p.fic_out, "o.sh");
    assert!(p.exceptions.is_empty());
    let o = p.to_options();
    assert!(!o.verbose && !o.crypt && !o.ignore_err && !o.ignore_date_diff);

    assert!(matches!(Paramcli::new(parsed(&["/src:/a", "/fic:o"]), None), Err(ParamError::CountMismatch)));
    assert!(matches!(Paramcli::new(parsed(&["/fic:o"]), None), Err(ParamError::NothingToSynch)));
    assert!(matches!(Paramcli::new(parsed(&["/src:/a", "/dst:/b"]), None), Err(ParamError::NoOutputScript)));
    match Paramcli::new(parsed(&["/src:/a", "/dst:/b", "/src:/c", "/dst:/c", "/fic:o"]), None) {
        Err(ParamError::SameSourceAndDestination(s)) => assert_eq!(s, "/c"),
        _ => panic!("expected the same folder on both sides"),
    }
    // the first pair is not checked
    assert!(Paramcli::new(parsed(&["/src:/a", "/dst:/a", "/fic:o"]), None).is_ok());
}

#[test]
fn configuration_file() {
    let lines = args(&["Source=/s1", "destination=/d1", "EXCEPTION=tmp", "# comment", "source=/s2", "destination=/d2"]);
    let c = match Readconf::new(&lines) {
        Ok(c) => c,
        Err(_) => panic!("expected a configuration"),
    };
    assert_eq!(c.source, args(&["/s1", "/s2"]));
    assert_eq!(c.destination, args(&["/d1", "/d2"]));
    assert_eq!(c.exception, args(&["tmp"]));
    let p = match Paramcli::new(parsed(&["/conf:c.txt", "/fic:o", "/src:/x"]), Some(c)) {
        Ok(p) => p,
        Err(_) => panic!("expected parameters"),
    };
    assert_eq!(p.source, args(&["/s1", "/s2"]));
    assert_eq!(p.exceptions, args(&["tmp"]));
    assert_eq!(p.config, "c.txt");
}

#[test]
fn configuration_mismatch() {
    match Readconf::new(&args(&["source=/a"])) {
        Err(e) => assert_eq!((e.sources, e.destinations), (1, 0)),
        Ok(_) => panic!("expected a mismatch"),
    }
}

use synch::scriptgen::{gen_copy, gen_copy_rec, gen_del, gen_rd, start_script, windows, Command};

#[test]
fn unix_commands() {
    assert_eq!(gen_copy("/s/a b", "/d"), "cp --preserve=all \"/s/a b\" \"/d\" ");
    assert_eq!(gen_copy_rec("/s/A", "/d/A"), "cp --preserve=all -r \"/s/A/\" \"/d/A\" ");
    assert_eq!(gen_del("/d/x"), "rm -f \"/d/x\" ");
    assert_eq!(gen_rd("/d/x", 100, 10), "rm -rf \"/d/x\"");
}

#[test]
fn unix_big_removal_asks() {
    let t = gen_rd("/d/x", 101, 0);
    assert!(t.starts_with("echo \"/d/x\" Contains 0 folders and 101  files.\n"));
    assert!(t.contains("            Yes) rm -rf \"/d/x\";;\n"));
    assert!(t.ends_with("        esac\n"));
}

#[test]
fn unix_script_start() {
    assert_eq!(start_script(), ("#/bin/sh".to_string(), "".to_string()));
}

#[test]
fn command_texts() {
    assert_eq!(Command::Copy("/a".to_string(), "/b".to_string()).to_command(), "cp --preserve=all \"/a\" \"/b\" ");
    assert_eq!(
        Command::CopyRecurs("/a".to_string(), "/b".to_string()).to_command(),
        "cp --preserve=all -r \"/a/\" \"/b\" "
    );
    assert_eq!(Command::RemoveFile("/a".to_string()).to_command(), "rm -f \"/a\" ");
    assert_eq!(Command::RemoveFold("/a".to_string(), 0, 5).to_command(), "rm -rf \"/a\"");
    assert_eq!(Command::RemoveFold("/a".to_string(), 200, 0).to_command().lines().next(), Some("echo \"/a\" Contains 0 folders and 200  files."));
}

#[test]
fn windows_commands() {
    assert_eq!(windows::gen_copy("c:\\a", "d:\\b"), "XCOPY \"c:\\a\" \"d:\\b\" /H /Y /K /R ");
    assert_eq!(windows::gen_copy_rec("c:\\a", "d:\\b"), "XCOPY \"c:\\a\\*.*\" \"d:\\b\" /E /I /H /Y /K /R ");
    assert_eq!(windows::gen_del("d:\\b"), "DEL \"d:\\b\" /F /A ");
    assert_eq!(windows::gen_rd("d:\\b", 1, 1), "RD /S /Q \"d:\\b\"");
    assert_eq!(
        windows::gen_rd("x", 0, 11),
        "Echo \"x\" Contains 11 folders and 0  files.\r\nEcho Please confirm deletation\r\nEcho Y to Delete\r\nEcho N to keep\r\nchoice /C YN\r\nif '%ERRORLEVEL%'=='1' RD /S /Q \"x\""
    );
    assert_eq!(windows::start_script(), ("@echo off".to_string(), "chcp 65001".to_string()));
}

#[test]
fn big_removal_quotes_the_folder_as_a_path() {
    let t = gen_rd("/d/it's", 0, 11);
    let first = t.lines().next().unwrap();
    assert_eq!(first, format!("echo {:?} Contains 11 folders and 0  files.", std::path::Path::new("/d/it's")));
    let w = windows::gen_rd("it's\t", 0, 11);
    assert!(w.starts_with(&format!("Echo {:?} Contains 11 folders", std::path::Path::new("it's\t"))));
    assert!(w.starts_with("Echo \"it's\\t\" Contains 11 folders"));
}

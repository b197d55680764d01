use bak9::bak::mirror::{
    determine_mirror_dir, determine_mirror_dir_in, sanitize_path_str, sanitize_windows_path_str,
    PathStyle,
};
use bak9::bak::names::{bak_file_name, bak_index, BakSlot};
use bak9::bak::rotation::{
    determine_destination, find_last_bak, list_bak_n_files, rotate, run_diff, run_list, scan,
    shift_bak_files, wipe, BakOp, Backups,
};
use bak9::bak::{Error, IoOp};
use std::collections::BTreeMap;

fn apply(dir: &mut BTreeMap<String, String>, source: &str, op: &BakOp) {
    match op {
        BakOp::Remove { slot } => {
            assert!(dir.remove(&bak_file_name(source, *slot)).is_some());
        }
        BakOp::Rename { from, to } => {
            let content = dir.remove(&bak_file_name(source, *from)).unwrap();
            assert!(!dir.contains_key(&bak_file_name(source, *to)), "a rename met a backup");
            dir.insert(bak_file_name(source, *to), content);
        }
    }
}

/// One backup run of the file `source` that holds `content`, on a directory
/// kept in memory. Gives whether a backup was made.
fn backup(dir: &mut BTreeMap<String, String>, source: &str, content: &str, max: u8) -> bool {
    let entries: Vec<String> = dir.keys().cloned().collect();
    let backups = scan(source, &entries);
    let differs = match find_last_bak(&backups) {
        Some(last) => dir[&bak_file_name(source, last)] != content,
        None => true,
    };
    match rotate(source, &entries, differs, max) {
        None => false,
        Some(rotation) => {
            for op in &rotation.ops {
                apply(dir, source, op);
            }
            dir.insert(bak_file_name(source, rotation.target), content.to_string());
            true
        }
    }
}

fn names(dir: &BTreeMap<String, String>) -> Vec<String> {
    dir.keys().cloned().collect()
}

#[test]
fn test_determine_mirror_dir() {
    let base_dir = "/home/dev/.local/share/bak9";
    let src_file = "/home/dev/tmp/source.txt";
    let mirror_dir = determine_mirror_dir(base_dir, src_file).unwrap();
    assert_eq!("/home/dev/.local/share/bak9/home/dev/tmp", mirror_dir);
}

#[test]
fn test_determine_mirror_dir_windows() {
    // test a windows path with path extensions
    let base_dir = "\\\\?\\C:\\Users\\dev\\AppData\\Local\\bak9";
    let src_file = "\\\\?\\C:\\Users\\dev\\tmp\\source.txt";
    let mirror_dir = determine_mirror_dir_in(PathStyle::Windows, base_dir, src_file).unwrap();
    assert_eq!("\\\\?\\C:\\Users\\dev\\AppData\\Local\\bak9\\C\\Users\\dev\\tmp", mirror_dir);
}

#[test]
fn mirror_dir_of_windows_reads_both_separators() {
    let windows = PathStyle::Windows;
    assert_eq!(determine_mirror_dir_in(windows, "D:\\data", "C:/Users\\dev/f.txt").unwrap(), "D:\\data\\C\\Users\\dev");
    assert_eq!(determine_mirror_dir_in(windows, "D:\\data\\", "C:\\f.txt").unwrap(), "D:\\data\\C");
    assert_eq!(determine_mirror_dir_in(windows, "D:\\data", "C:\\a\\.\\b\\f.txt").unwrap(), "D:\\data\\C\\a\\b");
    assert!(determine_mirror_dir_in(windows, "D:\\data", "C:\\a\\..\\f.txt").is_err());
    assert!(determine_mirror_dir_in(windows, "D:\\data", "").is_err());
    assert_eq!(
        determine_mirror_dir_in(PathStyle::Posix, "/data", "/a/b/f.txt").unwrap(),
        determine_mirror_dir("/data", "/a/b/f.txt").unwrap()
    );
}

#[test]
fn mirror_dir_skips_dot_and_takes_the_letter_of_a_drive() {
    assert_eq!(determine_mirror_dir("/data", "/a/./b//c/f.txt").unwrap(), "/data/a/b/c");
    assert_eq!(determine_mirror_dir("/data", "/C:/Users/f.txt").unwrap(), "/data/C/Users");
    assert_eq!(determine_mirror_dir("/data", "/f.txt").unwrap(), "/data");
}

#[test]
fn mirror_dir_refuses_the_directory_above() {
    match determine_mirror_dir("/data", "/a/../f.txt") {
        Err(Error::Generic(message)) => assert_eq!(message, "Expected absolute path"),
        other => panic!("{:?}", other),
    }
    assert!(determine_mirror_dir("/data", "").is_err());
}

#[test]
fn sanitize_strips_every_windows_prefix() {
    assert_eq!(sanitize_windows_path_str("\\\\?\\C:\\Users"), "C:\\Users");
    assert_eq!(sanitize_path_str("\\\\?\\\\\\?\\C:"), "C:");
    assert_eq!(sanitize_path_str("/home/dev"), "/home/dev");
    assert_eq!(sanitize_path_str("\\\\?"), "\\\\?");
}

#[test]
fn bak_names_are_written_and_read() {
    assert_eq!(bak_file_name("source.txt", BakSlot::Plain), "source.txt.bak");
    assert_eq!(bak_file_name("source.txt", BakSlot::Numbered(0)), "source.txt.bak.0");
    assert_eq!(bak_file_name("no_extension", BakSlot::Numbered(12)), "no_extension.bak.12");
    assert_eq!(bak_index("source.txt", "source.txt.bak.12"), Some(12));
    assert_eq!(bak_index("source.txt", "source.txt.bak.0"), Some(0));
    assert_eq!(bak_index("source.txt", "source.txt.bak.4294967295"), Some(4294967295));
    assert_eq!(bak_index("source.txt", "source.txt.bak.4294967296"), None);
    assert_eq!(bak_index("source.txt", "source.txt.bak.01"), None);
    assert_eq!(bak_index("source.txt", "source.txt.bak.+1"), None);
    assert_eq!(bak_index("source.txt", "source.txt.bak."), None);
    assert_eq!(bak_index("source.txt", "source.txt.bak"), None);
    assert_eq!(bak_index("source.txt", "other.txt.bak.1"), None);
    assert_eq!(bak_index("source.txt", "source.txt.bak.1x"), None);
}

#[test]
fn listing_is_ascending_by_number() {
    let entries: Vec<String> = vec![
        "f.bak.10", "f.bak.2", "g.bak.1", "f.bak.0", "f", "f.bak.2", "f.bak.x", "f.bak",
    ]
    .into_iter()
    .map(String::from)
    .collect();
    assert_eq!(list_bak_n_files("f", &entries), vec![0, 2, 10]);
    let backups = scan("f", &entries);
    assert!(backups.plain);
    assert_eq!(backups.numbered, vec![0, 2, 10]);
    assert_eq!(find_last_bak(&backups), Some(BakSlot::Plain));
    let none = scan("h", &entries);
    assert!(!none.plain);
    assert_eq!(find_last_bak(&none), None);
}

#[test]
fn shift_prunes_the_oldest_and_renames_from_the_top() {
    let ops = shift_bak_files(&vec![0, 1, 2], 3);
    assert_eq!(
        ops,
        vec![
            BakOp::Remove { slot: BakSlot::Numbered(2) },
            BakOp::Rename { from: BakSlot::Numbered(1), to: BakSlot::Numbered(2) },
            BakOp::Rename { from: BakSlot::Numbered(0), to: BakSlot::Numbered(1) },
        ]
    );
    let ops = shift_bak_files(&vec![0, 1, 2], 2);
    assert_eq!(
        ops,
        vec![
            BakOp::Remove { slot: BakSlot::Numbered(2) },
            BakOp::Remove { slot: BakSlot::Numbered(1) },
            BakOp::Rename { from: BakSlot::Numbered(0), to: BakSlot::Numbered(1) },
        ]
    );
    assert_eq!(
        shift_bak_files(&vec![0, 1], 10),
        vec![
            BakOp::Rename { from: BakSlot::Numbered(1), to: BakSlot::Numbered(2) },
            BakOp::Rename { from: BakSlot::Numbered(0), to: BakSlot::Numbered(1) },
        ]
    );
    assert_eq!(shift_bak_files(&vec![], 3), vec![]);
}

#[test]
fn wipe_removes_every_backup() {
    let backups = Backups { plain: true, numbered: vec![0, 1] };
    assert_eq!(
        wipe(&backups),
        vec![
            BakOp::Remove { slot: BakSlot::Numbered(1) },
            BakOp::Remove { slot: BakSlot::Numbered(0) },
            BakOp::Remove { slot: BakSlot::Plain },
        ]
    );
}

#[test]
fn destination_without_backups_is_the_plain_backup() {
    let backups = Backups { plain: false, numbered: vec![] };
    let rotation = determine_destination(&backups, true, 10).unwrap();
    assert!(rotation.ops.is_empty());
    assert_eq!(rotation.target, BakSlot::Plain);
}

#[test]
fn destination_after_the_plain_backup_is_backup_zero() {
    let backups = Backups { plain: true, numbered: vec![] };
    let rotation = determine_destination(&backups, true, 3).unwrap();
    assert_eq!(
        rotation.ops,
        vec![BakOp::Rename { from: BakSlot::Plain, to: BakSlot::Numbered(1) }]
    );
    assert_eq!(rotation.target, BakSlot::Numbered(0));
}

#[test]
fn no_destination_where_nothing_changed_or_nothing_is_kept() {
    let backups = Backups { plain: true, numbered: vec![] };
    assert!(determine_destination(&backups, false, 3).is_none());
    assert!(determine_destination(&backups, true, 0).is_none());
    let none = Backups { plain: false, numbered: vec![] };
    assert!(determine_destination(&none, true, 0).is_none());
}

#[test]
fn one_backup_with_max_ten_is_the_plain_backup() {
    let mut dir = BTreeMap::new();
    assert!(backup(&mut dir, "source.txt", "LINE 1", 10));
    assert_eq!(names(&dir), vec!["source.txt.bak"]);
    assert_eq!(dir["source.txt.bak"], "LINE 1");
}

#[test]
fn four_backups_with_max_three_keep_three_numbered() {
    let mut dir = BTreeMap::new();
    for content in ["1", "2", "3", "4"] {
        assert!(backup(&mut dir, "source.txt", content, 3));
    }
    assert_eq!(names(&dir), vec!["source.txt.bak.0", "source.txt.bak.1", "source.txt.bak.2"]);
    assert_eq!(dir["source.txt.bak.0"], "4");
    assert_eq!(dir["source.txt.bak.1"], "3");
    assert_eq!(dir["source.txt.bak.2"], "2");
}

#[test]
fn two_backups_with_max_one_keep_the_plain_backup() {
    let mut dir = BTreeMap::new();
    assert!(backup(&mut dir, "source.txt", "first", 1));
    assert!(backup(&mut dir, "source.txt", "second", 1));
    assert_eq!(names(&dir), vec!["source.txt.bak"]);
    assert_eq!(dir["source.txt.bak"], "second");
}

#[test]
fn a_second_backup_of_the_same_content_is_skipped() {
    let mut dir = BTreeMap::new();
    assert!(backup(&mut dir, "source.txt", "same", 3));
    let before = dir.clone();
    assert!(!backup(&mut dir, "source.txt", "same", 3));
    assert_eq!(dir, before);
    assert!(backup(&mut dir, "source.txt", "other", 3));
    let before = dir.clone();
    assert!(!backup(&mut dir, "source.txt", "other", 3));
    assert_eq!(dir, before);
}

#[test]
fn standard_test_no_extension() {
    let mut dir = BTreeMap::new();
    assert!(backup(&mut dir, "no_extension", "LINE 1", 3));
    assert!(dir.contains_key("no_extension.bak"), "no_extension should be created");
}

#[test]
fn standard_test_chain() {
    let mut dir = BTreeMap::new();
    let file = "source_1.txt";
    let mut content = String::from("LINE 1");

    assert!(backup(&mut dir, file, &content, 3));
    assert!(dir.contains_key("source_1.txt.bak"), "source_1.txt.bak should be created");

    content.push_str("LINE 2");
    assert!(backup(&mut dir, file, &content, 3));
    assert_eq!(true, dir.contains_key("source_1.txt.bak.0"));
    assert_eq!(true, dir.contains_key("source_1.txt.bak.1"));
    assert_eq!(false, dir.contains_key("source_1.txt.bak"));
    assert_eq!(false, dir["source_1.txt.bak.0"] != content);
    assert_eq!(true, dir["source_1.txt.bak.1"] != content);

    content.push_str("LINE 3");
    assert!(backup(&mut dir, file, &content, 3));
    assert_eq!(true, dir.contains_key("source_1.txt.bak.0"));
    assert_eq!(true, dir.contains_key("source_1.txt.bak.1"));
    assert_eq!(true, dir.contains_key("source_1.txt.bak.2"));
    assert_eq!(false, dir.contains_key("source_1.txt.bak"));
    assert_eq!(false, dir["source_1.txt.bak.0"] != content);
    assert_eq!(true, dir["source_1.txt.bak.1"] != content);
    assert_eq!(true, dir["source_1.txt.bak.2"] != content);
    assert_eq!(true, dir["source_1.txt.bak.1"] != dir["source_1.txt.bak.2"]);

    content.push_str("LINE 4");
    assert!(backup(&mut dir, file, &content, 3));
    assert_eq!(true, dir.contains_key("source_1.txt.bak.0"));
    assert_eq!(true, dir.contains_key("source_1.txt.bak.1"));
    assert_eq!(true, dir.contains_key("source_1.txt.bak.2"));
    assert_eq!(false, dir.contains_key("source_1.txt.bak.3"));
    assert_eq!(false, dir.contains_key("source_1.txt.bak"));

    content.push_str("LINE 5");
    assert!(backup(&mut dir, file, &content, 2));
    assert_eq!(true, dir.contains_key("source_1.txt.bak.0"));
    assert_eq!(true, dir.contains_key("source_1.txt.bak.1"));
    assert_eq!(false, dir.contains_key("source_1.txt.bak.2"));
    assert_eq!(false, dir.contains_key("source_1.txt.bak.3"));
    assert_eq!(false, dir.contains_key("source_1.txt.bak"));

    content.push_str("LINE 6");
    assert!(backup(&mut dir, file, &content, 1));
    assert_eq!(false, dir.contains_key("source_1.txt.bak.0"));
    assert_eq!(false, dir.contains_key("source_1.txt.bak.1"));
    assert_eq!(true, dir.contains_key("source_1.txt.bak"));
    assert_eq!(false, dir["source_1.txt.bak"] != content);

    content.push_str("LINE 7");
    assert!(backup(&mut dir, file, &content, 3));
    assert_eq!(true, dir.contains_key("source_1.txt.bak.0"));
    assert_eq!(true, dir.contains_key("source_1.txt.bak.1"));
    assert_eq!(false, dir.contains_key("source_1.txt.bak"));

    let entries = names(&dir);
    for op in wipe(&scan(file, &entries)) {
        apply(&mut dir, file, &op);
    }
    assert_eq!(false, dir.contains_key("source_1.txt.bak.0"));
    assert_eq!(false, dir.contains_key("source_1.txt.bak.1"));
    assert_eq!(false, dir.contains_key("source_1.txt.bak"));
}

#[test]
fn the_count_of_numbered_backups_never_exceeds_max() {
    for max in 1u8..6 {
        let mut dir = BTreeMap::new();
        for run in 0..12 {
            backup(&mut dir, "f", &format!("content {run}"), max);
            let backups = scan("f", &names(&dir));
            assert!(backups.numbered.len() <= max as usize);
            assert_eq!(backups.plain, max == 1 || run == 0);
            if !backups.numbered.is_empty() {
                assert_eq!(dir["f.bak.0"], format!("content {run}"));
                assert_eq!(dir["f.bak.1"], format!("content {}", run - 1));
            }
        }
    }
}

#[test]
fn bak_errors_tell_what_failed() {
    assert_eq!(
        Error::io(IoOp::Delete, "/tmp/f.bak", "denied").to_string(),
        "Unable to delete /tmp/f.bak: denied"
    );
    assert_eq!(
        Error::copy("/tmp/f", "/tmp/f.bak", "full").to_string(),
        "Unable to copy /tmp/f to /tmp/f.bak: full"
    );
    assert_eq!(Error::index("/tmp/f", 3).to_string(), "Invalid index for /tmp/f: 3");
    assert_eq!(Error::Generic("oops".to_string()).to_string(), "oops");
    assert_eq!(IoOp::Rename.to_string(), "rename");
}

#[test]
fn the_directory_of_the_backups() {
    let mut cli = bak9::bak::cli::Cli {
        subcommand: None,
        file: "/home/dev/tmp/source.txt".to_string(),
        dir: None,
        num: 3,
        force: true,
        quiet: true,
    };
    assert_eq!(cli.dir("/data/bak9"), Some("/home/dev/tmp".to_string()));
    cli.dir = Some("/backups".to_string());
    assert_eq!(cli.dir("/data/bak9"), Some("/backups".to_string()));
    cli.dir = Some("-".to_string());
    assert_eq!(cli.dir("/data/bak9"), Some("/data/bak9".to_string()));
    cli.dir = None;
    cli.file = String::new();
    assert_eq!(cli.dir("/data/bak9"), None);
}

#[test]
fn backups_are_listed_and_found_by_index() {
    let plain = Backups { plain: true, numbered: vec![] };
    assert_eq!(run_list("f.txt", &plain), vec!["f.txt.bak"]);
    assert_eq!(run_diff(&plain, "/tmp/f.txt", 0).unwrap(), BakSlot::Plain);
    match run_diff(&plain, "/tmp/f.txt", 1) {
        Err(Error::Index { src, index }) => {
            assert_eq!(src, "/tmp/f.txt");
            assert_eq!(index, 1);
        }
        other => panic!("{:?}", other),
    }
    let numbered = Backups { plain: false, numbered: vec![0, 1, 5] };
    assert_eq!(run_list("f.txt", &numbered), vec!["f.txt.bak.0", "f.txt.bak.1", "f.txt.bak.5"]);
    assert_eq!(run_diff(&numbered, "/tmp/f.txt", 0).unwrap(), BakSlot::Numbered(0));
    assert_eq!(run_diff(&numbered, "/tmp/f.txt", 2).unwrap(), BakSlot::Numbered(5));
    assert!(run_diff(&numbered, "/tmp/f.txt", 3).is_err());
    let none = Backups { plain: false, numbered: vec![] };
    assert!(run_list("f.txt", &none).is_empty());
    assert!(run_diff(&none, "/tmp/f.txt", 0).is_err());
}

#[test]
fn standard_test_other_dir() {
    let cli = bak9::bak::cli::Cli {
        subcommand: None,
        file: "/tmp/source_2.txt".to_string(),
        dir: Some("/tmp/source_2_dir".to_string()),
        num: 3,
        force: false,
        quiet: false,
    };
    assert_eq!(cli.dir("/data/bak9"), Some("/tmp/source_2_dir".to_string()));
    let mut beside = BTreeMap::new();
    beside.insert("source_2.txt".to_string(), "LINE 1".to_string());
    let mut source_2_dir = BTreeMap::new();
    let result = backup(&mut source_2_dir, "source_2.txt", "LINE 1", cli.num);
    assert_eq!(true, result);
    assert_eq!(true, source_2_dir.contains_key("source_2.txt.bak"));
    assert_eq!(names(&beside), vec!["source_2.txt"]);
}

const SOURCE_TXT: &str = "source.txt";
const SOURCE_TXT_BAK: &str = "source.txt.bak";
const SOURCE_TXT_BAK_0: &str = "source.txt.bak.0";
const SOURCE_TXT_BAK_1: &str = "source.txt.bak.1";
const SOURCE_TXT_BAK_2: &str = "source.txt.bak.2";
const SOURCE_TXT_BAK_3: &str = "source.txt.bak.3";
const TESTING_CONTENT: &str = "TESTING_CONTENT";

/// The names of the backups of `source` in `dir`, as they are listed.
fn listed(dir: &BTreeMap<String, String>, source: &str) -> Vec<String> {
    run_list(source, &scan(source, &names(dir)))
}

/// Removes every backup of `source` from `dir`.
fn wipe_all(dir: &mut BTreeMap<String, String>, source: &str) {
    for op in &wipe(&scan(source, &names(dir))) {
        apply(dir, source, op);
    }
}

#[test]
fn test_cp_rotation() {
    let mut dir = BTreeMap::new();
    let mut content = TESTING_CONTENT.to_string();

    // Backup source.txt: source.txt.bak should exist
    assert!(backup(&mut dir, SOURCE_TXT, &content, 10));
    assert!(dir.contains_key(SOURCE_TXT_BAK));

    // Backup source.txt again, unchanged: no new backup should be created
    assert!(!backup(&mut dir, SOURCE_TXT, &content, 10));
    assert!(!dir.contains_key(SOURCE_TXT_BAK_0));
    assert!(dir.contains_key(SOURCE_TXT_BAK));

    // Append and backup again: .bak moves to .bak.1, .bak.0 is created
    content.push_str(TESTING_CONTENT);
    assert!(backup(&mut dir, SOURCE_TXT, &content, 10));
    assert!(dir.contains_key(SOURCE_TXT_BAK_0));
    assert!(dir.contains_key(SOURCE_TXT_BAK_1));
    assert!(!dir.contains_key(SOURCE_TXT_BAK));
    assert!(!dir.contains_key(SOURCE_TXT_BAK_2));
    assert!(dir[SOURCE_TXT_BAK_0] == content);
    assert!(dir[SOURCE_TXT_BAK_1] != content);

    // Append and backup again: .bak.0, .bak.1 and .bak.2
    content.push_str(TESTING_CONTENT);
    assert!(backup(&mut dir, SOURCE_TXT, &content, 10));
    assert!(dir.contains_key(SOURCE_TXT_BAK_0));
    assert!(dir.contains_key(SOURCE_TXT_BAK_1));
    assert!(dir.contains_key(SOURCE_TXT_BAK_2));
    assert!(!dir.contains_key(SOURCE_TXT_BAK));
    assert!(dir[SOURCE_TXT_BAK_0] == content);
    assert!(dir[SOURCE_TXT_BAK_1] != content);
    assert!(dir[SOURCE_TXT_BAK_1] != dir[SOURCE_TXT_BAK_2]);

    // Append and backup again, keeping 3: still .bak.0, .bak.1 and .bak.2
    content.push_str(TESTING_CONTENT);
    assert!(backup(&mut dir, SOURCE_TXT, &content, 3));
    assert!(dir.contains_key(SOURCE_TXT_BAK_0));
    assert!(dir.contains_key(SOURCE_TXT_BAK_1));
    assert!(dir.contains_key(SOURCE_TXT_BAK_2));
    assert!(!dir.contains_key(SOURCE_TXT_BAK_3));
    assert!(!dir.contains_key(SOURCE_TXT_BAK));
    assert!(dir[SOURCE_TXT_BAK_0] == content);
    assert!(dir[SOURCE_TXT_BAK_1] != content);
    assert!(dir[SOURCE_TXT_BAK_1] != dir[SOURCE_TXT_BAK_2]);

    // Append and backup again, keeping 2: .bak.0 and .bak.1
    content.push_str(TESTING_CONTENT);
    assert!(backup(&mut dir, SOURCE_TXT, &content, 2));
    assert!(dir.contains_key(SOURCE_TXT_BAK_0));
    assert!(dir.contains_key(SOURCE_TXT_BAK_1));
    assert!(!dir.contains_key(SOURCE_TXT_BAK_2));
    assert!(!dir.contains_key(SOURCE_TXT_BAK_3));
    assert!(!dir.contains_key(SOURCE_TXT_BAK));

    // Append and backup again, keeping 1: only a .bak file
    content.push_str(TESTING_CONTENT);
    assert!(backup(&mut dir, SOURCE_TXT, &content, 1));
    assert!(dir.contains_key(SOURCE_TXT_BAK));
    assert!(!dir.contains_key(SOURCE_TXT_BAK_0));
    assert!(!dir.contains_key(SOURCE_TXT_BAK_1));
    assert!(!dir.contains_key(SOURCE_TXT_BAK_2));
}

#[test]
fn test_list_and_wipe() {
    let mut dir = BTreeMap::new();
    let mut app_data = BTreeMap::new();
    let mut content = TESTING_CONTENT.to_string();

    // Backup source.txt three times, appending before each
    assert!(backup(&mut dir, SOURCE_TXT, &content, 10));
    content.push_str(TESTING_CONTENT);
    assert!(backup(&mut dir, SOURCE_TXT, &content, 10));
    content.push_str(TESTING_CONTENT);
    assert!(backup(&mut dir, SOURCE_TXT, &content, 10));

    // List the three backups
    let lines = listed(&dir, SOURCE_TXT);
    assert_eq!(lines.len(), 3);
    assert_eq!(lines[0], SOURCE_TXT_BAK_0);
    assert_eq!(lines[1], SOURCE_TXT_BAK_1);
    assert_eq!(lines[2], SOURCE_TXT_BAK_2);

    // A backup in the directory of application data: three here, one there
    assert!(backup(&mut app_data, SOURCE_TXT, &content, 10));
    let lines = listed(&dir, SOURCE_TXT);
    assert_eq!(lines.len(), 3);
    assert_eq!(lines[0], SOURCE_TXT_BAK_0);
    assert_eq!(lines[1], SOURCE_TXT_BAK_1);
    assert_eq!(lines[2], SOURCE_TXT_BAK_2);
    let lines = listed(&app_data, SOURCE_TXT);
    assert_eq!(lines.len(), 1);
    assert_eq!(lines[0], SOURCE_TXT_BAK);

    // Wipe them all: the lists are empty
    wipe_all(&mut dir, SOURCE_TXT);
    wipe_all(&mut app_data, SOURCE_TXT);
    assert!(listed(&dir, SOURCE_TXT).is_empty());
    assert!(listed(&app_data, SOURCE_TXT).is_empty());
    assert!(dir.is_empty());
    assert!(app_data.is_empty());
}

#[test]
fn test_diff() {
    let mut dir = BTreeMap::new();
    let mut content = TESTING_CONTENT.to_string();

    // Backup source.txt twice, appending before each
    assert!(backup(&mut dir, SOURCE_TXT, &content, 10));
    content.push_str(TESTING_CONTENT);
    assert!(backup(&mut dir, SOURCE_TXT, &content, 10));

    // Backup 0 holds what the file holds
    let backups = scan(SOURCE_TXT, &names(&dir));
    let newest = run_diff(&backups, SOURCE_TXT, 0).unwrap();
    assert_eq!(newest, BakSlot::Numbered(0));
    assert!(dir[&bak_file_name(SOURCE_TXT, newest)] == content);

    // Backup 1 holds what the file held before
    let older = run_diff(&backups, SOURCE_TXT, 1).unwrap();
    assert_eq!(older, BakSlot::Numbered(1));
    assert_eq!(dir[&bak_file_name(SOURCE_TXT, older)], TESTING_CONTENT);
    assert!(content.ends_with(&format!("{}", TESTING_CONTENT)));
    assert!(run_diff(&backups, SOURCE_TXT, 2).is_err());
}

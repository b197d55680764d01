use bak9::error::Error;
use bak9::run_name::BackupRunName;
use bak9::schedule::DateTime;
use bak9::text::{from_chars, str_eq, to_chars};

fn name(dt: DateTime, host: &str, user: &str, backup: &str) -> BackupRunName {
    BackupRunName::new(dt, host, user, backup)
}

#[test]
fn run_name_round_trip() {
    let dt = DateTime::new(2024, 3, 9, 7, 5, 1, 42).unwrap();
    for (host, user, backup) in [
        ("host", "user", "home"),
        ("laptop1.local", "dev-1", "my_home"),
        ("", "", ""),
        ("h", "_u", "_home_"),
    ] {
        let text = name(dt, host, user, backup).to_string();
        assert_eq!(text, format!("2024-03-09-07-05-01-042__{host}__{user}__{backup}"));
        let back = BackupRunName::parse(&text).unwrap();
        assert_eq!(back.datetime, dt);
        assert_eq!(back.hostname, host);
        assert_eq!(back.username, user);
        assert_eq!(back.backup_name, backup);
    }
}

#[test]
fn what_is_no_run_name_is_not_read() {
    for text in [
        "",
        "2024-03-09-07-05-01-042",
        "2024-03-09-07-05-01-042__host__user",
        "2024-03-09-07-05-01-042__host__user__home__more",
        "2024-03-09-07-05-01__host__user__home",
        "2024-02-30-07-05-01-042__host__user__home",
        "yesterday__host__user__home",
    ] {
        match BackupRunName::parse(text) {
            Err(Error::RunNameParse { name }) => assert_eq!(name, text),
            other => panic!("{:?}", other),
        }
    }
}

#[test]
fn run_names_sort_by_their_moments() {
    let earlier = name(DateTime::new(2024, 3, 9, 7, 5, 1, 42).unwrap(), "zzz", "zzz", "zzz");
    let later = name(DateTime::new(2024, 3, 9, 7, 5, 1, 43).unwrap(), "aaa", "aaa", "aaa");
    assert!(earlier.to_string() < later.to_string());
    let much_later = name(DateTime::new(2025, 1, 1, 0, 0, 0, 0).unwrap(), "aaa", "aaa", "aaa");
    assert!(later.to_string() < much_later.to_string());
}

#[test]
fn a_copy_of_a_run_name_is_the_same_name() {
    let first = name(DateTime::new(2024, 3, 9, 7, 5, 1, 42).unwrap(), "host", "user", "home");
    let copy = first.clone();
    assert_eq!(copy.to_string(), first.to_string());
}

#[test]
fn texts_and_their_characters() {
    assert_eq!(to_chars("añb"), vec!['a', 'ñ', 'b']);
    assert_eq!(from_chars(&vec!['a', 'ñ', 'b']), "añb");
    assert!(str_eq("ab", "ab"));
    assert!(!str_eq("ab", "abc"));
}

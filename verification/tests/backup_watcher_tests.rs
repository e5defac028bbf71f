use audion::commands::backup::{
    backup_date, backup_file_name, check_backup_name, list_backups, stale_backups, text_less,
    BackupEntry,
};
use audion::scanner::watcher::{
    classify_events, directory_pattern, FsChangeKind, PathEvent, UpsertResult, WatcherChangeEvent,
};
use audion::squeeze::streaming::{guess_content_type, lowercase_extension, StreamEntry};
use audion::squeeze::webui::{parse_webui_mac, pick_player, requested_volume, MacQuery, VolumeQuery};

#[test]
fn backup_names() {
    assert_eq!(backup_file_name("2024-05-01"), "rlist_2024-05-01.db");
    assert_eq!(backup_date("rlist_2024-05-01.db"), Some("2024-05-01".to_string()));
    assert_eq!(backup_date(&backup_file_name("x")), Some("x".to_string()));
    assert_eq!(backup_date("rlist_.db"), Some(String::new()));
    assert_eq!(backup_date("rlist_2024.sqlite"), None);
    assert_eq!(backup_date("other_2024.db"), None);
    assert_eq!(backup_date("rlist_db"), None);
}

#[test]
fn backup_name_checks() {
    assert!(check_backup_name("rlist_2024-01-01.db").is_ok());
    assert_eq!(check_backup_name("../x.db"), Err("Invalid filename".to_string()));
    assert_eq!(check_backup_name("a/b.db"), Err("Invalid filename".to_string()));
    assert_eq!(check_backup_name("a\\b.db"), Err("Invalid filename".to_string()));
}

#[test]
fn string_order() {
    let c = |s: &str| s.chars().collect::<Vec<char>>();
    assert!(text_less(&c("2024-01-01"), &c("2024-01-02")));
    assert!(!text_less(&c("2024-01-02"), &c("2024-01-02")));
    assert!(text_less(&c("2024"), &c("2024-01")));
    assert!(!text_less(&c("b"), &c("abc")));
}

#[test]
fn stale_backups_before_cutoff() {
    let names: Vec<String> = ["rlist_2024-01-01.db", "rlist_2024-01-09.db", "notes.txt", "rlist_2023-12-31.db"]
        .iter()
        .map(|s| s.to_string())
        .collect();
    assert_eq!(
        stale_backups(&names, "2024-01-02"),
        vec!["rlist_2024-01-01.db".to_string(), "rlist_2023-12-31.db".to_string()]
    );
}

#[test]
fn backups_listed_newest_first() {
    let e = |n: &str, s: Option<u64>| BackupEntry { name: n.to_string(), size: s };
    let list = list_backups(&[
        e("rlist_2024-01-01.db", Some(10)),
        e("rlist_2024-03-01.db", Some(30)),
        e("junk", Some(1)),
        e("rlist_2024-02-01.db", None),
        e("rlist_2024-02-15.db", Some(20)),
    ]);
    let dates: Vec<&str> = list.iter().map(|b| b.date.as_str()).collect();
    assert_eq!(dates, vec!["2024-03-01", "2024-02-15", "2024-01-01"]);
    assert_eq!(list[0].filename, "rlist_2024-03-01.db");
    assert_eq!(list[0].size_bytes, 30);
}

fn ev(kind: FsChangeKind, path: &str, is_audio: bool, is_dir: bool, has_ext: bool, files: &[&str]) -> PathEvent {
    PathEvent {
        kind,
        path: path.to_string(),
        is_audio,
        is_dir,
        has_extension: has_ext,
        dir_audio_files: files.iter().map(|s| s.to_string()).collect(),
    }
}

#[test]
fn watcher_classifies_events() {
    let c = classify_events(&[
        ev(FsChangeKind::CreateOrModify, "/m/a.flac", true, false, true, &[]),
        ev(FsChangeKind::CreateOrModify, "/m/a.flac", true, false, true, &[]),
        ev(FsChangeKind::Remove, "/m/b.mp3", true, false, true, &[]),
        ev(FsChangeKind::CreateOrModify, "/m/b.mp3", true, false, true, &[]),
        ev(FsChangeKind::CreateOrModify, "/m/album", false, true, false, &["/m/album/1.flac", "/m/album/2.flac"]),
        ev(FsChangeKind::Remove, "/m/album/2.flac", true, false, true, &[]),
        ev(FsChangeKind::Remove, "/m/old", false, false, false, &[]),
        ev(FsChangeKind::Remove, "/m/cover.jpg", false, false, true, &[]),
        ev(FsChangeKind::Other, "/m/x.flac", true, false, true, &[]),
    ]);
    assert_eq!(c.upsert, vec!["/m/a.flac", "/m/b.mp3", "/m/album/1.flac"]);
    assert_eq!(c.remove, vec!["/m/album/2.flac"]);
    assert_eq!(c.dirs_removed, vec!["/m/old"]);
    assert!(c.has_work());
    assert!(!classify_events(&[]).has_work());
}

#[test]
fn watcher_directory_patterns() {
    assert_eq!(directory_pattern("C:\\Music\\Old"), "C:\\Music\\Old\\%");
    assert_eq!(directory_pattern("/music/old/"), "/music/old/%");
}

#[test]
fn watcher_change_counts() {
    let mut e = WatcherChangeEvent::new();
    assert!(!e.has_changes());
    e.record_upsert("/a", &UpsertResult::Stored { track_id: 4, was_new: true });
    e.record_upsert("/b", &UpsertResult::Stored { track_id: 5, was_new: false });
    e.record_upsert("/c", &UpsertResult::Stored { track_id: 0, was_new: true });
    e.record_upsert("/d", &UpsertResult::DbError("locked".to_string()));
    e.record_upsert("/e", &UpsertResult::NoMetadata);
    e.record_file_removal("/f", &Ok(true));
    e.record_file_removal("/g", &Ok(false));
    e.record_file_removal("/h", &Err("io".to_string()));
    e.record_dir_removal("/dir", &Ok(3));
    e.record_dir_removal("/dir2", &Err("gone".to_string()));
    assert_eq!((e.added, e.updated, e.removed), (1, 1, 4));
    assert_eq!(
        e.errors,
        vec![
            "DB error for /d: locked".to_string(),
            "Failed to read metadata: /e".to_string(),
            "DB remove error for /h: io".to_string(),
            "DB dir remove error for /dir2: gone".to_string(),
        ]
    );
    assert!(e.has_changes());
}

#[test]
fn streaming_content_types_and_entries() {
    assert_eq!(guess_content_type("/x/song.Mp3"), "audio/mpeg");
    assert_eq!(guess_content_type("/x/song.oga"), "audio/ogg");
    assert_eq!(guess_content_type("/x/song.dsf"), "application/octet-stream");
    assert_eq!(guess_content_type("/x/.hidden"), "application/octet-stream");
    let e = StreamEntry { path: "/x/a.flac".to_string(), generation: 3, byte_offset: 0 };
    assert_eq!(e.clone().generation, 3);
}

#[test]
fn extensions_come_from_the_final_component() {
    assert_eq!(lowercase_extension("/music/album.v2/track"), Vec::<char>::new());
    assert_eq!(lowercase_extension("/music/track.FLAC/"), vec!['f', 'l', 'a', 'c']);
    assert_eq!(lowercase_extension("/music/track.wav/."), vec!['w', 'a', 'v']);
    assert_eq!(lowercase_extension("/music/a.mp3/.."), Vec::<char>::new());
    assert_eq!(lowercase_extension("/music/.ogg"), Vec::<char>::new());
    assert_eq!(lowercase_extension("/music/x..ogg"), vec!['o', 'g', 'g']);
    assert_eq!(guess_content_type("/music/album.flac/track"), "application/octet-stream");
    assert_eq!(guess_content_type("track.AIFF"), "audio/aiff");
}

#[test]
fn webui_helpers() {
    assert_eq!(pick_player(Some("m1".to_string()), Some("m2".to_string())), Some("m1".to_string()));
    assert_eq!(pick_player(None, Some("m2".to_string())), Some("m2".to_string()));
    assert_eq!(pick_player(None, None), None);
    assert_eq!(parse_webui_mac("00:00:00:00:00:00").map(|m| m.0), Some([0; 6]));
    assert!(parse_webui_mac("garbage").is_none());
    assert_eq!(parse_webui_mac("01:02:03:04:05:06").map(|m| m.0), Some([1, 2, 3, 4, 5, 6]));
    assert_eq!(requested_volume(&VolumeQuery { mac: None, v: 150 }), 100);
    assert_eq!(requested_volume(&VolumeQuery::default()), 0);
    assert!(MacQuery::default().mac.is_none());
}

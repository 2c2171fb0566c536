use rastos::backup::btrfs::{
    check_delete, check_outcome, check_receive, check_snapshot, check_subvolume, create_command,
    delete_command, delete_step, list_command, parent_dir, parse_read_only, parse_size,
    parse_subvolume_list, readonly_command, receive_command, show_command, size_command,
    snapshot_command, BtrfsError, DeleteStep, Subvolume,
};
use rastos::backup::cli::{default_config_path, BackupCli};
use rastos::backup::config::StorageConfig;
use rastos::backup::snapshot::{restore_step, RestoreStep};
use rastos::backup::{Backup, BackupError};
use rastos::command::CommandOutput;
use rastos::ident::{random_uuid, UUID_BYTES};
use rastos::strmap::StrMap;

fn args(c: &rastos::command::Command) -> Vec<&str> {
    c.args.iter().map(|s| s.as_str()).collect()
}

#[test]
fn commands_of_the_tool() {
    let c = create_command("/mnt/a");
    assert_eq!(c.program, "btrfs");
    assert_eq!(args(&c), vec!["subvolume", "create", "/mnt/a"]);
    assert_eq!(args(&delete_command("/mnt/a")), vec!["subvolume", "delete", "/mnt/a"]);
    assert_eq!(args(&show_command("/mnt/a")), vec!["subvolume", "show", "/mnt/a"]);
    assert_eq!(args(&list_command("/mnt")), vec!["subvolume", "list", "-p", "/mnt"]);
    let c = size_command("/mnt/a");
    assert_eq!(c.program, "du");
    assert_eq!(args(&c), vec!["-bs", "/mnt/a"]);
    assert_eq!(
        args(&snapshot_command("/mnt/a", "/snaps/a1", true)),
        vec!["subvolume", "snapshot", "-r", "/mnt/a", "/snaps/a1"]
    );
    assert_eq!(
        args(&snapshot_command("/mnt/a", "/snaps/a1", false)),
        vec!["subvolume", "snapshot", "/mnt/a", "/snaps/a1"]
    );
    assert_eq!(args(&receive_command("/restore/data")), vec!["receive", "/restore"]);
    assert_eq!(args(&receive_command("/data")), vec!["receive", "/"]);
    assert_eq!(args(&receive_command("data")), vec!["receive", "/"]);
}

#[test]
fn send_is_relative_to_the_parent() {
    let mut s = Subvolume {
        path: "/snaps/b".to_string(),
        read_only: true,
        parent: None,
        created_at: 0,
        size: 0,
    };
    assert_eq!(args(&s.send_command()), vec!["send", "/snaps/b"]);
    s.parent = Some("/snaps/a".to_string());
    assert_eq!(args(&s.send_command()), vec!["send", "-p", "/snaps/a", "/snaps/b"]);
    assert_eq!(
        args(&s.snapshot("/snaps/c")),
        vec!["subvolume", "snapshot", "-r", "/snaps/b", "/snaps/c"]
    );
}

#[test]
fn parent_directory() {
    assert_eq!(parent_dir("/a/b").unwrap(), "/a");
    assert_eq!(parent_dir("/a").unwrap(), "/");
    assert_eq!(parent_dir("a/b/c").unwrap(), "a/b");
    assert!(parent_dir("a").is_none());
    assert!(parent_dir("").is_none());
}

#[test]
fn checks_before_the_tool_runs() {
    assert!(matches!(
        check_snapshot("/src", false, "/dst", true),
        Err(BtrfsError::NotASubvolume(p)) if p == "/src"
    ));
    assert!(matches!(
        check_snapshot("/src", true, "/dst", true),
        Err(BtrfsError::SnapshotExists(p)) if p == "/dst"
    ));
    assert!(check_snapshot("/src", true, "/dst", false).is_ok());
    assert!(check_receive("/dst", false, false).is_ok());
    assert!(check_receive("/dst", true, true).is_ok());
    assert!(matches!(
        check_receive("/dst", true, false),
        Err(BtrfsError::InvalidSubvolume(p)) if p == "/dst"
    ));
    assert_eq!(restore_step(false, false), RestoreStep::Snapshot);
    assert_eq!(restore_step(true, true), RestoreStep::ReplaceThenSnapshot);
    assert_eq!(restore_step(true, false), RestoreStep::Refuse);
}

#[test]
fn failure_carries_the_error_output() {
    let ok = CommandOutput { success: true, stdout: String::new(), stderr: "warn".into() };
    assert!(check_outcome(&ok).is_ok());
    let bad = CommandOutput { success: false, stdout: String::new(), stderr: "ERROR: x".into() };
    assert!(matches!(check_outcome(&bad), Err(BtrfsError::CommandFailed(m)) if m == "ERROR: x"));
}

#[test]
fn read_only_flag_is_read_off_the_description() {
    let show = "snaps/a\n\tName: \t\t\ta\n\tUUID: \t\t\t1234\n\tFlags: \t\t\treadonly\n\tSnapshot(s):\n";
    assert!(parse_read_only(show));
    let show = "snaps/a\n\tName: \t\t\ta\n\tFlags: \t\t\t-\n";
    assert!(!parse_read_only(show));
    // Both words must stand on one line.
    assert!(!parse_read_only("Flags: -\nreadonly\n"));
    assert!(parse_read_only("Flags: readonly"));
    assert!(!parse_read_only(""));
}

#[test]
fn size_is_the_first_field_of_the_measurement() {
    assert_eq!(parse_size("123456\t/mnt/a\n"), 123456);
    assert_eq!(parse_size("  42 x"), 42);
    assert_eq!(parse_size("+7\t/x"), 7);
    assert_eq!(parse_size("18446744073709551615 /x"), u64::MAX);
    assert_eq!(parse_size("18446744073709551616 /x"), 0);
    assert_eq!(parse_size("4K /x"), 0);
    assert_eq!(parse_size("-1 /x"), 0);
    assert_eq!(parse_size(""), 0);
}

#[test]
fn listing_names_the_subvolumes_but_the_top_level() {
    // The path is the tenth field of a line.
    let listing = "\
ID 256 gen 10 cgen 9 top level 5 ./snaps/a
ID 257 gen 11 cgen 9 top level 5 snaps/b
ID 5 gen 1 cgen 1 top level 0 toplevel
ID x gen 11 cgen 9 top level 5 snaps/c
ID 258 gen y cgen 9 top level 5 snaps/d
ID 259 gen 12 cgen 9 top level
ID 260 gen 13 cgen 9 top level 5 ././snaps/e extra\r
";
    assert_eq!(
        parse_subvolume_list(listing),
        vec!["snaps/a".to_string(), "snaps/b".to_string(), "snaps/e".to_string()]
    );
    assert!(parse_subvolume_list("").is_empty());
}

#[test]
fn subvolume_record_from_what_the_tool_said() {
    let show = CommandOutput { success: true, stdout: "Flags: readonly\n".into(), stderr: String::new() };
    let du = CommandOutput { success: true, stdout: "2048\t/s/a\n".into(), stderr: String::new() };
    let s = Subvolume::from_probe("/s/a", &show, 77, &du).unwrap();
    assert_eq!(s.path, "/s/a");
    assert!(s.read_only);
    assert!(s.parent.is_none());
    assert_eq!(s.created_at, 77);
    assert_eq!(s.size, 2048);
    let du_failed = CommandOutput { success: false, stdout: "2048".into(), stderr: String::new() };
    assert_eq!(Subvolume::from_probe("/s/a", &show, 77, &du_failed).unwrap().size, 0);
    let not = CommandOutput { success: false, stdout: String::new(), stderr: "ERROR".into() };
    assert!(matches!(
        Subvolume::from_probe("/s/a", &not, 77, &du),
        Err(BtrfsError::NotASubvolume(p)) if p == "/s/a"
    ));
}

#[test]
fn init_knows_two_kinds_of_storage() {
    let made = BackupCli::handle_init("s3").unwrap();
    assert!(matches!(&made.storage, StorageConfig::Local { path } if path == "/var/lib/rast/backups"));
    assert!(!made.encryption.enabled);
    assert!(made.encryption.key_path.is_none());
    assert_eq!(made.retention.keep_daily, None);
    assert_eq!(made.performance.max_parallel_uploads, 4);
    assert_eq!(made.performance.chunk_size, 8 * 1024 * 1024);
    assert!(made.performance.compression);
    assert_eq!(made.performance.compression_level, 3);
    assert_eq!(made.performance.max_bandwidth, None);
    assert!(BackupCli::handle_init("Local").is_ok());
    assert!(BackupCli::handle_init("LOCAL").is_ok());
    match BackupCli::handle_init("ftp") {
        Err(BackupError::Config(m)) => assert_eq!(m, "Unsupported storage type: ftp"),
        _ => panic!("expected a refusal"),
    }
    assert_eq!(default_config_path(), "/etc/rast/backup.toml");
}

#[test]
fn list_filters_by_subvolume() {
    let b = Backup::new("id".into(), None, None, "/mnt/@home", "/s", 0, 0, StrMap::new(), false, None);
    assert!(BackupCli::handle_list(&b, None));
    assert!(BackupCli::handle_list(&b, Some("@home")));
    assert!(BackupCli::handle_list(&b, Some("")));
    assert!(!BackupCli::handle_list(&b, Some("@root")));
}

#[test]
fn delta_is_relative_to_the_first_backup_of_the_subvolume() {
    let mk = |id: &str, subvolume: &str| {
        Backup::new(id.into(), None, None, subvolume, "/s", 0, 0, StrMap::new(), false, None)
    };
    let backups = vec![mk("newest-other", "/other"), mk("newer", "/data"), mk("older", "/data")];
    assert_eq!(BackupCli::handle_create(&backups, "/data").unwrap().id, "newer");
    assert!(BackupCli::handle_create(&backups, "/none").is_none());
    assert!(BackupCli::handle_create(&Vec::new(), "/data").is_none());
}

#[test]
fn stored_flag_must_agree_with_the_parent() {
    let parent = Backup::new("p".into(), None, None, "/d", "/s", 0, 0, StrMap::new(), false, None);
    let child = Backup::new("c".into(), None, None, "/d", "/s", 0, 0, StrMap::new(), true, Some(&parent));
    assert!(parent.copy().checked(false).is_some());
    assert!(parent.copy().checked(true).is_none());
    assert!(child.copy().checked(true).is_some());
    assert!(child.copy().checked(false).is_none());
}

#[test]
fn flag_is_set_on_subvolumes_only() {
    assert!(check_subvolume("/s/a", true).is_ok());
    assert!(matches!(check_subvolume("/s/a", false), Err(BtrfsError::NotASubvolume(p)) if p == "/s/a"));
    assert_eq!(args(&readonly_command("/s/a", true)), vec!["property", "set", "/s/a", "ro", "true"]);
    assert_eq!(args(&readonly_command("/s/a", false)), vec!["property", "set", "/s/a", "ro", "false"]);
}

#[test]
fn deleting_what_is_gone_does_nothing() {
    assert_eq!(delete_step(false), DeleteStep::Skip);
    assert_eq!(delete_step(true), DeleteStep::Run);
    let failed = CommandOutput { success: false, stdout: String::new(), stderr: "boom".to_string() };
    let fine = CommandOutput { success: true, stdout: String::new(), stderr: String::new() };
    assert!(check_delete(false, &failed).is_ok());
    assert!(check_delete(false, &fine).is_ok());
    assert!(check_delete(true, &fine).is_ok());
    match check_delete(true, &failed) {
        Err(BtrfsError::CommandFailed(m)) => assert_eq!(m, "boom"),
        _ => panic!("expected the failure of the tool"),
    }
}

#[test]
fn identifier_is_made_of_the_bytes_that_were_drawn() {
    assert_eq!(UUID_BYTES, 16);
    assert_eq!(random_uuid(None), None);
    assert_eq!(random_uuid(Some(vec![0u8; 15])), None);
    assert_eq!(random_uuid(Some(vec![0u8; 17])), None);
    assert_eq!(random_uuid(Some(vec![0u8; 16])), Some(0x0000_0000_0000_4000_8000_0000_0000_0000));
    assert_eq!(
        random_uuid(Some(vec![0xffu8; 16])),
        Some(0xffff_ffff_ffff_4fff_bfff_ffff_ffff_ffff)
    );
    let bytes: Vec<u8> = (1u8..=16).collect();
    assert_eq!(random_uuid(Some(bytes)), Some(0x0102_0304_0506_4708_890a_0b0c_0d0e_0f10));
}

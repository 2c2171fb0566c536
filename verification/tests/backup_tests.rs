use rastos::backup::btrfs::Subvolume;
use rastos::backup::config::{BackupConfig, StorageConfig};
use rastos::backup::encryption::{NONCE_SIZE, TAG_SIZE};
use rastos::backup::pipeline::{
    CreateAction, CreateBackup, CreateEvent, CreateStage, DeleteAction, DeleteEvent,
    DeleteStage, Provider, RestoreAction, RestoreEvent, RestoreStage,
};
use rastos::backup::snapshot::{snapshot_id, Snapshot, SnapshotError, SnapshotManager};
use rastos::backup::{
    assemble_listing, blob_path, is_metadata_path, metadata_path, metadata_paths, shard,
    sort_newest_first, Backup, BackupError, BackupManager, ErrorKind,
};
use rastos::strmap::StrMap;
use std::collections::HashMap;

fn record(id: &str, created_at: i64) -> Backup {
    Backup::new(
        id.to_string(),
        Some(id),
        None,
        "/data",
        "/snap",
        1,
        created_at,
        StrMap::new(),
        false,
        None,
    )
}

#[test]
fn paths_are_sharded_by_the_first_two_characters() {
    let id = "3f2a9c1e-0000-4000-8000-000000000000";
    assert_eq!(shard(id).unwrap(), "3f");
    assert_eq!(blob_path(id).unwrap(), format!("backups/3f/{}.btrfs", id));
    assert_eq!(metadata_path(id).unwrap(), format!("backups/3f/{}/metadata", id));
    assert_eq!(blob_path("ab").unwrap(), "backups/ab/ab.btrfs");
    assert_eq!(blob_path("nonexistent").unwrap(), "backups/no/nonexistent.btrfs");
    assert!(shard("a").is_none());
    assert!(shard("").is_none());
    assert_eq!(blob_path("a").unwrap_err().kind(), ErrorKind::InvalidArgument);
    assert_eq!(metadata_path("").unwrap_err().kind(), ErrorKind::InvalidArgument);
}

#[test]
fn metadata_objects_are_picked_from_a_listing() {
    assert!(is_metadata_path("backups/ab/abcd/metadata"));
    assert!(!is_metadata_path("backups/ab/abcd.btrfs"));
    assert!(!is_metadata_path("metadata"));
    let listing = vec![
        "backups/ab/abcd.btrfs".to_string(),
        "backups/ab/abcd/metadata".to_string(),
        "backups/cd/cdef/metadata".to_string(),
        "backups/cd/cdef.btrfs".to_string(),
    ];
    assert_eq!(
        metadata_paths(&listing),
        vec!["backups/ab/abcd/metadata".to_string(), "backups/cd/cdef/metadata".to_string()]
    );
}

#[test]
fn new_record_links_to_its_parent_only_for_a_delta() {
    let parent = record("parent-id", 1);
    assert!(!parent.is_incremental());
    assert_eq!(parent.name, "parent-id");
    assert_eq!(parent.created_at, parent.updated_at);
    assert_eq!(parent.snapshot_path.as_deref(), Some("/snap"));
    let unnamed = Backup::new(
        "x1".to_string(),
        None,
        Some("d"),
        "/data",
        "/s",
        7,
        3,
        StrMap::new(),
        true,
        Some(&parent),
    );
    assert_eq!(unnamed.name, "Unnamed Backup");
    assert_eq!(unnamed.description.as_deref(), Some("d"));
    assert_eq!(unnamed.size, 7);
    assert!(unnamed.is_incremental());
    assert_eq!(unnamed.parent_id.as_deref(), Some("parent-id"));
    assert!(unnamed.child_ids.is_empty());
    // A parent without the flag, and the flag without a parent, give a full backup.
    let full = Backup::new("x2".to_string(), None, None, "/d", "/s", 0, 0, StrMap::new(), false, Some(&parent));
    assert!(!full.is_incremental());
    assert!(full.parent_id.is_none());
    let full = Backup::new("x3".to_string(), None, None, "/d", "/s", 0, 0, StrMap::new(), true, None);
    assert!(!full.is_incremental());
}

#[test]
fn listing_is_newest_first_and_stable() {
    let sorted = sort_newest_first(vec![
        record("a", 10),
        record("b", 30),
        record("c", 20),
        record("d", 30),
        record("e", 10),
    ]);
    let ids: Vec<&str> = sorted.iter().map(|b| b.id.as_str()).collect();
    assert_eq!(ids, vec!["b", "d", "c", "a", "e"]);
    assert!(sort_newest_first(vec![]).is_empty());
}

#[test]
fn unreadable_records_are_passed_over() {
    let listed = assemble_listing(vec![
        Some(record("old", 1)),
        None,
        Some(record("new", 2)),
        None,
    ]);
    let ids: Vec<&str> = listed.iter().map(|b| b.id.as_str()).collect();
    assert_eq!(ids, vec!["new", "old"]);
}

fn manager(local: &str, key: Option<&[u8]>) -> BackupManager {
    let mut config = BackupConfig::default();
    config.storage = StorageConfig::Local { path: local.to_string() };
    config.encryption.enabled = key.is_some();
    BackupManager::new(config, key, "/tmp").unwrap()
}

#[test]
fn manager_is_made_from_the_settings() {
    let m = manager("/store", None);
    assert!(matches!(m.storage(), StorageConfig::Local { path } if path == "/store"));
    assert_eq!(m.snapshot_manager().snapshot_dir(), "/store");
    assert!(m.temp_dir().starts_with("/tmp/rast-backup/"));
    assert_eq!(m.temp_dir().len(), "/tmp/rast-backup/".len() + 36);
    assert!(matches!(m.provider(), Provider::Plain(_)));
    let other = manager("/store", None);
    assert_ne!(m.temp_dir(), other.temp_dir());
    let sealed = manager("/store", Some(&[1u8; 32]));
    assert!(matches!(sealed.provider(), Provider::Sealed(_)));

    let mut config = BackupConfig::default();
    config.encryption.enabled = true;
    let e = BackupManager::new(config, None, "/tmp").err().unwrap();
    assert_eq!(e.kind(), ErrorKind::Config);
    let mut config = BackupConfig::default();
    config.encryption.enabled = true;
    let e = BackupManager::new(config, Some(&[0u8; 5]), "/tmp").err().unwrap();
    assert_eq!(e.kind(), ErrorKind::Encryption);
    let mut config = BackupConfig::default();
    config.storage = StorageConfig::S3 {
        bucket: "b".to_string(),
        region: "r".to_string(),
        endpoint: None,
        access_key_id: "a".to_string(),
        secret_access_key: "s".to_string(),
    };
    let m = BackupManager::new(config, None, "/tmp").unwrap();
    assert_eq!(m.snapshot_manager().snapshot_dir(), "/var/lib/rast/backups/snapshots");
}

/// What stands for the outside in these tests: objects by path, records by
/// path, the files of the temporary directory, and the subvolumes by path with
/// the stream that sending them gives.
struct World {
    blobs: HashMap<String, Vec<u8>>,
    records: HashMap<String, Backup>,
    temp: HashMap<String, Vec<u8>>,
    subvolumes: HashMap<String, Vec<u8>>,
    log: Vec<String>,
}

impl World {
    fn new() -> Self {
        World {
            blobs: HashMap::new(),
            records: HashMap::new(),
            temp: HashMap::new(),
            subvolumes: HashMap::new(),
            log: Vec::new(),
        }
    }

    fn snapshots(&self) -> Vec<Snapshot> {
        let mut paths: Vec<&String> = self.subvolumes.keys().collect();
        paths.sort();
        paths
            .into_iter()
            .map(|p| {
                let found = Subvolume {
                    path: p.clone(),
                    read_only: true,
                    parent: None,
                    created_at: 0,
                    size: 0,
                };
                Snapshot::from_listing(&found, StrMap::new(), format!("snap:{}", p))
            })
            .collect()
    }

    /// Runs the creation of a backup of a subvolume that holds `content`.
    fn create(
        &mut self,
        manager: &BackupManager,
        start: (CreateBackup, CreateAction),
        content: &[u8],
        now: i64,
    ) -> Result<Backup, BackupError> {
        let (mut op, mut action) = start;
        loop {
            let event = match action {
                CreateAction::ListSnapshots => {
                    self.log.push("list-snapshots".into());
                    CreateEvent::Snapshots(Ok(self.snapshots()))
                }
                CreateAction::TakeSnapshot(plan) => {
                    self.log.push(format!("snapshot {} -> {}", plan.source, plan.dest));
                    self.subvolumes.insert(plan.dest.clone(), content.to_vec());
                    CreateEvent::SnapshotTaken(Ok(Subvolume {
                        path: plan.dest,
                        read_only: plan.read_only,
                        parent: None,
                        created_at: now,
                        size: content.len() as u64,
                    }))
                }
                CreateAction::Send { snapshot, parent, output } => {
                    self.log.push(format!("send parent={}", parent.is_some()));
                    let stream = self.subvolumes[&snapshot].clone();
                    self.temp.insert(output, stream);
                    CreateEvent::Sent(Ok(()))
                }
                CreateAction::ReadPayload { path } => {
                    CreateEvent::Payload(Ok(self.temp[&path].clone()))
                }
                CreateAction::Upload { path, data } => {
                    self.log.push("upload".into());
                    self.blobs.insert(path, data);
                    CreateEvent::Uploaded(Ok(()))
                }
                CreateAction::PersistMetadata { path, record } => {
                    self.log.push("persist".into());
                    self.records.insert(path, record);
                    CreateEvent::MetadataPersisted(Ok(()))
                }
                CreateAction::RemoveTemp { path } => {
                    self.log.push("remove-temp".into());
                    self.temp.remove(&path);
                    CreateEvent::TempRemoved
                }
                CreateAction::Finish(result) => {
                    assert_eq!(op.stage, CreateStage::TempCleaned);
                    return result;
                }
            };
            let next = op.step(event, now, manager.provider());
            op = next.0;
            action = next.1;
        }
    }

    fn restore(
        &mut self,
        manager: &BackupManager,
        id: &str,
        target: Option<&str>,
    ) -> Result<(), BackupError> {
        let (mut op, mut action) = manager.restore_backup(id, target)?;
        loop {
            let event = match action {
                RestoreAction::FetchMetadata { path } => {
                    RestoreEvent::Metadata(Ok(self.records.get(&path).map(|b| b.copy())))
                }
                RestoreAction::Download { path } => match self.blobs.get(&path) {
                    Some(b) => RestoreEvent::Blob(Ok(b.clone())),
                    None => RestoreEvent::Blob(Err("no such object".into())),
                },
                RestoreAction::WriteTemp { path, data } => {
                    self.temp.insert(path, data);
                    RestoreEvent::TempWritten(Ok(()))
                }
                RestoreAction::Receive { input, dest } => {
                    let stream = self.temp[&input].clone();
                    self.subvolumes.insert(dest, stream);
                    RestoreEvent::Received(Ok(()))
                }
                RestoreAction::RemoveTemp { path } => {
                    self.temp.remove(&path);
                    RestoreEvent::TempRemoved
                }
                RestoreAction::Finish(result) => {
                    assert_eq!(op.stage, RestoreStage::TempCleaned);
                    return result;
                }
            };
            let next = op.step(event, manager.provider());
            op = next.0;
            action = next.1;
        }
    }

    fn delete(&mut self, manager: &BackupManager, id: &str) -> Result<(), BackupError> {
        let (mut op, mut action) = manager.delete_backup(id)?;
        loop {
            let event = match action {
                DeleteAction::FetchMetadata { path } => {
                    DeleteEvent::Metadata(Ok(self.records.get(&path).map(|b| b.copy())))
                }
                DeleteAction::DeleteObject { path } => {
                    self.log.push(format!("delete {}", path));
                    self.blobs.remove(&path);
                    self.records.remove(&path);
                    DeleteEvent::Deleted(Ok(()))
                }
                DeleteAction::ProbeSnapshot { path } => {
                    DeleteEvent::Probed(self.subvolumes.contains_key(&path))
                }
                DeleteAction::DeleteSnapshot { path } => {
                    self.subvolumes.remove(&path);
                    DeleteEvent::SnapshotDeleted
                }
                DeleteAction::Finish(result) => {
                    assert_eq!(op.stage, DeleteStage::Done);
                    return result;
                }
            };
            let next = op.step(event);
            op = next.0;
            action = next.1;
        }
    }

    fn list(&self, manager: &BackupManager) -> Vec<Backup> {
        let mut objects: Vec<String> = self.blobs.keys().cloned().collect();
        objects.extend(self.records.keys().cloned());
        objects.sort();
        let prefix = manager.listing_prefix();
        let objects: Vec<String> = objects.into_iter().filter(|p| p.starts_with(&prefix)).collect();
        let fetched = metadata_paths(&objects)
            .iter()
            .map(|p| self.records.get(p).map(|b| b.copy()))
            .collect();
        manager.list_backups(fetched)
    }
}

#[test]
fn backup_tests_test_backup_creation() {
    let manager = manager("/store", None);
    let mut world = World::new();
    let start = manager.create_backup(
        "/data/test_subvol",
        Some("test_backup"),
        Some("test description"),
        false,
        None,
    ).unwrap();
    assert_eq!(start.0.stage, CreateStage::Requested);
    let backup = world.create(&manager, start, b"test content", 5).unwrap();

    assert_eq!(backup.name, "test_backup");
    assert_eq!(backup.description, Some("test description".to_string()));
    assert!(!backup.is_incremental());
    assert!(backup.size > 0);
    assert_eq!(backup.size, 12);
    assert_eq!(backup.created_at, 5);
    assert_eq!(backup.metadata.get("description").unwrap(), "test description");
    assert_eq!(backup.id.len(), 36);

    let backup_path = format!("backups/{}/{}.btrfs", &backup.id[..2], backup.id);
    assert!(world.blobs.contains_key(&backup_path));
    assert_eq!(world.blobs[&backup_path], b"test content");
    assert!(world.records.contains_key(&metadata_path(&backup.id).unwrap()));
    assert!(world.temp.is_empty());
    let snapshot = backup.snapshot_path.unwrap();
    assert!(snapshot.starts_with("/store/test_subvol_"));
    assert_eq!(snapshot.len(), "/store/test_subvol_".len() + 15);
}

#[test]
fn blob_is_uploaded_before_the_record_is_written() {
    let manager = manager("/store", None);
    let mut world = World::new();
    let start = manager.create_backup("/data", None, None, false, None).unwrap();
    world.create(&manager, start, b"x", 1).unwrap();
    let upload = world.log.iter().position(|l| l == "upload").unwrap();
    let persist = world.log.iter().position(|l| l == "persist").unwrap();
    let clean = world.log.iter().position(|l| l == "remove-temp").unwrap();
    assert!(upload < persist);
    assert!(persist < clean);
}

#[test]
fn failed_upload_leaves_no_record_and_cleans_up() {
    let manager = manager("/store", None);
    let (op, action) = manager.create_backup("/data", None, None, false, None).unwrap();
    let plan = match action {
        CreateAction::TakeSnapshot(plan) => plan,
        _ => panic!("expected a snapshot to be asked for"),
    };
    let taken = Subvolume { path: plan.dest, read_only: true, parent: None, created_at: 0, size: 0 };
    let (op, action) = op.step(CreateEvent::SnapshotTaken(Ok(taken)), 1, manager.provider());
    let temp = match action {
        CreateAction::Send { output, .. } => output,
        _ => panic!("expected a send"),
    };
    let (op, action) = op.step(CreateEvent::Sent(Ok(())), 2, manager.provider());
    assert!(matches!(action, CreateAction::ReadPayload { .. }));
    let (op, action) = op.step(CreateEvent::Payload(Ok(vec![1, 2, 3])), 3, manager.provider());
    assert!(matches!(action, CreateAction::Upload { .. }));
    assert_eq!(op.stage, CreateStage::Encrypted);
    let (op, action) =
        op.step(CreateEvent::Uploaded(Err("network down".to_string())), 4, manager.provider());
    assert_eq!(op.stage, CreateStage::Failing);
    match action {
        CreateAction::RemoveTemp { path } => assert_eq!(path, temp),
        _ => panic!("expected the temporary file to be removed"),
    }
    let (op, action) = op.step(CreateEvent::TempRemoved, 5, manager.provider());
    assert_eq!(op.stage, CreateStage::TempCleaned);
    match action {
        CreateAction::Finish(Err(BackupError::Storage(m))) => assert_eq!(m, "network down"),
        _ => panic!("expected a storage error"),
    }
}

#[test]
fn failed_snapshot_ends_at_once() {
    let manager = manager("/store", None);
    let (op, _) = manager.create_backup("/data", None, None, false, None).unwrap();
    let (op, action) =
        op.step(CreateEvent::SnapshotTaken(Err("not a subvolume".to_string())), 1, manager.provider());
    assert_eq!(op.stage, CreateStage::TempCleaned);
    assert!(matches!(action, CreateAction::Finish(Err(BackupError::Snapshot(_)))));
    // A report that the stage does not wait for is a failure too.
    let (op, _) = manager.create_backup("/data", None, None, false, None).unwrap();
    let (_, action) = op.step(CreateEvent::TempRemoved, 1, manager.provider());
    assert!(matches!(action, CreateAction::Finish(Err(BackupError::InvalidArgument(_)))));
}

#[test]
fn backup_tests_test_backup_restore() {
    let manager = manager("/store", None);
    let mut world = World::new();
    let start = manager.create_backup("/data/test_subvol", None, None, false, None).unwrap();
    let backup = world.create(&manager, start, b"test content", 1).unwrap();
    assert_eq!(backup.name, "Unnamed Backup");

    world.restore(&manager, &backup.id, Some("/restored")).unwrap();
    assert_eq!(world.subvolumes["/restored"], b"test content");
    assert!(world.temp.is_empty());
    // Without a target the subvolume goes back to where it was.
    world.restore(&manager, &backup.id, None).unwrap();
    assert_eq!(world.subvolumes["/data/test_subvol"], b"test content");
    // An unknown backup is not found.
    let e = world.restore(&manager, "nonexistent", Some("/x")).unwrap_err();
    assert_eq!(e.kind(), ErrorKind::NotFound);
    let e = world.restore(&manager, "n", Some("/x")).unwrap_err();
    assert_eq!(e.kind(), ErrorKind::InvalidArgument);
}

#[test]
fn restore_names_its_temporary_file_after_the_backup() {
    let manager = manager("/store", None);
    let (op, action) = manager.restore_backup("abcdef", Some("/t")).unwrap();
    assert_eq!(op.temp_file, format!("{}/restore-abcdef.btrfs", manager.temp_dir()));
    match action {
        RestoreAction::FetchMetadata { path } => assert_eq!(path, "backups/ab/abcdef/metadata"),
        _ => panic!("expected the record to be fetched"),
    }
    let (op, action) = op.step(RestoreEvent::Metadata(Ok(Some(record("abcdef", 1)))), manager.provider());
    match action {
        RestoreAction::Download { path } => assert_eq!(path, "backups/ab/abcdef.btrfs"),
        _ => panic!("expected the blob to be fetched"),
    }
    let (op, action) = op.step(RestoreEvent::Blob(Ok(vec![9])), manager.provider());
    assert!(matches!(action, RestoreAction::WriteTemp { .. }));
    // Once the file is named, a failure leads over its removal.
    let (op, action) = op.step(RestoreEvent::TempWritten(Err("disk full".into())), manager.provider());
    assert_eq!(op.stage, RestoreStage::Failing);
    assert!(matches!(action, RestoreAction::RemoveTemp { .. }));
    let (_, action) = op.step(RestoreEvent::TempRemoved, manager.provider());
    assert!(matches!(action, RestoreAction::Finish(Err(BackupError::Io(_)))));
}

#[test]
fn backup_tests_test_incremental_backup() {
    let manager = manager("/store", None);
    let mut world = World::new();
    let start = manager.create_backup("/data", None, None, false, None).unwrap();
    let full_backup = world.create(&manager, start, b"initial content", 10).unwrap();

    let start = manager.create_backup("/data", None, None, true, Some(&full_backup)).unwrap();
    assert_eq!(start.0.stage, CreateStage::ResolvingParent);
    assert!(matches!(start.1, CreateAction::ListSnapshots));
    let incremental = world.create(&manager, start, b"delta", 20).unwrap();

    assert!(incremental.is_incremental());
    assert_eq!(incremental.parent_id, Some(full_backup.id.clone()));
    // The snapshot was taken of the subvolume itself, and sent relative to the parent.
    assert!(world.log.contains(&format!(
        "snapshot /data -> {}",
        incremental.snapshot_path.clone().unwrap()
    )));
    assert!(!world.log.iter().any(|l| l.starts_with(&format!(
        "snapshot {} ->",
        full_backup.snapshot_path.clone().unwrap()
    ))));
    assert!(world.log.contains(&"send parent=true".to_string()));

    let backups = world.list(&manager);
    assert_eq!(backups.len(), 2);
    assert_eq!(backups[0].id, incremental.id);
    assert_eq!(backups[1].id, full_backup.id);
}

#[test]
fn missing_parent_snapshot_fails_the_delta() {
    let manager = manager("/store", None);
    let mut world = World::new();
    let start = manager.create_backup("/data", None, None, false, None).unwrap();
    let full_backup = world.create(&manager, start, b"x", 10).unwrap();
    world.subvolumes.clear();
    let start = manager.create_backup("/data", None, None, true, Some(&full_backup)).unwrap();
    match world.create(&manager, start, b"y", 20) {
        Err(BackupError::Snapshot(m)) => assert_eq!(m, "Parent snapshot not found"),
        _ => panic!("expected a snapshot error"),
    }
    assert_eq!(world.blobs.len(), 1);
}

#[test]
fn backup_tests_test_backup_deletion() {
    let manager = manager("/store", None);
    let mut world = World::new();
    let start = manager.create_backup("/data", None, None, false, None).unwrap();
    let backup = world.create(&manager, start, b"x", 1).unwrap();
    let record_path = metadata_path(&backup.id).unwrap();
    let fetched = world.records.get(&record_path).map(|b| b.copy());
    assert!(manager.get_backup(&backup.id, Ok(fetched)).is_ok());

    world.delete(&manager, &backup.id).unwrap();

    let fetched = world.records.get(&record_path).map(|b| b.copy());
    match manager.get_backup(&backup.id, Ok(fetched)) {
        Err(BackupError::NotFound(id)) => assert_eq!(id, backup.id),
        _ => panic!("expected the backup to be gone"),
    }
    assert!(!world.blobs.contains_key(&blob_path(&backup.id).unwrap()));
    assert!(world.list(&manager).is_empty());
    assert!(!world.subvolumes.contains_key(&backup.snapshot_path.unwrap()));
    // The blob went before the record.
    let deletes: Vec<&String> = world.log.iter().filter(|l| l.starts_with("delete ")).collect();
    assert_eq!(deletes.len(), 2);
    assert!(deletes[0].ends_with(".btrfs"));
    assert!(deletes[1].ends_with("/metadata"));
    // Deleting again does not find it.
    assert_eq!(world.delete(&manager, &backup.id).unwrap_err().kind(), ErrorKind::NotFound);
}

#[test]
fn failed_deletion_is_not_rolled_back() {
    let manager = manager("/store", None);
    let (op, _) = manager.delete_backup("abcdef").unwrap();
    let (op, action) = op.step(DeleteEvent::Metadata(Ok(Some(record("abcdef", 1)))));
    assert!(matches!(action, DeleteAction::DeleteObject { ref path } if path == "backups/ab/abcdef.btrfs"));
    let (op, action) = op.step(DeleteEvent::Deleted(Ok(())));
    assert!(matches!(action, DeleteAction::DeleteObject { ref path } if path == "backups/ab/abcdef/metadata"));
    let (op, action) = op.step(DeleteEvent::Deleted(Err("denied".into())));
    assert_eq!(op.stage, DeleteStage::Done);
    assert!(matches!(action, DeleteAction::Finish(Err(BackupError::Storage(_)))));
    // A snapshot that is no subvolume any more is left alone.
    let (op, _) = manager.delete_backup("abcdef").unwrap();
    let (op, _) = op.step(DeleteEvent::Metadata(Ok(Some(record("abcdef", 1)))));
    let (op, _) = op.step(DeleteEvent::Deleted(Ok(())));
    let (op, action) = op.step(DeleteEvent::Deleted(Ok(())));
    assert!(matches!(action, DeleteAction::ProbeSnapshot { ref path } if path == "/snap"));
    let (_, action) = op.step(DeleteEvent::Probed(false));
    assert!(matches!(action, DeleteAction::Finish(Ok(()))));
}

#[test]
fn test_list_backups() {
    let manager = manager("/store", None);
    let mut world = World::new();
    let start = manager.create_backup("/data", Some("backup1"), None, false, None).unwrap();
    world.create(&manager, start, b"1", 100).unwrap();
    let start = manager.create_backup("/data", Some("backup2"), None, false, None).unwrap();
    let backup2 = world.create(&manager, start, b"2", 200).unwrap();

    let backups = world.list(&manager);
    assert_eq!(backups.len(), 2);
    assert!(backups.iter().any(|b| b.name == "backup1"));
    assert!(backups.iter().any(|b| b.name == "backup2"));
    assert_eq!(backups[0].id, backup2.id);
}

#[test]
fn test_backup_verification() {
    let manager = manager("/store", None);
    let mut world = World::new();
    let start = manager.create_backup("/data", None, None, false, None).unwrap();
    let backup = world.create(&manager, start, b"x", 1).unwrap();
    let fetched = world.records.get(&metadata_path(&backup.id).unwrap()).map(|b| b.copy());
    assert!(manager.verify_backup(&backup.id, Ok(fetched)));
    let fetched = world.records.get(&metadata_path("nonexistent").unwrap()).map(|b| b.copy());
    assert!(!manager.verify_backup("nonexistent", Ok(fetched)));
    assert!(!manager.verify_backup(&backup.id, Err("unreachable".to_string())));
}

#[test]
fn sealed_backup_round_trips_through_the_store() {
    let key = [42u8; 32];
    let manager = manager("/store", Some(&key));
    let mut world = World::new();
    // Subvolume /data holds notes.txt = "v1".
    let start = manager.create_backup("/data", None, None, false, None).unwrap();
    let b1 = world.create(&manager, start, b"notes.txt=v1", 1).unwrap();
    assert!(!b1.is_incremental());
    // notes.txt is overwritten with "v2".
    let start = manager.create_backup("/data", None, None, true, Some(&b1)).unwrap();
    let b2 = world.create(&manager, start, b"notes.txt=v2", 2).unwrap();
    assert_eq!(b2.parent_id.as_deref(), Some(b1.id.as_str()));
    // What is stored is sealed.
    let blob = &world.blobs[&blob_path(&b2.id).unwrap()];
    assert_eq!(blob.len(), 12 + NONCE_SIZE + TAG_SIZE);
    assert_ne!(&blob[..], b"notes.txt=v2");
    assert_eq!(b2.size, 12);
    world.restore(&manager, &b2.id, Some("/restore")).unwrap();
    assert_eq!(world.subvolumes["/restore"], b"notes.txt=v2");
    // Another key does not open it.
    let other = BackupManager::new(
        {
            let mut c = BackupConfig::default();
            c.storage = StorageConfig::Local { path: "/store".to_string() };
            c.encryption.enabled = true;
            c
        },
        Some(&[43u8; 32]),
        "/tmp",
    )
    .unwrap();
    let e = world.restore(&other, &b2.id, Some("/restore2")).unwrap_err();
    assert_eq!(e.kind(), ErrorKind::Encryption);
    assert!(!world.subvolumes.contains_key("/restore2"));
}

#[test]
fn snapshot_manager_builds_attributes_and_plans() {
    let m = SnapshotManager::new("/snaps").with_metadata("test", "true").read_only(false);
    assert_eq!(m.snapshot_dir(), "/snaps");
    let attrs = m.snapshot_metadata(Some("test snapshot"));
    assert_eq!(attrs.get("description").unwrap(), "test snapshot");
    assert_eq!(attrs.get("test").unwrap(), "true");
    assert_eq!(m.snapshot_metadata(None).len(), 1);
    let plan = m.create_snapshot("/mnt/@home", "20240102_030405");
    assert_eq!(plan.source, "/mnt/@home");
    assert_eq!(plan.dest, "/snaps/@home_20240102_030405");
    assert!(!plan.read_only);
    let parent = Snapshot::from_listing(
        &Subvolume { path: "/snaps/p".into(), read_only: true, parent: None, created_at: 1, size: 2 },
        StrMap::new(),
        "snap_fallback".to_string(),
    );
    assert_eq!(parent.id, "snap_fallback");
    assert_eq!(parent.subvolume, "unknown");
    let listing = vec![parent.copy()];
    let plan = SnapshotManager::new("/snaps")
        .create_incremental_snapshot(&listing, "/", &parent, "s")
        .unwrap();
    assert_eq!(plan.source, "/");
    assert_eq!(plan.dest, "/snaps/subvol_s");
    assert!(plan.read_only);
    let plan = Snapshot::plan("/mnt/@home", "/snaps", false, "t");
    assert_eq!(plan.source, "/mnt/@home");
    assert_eq!(plan.dest, "/snaps/@home_t");
    assert!(!plan.read_only);
    let missing = SnapshotManager::new("/snaps").create_incremental_snapshot(
        &Vec::new(),
        "/",
        &parent,
        "s",
    );
    assert_eq!(missing.err(), Some(SnapshotError::SnapshotNotFound));
    assert_eq!(SnapshotManager::info_path("/snaps/p"), "/snaps/p/.snapinfo");
}

#[test]
fn listed_snapshots_say_what_they_are() {
    let found = vec![
        Subvolume { path: "/s/a".into(), read_only: true, parent: None, created_at: 1, size: 10 },
        Subvolume { path: "/s/b".into(), read_only: false, parent: None, created_at: 2, size: 20 },
    ];
    let mut info = StrMap::new();
    info.insert("id".to_string(), "snap_1".to_string());
    info.insert("subvolume".to_string(), "/data".to_string());
    info.insert("parent_id".to_string(), "snap_0".to_string());
    let mut found = found;
    let second = (found.pop().unwrap(), StrMap::new());
    let first = (found.pop().unwrap(), info);
    let snapshots = SnapshotManager::list_snapshots(vec![first, second]).unwrap();
    assert_eq!(snapshots.len(), 2);
    assert_eq!(snapshots[0].id, "snap_1");
    assert_eq!(snapshots[0].subvolume, "/data");
    assert_eq!(snapshots[0].parent_id.as_deref(), Some("snap_0"));
    assert_eq!(snapshots[0].path, "/s/a");
    assert_eq!(snapshots[0].size, 10);
    assert!(snapshots[1].id.starts_with("snap_"));
    assert_eq!(snapshots[1].id.len(), 5 + 36);
    assert_eq!(snapshots[1].subvolume, "unknown");
    assert!(snapshots[1].parent_id.is_none());
    assert!(!snapshots[1].read_only);
    assert_eq!(SnapshotManager::find_snapshot(&snapshots, "snap_1").unwrap().path, "/s/a");
    assert!(SnapshotManager::find_snapshot(&snapshots, "snap_9").is_none());
    assert_eq!(SnapshotManager::find_by_path(&snapshots, "/s/b").unwrap().size, 20);
    assert_eq!(SnapshotManager::delete_snapshot(&snapshots, "snap_1").unwrap(), "/s/a");
    assert_eq!(
        SnapshotManager::delete_snapshot(&snapshots, "nope"),
        Err(SnapshotError::SnapshotNotFound)
    );
}

fn listed(id: &str, path: &str, parent: Option<&str>) -> (Subvolume, StrMap<String>) {
    let mut info = StrMap::new();
    info.insert("id".to_string(), id.to_string());
    if let Some(p) = parent {
        info.insert("parent_id".to_string(), p.to_string());
    }
    let found =
        Subvolume { path: path.to_string(), read_only: true, parent: None, created_at: 1, size: 1 };
    (found, info)
}

#[test]
fn snapshot_with_a_child_is_not_deleted_before_the_child() {
    let snapshots = SnapshotManager::list_snapshots(vec![
        listed("a", "/s/a", None),
        listed("b", "/s/b", Some("a")),
        listed("c", "/s/c", Some("b")),
    ])
    .unwrap();
    assert!(SnapshotManager::has_children(&snapshots, "a"));
    assert!(SnapshotManager::has_children(&snapshots, "b"));
    assert!(!SnapshotManager::has_children(&snapshots, "c"));
    assert!(!SnapshotManager::has_children(&snapshots, "z"));
    assert_eq!(
        SnapshotManager::delete_snapshot(&snapshots, "a"),
        Err(SnapshotError::InvalidRelationship)
    );
    assert_eq!(
        SnapshotManager::delete_snapshot(&snapshots, "b"),
        Err(SnapshotError::InvalidRelationship)
    );
    assert_eq!(SnapshotManager::delete_snapshot(&snapshots, "c"), Ok("/s/c".to_string()));
    assert_eq!(
        SnapshotManager::delete_snapshot(&snapshots, "z"),
        Err(SnapshotError::SnapshotNotFound)
    );
    // Once the child is gone the parent can go.
    let snapshots = SnapshotManager::list_snapshots(vec![
        listed("a", "/s/a", None),
        listed("b", "/s/b", Some("a")),
    ])
    .unwrap();
    assert_eq!(SnapshotManager::delete_snapshot(&snapshots, "b"), Ok("/s/b".to_string()));
    // A snapshot that names a missing parent puts nothing in the way of others.
    let snapshots = SnapshotManager::list_snapshots(vec![
        listed("a", "/s/a", None),
        listed("b", "/s/b", Some("gone")),
    ])
    .unwrap();
    assert_eq!(SnapshotManager::delete_snapshot(&snapshots, "a"), Ok("/s/a".to_string()));
    assert_eq!(
        SnapshotManager::delete_snapshot(&snapshots, "gone"),
        Err(SnapshotError::SnapshotNotFound)
    );
}

#[test]
fn manager_is_named_by_the_id_that_was_drawn() {
    let mut config = BackupConfig::default();
    config.storage = StorageConfig::Local { path: "/store".to_string() };
    let m = BackupManager::with_temp_id(config, None, "/tmp", Some(5)).unwrap();
    assert_eq!(m.temp_dir(), "/tmp/rast-backup/00000000-0000-0000-0000-000000000005");
    assert_eq!(m.snapshot_manager().snapshot_dir(), "/store");
    let e = BackupManager::with_temp_id(BackupConfig::default(), None, "/tmp", None).err().unwrap();
    assert_eq!(e.kind(), ErrorKind::Io);
    let mut config = BackupConfig::default();
    config.encryption.enabled = true;
    let e = BackupManager::with_temp_id(config, None, "/tmp", None).err().unwrap();
    assert_eq!(e.kind(), ErrorKind::Config);
    let mut config = BackupConfig::default();
    config.encryption.enabled = true;
    let e = BackupManager::with_temp_id(config, Some(&[0u8; 31]), "/tmp", Some(1)).err().unwrap();
    assert_eq!(e.kind(), ErrorKind::Encryption);
}

#[test]
fn backup_begins_under_the_ids_that_were_drawn() {
    let mut config = BackupConfig::default();
    config.storage = StorageConfig::Local { path: "/store".to_string() };
    let m = BackupManager::with_temp_id(config, None, "/tmp", Some(0)).unwrap();
    let (op, action) =
        m.begin_backup("/data/vol", Some("n"), Some("d"), false, None, 1, 2, 3, 86_400_000_000);
    assert_eq!(op.stage, CreateStage::Requested);
    assert_eq!(op.backup_id, "00000000-0000-0000-0000-000000000001");
    assert_eq!(op.snapshot_id, "snap_00000000-0000-0000-0000-000000000002");
    assert_eq!(
        op.temp_file,
        "/tmp/rast-backup/00000000-0000-0000-0000-000000000000/00000000-0000-0000-0000-000000000003.btrfs"
    );
    assert_eq!(op.snapshot_dest, "/store/vol_19700102_000000");
    assert_eq!(op.attributes.get("description").unwrap(), "d");
    assert!(op.read_only);
    assert!(op.parent_snapshot.is_none() && op.snapshot.is_none() && op.record.is_none());
    assert_eq!(op.size, 0);
    match action {
        CreateAction::TakeSnapshot(plan) => {
            assert_eq!(plan.source, "/data/vol");
            assert_eq!(plan.dest, "/store/vol_19700102_000000");
            assert!(plan.read_only);
        }
        _ => panic!("expected a snapshot to be asked for"),
    }
}

#[test]
fn delta_snapshots_the_subvolume_and_sends_against_the_parent() {
    let mut config = BackupConfig::default();
    config.storage = StorageConfig::Local { path: "/store".to_string() };
    let m = BackupManager::with_temp_id(config, None, "/tmp", Some(0)).unwrap();
    let mut parent = record("00aa", 1);
    parent.snapshot_path = Some("/store/old".to_string());
    let (op, action) = m.begin_backup("/data", None, None, true, Some(&parent), 1, 2, 3, 0);
    assert_eq!(op.stage, CreateStage::ResolvingParent);
    assert!(matches!(action, CreateAction::ListSnapshots));
    let snapshots = SnapshotManager::list_snapshots(vec![
        listed("snap_x", "/store/other", None),
        listed("snap_old", "/store/old", None),
    ])
    .unwrap();
    let (op, action) = op.step(CreateEvent::Snapshots(Ok(snapshots)), 5, m.provider());
    assert_eq!(op.stage, CreateStage::Requested);
    assert_eq!(op.parent_snapshot.as_ref().unwrap().id, "snap_old");
    assert!(op.snapshot.is_none());
    let plan = match action {
        CreateAction::TakeSnapshot(plan) => plan,
        _ => panic!("expected a snapshot to be asked for"),
    };
    assert_eq!(plan.source, "/data");
    assert_eq!(plan.dest, "/store/data_19700101_000000");
    let taken = Subvolume {
        path: plan.dest.clone(),
        read_only: true,
        parent: None,
        created_at: 7,
        size: 9,
    };
    let (op, action) = op.step(CreateEvent::SnapshotTaken(Ok(taken)), 6, m.provider());
    match action {
        CreateAction::Send { snapshot, parent, output } => {
            assert_eq!(snapshot, "/store/data_19700101_000000");
            assert_eq!(parent.as_deref(), Some("/store/old"));
            assert_eq!(output, op.temp_file);
        }
        _ => panic!("expected the snapshot to be sent"),
    }
    let taken = op.snapshot.as_ref().unwrap();
    assert_eq!(taken.id, "snap_00000000-0000-0000-0000-000000000002");
    assert_eq!(taken.subvolume, "/data");
    assert_eq!(taken.parent_id.as_deref(), Some("snap_old"));
    assert_eq!(taken.created_at, 7);
    assert_eq!(taken.size, 9);
    assert_eq!(op.parent_snapshot.as_ref().unwrap().id, "snap_old");
    assert_eq!(op.size, 0);
    let (op, _) = op.step(CreateEvent::Sent(Ok(())), 7, m.provider());
    assert_eq!(op.snapshot.as_ref().unwrap().path, "/store/data_19700101_000000");
    let (op, _) = op.step(CreateEvent::Payload(Ok(vec![1, 2, 3, 4])), 8, m.provider());
    assert_eq!(op.size, 4);
    assert!(op.record.is_none());
    let (op, action) = op.step(CreateEvent::Uploaded(Ok(())), 9, m.provider());
    let written = match action {
        CreateAction::PersistMetadata { record, .. } => record,
        _ => panic!("expected the record to be written"),
    };
    assert_eq!(op.record.as_ref().unwrap().id, written.id);
    assert_eq!(written.parent_id.as_deref(), Some("00aa"));
    assert_eq!(written.size, 4);
    assert_eq!(written.created_at, 9);
    let (op, _) = op.step(CreateEvent::MetadataPersisted(Ok(())), 10, m.provider());
    assert_eq!(op.size, 4);
    let (_, action) = op.step(CreateEvent::TempRemoved, 11, m.provider());
    match action {
        CreateAction::Finish(Ok(b)) => {
            assert_eq!(b.id, written.id);
            assert_eq!(b.created_at, 9);
            assert!(b.is_incremental());
        }
        _ => panic!("expected the backup"),
    }
}

#[test]
fn snapshot_id_is_the_hyphenated_text_of_its_number() {
    assert_eq!(
        snapshot_id(0x0123456789abcdef0123456789abcdef),
        "snap_01234567-89ab-cdef-0123-456789abcdef"
    );
    assert_eq!(snapshot_id(0), "snap_00000000-0000-0000-0000-000000000000");
    assert_eq!(snapshot_id(u128::MAX), "snap_ffffffff-ffff-ffff-ffff-ffffffffffff");
    assert_eq!(snapshot_id(0xa), "snap_00000000-0000-0000-0000-00000000000a");
}

#[test]
fn creation_driven_by_the_clock_of_the_manager() {
    let manager = manager("/store", None);
    let (op, action) = manager.create_backup("/data", None, None, false, None).unwrap();
    let plan = match action {
        CreateAction::TakeSnapshot(plan) => plan,
        _ => panic!("expected a snapshot to be asked for"),
    };
    let taken = Subvolume { path: plan.dest, read_only: true, parent: None, created_at: 0, size: 0 };
    let (op, _) = manager.advance_create(op, CreateEvent::SnapshotTaken(Ok(taken))).ok().unwrap();
    let (op, _) = manager.advance_create(op, CreateEvent::Sent(Ok(()))).ok().unwrap();
    let (op, _) = manager.advance_create(op, CreateEvent::Payload(Ok(vec![1, 2, 3]))).ok().unwrap();
    let (op, action) = manager.advance_create(op, CreateEvent::Uploaded(Ok(()))).ok().unwrap();
    let record = match action {
        CreateAction::PersistMetadata { record, .. } => record,
        _ => panic!("expected the record to be written"),
    };
    // Some time after 2020.
    assert!(record.created_at > 1_577_836_800_000_000);
    assert_eq!(record.created_at, record.updated_at);
    assert_eq!(record.size, 3);
    let (op, _) = manager.advance_create(op, CreateEvent::MetadataPersisted(Ok(()))).ok().unwrap();
    let (_, action) = manager.advance_create(op, CreateEvent::TempRemoved).ok().unwrap();
    match action {
        CreateAction::Finish(Ok(b)) => assert_eq!(b.id, record.id),
        _ => panic!("expected the backup"),
    }
}

#[test]
fn large_sealed_backup_is_restored() {
    let manager = manager("/store", Some(&[9u8; 32]));
    let mut world = World::new();
    for len in [65_520usize, 65_521, 65_536, 65_537, 2 * 65_536 + 5] {
        let payload: Vec<u8> = (0..len).map(|i| (i % 249) as u8).collect();
        let start = manager.create_backup("/data", None, None, false, None).unwrap();
        let backup = world.create(&manager, start, &payload, 1).unwrap();
        assert_eq!(backup.size as usize, len);
        let blob = &world.blobs[&blob_path(&backup.id).unwrap()];
        let segments = (len + 65_535) / 65_536;
        assert_eq!(blob.len(), len + segments * (NONCE_SIZE + TAG_SIZE));
        let target = format!("/restore-{}", len);
        world.restore(&manager, &backup.id, Some(&target)).unwrap();
        assert_eq!(world.subvolumes[&target], payload);
    }
}

#[test]
fn failures_keep_their_cause() {
    let m = manager("/store", None);
    // A snapshot that cannot be taken ends the creation with what the tool said.
    let (op, _) = m.begin_backup("/data", None, None, false, None, 1, 2, 3, 0);
    let (_, action) = op.step(CreateEvent::SnapshotTaken(Err("no space left".into())), 1, m.provider());
    match action {
        CreateAction::Finish(Err(BackupError::Snapshot(msg))) => assert_eq!(msg, "no space left"),
        _ => panic!("expected the failure of the snapshot"),
    }
    // A failed upload is reported after the temporary file is removed.
    let (op, action) = m.begin_backup("/data", None, None, false, None, 1, 2, 3, 0);
    let dest = match action {
        CreateAction::TakeSnapshot(plan) => plan.dest,
        _ => panic!("expected a snapshot to be asked for"),
    };
    let taken = Subvolume { path: dest, read_only: true, parent: None, created_at: 0, size: 0 };
    let (op, _) = op.step(CreateEvent::SnapshotTaken(Ok(taken)), 1, m.provider());
    let (op, _) = op.step(CreateEvent::Sent(Ok(())), 1, m.provider());
    let (op, _) = op.step(CreateEvent::Payload(Ok(vec![1, 2, 3])), 1, m.provider());
    let (op, action) = op.step(CreateEvent::Uploaded(Err("bucket is gone".into())), 1, m.provider());
    assert!(matches!(action, CreateAction::RemoveTemp { .. }));
    assert_eq!(op.stage, CreateStage::Failing);
    let (_, action) = op.step(CreateEvent::TempRemoved, 1, m.provider());
    match action {
        CreateAction::Finish(Err(BackupError::Storage(msg))) => assert_eq!(msg, "bucket is gone"),
        _ => panic!("expected the failure of the storage"),
    }
    // A payload that cannot be read.
    let (op, action) = m.begin_backup("/data", None, None, false, None, 1, 2, 3, 0);
    let dest = match action {
        CreateAction::TakeSnapshot(plan) => plan.dest,
        _ => panic!("expected a snapshot to be asked for"),
    };
    let taken = Subvolume { path: dest, read_only: true, parent: None, created_at: 0, size: 0 };
    let (op, _) = op.step(CreateEvent::SnapshotTaken(Ok(taken)), 1, m.provider());
    let (op, _) = op.step(CreateEvent::Sent(Ok(())), 1, m.provider());
    let (op, _) = op.step(CreateEvent::Payload(Err("short read".into())), 1, m.provider());
    let (_, action) = op.step(CreateEvent::TempRemoved, 1, m.provider());
    match action {
        CreateAction::Finish(Err(BackupError::Io(msg))) => assert_eq!(msg, "short read"),
        _ => panic!("expected the failure of the filesystem"),
    }
    // A report that the stage did not wait for.
    let (op, _) = m.begin_backup("/data", None, None, false, None, 1, 2, 3, 0);
    let (_, action) = op.step(CreateEvent::TempRemoved, 1, m.provider());
    match action {
        CreateAction::Finish(Err(BackupError::InvalidArgument(msg))) => {
            assert_eq!(msg, "unexpected event")
        }
        _ => panic!("expected an invalid argument"),
    }

    // Restoring: a record that is absent, and a blob that cannot be fetched.
    let (op, _) = m.restore_backup("abcd", None).unwrap();
    let (_, action) = op.step(RestoreEvent::Metadata(Ok(None)), m.provider());
    match action {
        RestoreAction::Finish(Err(BackupError::NotFound(id))) => assert_eq!(id, "abcd"),
        _ => panic!("expected not found"),
    }
    let (op, _) = m.restore_backup("abcd", None).unwrap();
    let (op, _) = op.step(RestoreEvent::Metadata(Ok(Some(record("abcd", 1)))), m.provider());
    let (_, action) = op.step(RestoreEvent::Blob(Err("timed out".into())), m.provider());
    match action {
        RestoreAction::Finish(Err(BackupError::Storage(msg))) => assert_eq!(msg, "timed out"),
        _ => panic!("expected the failure of the storage"),
    }
    match m.restore_backup("a", None) {
        Err(BackupError::InvalidArgument(msg)) => assert_eq!(msg, "backup id is too short"),
        _ => panic!("expected an invalid argument"),
    }

    // Deleting: a blob that cannot be deleted.
    let (op, _) = m.delete_backup("abcd").unwrap();
    let (op, _) = op.step(DeleteEvent::Metadata(Ok(Some(record("abcd", 1)))));
    let (_, action) = op.step(DeleteEvent::Deleted(Err("access denied".into())));
    match action {
        DeleteAction::Finish(Err(BackupError::Storage(msg))) => assert_eq!(msg, "access denied"),
        _ => panic!("expected the failure of the storage"),
    }
    let (op, _) = m.delete_backup("abcd").unwrap();
    let (_, action) = op.step(DeleteEvent::Metadata(Ok(None)));
    match action {
        DeleteAction::Finish(Err(BackupError::NotFound(id))) => assert_eq!(id, "abcd"),
        _ => panic!("expected not found"),
    }
}

//! The steps of creating, restoring and deleting a backup.
//!
//! Each operation alternates work on the outside (the filesystem tool, the
//! storage backend, files) with decisions.  The decisions are made here: an
//! operation is a value that is told what the last piece of outside work
//! gave, and answers with the next piece of work.  Whoever drives it performs
//! that work and reports back, until the operation answers with its result.

use crate::backup::btrfs::Subvolume;
use crate::backup::encryption::{
    AesGcmEncryption, EncryptionError, EncryptionProvider, NoOpEncryption, seen,
};
use crate::backup::snapshot::{
    first_at_path, opt_snapshot, snapshot_views, Snapshot, SnapshotManager, SnapshotPlan,
    SnapshotView,
};
use crate::backup::{
    blob_path_of, encryption_error, error_of, id_too_short, metadata_path_of, new_record,
    opt_record, Backup, BackupError, BackupView, ErrorKind, ErrorView,
};
use crate::strmap::{text_map, StrMap};
use crate::text::{copy_opt, opt_str, opt_text, own_opt};
use vstd::prelude::*;
use vstd::string::*;

verus! {

/// The encryption provider of a manager: chosen when the manager is made,
/// and kept for its lifetime.
pub enum Provider {
    /// Payloads are stored as they are.
    Plain(NoOpEncryption),
    /// Payloads are sealed.
    Sealed(AesGcmEncryption),
}

impl Provider {
    /// What `encrypt` may make of a payload.
    pub open spec fn seals(&self, plain: Seq<u8>, out: Seq<u8>) -> bool {
        match self {
            Provider::Plain(p) => p.seals(plain, out),
            Provider::Sealed(p) => p.seals(plain, out),
        }
    }

    /// What `decrypt` makes of data.
    pub open spec fn opens(&self, data: Seq<u8>, r: Result<Seq<u8>, EncryptionError>) -> bool {
        match self {
            Provider::Plain(p) => p.opens(data, r),
            Provider::Sealed(p) => p.opens(data, r),
        }
    }

    /// Turns a payload into what is stored.
    pub fn encrypt(&self, data: &[u8]) -> (r: Result<Vec<u8>, EncryptionError>)
        ensures
            r matches Ok(c) ==> self.seals(data@, c@),
            r matches Err(e) ==> e == EncryptionError::RandomSource,
            self is Plain ==> r is Ok,
    {
        match self {
            Provider::Plain(p) => p.encrypt(data),
            Provider::Sealed(p) => p.encrypt(data),
        }
    }

    /// What `decrypt` gives for data.
    pub open spec fn opened(&self, data: Seq<u8>) -> Result<Seq<u8>, EncryptionError> {
        match self {
            Provider::Plain(_) => Ok(data),
            Provider::Sealed(p) => crate::backup::encryption::open_chunks(p.key(), data),
        }
    }

    /// Turns what was stored back into the payload.
    pub fn decrypt(&self, data: &[u8]) -> (r: Result<Vec<u8>, EncryptionError>)
        ensures
            self.opens(data@, seen(r)),
            seen(r) == self.opened(data@),
    {
        match self {
            Provider::Plain(p) => p.decrypt(data),
            Provider::Sealed(p) => p.decrypt(data),
        }
    }
}

/// The round trip of a provider: what it made of a payload, of whatever
/// length, it turns back into that payload.
pub proof fn lemma_provider_round_trip(provider: Provider, payload: Seq<u8>, stored: Seq<u8>)
    requires
        provider.seals(payload, stored),
        provider.opens(stored, provider.opened(stored)),
    ensures
        provider.opened(stored) == Ok::<Seq<u8>, EncryptionError>(payload),
{
    match provider {
        Provider::Plain(_) => {},
        Provider::Sealed(p) => {
            p.lemma_key_size();
            crate::backup::encryption::lemma_decrypt_inverts_encrypt(
                p.key(),
                payload,
                stored,
                provider.opened(stored),
            );
        },
    }
}

/// How far the creation of a backup has come.  Each stage waits for one
/// piece of outside work.
#[derive(Debug, Clone, Copy, PartialEq, Eq, Structural)]
pub enum CreateStage {
    /// The snapshot of the parent backup is looked for.
    ResolvingParent,
    /// The snapshot is being taken.
    Requested,
    /// The snapshot is taken and is being serialized.
    SnapshotTaken,
    /// The snapshot is serialized and the payload is being read.
    Serialized,
    /// The payload is sealed, if it is to be, and is being uploaded.
    Encrypted,
    /// The blob is uploaded and the record is being written.
    Uploaded,
    /// The record is written and the temporary file is being removed.
    MetadataPersisted,
    /// A step failed and the temporary file is being removed.
    Failing,
    /// Nothing is left to do.
    TempCleaned,
}

/// The kinds of outside work in the creation of a backup.
#[derive(Debug, Clone, Copy, PartialEq, Eq, Structural)]
pub enum CreateWork {
    ListSnapshots,
    TakeSnapshot,
    Send,
    ReadPayload,
    Upload,
    PersistMetadata,
    RemoveTemp,
    Finish,
}

/// The stage after a piece of work ended well or badly.  A failure after the
/// temporary file was named leads to its removal; the end is reached only
/// before that file was named or after it was removed.
pub open spec fn create_next(stage: CreateStage, ok: bool) -> CreateStage {
    match stage {
        CreateStage::ResolvingParent => if ok {
            CreateStage::Requested
        } else {
            CreateStage::TempCleaned
        },
        CreateStage::Requested => if ok {
            CreateStage::SnapshotTaken
        } else {
            CreateStage::TempCleaned
        },
        CreateStage::SnapshotTaken => if ok {
            CreateStage::Serialized
        } else {
            CreateStage::Failing
        },
        CreateStage::Serialized => if ok {
            CreateStage::Encrypted
        } else {
            CreateStage::Failing
        },
        CreateStage::Encrypted => if ok {
            CreateStage::Uploaded
        } else {
            CreateStage::Failing
        },
        CreateStage::Uploaded => if ok {
            CreateStage::MetadataPersisted
        } else {
            CreateStage::Failing
        },
        CreateStage::MetadataPersisted => CreateStage::TempCleaned,
        CreateStage::Failing => CreateStage::TempCleaned,
        CreateStage::TempCleaned => CreateStage::TempCleaned,
    }
}

/// The work that a stage waits for.
pub open spec fn create_work(stage: CreateStage) -> CreateWork {
    match stage {
        CreateStage::ResolvingParent => CreateWork::ListSnapshots,
        CreateStage::Requested => CreateWork::TakeSnapshot,
        CreateStage::SnapshotTaken => CreateWork::Send,
        CreateStage::Serialized => CreateWork::ReadPayload,
        CreateStage::Encrypted => CreateWork::Upload,
        CreateStage::Uploaded => CreateWork::PersistMetadata,
        CreateStage::MetadataPersisted => CreateWork::RemoveTemp,
        CreateStage::Failing => CreateWork::RemoveTemp,
        CreateStage::TempCleaned => CreateWork::Finish,
    }
}

/// The stage after a run of pieces of work with the given outcomes.
pub open spec fn create_run(start: CreateStage, outcomes: Seq<bool>) -> CreateStage
    decreases outcomes.len(),
{
    if outcomes.len() == 0 {
        start
    } else {
        create_next(create_run(start, outcomes.drop_last()), outcomes.last())
    }
}

/// True for the stages at which the blob is known to be stored.
pub open spec fn blob_stored(stage: CreateStage) -> bool {
    stage == CreateStage::Uploaded || stage == CreateStage::MetadataPersisted
}

/// The ordering of blob and record: the record is asked for only after the
/// upload of the blob ended well.  So a run that stops between the two
/// leaves a blob without record, never a record without blob.
pub proof fn lemma_record_follows_blob(stage: CreateStage, ok: bool)
    ensures
        create_work(create_next(stage, ok)) == CreateWork::PersistMetadata ==> stage
            == CreateStage::Encrypted && ok,
        create_work(stage) == CreateWork::PersistMetadata ==> blob_stored(stage),
{
}

/// In every run from the start, the record is asked for only after an
/// upload that ended well, and a run that ends after the temporary file was
/// named has asked for its removal in the step before.
pub proof fn lemma_create_run(start: CreateStage, outcomes: Seq<bool>)
    requires
        start == CreateStage::ResolvingParent || start == CreateStage::Requested,
        outcomes.len() > 0,
    ensures
        create_work(create_run(start, outcomes)) == CreateWork::PersistMetadata ==> create_work(
            create_run(start, outcomes.drop_last()),
        ) == CreateWork::Upload && outcomes.last(),
        create_run(start, outcomes) == CreateStage::TempCleaned ==> ({
            let before = create_run(start, outcomes.drop_last());
            ||| create_work(before) == CreateWork::RemoveTemp
            ||| before == CreateStage::TempCleaned
            ||| before == CreateStage::ResolvingParent
            ||| before == CreateStage::Requested
        }),
{
}

/// What the outside reports in the creation of a backup.
pub enum CreateEvent {
    /// The snapshots that exist, or why they could not be listed.
    Snapshots(Result<Vec<Snapshot>, String>),
    /// The snapshot that was taken, as the tool describes it, or why none
    /// was taken.
    SnapshotTaken(Result<Subvolume, String>),
    /// Whether the snapshot was serialized to the temporary file.
    Sent(Result<(), String>),
    /// What the temporary file holds.
    Payload(Result<Vec<u8>, String>),
    /// Whether the blob was stored.
    Uploaded(Result<(), String>),
    /// Whether the record was stored.
    MetadataPersisted(Result<(), String>),
    /// The removal of the temporary file was tried.
    TempRemoved,
}

/// The next piece of outside work in the creation of a backup.
pub enum CreateAction {
    /// List the snapshots that exist.
    ListSnapshots,
    /// Take a snapshot.
    TakeSnapshot(SnapshotPlan),
    /// Serialize the snapshot at `snapshot` to the file `output`; with a
    /// parent, only what differs from the parent.
    Send { snapshot: String, parent: Option<String>, output: String },
    /// Read the file at `path`.
    ReadPayload { path: String },
    /// Store `data` as the object at `path`.
    Upload { path: String, data: Vec<u8> },
    /// Store the record as the object at `path`.
    PersistMetadata { path: String, record: Backup },
    /// Remove the file at `path`; a failure to do so is passed over.
    RemoveTemp { path: String },
    /// The operation is over, with this result.
    Finish(Result<Backup, BackupError>),
}

impl CreateAction {
    /// The kind of work that the action asks for.
    pub open spec fn work(self) -> CreateWork {
        match self {
            CreateAction::ListSnapshots => CreateWork::ListSnapshots,
            CreateAction::TakeSnapshot(_) => CreateWork::TakeSnapshot,
            CreateAction::Send { .. } => CreateWork::Send,
            CreateAction::ReadPayload { .. } => CreateWork::ReadPayload,
            CreateAction::Upload { .. } => CreateWork::Upload,
            CreateAction::PersistMetadata { .. } => CreateWork::PersistMetadata,
            CreateAction::RemoveTemp { .. } => CreateWork::RemoveTemp,
            CreateAction::Finish(_) => CreateWork::Finish,
        }
    }
}

/// The creation of one backup.
pub struct CreateBackup {
    /// How far the creation has come.
    pub stage: CreateStage,
    /// The subvolume that is backed up.
    pub subvolume: String,
    /// The name of the backup.
    pub name: Option<String>,
    /// The description of the backup.
    pub description: Option<String>,
    /// Whether a delta was asked for.
    pub incremental: bool,
    /// The backup that the delta is relative to.
    pub parent: Option<Backup>,
    /// The id of the backup.
    pub backup_id: String,
    /// The id of the snapshot.
    pub snapshot_id: String,
    /// Where the snapshot goes.
    pub snapshot_dest: String,
    /// Whether the snapshot is taken read-only.
    pub read_only: bool,
    /// The attributes of the snapshot.
    pub attributes: StrMap<String>,
    /// The file that the snapshot is serialized to.
    pub temp_file: String,
    /// The snapshot of the parent backup.
    pub parent_snapshot: Option<Snapshot>,
    /// The snapshot that was taken.
    pub snapshot: Option<Snapshot>,
    /// The size of the serialized snapshot.
    pub size: u64,
    /// The record of the backup.
    pub record: Option<Backup>,
    /// Why the creation failed.
    pub failure: Option<BackupError>,
}

/// The error for a report that the stage did not wait for.
pub open spec fn unexpected_event() -> ErrorView {
    error_of(ErrorKind::InvalidArgument, "unexpected event"@)
}

/// The message for a parent backup whose snapshot is gone.
pub open spec fn parent_missing() -> Seq<char> {
    "Parent snapshot not found"@
}

impl CreateBackup {
    /// True when the delta is relative to a parent: a delta was asked for
    /// and a parent was given.
    pub open spec fn is_delta(&self) -> bool {
        self.incremental && self.parent is Some
    }

    /// What stays the same through all steps.
    pub open spec fn same_request(&self, other: &CreateBackup) -> bool {
        &&& self.subvolume@ == other.subvolume@
        &&& opt_text(self.name) == opt_text(other.name)
        &&& opt_text(self.description) == opt_text(other.description)
        &&& self.incremental == other.incremental
        &&& self.parent is Some == other.parent is Some
        &&& (self.parent matches Some(p) ==> other.parent matches Some(q) && p@ == q@)
        &&& self.backup_id@ == other.backup_id@
        &&& self.snapshot_id@ == other.snapshot_id@
        &&& self.snapshot_dest@ == other.snapshot_dest@
        &&& self.read_only == other.read_only
        &&& text_map(self.attributes@) == text_map(other.attributes@)
        &&& self.temp_file@ == other.temp_file@
    }

    /// The snapshot of the parent backup is the first one of the listing
    /// that lies where the record of the parent says.
    pub open spec fn parent_found(&self, list: Seq<SnapshotView>) -> Option<SnapshotView> {
        match self.parent {
            Some(p) => match p.snapshot_path {
                Some(path) => if first_at_path(list, path@) < list.len() {
                    Some(list[first_at_path(list, path@)])
                } else {
                    None
                },
                None => None,
            },
            None => None,
        }
    }

    /// True when the report is the one that the stage waits for and says
    /// that the work ended well.  Nothing is stored for a backup whose id is
    /// too short to have a shard.
    pub open spec fn welcomes(&self, event: CreateEvent) -> bool {
        match self.stage {
            CreateStage::ResolvingParent => event matches CreateEvent::Snapshots(Ok(list))
                && self.parent_found(snapshot_views(list@)) is Some,
            CreateStage::Requested => event matches CreateEvent::SnapshotTaken(Ok(_)),
            CreateStage::SnapshotTaken => event matches CreateEvent::Sent(Ok(_)),
            CreateStage::Serialized => event matches CreateEvent::Payload(Ok(_))
                && self.backup_id@.len() >= 2,
            CreateStage::Encrypted => event matches CreateEvent::Uploaded(Ok(_))
                && self.backup_id@.len() >= 2,
            CreateStage::Uploaded => event matches CreateEvent::MetadataPersisted(Ok(_)),
            CreateStage::MetadataPersisted => true,
            CreateStage::Failing => true,
            CreateStage::TempCleaned => true,
        }
    }

    /// The error that a report leads to where the creation fails on it.
    /// A failed listing, snapshot or serialization is a failure of the
    /// snapshot with the message of the report, as is a parent without
    /// snapshot; a payload that cannot be read is a failure of the
    /// filesystem, a failed upload of blob or record one of the storage, each
    /// with the message of the report; a payload that cannot be sealed is a
    /// failure of the encryption; blob or record of an id without shard
    /// cannot be addressed; a report that the stage did not wait for is an
    /// invalid argument.
    pub open spec fn failure_of(&self, event: CreateEvent) -> ErrorView {
        match self.stage {
            CreateStage::ResolvingParent => match event {
                CreateEvent::Snapshots(Ok(_)) => error_of(ErrorKind::Snapshot, parent_missing()),
                CreateEvent::Snapshots(Err(m)) => error_of(ErrorKind::Snapshot, m@),
                _ => unexpected_event(),
            },
            CreateStage::Requested => match event {
                CreateEvent::SnapshotTaken(Err(m)) => error_of(ErrorKind::Snapshot, m@),
                _ => unexpected_event(),
            },
            CreateStage::SnapshotTaken => match event {
                CreateEvent::Sent(Err(m)) => error_of(ErrorKind::Snapshot, m@),
                _ => unexpected_event(),
            },
            CreateStage::Serialized => match event {
                CreateEvent::Payload(Ok(_)) => if self.backup_id@.len() < 2 {
                    id_too_short()
                } else {
                    encryption_error(EncryptionError::RandomSource)
                },
                CreateEvent::Payload(Err(m)) => error_of(ErrorKind::Io, m@),
                _ => unexpected_event(),
            },
            CreateStage::Encrypted => match event {
                CreateEvent::Uploaded(Ok(_)) => id_too_short(),
                CreateEvent::Uploaded(Err(m)) => error_of(ErrorKind::Storage, m@),
                _ => unexpected_event(),
            },
            CreateStage::Uploaded => match event {
                CreateEvent::MetadataPersisted(Err(m)) => error_of(ErrorKind::Storage, m@),
                _ => unexpected_event(),
            },
            _ => unexpected_event(),
        }
    }

    /// The record of the snapshot of this backup that the tool describes
    /// as `taken`: it lies where the tool put it, flag, time and size are
    /// what the tool reports, and its parent is the snapshot of the parent
    /// backup.
    pub open spec fn snapshot_of(&self, taken: Subvolume) -> SnapshotView {
        SnapshotView {
            id: self.snapshot_id@,
            subvolume: self.subvolume@,
            path: taken.path@,
            read_only: taken.read_only,
            parent_id: match self.parent_snapshot {
                Some(p) => Some(p.id@),
                None => None,
            },
            created_at: taken.created_at,
            size: taken.size,
            metadata: text_map(self.attributes@),
        }
    }

    /// The record that the backup gets when its blob is stored at `now`.
    pub open spec fn record_at(&self, now: i64) -> BackupView {
        new_record(
            self.backup_id@,
            opt_text(self.name),
            opt_text(self.description),
            self.subvolume@,
            match self.snapshot {
                Some(s) => s.path@,
                None => Seq::empty(),
            },
            self.size,
            now,
            match self.snapshot {
                Some(s) => text_map(s.metadata@),
                None => Map::empty(),
            },
            self.incremental,
            match self.parent {
                Some(p) => Some(p.id@),
                None => None,
            },
        )
    }

    /// What a step does: `next` and `action` are what the operation `self`
    /// makes of the report `event` at the time `now`, with the provider
    /// `provider`.
    pub open spec fn stepped(
        &self,
        event: CreateEvent,
        now: i64,
        provider: Provider,
        next: CreateBackup,
        action: CreateAction,
    ) -> bool {
        &&& self.same_request(&next)
        &&& action.work() == create_work(next.stage)
        &&& !self.welcomes(event) ==> next.stage == create_next(self.stage, false)
        &&& self.welcomes(event) && self.stage != CreateStage::Serialized ==> next.stage
            == create_next(self.stage, true)
        &&& self.welcomes(event) && self.stage == CreateStage::Serialized ==> (next.stage
            == create_next(self.stage, true) || (next.stage == create_next(self.stage, false)
            && provider is Sealed))
        &&& action matches CreateAction::TakeSnapshot(plan) ==> {
            &&& event matches CreateEvent::Snapshots(Ok(list))
            &&& self.parent_found(snapshot_views(list@)) matches Some(s)
            &&& plan.source@ == self.subvolume@
            &&& plan.dest@ == self.snapshot_dest@
            &&& plan.read_only == self.read_only
            &&& opt_snapshot(next.parent_snapshot) == Some(s)
        }
        &&& action !is TakeSnapshot ==> opt_snapshot(next.parent_snapshot) == opt_snapshot(
            self.parent_snapshot,
        )
        &&& action matches CreateAction::Send { snapshot, parent, output } ==> {
            &&& event matches CreateEvent::SnapshotTaken(Ok(taken))
            &&& snapshot@ == taken.path@
            &&& output@ == self.temp_file@
            &&& opt_text(parent) == (match self.parent_snapshot {
                Some(p) => Some(p.path@),
                None => None,
            })
            &&& opt_snapshot(next.snapshot) == Some(self.snapshot_of(taken))
        }
        &&& action !is Send ==> opt_snapshot(next.snapshot) == opt_snapshot(self.snapshot)
        &&& action matches CreateAction::ReadPayload { path } ==> path@ == self.temp_file@
        &&& action matches CreateAction::Upload { path, data } ==> {
            &&& event matches CreateEvent::Payload(Ok(payload))
            &&& path@ == blob_path_of(self.backup_id@)
            &&& provider.seals(payload@, data@)
            &&& next.size == payload@.len()
        }
        &&& action !is Upload ==> next.size == self.size
        &&& action matches CreateAction::PersistMetadata { path, record } ==> {
            &&& path@ == metadata_path_of(self.backup_id@)
            &&& record@ == self.record_at(now)
            &&& opt_record(next.record) == Some(record@)
            &&& record@.is_incremental() == self.is_delta()
        }
        &&& action !is PersistMetadata ==> opt_record(next.record) == opt_record(self.record)
        &&& self.stage != CreateStage::Failing && next.stage != CreateStage::Failing
            ==> next.failure == self.failure
        &&& action matches CreateAction::RemoveTemp { path } ==> path@ == self.temp_file@
        &&& action matches CreateAction::Finish(Ok(b)) ==> {
            &&& self.stage == CreateStage::MetadataPersisted
            &&& self.record matches Some(kept)
            &&& b@ == kept@
        }
        &&& action matches CreateAction::Finish(Err(e)) ==> self.stage
            != CreateStage::MetadataPersisted || self.record is None
        &&& self.stage == CreateStage::Failing ==> (self.failure matches Some(f) ==> action
            == CreateAction::Finish(Err(f)))
        &&& (self.stage == CreateStage::TempCleaned || (self.stage == CreateStage::Failing
            && self.failure is None) || (self.stage == CreateStage::MetadataPersisted
            && self.record is None)) ==> (action matches CreateAction::Finish(Err(e)) && e@
            == unexpected_event())
        &&& self.stage == CreateStage::ResolvingParent ==> (event matches CreateEvent::Snapshots(
            Ok(list),
        ) ==> (self.parent_found(snapshot_views(list@)) is None ==> (
        action matches CreateAction::Finish(Err(BackupError::Snapshot(m))) && m@
            == parent_missing())))
        &&& next.stage == CreateStage::Failing ==> (next.failure matches Some(f) && f@
            == self.failure_of(event))
        &&& next.stage == CreateStage::TempCleaned && (self.stage == CreateStage::ResolvingParent
            || self.stage == CreateStage::Requested) ==> (action matches CreateAction::Finish(
            Err(e),
        ) && e@ == self.failure_of(event))
    }

    /// Begins the creation of a backup of `subvolume`.  The ids and the file
    /// for the serialized snapshot are named here; the first piece of work is
    /// to find the snapshot of the parent, where the delta is relative to
    /// one, and else to take the snapshot.
    pub fn start(
        subvolume: &str,
        name: Option<&str>,
        description: Option<&str>,
        incremental: bool,
        parent: Option<&Backup>,
        backup_id: String,
        snapshot_id: String,
        plan: SnapshotPlan,
        attributes: StrMap<String>,
        temp_file: String,
    ) -> (r: (CreateBackup, CreateAction))
        ensures
            r.0.stage == (if incremental && parent is Some {
                CreateStage::ResolvingParent
            } else {
                CreateStage::Requested
            }),
            r.1.work() == create_work(r.0.stage),
            r.0.subvolume@ == subvolume@,
            opt_text(r.0.name) == opt_str(name),
            opt_text(r.0.description) == opt_str(description),
            r.0.incremental == incremental,
            r.0.parent is Some == parent is Some,
            parent matches Some(p) ==> r.0.parent matches Some(q) && q@ == p@,
            r.0.backup_id@ == backup_id@,
            r.0.snapshot_id@ == snapshot_id@,
            r.0.snapshot_dest@ == plan.dest@,
            r.0.read_only == plan.read_only,
            text_map(r.0.attributes@) == text_map(attributes@),
            r.0.temp_file@ == temp_file@,
            r.0.record is None,
            r.0.snapshot is None,
            r.0.parent_snapshot is None,
            r.0.size == 0,
            r.0.failure is None,
            r.1 matches CreateAction::TakeSnapshot(p) ==> p.source@ == plan.source@ && p.dest@
                == plan.dest@ && p.read_only == plan.read_only,
    {
        let wants_parent = incremental && parent.is_some();
        let machine = CreateBackup {
            stage: if wants_parent {
                CreateStage::ResolvingParent
            } else {
                CreateStage::Requested
            },
            subvolume: String::from_str(subvolume),
            name: own_opt(name),
            description: own_opt(description),
            incremental,
            parent: match parent {
                Some(p) => Some(p.copy()),
                None => None,
            },
            backup_id,
            snapshot_id,
            snapshot_dest: plan.dest.clone(),
            read_only: plan.read_only,
            attributes,
            temp_file,
            parent_snapshot: None,
            snapshot: None,
            size: 0,
            record: None,
            failure: None,
        };
        let action = if wants_parent {
            CreateAction::ListSnapshots
        } else {
            CreateAction::TakeSnapshot(plan)
        };
        (machine, action)
    }

    /// Ends the operation with a failure, after the temporary file is
    /// removed where it was named.
    fn fail(self, error: BackupError) -> (r: (CreateBackup, CreateAction))
        requires
            self.stage != CreateStage::MetadataPersisted,
            self.stage != CreateStage::Failing,
            self.stage != CreateStage::TempCleaned,
        ensures
            self.same_request(&r.0),
            r.0.stage == create_next(self.stage, false),
            r.1.work() == create_work(r.0.stage),
            r.1 matches CreateAction::RemoveTemp { path } ==> path@ == self.temp_file@,
            r.1 !is TakeSnapshot,
            r.1 !is Send,
            r.1 !is ReadPayload,
            r.1 !is Upload,
            r.1 !is PersistMetadata,
            r.1 !is ListSnapshots,
            r.1 matches CreateAction::Finish(x) ==> x == Err::<Backup, BackupError>(error),
            r.0.stage == CreateStage::Failing ==> r.0.failure == Some(error),
            r.0.stage != CreateStage::Failing ==> r.0.failure == self.failure,
            r.0.snapshot == self.snapshot,
            r.0.parent_snapshot == self.parent_snapshot,
            r.0.size == self.size,
            r.0.record == self.record,
    {
        let mut m = self;
        match m.stage {
            CreateStage::ResolvingParent | CreateStage::Requested => {
                m.stage = CreateStage::TempCleaned;
                (m, CreateAction::Finish(Err(error)))
            },
            _ => {
                m.stage = CreateStage::Failing;
                m.failure = Some(error);
                let path = m.temp_file.clone();
                (m, CreateAction::RemoveTemp { path })
            },
        }
    }

    /// Tells the operation what the outside reports and asks for the next
    /// piece of work.  `now` is the time of the report; it becomes the time
    /// of the backup when the blob is stored.
    pub fn step(self, event: CreateEvent, now: i64, provider: &Provider) -> (r: (
        CreateBackup,
        CreateAction,
    ))
        ensures
            self.stepped(event, now, *provider, r.0, r.1),
    {
        match self.stage {
            CreateStage::ResolvingParent => match event {
                CreateEvent::Snapshots(Ok(list)) => {
                    let path = match &self.parent {
                        Some(p) => copy_opt(&p.snapshot_path),
                        None => None,
                    };
                    let found = match &path {
                        Some(p) => SnapshotManager::find_by_path(&list, p.as_str()),
                        None => None,
                    };
                    match found {
                        Some(s) => {
                            let plan = SnapshotPlan {
                                source: self.subvolume.clone(),
                                dest: self.snapshot_dest.clone(),
                                read_only: self.read_only,
                            };
                            let mut m = self;
                            m.parent_snapshot = Some(s.copy());
                            m.stage = CreateStage::Requested;
                            (m, CreateAction::TakeSnapshot(plan))
                        },
                        None => self.fail(
                            BackupError::Snapshot(String::from_str("Parent snapshot not found")),
                        ),
                    }
                },
                CreateEvent::Snapshots(Err(msg)) => self.fail(BackupError::Snapshot(msg)),
                _ => self.fail(BackupError::InvalidArgument(String::from_str("unexpected event"))),
            },
            CreateStage::Requested => match event {
                CreateEvent::SnapshotTaken(Ok(taken)) => {
                    let mut m = self;
                    let copy = m.attributes.copy();
                    let snapshot = Snapshot::create(
                        m.snapshot_id.clone(),
                        m.subvolume.as_str(),
                        &taken,
                        match &m.parent_snapshot {
                            Some(p) => Some(p),
                            None => None,
                        },
                        copy,
                    );
                    let action = CreateAction::Send {
                        snapshot: taken.path.clone(),
                        parent: match &m.parent_snapshot {
                            Some(p) => Some(p.path.clone()),
                            None => None,
                        },
                        output: m.temp_file.clone(),
                    };
                    m.snapshot = Some(snapshot);
                    m.stage = CreateStage::SnapshotTaken;
                    (m, action)
                },
                CreateEvent::SnapshotTaken(Err(msg)) => self.fail(BackupError::Snapshot(msg)),
                _ => self.fail(BackupError::InvalidArgument(String::from_str("unexpected event"))),
            },
            CreateStage::SnapshotTaken => match event {
                CreateEvent::Sent(Ok(())) => {
                    let mut m = self;
                    m.stage = CreateStage::Serialized;
                    let path = m.temp_file.clone();
                    (m, CreateAction::ReadPayload { path })
                },
                CreateEvent::Sent(Err(msg)) => self.fail(BackupError::Snapshot(msg)),
                _ => self.fail(BackupError::InvalidArgument(String::from_str("unexpected event"))),
            },
            CreateStage::Serialized => match event {
                CreateEvent::Payload(Ok(payload)) => {
                    let path = match crate::backup::blob_path(self.backup_id.as_str()) {
                        Ok(p) => p,
                        Err(e) => {
                            return self.fail(e);
                        },
                    };
                    match provider.encrypt(payload.as_slice()) {
                        Ok(data) => {
                            let mut m = self;
                            m.size = payload.len() as u64;
                            m.stage = CreateStage::Encrypted;
                            (m, CreateAction::Upload { path, data })
                        },
                        Err(e) => self.fail(BackupError::Encryption(e)),
                    }
                },
                CreateEvent::Payload(Err(msg)) => self.fail(BackupError::Io(msg)),
                _ => self.fail(BackupError::InvalidArgument(String::from_str("unexpected event"))),
            },
            CreateStage::Encrypted => match event {
                CreateEvent::Uploaded(Ok(())) => {
                    let path = match crate::backup::metadata_path(self.backup_id.as_str()) {
                        Ok(p) => p,
                        Err(e) => {
                            return self.fail(e);
                        },
                    };
                    let (snapshot_path, attributes) = match &self.snapshot {
                        Some(s) => (s.path.clone(), s.metadata.copy()),
                        None => (String::new(), StrMap::new()),
                    };
                    proof {
                        if self.snapshot is None {
                            assert(text_map(attributes@) =~= Map::<
                                Seq<char>,
                                Seq<char>,
                            >::empty());
                        }
                    }
                    let record = Backup::new(
                        self.backup_id.clone(),
                        match &self.name {
                            Some(n) => Some(n.as_str()),
                            None => None,
                        },
                        match &self.description {
                            Some(d) => Some(d.as_str()),
                            None => None,
                        },
                        self.subvolume.as_str(),
                        snapshot_path.as_str(),
                        self.size,
                        now,
                        attributes,
                        self.incremental,
                        match &self.parent {
                            Some(p) => Some(p),
                            None => None,
                        },
                    );
                    let kept = record.copy();
                    let mut m = self;
                    m.record = Some(kept);
                    m.stage = CreateStage::Uploaded;
                    (m, CreateAction::PersistMetadata { path, record })
                },
                CreateEvent::Uploaded(Err(msg)) => self.fail(BackupError::Storage(msg)),
                _ => self.fail(BackupError::InvalidArgument(String::from_str("unexpected event"))),
            },
            CreateStage::Uploaded => match event {
                CreateEvent::MetadataPersisted(Ok(())) => {
                    let mut m = self;
                    m.stage = CreateStage::MetadataPersisted;
                    let path = m.temp_file.clone();
                    (m, CreateAction::RemoveTemp { path })
                },
                CreateEvent::MetadataPersisted(Err(msg)) => self.fail(BackupError::Storage(msg)),
                _ => self.fail(BackupError::InvalidArgument(String::from_str("unexpected event"))),
            },
            CreateStage::MetadataPersisted => {
                let mut m = self;
                m.stage = CreateStage::TempCleaned;
                let mut record: Option<Backup> = None;
                core::mem::swap(&mut record, &mut m.record);
                match record {
                    Some(b) => {
                        let out = b.copy();
                        m.record = Some(b);
                        (m, CreateAction::Finish(Ok(out)))
                    },
                    None => (
                        m,
                        CreateAction::Finish(
                            Err(BackupError::InvalidArgument(String::from_str("unexpected event"))),
                        ),
                    ),
                }
            },
            CreateStage::Failing => {
                let mut m = self;
                m.stage = CreateStage::TempCleaned;
                let mut failure: Option<BackupError> = None;
                core::mem::swap(&mut failure, &mut m.failure);
                let error = match failure {
                    Some(e) => e,
                    None => BackupError::InvalidArgument(String::from_str("unexpected event")),
                };
                (m, CreateAction::Finish(Err(error)))
            },
            CreateStage::TempCleaned => {
                let m = self;
                (
                    m,
                    CreateAction::Finish(
                        Err(BackupError::InvalidArgument(String::from_str("unexpected event"))),
                    ),
                )
            },
        }
    }
}

/// The backup that a creation ends with is the record that was written:
/// when a step asks for the record to be stored, and the two steps after it
/// end the creation well, the backup that is handed out is that record.  It
/// is incremental exactly when a delta relative to a parent was asked for,
/// and it then names that parent.
pub proof fn lemma_finished_backup_is_the_written_record(
    provider: Provider,
    at_upload: CreateBackup,
    uploaded: CreateEvent,
    now: i64,
    at_record: CreateBackup,
    write: CreateAction,
    written: CreateEvent,
    later: i64,
    at_cleanup: CreateBackup,
    cleanup: CreateAction,
    cleaned: CreateEvent,
    last: i64,
    done: CreateBackup,
    finish: CreateAction,
)
    requires
        at_upload.stepped(uploaded, now, provider, at_record, write),
        write is PersistMetadata,
        at_record.stepped(written, later, provider, at_cleanup, cleanup),
        at_cleanup.stepped(cleaned, last, provider, done, finish),
        finish matches CreateAction::Finish(Ok(_)),
    ensures
        finish matches CreateAction::Finish(Ok(b)) ==> (write matches CreateAction::PersistMetadata {
            record,
            ..
        } ==> b@ == record@),
        finish matches CreateAction::Finish(Ok(b)) ==> b@ == at_upload.record_at(now),
        finish matches CreateAction::Finish(Ok(b)) ==> b@.is_incremental() == at_upload.is_delta(),
        finish matches CreateAction::Finish(Ok(b)) ==> b@.parent_id == (match at_upload.parent {
            Some(p) if at_upload.incremental => Some(p.id@),
            _ => None,
        }),
{
    assert(at_record.stage == CreateStage::Uploaded);
    assert(cleanup.work() == CreateWork::RemoveTemp);
    assert(opt_record(at_cleanup.record) == opt_record(at_record.record));
}

/// How far the restoring of a backup has come.
#[derive(Debug, Clone, Copy, PartialEq, Eq, Structural)]
pub enum RestoreStage {
    /// The record is being fetched.
    Requested,
    /// The record is there and the blob is being downloaded.
    MetadataFetched,
    /// The payload is opened and is being written to the temporary file.
    Downloaded,
    /// The temporary file is written and is being received.
    Staged,
    /// The subvolume is rebuilt and the temporary file is being removed.
    Received,
    /// A step failed and the temporary file is being removed.
    Failing,
    /// Nothing is left to do.
    TempCleaned,
}

/// The kinds of outside work in the restoring of a backup.
#[derive(Debug, Clone, Copy, PartialEq, Eq, Structural)]
pub enum RestoreWork {
    FetchMetadata,
    Download,
    WriteTemp,
    Receive,
    RemoveTemp,
    Finish,
}

/// The stage after a piece of work ended well or badly.  Once the temporary
/// file is named, every way to the end leads over its removal.
pub open spec fn restore_next(stage: RestoreStage, ok: bool) -> RestoreStage {
    match stage {
        RestoreStage::Requested => if ok {
            RestoreStage::MetadataFetched
        } else {
            RestoreStage::TempCleaned
        },
        RestoreStage::MetadataFetched => if ok {
            RestoreStage::Downloaded
        } else {
            RestoreStage::TempCleaned
        },
        RestoreStage::Downloaded => if ok {
            RestoreStage::Staged
        } else {
            RestoreStage::Failing
        },
        RestoreStage::Staged => if ok {
            RestoreStage::Received
        } else {
            RestoreStage::Failing
        },
        RestoreStage::Received => RestoreStage::TempCleaned,
        RestoreStage::Failing => RestoreStage::TempCleaned,
        RestoreStage::TempCleaned => RestoreStage::TempCleaned,
    }
}

/// The work that a stage waits for.
pub open spec fn restore_work(stage: RestoreStage) -> RestoreWork {
    match stage {
        RestoreStage::Requested => RestoreWork::FetchMetadata,
        RestoreStage::MetadataFetched => RestoreWork::Download,
        RestoreStage::Downloaded => RestoreWork::WriteTemp,
        RestoreStage::Staged => RestoreWork::Receive,
        RestoreStage::Received => RestoreWork::RemoveTemp,
        RestoreStage::Failing => RestoreWork::RemoveTemp,
        RestoreStage::TempCleaned => RestoreWork::Finish,
    }
}

/// After the temporary file was named, the end is reached only over its
/// removal, whether the steps before ended well or not.
pub proof fn lemma_restore_cleans(stage: RestoreStage, ok: bool)
    ensures
        restore_work(stage) == RestoreWork::WriteTemp || restore_work(stage)
            == RestoreWork::Receive ==> restore_work(restore_next(stage, ok))
            != RestoreWork::Finish,
        restore_work(stage) == RestoreWork::WriteTemp || restore_work(stage)
            == RestoreWork::Receive ==> restore_work(
            restore_next(restore_next(stage, ok), true),
        ) == RestoreWork::RemoveTemp || restore_work(restore_next(stage, ok))
            == RestoreWork::RemoveTemp,
{
}

/// What the outside reports in the restoring of a backup.
pub enum RestoreEvent {
    /// The record, `None` where the object is absent or is no record, or why
    /// it could not be fetched.
    Metadata(Result<Option<Backup>, String>),
    /// What the blob holds.
    Blob(Result<Vec<u8>, String>),
    /// Whether the temporary file was written.
    TempWritten(Result<(), String>),
    /// Whether the subvolume was rebuilt.
    Received(Result<(), String>),
    /// The removal of the temporary file was tried.
    TempRemoved,
}

/// The next piece of outside work in the restoring of a backup.
pub enum RestoreAction {
    /// Fetch the object at `path` and read it as a record.
    FetchMetadata { path: String },
    /// Fetch the object at `path`.
    Download { path: String },
    /// Write `data` to the file at `path`.
    WriteTemp { path: String, data: Vec<u8> },
    /// Rebuild a subvolume at `dest` from the stream in the file `input`.
    Receive { input: String, dest: String },
    /// Remove the file at `path`; a failure to do so is passed over.
    RemoveTemp { path: String },
    /// The operation is over, with this result.
    Finish(Result<(), BackupError>),
}

impl RestoreAction {
    /// The kind of work that the action asks for.
    pub open spec fn work(self) -> RestoreWork {
        match self {
            RestoreAction::FetchMetadata { .. } => RestoreWork::FetchMetadata,
            RestoreAction::Download { .. } => RestoreWork::Download,
            RestoreAction::WriteTemp { .. } => RestoreWork::WriteTemp,
            RestoreAction::Receive { .. } => RestoreWork::Receive,
            RestoreAction::RemoveTemp { .. } => RestoreWork::RemoveTemp,
            RestoreAction::Finish(_) => RestoreWork::Finish,
        }
    }
}

/// The restoring of one backup.
pub struct RestoreBackup {
    /// How far the restoring has come.
    pub stage: RestoreStage,
    /// The id of the backup.
    pub backup_id: String,
    /// Where the caller wants the subvolume.
    pub target: Option<String>,
    /// The file that the payload is written to.
    pub temp_file: String,
    /// Where the subvolume goes.
    pub dest: Option<String>,
    /// Why the restoring failed.
    pub failure: Option<BackupError>,
}

/// The name of the temporary file of a restore.
pub open spec fn restore_file_name(id: Seq<char>) -> Seq<char> {
    "restore-"@ + id + ".btrfs"@
}

impl RestoreBackup {
    /// What stays the same through all steps.
    pub open spec fn same_request(&self, other: &RestoreBackup) -> bool {
        &&& self.backup_id@ == other.backup_id@
        &&& opt_text(self.target) == opt_text(other.target)
        &&& self.temp_file@ == other.temp_file@
    }

    /// The error that a report leads to where the restoring fails on it.
    /// A record that is absent means that the backup is not found, under its
    /// id; a record or blob that cannot be fetched is a failure of the
    /// storage, a temporary file that cannot be written one of the
    /// filesystem, a stream that is not received one of the snapshot, each
    /// with the message of the report; a blob that does not open is the
    /// failure of the encryption that opening it gives; a report that the
    /// stage did not wait for is an invalid argument.
    pub open spec fn failure_of(&self, event: RestoreEvent, provider: Provider) -> ErrorView {
        match self.stage {
            RestoreStage::Requested => match event {
                RestoreEvent::Metadata(Ok(Some(_))) => id_too_short(),
                RestoreEvent::Metadata(Ok(None)) => error_of(
                    ErrorKind::NotFound,
                    self.backup_id@,
                ),
                RestoreEvent::Metadata(Err(m)) => error_of(ErrorKind::Storage, m@),
                _ => unexpected_event(),
            },
            RestoreStage::MetadataFetched => match event {
                RestoreEvent::Blob(Ok(data)) => match provider.opened(data@) {
                    Err(e) => encryption_error(e),
                    Ok(_) => unexpected_event(),
                },
                RestoreEvent::Blob(Err(m)) => error_of(ErrorKind::Storage, m@),
                _ => unexpected_event(),
            },
            RestoreStage::Downloaded => match event {
                RestoreEvent::TempWritten(Err(m)) => error_of(ErrorKind::Io, m@),
                _ => unexpected_event(),
            },
            RestoreStage::Staged => match event {
                RestoreEvent::Received(Err(m)) => error_of(ErrorKind::Snapshot, m@),
                _ => unexpected_event(),
            },
            _ => unexpected_event(),
        }
    }

    /// True when the report is the one that the stage waits for and says
    /// that the work ended well.
    pub open spec fn welcomes(&self, event: RestoreEvent, provider: Provider) -> bool {
        match self.stage {
            RestoreStage::Requested => event matches RestoreEvent::Metadata(Ok(Some(_)))
                && self.backup_id@.len() >= 2,
            RestoreStage::MetadataFetched => event matches RestoreEvent::Blob(Ok(data))
                && provider.opened(data@) is Ok,
            RestoreStage::Downloaded => event matches RestoreEvent::TempWritten(Ok(_))
                && self.dest is Some,
            RestoreStage::Staged => event matches RestoreEvent::Received(Ok(_)),
            RestoreStage::Received => true,
            RestoreStage::Failing => true,
            RestoreStage::TempCleaned => true,
        }
    }

    /// What a step does: `next` and `action` are what the operation `self`
    /// makes of the report `event` with the provider `provider`.
    pub open spec fn stepped(
        &self,
        event: RestoreEvent,
        provider: Provider,
        next: RestoreBackup,
        action: RestoreAction,
    ) -> bool {
        &&& self.same_request(&next)
        &&& action.work() == restore_work(next.stage)
        &&& next.stage == restore_next(self.stage, self.welcomes(event, provider))
        &&& action matches RestoreAction::Download { path } ==> {
            &&& event matches RestoreEvent::Metadata(Ok(Some(b)))
            &&& path@ == blob_path_of(self.backup_id@)
            &&& opt_text(next.dest) == Some(
                match self.target {
                    Some(t) => t@,
                    None => b.subvolume_path@,
                },
            )
        }
        &&& action matches RestoreAction::WriteTemp { path, data } ==> {
            &&& event matches RestoreEvent::Blob(Ok(blob))
            &&& path@ == self.temp_file@
            &&& provider.opened(blob@) == Ok::<Seq<u8>, EncryptionError>(data@)
            &&& opt_text(next.dest) == opt_text(self.dest)
        }
        &&& action matches RestoreAction::Receive { input, dest } ==> {
            &&& input@ == self.temp_file@
            &&& opt_text(self.dest) == Some(dest@)
        }
        &&& action matches RestoreAction::RemoveTemp { path } ==> path@ == self.temp_file@
        &&& action matches RestoreAction::Finish(Ok(_)) ==> self.stage == RestoreStage::Received
        &&& action matches RestoreAction::Finish(Err(e)) ==> {
            &&& self.stage != RestoreStage::Received
            &&& (self.stage == RestoreStage::Requested || self.stage
                == RestoreStage::MetadataFetched ==> e@ == self.failure_of(event, provider))
            &&& (self.stage == RestoreStage::Failing ==> (self.failure matches Some(f) ==> e == f))
            &&& (self.stage == RestoreStage::TempCleaned || (self.stage == RestoreStage::Failing
                && self.failure is None) ==> e@ == unexpected_event())
        }
        &&& next.stage == RestoreStage::Failing ==> (next.failure matches Some(f) && f@
            == self.failure_of(event, provider))
        &&& self.stage == RestoreStage::MetadataFetched ==> (event matches RestoreEvent::Blob(
            Ok(data),
        ) ==> provider.opens(data@, provider.opened(data@)))
        &&& action !is Download ==> opt_text(next.dest) == opt_text(self.dest)
        &&& self.stage != RestoreStage::Failing && next.stage != RestoreStage::Failing
            ==> next.failure == self.failure
        &&& action !is FetchMetadata
    }

    /// Begins the restoring of the backup with the given id: to `target`
    /// where one is given, else to where the subvolume was.  The first piece
    /// of work is to fetch the record.  An id without shard is refused.
    pub fn start(backup_id: &str, target: Option<&str>, temp_dir: &str) -> (r: Result<
        (RestoreBackup, RestoreAction),
        BackupError,
    >)
        ensures
            match r {
                Ok((m, a)) => {
                    &&& backup_id@.len() >= 2
                    &&& m.stage == RestoreStage::Requested
                    &&& m.backup_id@ == backup_id@
                    &&& opt_text(m.target) == opt_str(target)
                    &&& m.temp_file@ == crate::paths::joined(
                        temp_dir@,
                        restore_file_name(backup_id@),
                    )
                    &&& a matches RestoreAction::FetchMetadata { path } && path@
                        == metadata_path_of(backup_id@)
                },
                Err(e) => backup_id@.len() < 2 && e@ == id_too_short(),
            },
    {
        let path = match crate::backup::metadata_path(backup_id) {
            Ok(p) => p,
            Err(e) => {
                return Err(e);
            },
        };
        let mut name = String::from_str("restore-");
        name.append(backup_id);
        name.append(".btrfs");
        let m = RestoreBackup {
            stage: RestoreStage::Requested,
            backup_id: String::from_str(backup_id),
            target: own_opt(target),
            temp_file: crate::paths::join(temp_dir, name.as_str()),
            dest: None,
            failure: None,
        };
        Ok((m, RestoreAction::FetchMetadata { path }))
    }

    /// Ends the operation with a failure, after the temporary file is
    /// removed where it was named.
    fn fail(self, error: BackupError) -> (r: (RestoreBackup, RestoreAction))
        requires
            self.stage != RestoreStage::Received,
            self.stage != RestoreStage::Failing,
            self.stage != RestoreStage::TempCleaned,
        ensures
            self.same_request(&r.0),
            r.0.stage == restore_next(self.stage, false),
            r.1.work() == restore_work(r.0.stage),
            r.1 matches RestoreAction::RemoveTemp { path } ==> path@ == self.temp_file@,
            r.1 matches RestoreAction::Finish(x) ==> x == Err::<(), BackupError>(error),
            r.0.stage == RestoreStage::Failing ==> r.0.failure == Some(error),
            r.0.stage != RestoreStage::Failing ==> r.0.failure == self.failure,
            r.0.dest == self.dest,
            r.1 !is Download,
    {
        let mut m = self;
        match m.stage {
            RestoreStage::Requested | RestoreStage::MetadataFetched => {
                m.stage = RestoreStage::TempCleaned;
                (m, RestoreAction::Finish(Err(error)))
            },
            _ => {
                m.stage = RestoreStage::Failing;
                m.failure = Some(error);
                let path = m.temp_file.clone();
                (m, RestoreAction::RemoveTemp { path })
            },
        }
    }

    /// Tells the operation what the outside reports and asks for the next
    /// piece of work.
    pub fn step(self, event: RestoreEvent, provider: &Provider) -> (r: (
        RestoreBackup,
        RestoreAction,
    ))
        ensures
            self.stepped(event, *provider, r.0, r.1),
    {
        match self.stage {
            RestoreStage::Requested => match event {
                RestoreEvent::Metadata(Ok(Some(backup))) => {
                    let path = match crate::backup::blob_path(self.backup_id.as_str()) {
                        Ok(p) => p,
                        Err(e) => {
                            return self.fail(e);
                        },
                    };
                    let mut m = self;
                    m.dest = match &m.target {
                        Some(t) => Some(t.clone()),
                        None => Some(backup.subvolume_path.clone()),
                    };
                    m.stage = RestoreStage::MetadataFetched;
                    (m, RestoreAction::Download { path })
                },
                RestoreEvent::Metadata(Ok(None)) => {
                    let id = self.backup_id.clone();
                    self.fail(BackupError::NotFound(id))
                },
                RestoreEvent::Metadata(Err(msg)) => self.fail(BackupError::Storage(msg)),
                _ => self.fail(BackupError::InvalidArgument(String::from_str("unexpected event"))),
            },
            RestoreStage::MetadataFetched => match event {
                RestoreEvent::Blob(Ok(blob)) => match provider.decrypt(blob.as_slice()) {
                    Ok(data) => {
                        let mut m = self;
                        m.stage = RestoreStage::Downloaded;
                        let path = m.temp_file.clone();
                        (m, RestoreAction::WriteTemp { path, data })
                    },
                    Err(e) => self.fail(BackupError::Encryption(e)),
                },
                RestoreEvent::Blob(Err(msg)) => self.fail(BackupError::Storage(msg)),
                _ => self.fail(BackupError::InvalidArgument(String::from_str("unexpected event"))),
            },
            RestoreStage::Downloaded => match event {
                RestoreEvent::TempWritten(Ok(())) => {
                    let dest = match &self.dest {
                        Some(d) => d.clone(),
                        None => {
                            return self.fail(
                                BackupError::InvalidArgument(String::from_str("unexpected event")),
                            );
                        },
                    };
                    let mut m = self;
                    m.stage = RestoreStage::Staged;
                    let input = m.temp_file.clone();
                    (m, RestoreAction::Receive { input, dest })
                },
                RestoreEvent::TempWritten(Err(msg)) => self.fail(BackupError::Io(msg)),
                _ => self.fail(BackupError::InvalidArgument(String::from_str("unexpected event"))),
            },
            RestoreStage::Staged => match event {
                RestoreEvent::Received(Ok(())) => {
                    let mut m = self;
                    m.stage = RestoreStage::Received;
                    let path = m.temp_file.clone();
                    (m, RestoreAction::RemoveTemp { path })
                },
                RestoreEvent::Received(Err(msg)) => self.fail(BackupError::Snapshot(msg)),
                _ => self.fail(BackupError::InvalidArgument(String::from_str("unexpected event"))),
            },
            RestoreStage::Received => {
                let mut m = self;
                m.stage = RestoreStage::TempCleaned;
                (m, RestoreAction::Finish(Ok(())))
            },
            RestoreStage::Failing => {
                let mut m = self;
                m.stage = RestoreStage::TempCleaned;
                let mut failure: Option<BackupError> = None;
                core::mem::swap(&mut failure, &mut m.failure);
                let error = match failure {
                    Some(e) => e,
                    None => BackupError::InvalidArgument(String::from_str("unexpected event")),
                };
                (m, RestoreAction::Finish(Err(error)))
            },
            RestoreStage::TempCleaned => {
                let m = self;
                (
                    m,
                    RestoreAction::Finish(
                        Err(BackupError::InvalidArgument(String::from_str("unexpected event"))),
                    ),
                )
            },
        }
    }
}

/// A backup is restored from what its blob holds to where it was asked
/// for: when three steps in a row ask for the blob, for the temporary file
/// and for the subvolume, the file gets what the provider opens the blob
/// to, and the subvolume is rebuilt from that file at the target of the
/// request, or where the record says the subvolume was if none was given.
pub proof fn lemma_restore_goes_where_asked(
    provider: Provider,
    at_start: RestoreBackup,
    fetched: RestoreEvent,
    at_download: RestoreBackup,
    download: RestoreAction,
    downloaded: RestoreEvent,
    at_write: RestoreBackup,
    write: RestoreAction,
    wrote: RestoreEvent,
    at_receive: RestoreBackup,
    receive: RestoreAction,
)
    requires
        at_start.stepped(fetched, provider, at_download, download),
        download is Download,
        at_download.stepped(downloaded, provider, at_write, write),
        write is WriteTemp,
        at_write.stepped(wrote, provider, at_receive, receive),
        receive is Receive,
    ensures
        fetched matches RestoreEvent::Metadata(Ok(Some(b))) && (
        receive matches RestoreAction::Receive { input, dest } && input@ == at_start.temp_file@
            && dest@ == (match at_start.target {
            Some(t) => t@,
            None => b.subvolume_path@,
        })),
        downloaded matches RestoreEvent::Blob(Ok(blob)) && (
        write matches RestoreAction::WriteTemp { path, data } && path@ == at_start.temp_file@
            && provider.opened(blob@) == Ok::<Seq<u8>, EncryptionError>(data@)),
{
}

/// A blob that the provider made of a payload is restored to that payload:
/// the step on the fetched blob asks for the payload, as it was before it
/// was stored, to be written to the temporary file.
pub proof fn lemma_restore_writes_the_payload(
    provider: Provider,
    payload: Seq<u8>,
    at_blob: RestoreBackup,
    blob: Vec<u8>,
    next: RestoreBackup,
    action: RestoreAction,
)
    requires
        at_blob.stage == RestoreStage::MetadataFetched,
        provider.seals(payload, blob@),
        at_blob.stepped(RestoreEvent::Blob(Ok(blob)), provider, next, action),
    ensures
        action matches RestoreAction::WriteTemp { path, data } && data@ == payload && path@
            == at_blob.temp_file@,
{
    lemma_provider_round_trip(provider, payload, blob@);
}

/// How far the deleting of a backup has come.
#[derive(Debug, Clone, Copy, PartialEq, Eq, Structural)]
pub enum DeleteStage {
    /// The record is being fetched.
    Requested,
    /// The record is there and the blob is being deleted.
    MetadataFetched,
    /// The blob is gone and the record is being deleted.
    BlobDeleted,
    /// The record is gone and the snapshot is being looked at.
    MetadataDeleted,
    /// The snapshot is a subvolume and is being deleted.
    SnapshotProbed,
    /// Nothing is left to do.
    Done,
}

/// The stage after a piece of work ended well or badly, for a backup that
/// records a snapshot or does not.  Nothing is rolled back: a failure ends
/// the operation where it stands.
pub open spec fn delete_next(stage: DeleteStage, ok: bool, has_snapshot: bool) -> DeleteStage {
    match stage {
        DeleteStage::Requested => if ok {
            DeleteStage::MetadataFetched
        } else {
            DeleteStage::Done
        },
        DeleteStage::MetadataFetched => if ok {
            DeleteStage::BlobDeleted
        } else {
            DeleteStage::Done
        },
        DeleteStage::BlobDeleted => if ok && has_snapshot {
            DeleteStage::MetadataDeleted
        } else {
            DeleteStage::Done
        },
        DeleteStage::MetadataDeleted => if ok {
            DeleteStage::SnapshotProbed
        } else {
            DeleteStage::Done
        },
        DeleteStage::SnapshotProbed => DeleteStage::Done,
        DeleteStage::Done => DeleteStage::Done,
    }
}

/// What the outside reports in the deleting of a backup.
pub enum DeleteEvent {
    /// The record, `None` where the object is absent or is no record, or why
    /// it could not be fetched.
    Metadata(Result<Option<Backup>, String>),
    /// Whether the object was deleted.
    Deleted(Result<(), String>),
    /// Whether the recorded snapshot is still a subvolume.
    Probed(bool),
    /// The deletion of the snapshot was tried.
    SnapshotDeleted,
}

/// The next piece of outside work in the deleting of a backup.
pub enum DeleteAction {
    /// Fetch the object at `path` and read it as a record.
    FetchMetadata { path: String },
    /// Delete the object at `path`.
    DeleteObject { path: String },
    /// Say whether a subvolume lies at `path`.
    ProbeSnapshot { path: String },
    /// Delete the subvolume at `path`; a failure to do so is passed over.
    DeleteSnapshot { path: String },
    /// The operation is over, with this result.
    Finish(Result<(), BackupError>),
}

/// The deleting of one backup.
pub struct DeleteBackup {
    /// How far the deleting has come.
    pub stage: DeleteStage,
    /// The id of the backup.
    pub backup_id: String,
    /// The snapshot that the record names.
    pub snapshot_path: Option<String>,
}

impl DeleteBackup {
    /// True when the report is the one that the stage waits for and says
    /// that the work ended well.
    pub open spec fn welcomes(&self, event: DeleteEvent) -> bool {
        match self.stage {
            DeleteStage::Requested => event matches DeleteEvent::Metadata(Ok(Some(_)))
                && self.backup_id@.len() >= 2,
            DeleteStage::MetadataFetched => event matches DeleteEvent::Deleted(Ok(_))
                && self.backup_id@.len() >= 2,
            DeleteStage::BlobDeleted => event matches DeleteEvent::Deleted(Ok(_)),
            DeleteStage::MetadataDeleted => event matches DeleteEvent::Probed(true)
                && self.snapshot_path is Some,
            DeleteStage::SnapshotProbed => true,
            DeleteStage::Done => true,
        }
    }

    /// The error that a report leads to where the deleting fails on it.  A
    /// record that is absent means that the backup is not found, under its
    /// id; a record that cannot be fetched, and a blob or record that cannot
    /// be deleted, is a failure of the storage with the message of the
    /// report; anything else is an invalid argument.
    pub open spec fn failure_of(&self, event: DeleteEvent) -> ErrorView {
        match self.stage {
            DeleteStage::Requested => match event {
                DeleteEvent::Metadata(Ok(Some(_))) => id_too_short(),
                DeleteEvent::Metadata(Ok(None)) => error_of(ErrorKind::NotFound, self.backup_id@),
                DeleteEvent::Metadata(Err(m)) => error_of(ErrorKind::Storage, m@),
                _ => unexpected_event(),
            },
            DeleteStage::MetadataFetched => match event {
                DeleteEvent::Deleted(Ok(_)) => id_too_short(),
                DeleteEvent::Deleted(Err(m)) => error_of(ErrorKind::Storage, m@),
                _ => unexpected_event(),
            },
            DeleteStage::BlobDeleted => match event {
                DeleteEvent::Deleted(Err(m)) => error_of(ErrorKind::Storage, m@),
                _ => unexpected_event(),
            },
            _ => unexpected_event(),
        }
    }

    /// The snapshot that the operation knows of after a report.
    pub open spec fn snapshot_after(&self, event: DeleteEvent) -> Option<Seq<char>> {
        if self.stage == DeleteStage::Requested {
            match event {
                DeleteEvent::Metadata(Ok(Some(b))) => opt_text(b.snapshot_path),
                _ => opt_text(self.snapshot_path),
            }
        } else {
            opt_text(self.snapshot_path)
        }
    }

    /// What a step does: `next` and `action` are what the operation `self`
    /// makes of the report `event`.  The blob is deleted before the record,
    /// and the operation ends well only after both are gone.
    pub open spec fn stepped(&self, event: DeleteEvent, next: DeleteBackup, action: DeleteAction) -> bool {
        &&& next.backup_id@ == self.backup_id@
        &&& next.stage == delete_next(
            self.stage,
            self.welcomes(event),
            self.snapshot_path is Some,
        )
        &&& opt_text(next.snapshot_path) == self.snapshot_after(event)
        &&& match next.stage {
            DeleteStage::Requested => false,
            DeleteStage::MetadataFetched => action matches DeleteAction::DeleteObject { path }
                && path@ == blob_path_of(self.backup_id@),
            DeleteStage::BlobDeleted => action matches DeleteAction::DeleteObject { path } && path@
                == metadata_path_of(self.backup_id@),
            DeleteStage::MetadataDeleted => action matches DeleteAction::ProbeSnapshot { path }
                && Some(path@) == opt_text(self.snapshot_path),
            DeleteStage::SnapshotProbed => action matches DeleteAction::DeleteSnapshot { path }
                && Some(path@) == opt_text(self.snapshot_path),
            DeleteStage::Done => action is Finish,
        }
        &&& action matches DeleteAction::Finish(Ok(_)) ==> {
            ||| self.stage == DeleteStage::BlobDeleted && self.welcomes(event)
            ||| self.stage == DeleteStage::MetadataDeleted
            ||| self.stage == DeleteStage::SnapshotProbed
        }
        &&& self.stage == DeleteStage::BlobDeleted && self.welcomes(event)
            && self.snapshot_path is None ==> (action matches DeleteAction::Finish(Ok(_)))
        &&& action matches DeleteAction::Finish(Err(e)) ==> {
            &&& !(self.stage == DeleteStage::MetadataDeleted)
            &&& !(self.stage == DeleteStage::SnapshotProbed)
            &&& e@ == self.failure_of(event)
        }
    }

    /// Begins the deleting of the backup with the given id.  The first piece
    /// of work is to fetch the record.  An id without shard is refused.
    pub fn start(backup_id: &str) -> (r: Result<(DeleteBackup, DeleteAction), BackupError>)
        ensures
            match r {
                Ok((m, a)) => {
                    &&& backup_id@.len() >= 2
                    &&& m.stage == DeleteStage::Requested
                    &&& m.backup_id@ == backup_id@
                    &&& m.snapshot_path is None
                    &&& a matches DeleteAction::FetchMetadata { path } && path@
                        == metadata_path_of(backup_id@)
                },
                Err(e) => backup_id@.len() < 2 && e@ == id_too_short(),
            },
    {
        let path = match crate::backup::metadata_path(backup_id) {
            Ok(p) => p,
            Err(e) => {
                return Err(e);
            },
        };
        let m = DeleteBackup {
            stage: DeleteStage::Requested,
            backup_id: String::from_str(backup_id),
            snapshot_path: None,
        };
        Ok((m, DeleteAction::FetchMetadata { path }))
    }

    /// Ends the operation.
    fn finish(self, result: Result<(), BackupError>) -> (r: (DeleteBackup, DeleteAction))
        ensures
            r.0.backup_id@ == self.backup_id@,
            r.0.stage == DeleteStage::Done,
            opt_text(r.0.snapshot_path) == opt_text(self.snapshot_path),
            r.1 == DeleteAction::Finish(result),
    {
        let mut m = self;
        m.stage = DeleteStage::Done;
        (m, DeleteAction::Finish(result))
    }

    /// Tells the operation what the outside reports and asks for the next
    /// piece of work.
    pub fn step(self, event: DeleteEvent) -> (r: (DeleteBackup, DeleteAction))
        ensures
            self.stepped(event, r.0, r.1),
    {
        match self.stage {
            DeleteStage::Requested => match event {
                DeleteEvent::Metadata(Ok(Some(backup))) => {
                    let path = match crate::backup::blob_path(self.backup_id.as_str()) {
                        Ok(p) => p,
                        Err(e) => {
                            let mut m = self;
                            m.snapshot_path = copy_opt(&backup.snapshot_path);
                            return m.finish(Err(e));
                        },
                    };
                    let mut m = self;
                    m.snapshot_path = copy_opt(&backup.snapshot_path);
                    m.stage = DeleteStage::MetadataFetched;
                    (m, DeleteAction::DeleteObject { path })
                },
                DeleteEvent::Metadata(Ok(None)) => {
                    let id = self.backup_id.clone();
                    self.finish(Err(BackupError::NotFound(id)))
                },
                DeleteEvent::Metadata(Err(msg)) => self.finish(Err(BackupError::Storage(msg))),
                _ => self.finish(
                    Err(BackupError::InvalidArgument(String::from_str("unexpected event"))),
                ),
            },
            DeleteStage::MetadataFetched => match event {
                DeleteEvent::Deleted(Ok(())) => {
                    let path = match crate::backup::metadata_path(self.backup_id.as_str()) {
                        Ok(p) => p,
                        Err(e) => {
                            return self.finish(Err(e));
                        },
                    };
                    let mut m = self;
                    m.stage = DeleteStage::BlobDeleted;
                    (m, DeleteAction::DeleteObject { path })
                },
                DeleteEvent::Deleted(Err(msg)) => self.finish(Err(BackupError::Storage(msg))),
                _ => self.finish(
                    Err(BackupError::InvalidArgument(String::from_str("unexpected event"))),
                ),
            },
            DeleteStage::BlobDeleted => match event {
                DeleteEvent::Deleted(Ok(())) => {
                    let path = copy_opt(&self.snapshot_path);
                    match path {
                        Some(path) => {
                            let mut m = self;
                            m.stage = DeleteStage::MetadataDeleted;
                            (m, DeleteAction::ProbeSnapshot { path })
                        },
                        None => self.finish(Ok(())),
                    }
                },
                DeleteEvent::Deleted(Err(msg)) => self.finish(Err(BackupError::Storage(msg))),
                _ => self.finish(
                    Err(BackupError::InvalidArgument(String::from_str("unexpected event"))),
                ),
            },
            DeleteStage::MetadataDeleted => match event {
                DeleteEvent::Probed(true) => {
                    let path = copy_opt(&self.snapshot_path);
                    match path {
                        Some(path) => {
                            let mut m = self;
                            m.stage = DeleteStage::SnapshotProbed;
                            (m, DeleteAction::DeleteSnapshot { path })
                        },
                        None => self.finish(Ok(())),
                    }
                },
                _ => self.finish(Ok(())),
            },
            DeleteStage::SnapshotProbed => self.finish(Ok(())),
            DeleteStage::Done => self.finish(
                Err(BackupError::InvalidArgument(String::from_str("unexpected event"))),
            ),
        }
    }
}

/// What a store holds: objects by path.
pub type Store = Map<Seq<char>, Seq<u8>>;

/// The store after the blob and the record of a backup were deleted.
pub open spec fn store_after_delete(store: Store, id: Seq<char>) -> Store {
    store.remove(blob_path_of(id)).remove(metadata_path_of(id))
}

/// The store after the blob and then the record of a backup were put.
pub open spec fn store_after_create(store: Store, id: Seq<char>, blob: Seq<u8>, record: Seq<u8>) -> Store {
    store.insert(blob_path_of(id), blob).insert(metadata_path_of(id), record)
}

/// The paths of the objects of a store under a prefix.
pub open spec fn listing(store: Store, prefix: Seq<char>) -> Set<Seq<char>> {
    store.dom().filter(|p: Seq<char>| crate::text::has_prefix(p, prefix))
}

/// Deletion is complete: in a store that honours deletions, the record of a
/// deleted backup is absent, so that it is not found any more, and its blob
/// is in no listing.  Other objects stay.
pub proof fn lemma_deleted_backup_is_gone(store: Store, id: Seq<char>, prefix: Seq<char>)
    ensures
        !store_after_delete(store, id).contains_key(metadata_path_of(id)),
        !store_after_delete(store, id).contains_key(blob_path_of(id)),
        !listing(store_after_delete(store, id), prefix).contains(blob_path_of(id)),
        forall|p: Seq<char>|
            p != blob_path_of(id) && p != metadata_path_of(id) ==> (store_after_delete(
                store,
                id,
            ).contains_key(p) <==> store.contains_key(p)),
{
}

/// After a backup was created, both its objects are in the store, and the
/// blob is what was uploaded.
pub proof fn lemma_created_backup_is_there(
    store: Store,
    id: Seq<char>,
    blob: Seq<u8>,
    record: Seq<u8>,
)
    requires
        id.len() >= 2,
    ensures
        store_after_create(store, id, blob, record).contains_key(blob_path_of(id)),
        store_after_create(store, id, blob, record)[blob_path_of(id)] == blob,
        store_after_create(store, id, blob, record)[metadata_path_of(id)] == record,
        store_after_delete(store_after_create(store, id, blob, record), id) == store.remove(
            blob_path_of(id),
        ).remove(metadata_path_of(id)),
{
    crate::backup::lemma_paths_distinct(id);
    assert(store_after_delete(store_after_create(store, id, blob, record), id) =~= store.remove(
        blob_path_of(id),
    ).remove(metadata_path_of(id)));
}

} // verus!

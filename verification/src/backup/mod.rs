//! Backups of copy-on-write subvolumes.
//!
//! A backup is one upload: the serialized snapshot of a subvolume, stored as
//! a blob, and a metadata record stored beside it.  Both are addressed by the
//! id of the backup, whose first two characters name a directory shard.

pub mod btrfs;
pub mod cli;
pub mod config;
pub mod encryption;
pub mod pipeline;
pub mod snapshot;
pub mod storage;

use crate::backup::config::{BackupConfig, StorageConfig};
use crate::backup::encryption::{AesGcmEncryption, EncryptionError, NoOpEncryption};
use crate::backup::pipeline::{
    CreateAction, CreateBackup, CreateEvent, CreateStage, DeleteAction, DeleteBackup, DeleteStage,
    Provider, RestoreAction, RestoreBackup, RestoreStage, create_work,
};
use crate::backup::snapshot::{snapshot_id, snapshot_id_of, snapshot_name_of, SnapshotManager};
use crate::clock::{format_utc, utc_now, utc_stamp};
use crate::ident::{random_uuid, uuid_text, UUID_BYTES};
use crate::random::os_random;
use crate::paths::{join, joined};
use crate::ident::{hyphenated, is_hex_digit, lemma_hyphenated_starts_with_hex};
use crate::strmap::{text_map, StrMap};
use crate::text::{
    chars_of, copy_opt, ends_with, has_prefix, has_suffix, opt_str, opt_text, own_opt, string_of,
    texts,
};
use vstd::prelude::*;
use vstd::string::*;

verus! {

/// Why a backup operation failed.
#[derive(Debug)]
pub enum BackupError {
    /// The settings are malformed.
    Config(String),
    /// The storage backend failed.
    Storage(String),
    /// The local filesystem failed.
    Io(String),
    /// Sealing or opening a payload failed.
    Encryption(EncryptionError),
    /// The filesystem tool failed, or a snapshot is missing.
    Snapshot(String),
    /// No backup has this id.
    NotFound(String),
    /// An argument cannot be used.
    InvalidArgument(String),
    /// What was to be made is there already.
    AlreadyExists(String),
}

/// The kinds of `BackupError`.
#[derive(Debug, Clone, Copy, PartialEq, Eq, Structural)]
pub enum ErrorKind {
    Config,
    Storage,
    Io,
    Encryption,
    Snapshot,
    NotFound,
    InvalidArgument,
    AlreadyExists,
}

impl BackupError {
    /// The kind of the error.
    pub open spec fn kind_of(self) -> ErrorKind {
        match self {
            BackupError::Config(_) => ErrorKind::Config,
            BackupError::Storage(_) => ErrorKind::Storage,
            BackupError::Io(_) => ErrorKind::Io,
            BackupError::Encryption(_) => ErrorKind::Encryption,
            BackupError::Snapshot(_) => ErrorKind::Snapshot,
            BackupError::NotFound(_) => ErrorKind::NotFound,
            BackupError::InvalidArgument(_) => ErrorKind::InvalidArgument,
            BackupError::AlreadyExists(_) => ErrorKind::AlreadyExists,
        }
    }

    /// The kind of the error.
    pub fn kind(&self) -> (r: ErrorKind)
        ensures
            r == self.kind_of(),
    {
        match self {
            BackupError::Config(_) => ErrorKind::Config,
            BackupError::Storage(_) => ErrorKind::Storage,
            BackupError::Io(_) => ErrorKind::Io,
            BackupError::Encryption(_) => ErrorKind::Encryption,
            BackupError::Snapshot(_) => ErrorKind::Snapshot,
            BackupError::NotFound(_) => ErrorKind::NotFound,
            BackupError::InvalidArgument(_) => ErrorKind::InvalidArgument,
            BackupError::AlreadyExists(_) => ErrorKind::AlreadyExists,
        }
    }
}

/// What an error says, as plain values.
#[verifier::ext_equal]
pub struct ErrorView {
    /// The kind of the error.
    pub kind: ErrorKind,
    /// The message that tells the cause; empty for a failure of the
    /// encryption.
    pub message: Seq<char>,
    /// Which failure of the encryption it was, for an error of that kind.
    pub cause: Option<EncryptionError>,
}

impl View for BackupError {
    type V = ErrorView;

    open spec fn view(&self) -> ErrorView {
        match self {
            BackupError::Config(m) => error_of(ErrorKind::Config, m@),
            BackupError::Storage(m) => error_of(ErrorKind::Storage, m@),
            BackupError::Io(m) => error_of(ErrorKind::Io, m@),
            BackupError::Encryption(e) => encryption_error(*e),
            BackupError::Snapshot(m) => error_of(ErrorKind::Snapshot, m@),
            BackupError::NotFound(m) => error_of(ErrorKind::NotFound, m@),
            BackupError::InvalidArgument(m) => error_of(ErrorKind::InvalidArgument, m@),
            BackupError::AlreadyExists(m) => error_of(ErrorKind::AlreadyExists, m@),
        }
    }
}

/// An error of the given kind with the given message.
pub open spec fn error_of(kind: ErrorKind, message: Seq<char>) -> ErrorView {
    ErrorView { kind, message, cause: None }
}

/// The error for a failure of the encryption.
pub open spec fn encryption_error(e: EncryptionError) -> ErrorView {
    ErrorView { kind: ErrorKind::Encryption, message: Seq::empty(), cause: Some(e) }
}

/// The error for a backup id that is too short to have a shard.
pub open spec fn id_too_short() -> ErrorView {
    error_of(ErrorKind::InvalidArgument, "backup id is too short"@)
}

/// What a backup record says, as plain values.
#[verifier::ext_equal]
pub struct BackupView {
    pub id: Seq<char>,
    pub name: Seq<char>,
    pub description: Option<Seq<char>>,
    pub subvolume_path: Seq<char>,
    pub snapshot_path: Option<Seq<char>>,
    pub size: u64,
    pub created_at: i64,
    pub updated_at: i64,
    pub metadata: Map<Seq<char>, Seq<char>>,
    pub parent_id: Option<Seq<char>>,
    pub child_ids: Seq<Seq<char>>,
}

impl BackupView {
    /// A backup is incremental exactly when it names a parent.
    pub open spec fn is_incremental(self) -> bool {
        self.parent_id is Some
    }
}

/// The record of one backup, as it is stored beside the blob.
pub struct Backup {
    /// The id that addresses blob and record.
    pub id: String,
    /// The name that the user gave.
    pub name: String,
    /// What the user said of it.
    pub description: Option<String>,
    /// The subvolume that was backed up.
    pub subvolume_path: String,
    /// The snapshot that the blob was serialized from.
    pub snapshot_path: Option<String>,
    /// The size of the serialized snapshot, in bytes.
    pub size: u64,
    /// When the backup was made, in microseconds since 1970, UTC.
    pub created_at: i64,
    /// When the record was last changed.
    pub updated_at: i64,
    /// Free-form attributes.
    pub metadata: StrMap<String>,
    /// The backup that this one is a delta of.
    pub parent_id: Option<String>,
    /// The backups that are deltas of this one.
    pub child_ids: Vec<String>,
}

impl View for Backup {
    type V = BackupView;

    open spec fn view(&self) -> BackupView {
        BackupView {
            id: self.id@,
            name: self.name@,
            description: opt_text(self.description),
            subvolume_path: self.subvolume_path@,
            snapshot_path: opt_text(self.snapshot_path),
            size: self.size,
            created_at: self.created_at,
            updated_at: self.updated_at,
            metadata: text_map(self.metadata@),
            parent_id: opt_text(self.parent_id),
            child_ids: texts(self.child_ids@),
        }
    }
}

/// The name of a backup that was given none.
pub open spec fn default_name() -> Seq<char> {
    "Unnamed Backup"@
}

/// The record of a backup that may be missing.
pub open spec fn opt_record(b: Option<Backup>) -> Option<BackupView> {
    match b {
        Some(b) => Some(b@),
        None => None,
    }
}

/// The record of a backup that is referred to and may be missing.
pub open spec fn opt_record_ref(b: Option<&Backup>) -> Option<BackupView> {
    match b {
        Some(b) => Some(b@),
        None => None,
    }
}

/// The record of a backup that was just uploaded.  It is incremental exactly
/// when a delta was asked for and a parent was given.
pub open spec fn new_record(
    id: Seq<char>,
    name: Option<Seq<char>>,
    description: Option<Seq<char>>,
    subvolume: Seq<char>,
    snapshot_path: Seq<char>,
    size: u64,
    now: i64,
    metadata: Map<Seq<char>, Seq<char>>,
    incremental: bool,
    parent: Option<Seq<char>>,
) -> BackupView {
    BackupView {
        id,
        name: match name {
            Some(n) => n,
            None => default_name(),
        },
        description,
        subvolume_path: subvolume,
        snapshot_path: Some(snapshot_path),
        size,
        created_at: now,
        updated_at: now,
        metadata,
        parent_id: if incremental {
            parent
        } else {
            None
        },
        child_ids: Seq::empty(),
    }
}

impl Backup {
    /// Whether the backup is a delta of another one.
    pub fn is_incremental(&self) -> (r: bool)
        ensures
            r == self@.is_incremental(),
    {
        self.parent_id.is_some()
    }

    /// The record of a backup that was just uploaded.
    pub fn new(
        id: String,
        name: Option<&str>,
        description: Option<&str>,
        subvolume: &str,
        snapshot_path: &str,
        size: u64,
        now: i64,
        metadata: StrMap<String>,
        incremental: bool,
        parent: Option<&Backup>,
    ) -> (r: Self)
        ensures
            r@ == new_record(
                id@,
                opt_str(name),
                opt_str(description),
                subvolume@,
                snapshot_path@,
                size,
                now,
                text_map(metadata@),
                incremental,
                match parent {
                    Some(p) => Some(p.id@),
                    None => None,
                },
            ),
            r@.is_incremental() == (incremental && parent is Some),
            incremental && parent is Some ==> r@.parent_id == Some(parent->0.id@),
    {
        let name = match name {
            Some(n) => String::from_str(n),
            None => String::from_str("Unnamed Backup"),
        };
        let parent_id = match parent {
            Some(p) => if incremental {
                Some(p.id.clone())
            } else {
                None
            },
            None => None,
        };
        let r = Backup {
            id,
            name,
            description: own_opt(description),
            subvolume_path: String::from_str(subvolume),
            snapshot_path: Some(String::from_str(snapshot_path)),
            size,
            created_at: now,
            updated_at: now,
            metadata,
            parent_id,
            child_ids: Vec::new(),
        };
        assert(r@.child_ids =~= Seq::<Seq<char>>::empty());
        r
    }

    /// The record, where the flag that was stored with it agrees with it: a
    /// record is incremental exactly when it names a parent.
    pub fn checked(self, is_incremental: bool) -> (r: Option<Self>)
        ensures
            match r {
                Some(b) => b == self && is_incremental == self@.is_incremental(),
                None => is_incremental != self@.is_incremental(),
            },
    {
        if is_incremental == self.parent_id.is_some() {
            Some(self)
        } else {
            None
        }
    }

    /// A copy of the record.
    pub fn copy(&self) -> (r: Self)
        ensures
            r@ == self@,
    {
        let mut child_ids: Vec<String> = Vec::new();
        let mut i: usize = 0;
        while i < self.child_ids.len()
            invariant
                i <= self.child_ids@.len(),
                texts(child_ids@) == texts(self.child_ids@).take(i as int),
            decreases self.child_ids@.len() - i,
        {
            let ghost prev = child_ids@;
            child_ids.push(self.child_ids[i].clone());
            assert(texts(child_ids@) =~= texts(prev).push(self.child_ids@[i as int]@));
            assert(texts(self.child_ids@).take(i + 1) =~= texts(self.child_ids@).take(
                i as int,
            ).push(self.child_ids@[i as int]@));
            i += 1;
        }
        assert(texts(self.child_ids@).take(i as int) =~= texts(self.child_ids@));
        Backup {
            id: self.id.clone(),
            name: self.name.clone(),
            description: copy_opt(&self.description),
            subvolume_path: self.subvolume_path.clone(),
            snapshot_path: copy_opt(&self.snapshot_path),
            size: self.size,
            created_at: self.created_at,
            updated_at: self.updated_at,
            metadata: self.metadata.copy(),
            parent_id: copy_opt(&self.parent_id),
            child_ids,
        }
    }
}

/// The directory under which all backup objects lie.
pub open spec fn backup_prefix() -> Seq<char> {
    "backups/"@
}

/// The directory shard of an id: its first two characters.
pub open spec fn shard_of(id: Seq<char>) -> Seq<char> {
    id.take(2)
}

/// The path of the blob of the backup with this id.
pub open spec fn blob_path_of(id: Seq<char>) -> Seq<char> {
    backup_prefix() + shard_of(id) + "/"@ + id + ".btrfs"@
}

/// The path of the metadata record of the backup with this id.
pub open spec fn metadata_path_of(id: Seq<char>) -> Seq<char> {
    backup_prefix() + shard_of(id) + "/"@ + id + "/metadata"@
}

/// The end of the path of every metadata record.
pub open spec fn metadata_suffix() -> Seq<char> {
    "/metadata"@
}

/// The shard of an id that was generated: two hexadecimal digits, so at most
/// 256 shards exist however many backups are made.
pub proof fn lemma_generated_shard(id: u128)
    ensures
        shard_of(hyphenated(id)).len() == 2,
        is_hex_digit(shard_of(hyphenated(id))[0]),
        is_hex_digit(shard_of(hyphenated(id))[1]),
{
    lemma_hyphenated_starts_with_hex(id);
}

/// The blob and the record of a backup have different paths, both under the
/// prefix, and the two paths determine the id.
pub proof fn lemma_paths_distinct(id: Seq<char>)
    requires
        id.len() >= 2,
    ensures
        blob_path_of(id) != metadata_path_of(id),
        has_prefix(blob_path_of(id), backup_prefix()),
        has_prefix(metadata_path_of(id), backup_prefix()),
        has_suffix(metadata_path_of(id), metadata_suffix()),
        !has_suffix(blob_path_of(id), metadata_suffix()),
{
    reveal_strlit("backups/");
    reveal_strlit("/");
    reveal_strlit(".btrfs");
    reveal_strlit("/metadata");
    let b = blob_path_of(id);
    let m = metadata_path_of(id);
    let head = backup_prefix() + shard_of(id) + "/"@ + id;
    assert(b == head + ".btrfs"@);
    assert(m == head + "/metadata"@);
    assert(b.len() == head.len() + 6);
    assert(m.len() == head.len() + 9);
    assert(b.take(8) =~= backup_prefix());
    assert(m.take(8) =~= backup_prefix());
    assert(m.skip(m.len() - 9) =~= metadata_suffix());
    assert(b[b.len() - 1] == 's');
    assert(b.skip(b.len() - 9)[8] == 's');
    assert(metadata_suffix()[8] == 'a');
}

/// The shard of an id, for ids of two characters or more.
pub fn shard(id: &str) -> (r: Option<String>)
    ensures
        match r {
            Some(s) => id@.len() >= 2 && s@ == shard_of(id@),
            None => id@.len() < 2,
        },
{
    let chars = chars_of(id);
    if chars.len() < 2 {
        return None;
    }
    let head = vstd::slice::slice_subrange(chars.as_slice(), 0, 2);
    assert(head@ =~= id@.take(2));
    Some(string_of(head))
}

/// The path of the blob of a backup.  An id of fewer than two characters has
/// no shard and is refused as an invalid argument.
pub fn blob_path(id: &str) -> (r: Result<String, BackupError>)
    ensures
        match r {
            Ok(p) => id@.len() >= 2 && p@ == blob_path_of(id@),
            Err(e) => id@.len() < 2 && e@ == id_too_short(),
        },
{
    match shard(id) {
        None => Err(BackupError::InvalidArgument(String::from_str("backup id is too short"))),
        Some(s) => {
            let mut p = String::from_str("backups/");
            p.append(s.as_str());
            p.append("/");
            p.append(id);
            p.append(".btrfs");
            Ok(p)
        },
    }
}

/// The path of the metadata record of a backup.  An id of fewer than two
/// characters has no shard and is refused as an invalid argument.
pub fn metadata_path(id: &str) -> (r: Result<String, BackupError>)
    ensures
        match r {
            Ok(p) => id@.len() >= 2 && p@ == metadata_path_of(id@),
            Err(e) => id@.len() < 2 && e@ == id_too_short(),
        },
{
    match shard(id) {
        None => Err(BackupError::InvalidArgument(String::from_str("backup id is too short"))),
        Some(s) => {
            let mut p = String::from_str("backups/");
            p.append(s.as_str());
            p.append("/");
            p.append(id);
            p.append("/metadata");
            Ok(p)
        },
    }
}

/// True for the path of a metadata record.
pub fn is_metadata_path(path: &str) -> (r: bool)
    ensures
        r == has_suffix(path@, metadata_suffix()),
{
    let chars = chars_of(path);
    let suffix = chars_of("/metadata");
    ends_with(chars.as_slice(), suffix.as_slice())
}

/// The test for the path of a metadata record, as a value.
pub open spec fn names_metadata() -> spec_fn(Seq<char>) -> bool {
    |p: Seq<char>| has_suffix(p, metadata_suffix())
}

/// The metadata records among the objects of a listing, in the order of the
/// listing.
pub fn metadata_paths(listing: &Vec<String>) -> (r: Vec<String>)
    ensures
        texts(r@) == texts(listing@).filter(names_metadata()),
{
    let mut out: Vec<String> = Vec::new();
    let mut i: usize = 0;
    proof {
        reveal(Seq::filter);
        assert(texts(listing@).take(0) =~= Seq::<Seq<char>>::empty());
    }
    while i < listing.len()
        invariant
            i <= listing@.len(),
            texts(out@) == texts(listing@).take(i as int).filter(names_metadata()),
        decreases listing@.len() - i,
    {
        proof {
            reveal(Seq::filter);
            assert(texts(listing@).take(i + 1).drop_last() =~= texts(listing@).take(i as int));
            assert(texts(listing@).take(i + 1).last() == listing@[i as int]@);
        }
        if is_metadata_path(listing[i].as_str()) {
            let ghost prev = out@;
            out.push(listing[i].clone());
            assert(texts(out@) =~= texts(prev).push(listing@[i as int]@));
        }
        i += 1;
    }
    assert(texts(listing@).take(i as int) =~= texts(listing@));
    out
}

/// The records of a list of backups.
pub open spec fn backup_views(v: Seq<Backup>) -> Seq<BackupView> {
    v.map_values(|b: Backup| b@)
}

/// No record is followed by a newer one.
pub open spec fn newest_first(s: Seq<BackupView>) -> bool {
    forall|i: int, j: int| 0 <= i < j < s.len() ==> s[i].created_at >= s[j].created_at
}

/// The test for a record made at `t`, as a value.
pub open spec fn made_at(t: i64) -> spec_fn(BackupView) -> bool {
    |b: BackupView| b.created_at == t
}

/// `out` holds the records of `input`, the newest first, and records of the
/// same time in the order that they had.
pub open spec fn listed(input: Seq<BackupView>, out: Seq<BackupView>) -> bool {
    &&& out.len() == input.len()
    &&& newest_first(out)
    &&& forall|t: i64| #[trigger] out.filter(made_at(t)) == input.filter(made_at(t))
}

/// Putting a record before the first one that is not newer keeps the order,
/// and keeps the record before those of its own time.
proof fn lemma_insert_listed(out: Seq<BackupView>, k: int, b: BackupView)
    requires
        newest_first(out),
        0 <= k <= out.len(),
        forall|i: int| 0 <= i < k ==> out[i].created_at > b.created_at,
        k < out.len() ==> out[k].created_at <= b.created_at,
    ensures
        newest_first(out.insert(k, b)),
        forall|t: i64|
            #[trigger] out.insert(k, b).filter(made_at(t)) == (if t == b.created_at {
                seq![b] + out.filter(made_at(t))
            } else {
                out.filter(made_at(t))
            }),
{
    let after = out.insert(k, b);
    assert forall|i: int, j: int| 0 <= i < j < after.len() implies after[i].created_at
        >= after[j].created_at by {
        let oi = if i < k { i } else { i - 1 };
        let oj = if j < k { j } else { j - 1 };
        if i == k {
            assert(after[j] == out[oj]);
            if k < out.len() {
                assert(out[k].created_at >= out[oj].created_at || k == oj);
            }
        } else if j == k {
            assert(after[i] == out[oi]);
        } else {
            assert(after[i] == out[oi]);
            assert(after[j] == out[oj]);
        }
    }
    assert forall|t: i64| #[trigger]
        after.filter(made_at(t)) == (if t == b.created_at {
            seq![b] + out.filter(made_at(t))
        } else {
            out.filter(made_at(t))
        }) by {
        let pred = made_at(t);
        let front = out.take(k);
        let back = out.skip(k);
        assert(after =~= front + seq![b] + back);
        assert(out =~= front + back);
        Seq::filter_distributes_over_add(front + seq![b], back, pred);
        Seq::filter_distributes_over_add(front, seq![b], pred);
        Seq::filter_distributes_over_add(front, back, pred);
        reveal_with_fuel(Seq::filter, 2);
        assert(seq![b].drop_last() =~= Seq::<BackupView>::empty());
        assert(seq![b].last() == b);
        if t == b.created_at {
            assert(seq![b].filter(pred) =~= seq![b]);
            front.lemma_all_neg_filter_empty(pred);
            assert(front.filter(pred) =~= Seq::<BackupView>::empty());
            assert(after.filter(pred) =~= seq![b] + out.filter(pred));
        } else {
            assert(seq![b].filter(pred) =~= Seq::<BackupView>::empty());
            assert(after.filter(pred) =~= out.filter(pred));
        }
    }
}

/// Orders backups for a listing: the newest first, and backups of the same
/// time in the order that they came in.
pub fn sort_newest_first(backups: Vec<Backup>) -> (r: Vec<Backup>)
    ensures
        listed(backup_views(backups@), backup_views(r@)),
{
    let ghost input = backup_views(backups@);
    let mut rest = backups;
    let mut out: Vec<Backup> = Vec::new();
    proof {
        assert(input.skip(input.len() as int) =~= Seq::<BackupView>::empty());
        assert(backup_views(out@) =~= Seq::<BackupView>::empty());
        reveal(Seq::filter);
    }
    while rest.len() > 0
        invariant
            backup_views(rest@) == input.take(rest@.len() as int),
            rest@.len() <= input.len(),
            listed(input.skip(rest@.len() as int), backup_views(out@)),
        decreases rest@.len(),
    {
        let ghost before_rest = rest@;
        let ghost before_out = backup_views(out@);
        let b = rest.pop().unwrap();
        let n = rest.len();
        proof {
            assert(backup_views(before_rest)[n as int] == b@);
            assert(backup_views(rest@) =~= input.take(n as int));
            assert(b@ == input[n as int]);
        }
        let mut k: usize = 0;
        while k < out.len() && out[k].created_at > b.created_at
            invariant
                k <= out@.len(),
                before_out == backup_views(out@),
                forall|i: int| 0 <= i < k ==> before_out[i].created_at > b.created_at,
            decreases out@.len() - k,
        {
            k += 1;
        }
        proof {
            lemma_insert_listed(before_out, k as int, b@);
        }
        out.insert(k, b);
        proof {
            let after = backup_views(out@);
            assert(after =~= before_out.insert(k as int, b@));
            let tail = input.skip(n as int);
            let shorter = input.skip(n + 1);
            assert(tail =~= seq![b@] + shorter);
            assert forall|t: i64| #[trigger] after.filter(made_at(t)) == tail.filter(
                made_at(t),
            ) by {
                let pred = made_at(t);
                assert(before_out.filter(pred) == shorter.filter(pred));
                Seq::filter_distributes_over_add(seq![b@], shorter, pred);
                reveal_with_fuel(Seq::filter, 2);
                assert(seq![b@].drop_last() =~= Seq::<BackupView>::empty());
                assert(seq![b@].last() == b@);
                if t == b@.created_at {
                    assert(seq![b@].filter(pred) =~= seq![b@]);
                } else {
                    assert(seq![b@].filter(pred) =~= Seq::<BackupView>::empty());
                    assert(Seq::<BackupView>::empty() + shorter.filter(pred) =~= shorter.filter(
                        pred,
                    ));
                }
            }
        }
    }
    proof {
        assert(input.skip(0) =~= input);
    }
    out
}

/// The records of the backups among what was fetched.
pub open spec fn found_views(v: Seq<Option<Backup>>) -> Seq<BackupView> {
    v.filter_map(
        |o: Option<Backup>|
            match o {
                Some(b) => Some(b@),
                None => None,
            },
    )
}

/// Makes the listing of what was fetched under the metadata paths: entries
/// that could not be read or parsed are passed over, the others are listed
/// with the newest first.
pub fn assemble_listing(fetched: Vec<Option<Backup>>) -> (r: Vec<Backup>)
    ensures
        listed(found_views(fetched@), backup_views(r@)),
{
    let ghost input = fetched@;
    let ghost f = |o: Option<Backup>|
        match o {
            Some(b) => Some(b@),
            None => None,
        };
    let mut rest = fetched;
    let mut found: Vec<Backup> = Vec::new();
    // Taken from the end, so the found ones are collected in reverse.
    let mut kept: Vec<Backup> = Vec::new();
    while rest.len() > 0
        invariant
            rest@ == input.take(rest@.len() as int),
            rest@.len() <= input.len(),
            f == |o: Option<Backup>|
                match o {
                    Some(b) => Some(b@),
                    None => None,
                },
            backup_views(kept@).reverse() == input.skip(rest@.len() as int).filter_map(f),
        decreases rest@.len(),
    {
        let ghost n = rest@.len() - 1;
        let ghost tail = input.skip(n + 1);
        let ghost prev = backup_views(kept@);
        let o = rest.pop().unwrap();
        proof {
            assert(rest@ =~= input.take(n));
            assert(o == input[n]);
            assert(input.skip(n) =~= seq![o] + tail);
            Seq::lemma_filter_map_singleton(o, f);
            lemma_filter_map_add(seq![o], tail, f);
        }
        match o {
            Some(b) => {
                kept.push(b);
                proof {
                    assert(backup_views(kept@) =~= prev.push(b@));
                    assert(prev.push(b@).reverse() =~= seq![b@] + prev.reverse());
                }
            },
            None => {
                proof {
                    assert(Seq::<BackupView>::empty() + tail.filter_map(f) =~= tail.filter_map(f));
                }
            },
        }
    }
    proof {
        assert(input.skip(0) =~= input);
    }
    while kept.len() > 0
        invariant
            backup_views(found@) + backup_views(kept@).reverse() == found_views(input),
        decreases kept@.len(),
    {
        let ghost pf = backup_views(found@);
        let ghost pk = backup_views(kept@);
        let b = kept.pop().unwrap();
        found.push(b);
        proof {
            assert(backup_views(found@) =~= pf.push(b@));
            assert(backup_views(kept@) =~= pk.drop_last());
            assert(pk.reverse() =~= seq![b@] + pk.drop_last().reverse());
            assert(pf.push(b@) + pk.drop_last().reverse() =~= pf + pk.reverse());
        }
    }
    proof {
        assert(backup_views(kept@).reverse() =~= Seq::<BackupView>::empty());
        assert(backup_views(found@) + Seq::<BackupView>::empty() =~= backup_views(found@));
    }
    sort_newest_first(found)
}

/// `filter_map` goes through a concatenation.
pub proof fn lemma_filter_map_add<A, B>(a: Seq<A>, b: Seq<A>, f: spec_fn(A) -> Option<B>)
    ensures
        (a + b).filter_map(f) == a.filter_map(f) + b.filter_map(f),
    decreases b.len(),
{
    if b.len() == 0 {
        assert(a + b =~= a);
        assert(a.filter_map(f) + b.filter_map(f) =~= a.filter_map(f));
    } else {
        assert((a + b).drop_last() =~= a + b.drop_last());
        assert((a + b).last() == b.last());
        lemma_filter_map_add(a, b.drop_last(), f);
        match f(b.last()) {
            Some(x) => {
                assert((a.filter_map(f) + b.drop_last().filter_map(f)) + seq![x] =~= a.filter_map(
                    f,
                ) + (b.drop_last().filter_map(f) + seq![x]));
            },
            None => {},
        }
    }
}

/// Of two backups, the later one is listed first; where neither is later,
/// they are listed in the order in which they came.
pub proof fn lemma_two_listed(first: BackupView, second: BackupView, out: Seq<BackupView>)
    requires
        listed(seq![first, second], out),
    ensures
        out == (if second.created_at > first.created_at {
            seq![second, first]
        } else {
            seq![first, second]
        }),
{
    let input = seq![first, second];
    let t1 = first.created_at;
    let t2 = second.created_at;
    lemma_filter_pair(first, second, made_at(t1));
    lemma_filter_pair(first, second, made_at(t2));
    assert(out =~= seq![out[0], out[1]]);
    lemma_filter_pair(out[0], out[1], made_at(t1));
    lemma_filter_pair(out[0], out[1], made_at(t2));
    assert(out.filter(made_at(t1)) == input.filter(made_at(t1)));
    assert(out.filter(made_at(t2)) == input.filter(made_at(t2)));
    let f1 = out.filter(made_at(t1));
    let f2 = out.filter(made_at(t2));
    if t1 == t2 {
        assert(f1 =~= seq![first, second]);
        assert(f1.len() == 2);
        assert(f1[0] == first && f1[1] == second);
        assert(out =~= seq![first, second]);
    } else {
        assert(f1 =~= seq![first]);
        assert(f2 =~= seq![second]);
        assert(f1.len() == 1 && f1[0] == first);
        assert(f2.len() == 1 && f2[0] == second);
        assert(out[0].created_at >= out[1].created_at);
        if out[0].created_at == t1 {
            assert(out[0] == first);
            assert(out[1] == second);
            assert(out =~= seq![first, second]);
        } else {
            assert(out[1] == first);
            assert(out[0] == second);
            assert(out =~= seq![second, first]);
        }
    }
}

/// What `filter` keeps of two records.
proof fn lemma_filter_pair(a: BackupView, b: BackupView, pred: spec_fn(BackupView) -> bool)
    ensures
        seq![a, b].filter(pred) == (if pred(a) {
            seq![a]
        } else {
            Seq::<BackupView>::empty()
        }) + (if pred(b) {
            seq![b]
        } else {
            Seq::<BackupView>::empty()
        }),
{
    reveal_with_fuel(Seq::filter, 3);
    let s = seq![a, b];
    assert(s.drop_last() =~= seq![a]);
    assert(s.last() == b);
    assert(seq![a].drop_last() =~= Seq::<BackupView>::empty());
    assert(seq![a].last() == a);
    assert(Seq::<BackupView>::empty().filter(pred) =~= Seq::<BackupView>::empty());
    let fa = seq![a].filter(pred);
    assert(fa =~= if pred(a) {
        seq![a]
    } else {
        Seq::<BackupView>::empty()
    });
    assert(s.filter(pred) =~= fa + (if pred(b) {
        seq![b]
    } else {
        Seq::<BackupView>::empty()
    }));
}

/// Where snapshots lie for a store that is not on the local filesystem.
pub open spec fn default_snapshot_dir() -> Seq<char> {
    "/var/lib/rast/backups/snapshots"@
}

/// Where the snapshots of a configuration lie: in the store, where that is
/// on the local filesystem.
pub open spec fn snapshot_dir_of(storage: StorageConfig) -> Seq<char> {
    match storage {
        StorageConfig::Local { path } => path@,
        _ => default_snapshot_dir(),
    }
}

/// The stamp in the name of a snapshot taken at `now`.
pub open spec fn stamp_of(now: i64) -> Seq<char> {
    match utc_stamp(now as int) {
        Some(s) => s,
        None => "0"@,
    }
}

/// The manager of backups: it holds the settings, the encryption provider
/// and the snapshot manager, and makes the decisions of every operation.
pub struct BackupManager {
    config: BackupConfig,
    provider: Provider,
    snapshot_manager: SnapshotManager,
    temp_dir: String,
}

/// True when a manager can be made of the settings and the key: where
/// encryption is switched on, the key is given and of the right length.
pub open spec fn usable(config: BackupConfig, key: Option<&[u8]>) -> bool {
    config.encryption.enabled ==> (key matches Some(k) && k@.len()
        == crate::backup::encryption::KEY_SIZE)
}

/// The error for a random source that gave nothing for an id.
pub open spec fn no_random_id() -> ErrorView {
    error_of(ErrorKind::Io, "no random bytes for an id"@)
}

/// The error for a clock that cannot be read as a time.
pub open spec fn no_clock() -> ErrorView {
    error_of(ErrorKind::Io, "the clock cannot be read"@)
}

/// Why no manager is made: the settings ask for a key that is not given, the
/// key is of the wrong length, or, with usable settings, the operating
/// system gave no random bytes for the name of the temporary directory.
pub open spec fn refusal_of(config: BackupConfig, key: Option<&[u8]>) -> ErrorView {
    if usable(config, key) {
        no_random_id()
    } else if key is None {
        error_of(ErrorKind::Config, "encryption is enabled but no key was given"@)
    } else {
        encryption_error(EncryptionError::KeyLength)
    }
}

impl BackupManager {
    /// The encryption provider of the manager.
    pub closed spec fn sealing(&self) -> Provider {
        self.provider
    }

    /// Where the manager keeps its temporary files.
    pub closed spec fn temp(&self) -> Seq<char> {
        self.temp_dir@
    }

    /// Where backups are stored.
    pub closed spec fn store(&self) -> StorageConfig {
        self.config.storage
    }

    /// The snapshot manager.
    pub closed spec fn snapshots(&self) -> SnapshotManager {
        self.snapshot_manager
    }

    /// A manager for the given settings.  `key` is what the key file holds,
    /// where one was read; `system_temp_dir` is the directory of the system
    /// for temporary files.  Where encryption is switched on, the key must
    /// be given and be of the right length.  The temporary files of the
    /// manager go to a fresh directory below `rast-backup`, named by a
    /// random id; where the operating system gives no random bytes for it,
    /// no manager is made.
    pub fn new(config: BackupConfig, key: Option<&[u8]>, system_temp_dir: &str) -> (r: Result<
        Self,
        BackupError,
    >)
        ensures
            r matches Ok(m) ==> exists|u: u128| #[trigger] m.made_of(config, key, system_temp_dir@, u),
            r matches Err(e) ==> e@ == refusal_of(config, key),
    {
        match random_uuid(os_random(UUID_BYTES)) {
            Some(id) => Self::with_temp_id(config, key, system_temp_dir, Some(id)),
            None => Self::with_temp_id(config, key, system_temp_dir, None),
        }
    }

    /// The manager is the one for the settings, the key and the directory
    /// for temporary files that is named by `id`.
    pub open spec fn made_of(
        &self,
        config: BackupConfig,
        key: Option<&[u8]>,
        system_temp_dir: Seq<char>,
        id: u128,
    ) -> bool {
        &&& self.store() == config.storage
        &&& self.snapshots().dir() == snapshot_dir_of(config.storage)
        &&& self.snapshots().takes_read_only()
        &&& self.snapshots().defaults() == Map::<Seq<char>, Seq<char>>::empty()
        &&& self.temp() == joined(
            joined(system_temp_dir, "rast-backup"@),
            crate::ident::hyphenated(id),
        )
        &&& if config.encryption.enabled {
            &&& key matches Some(k)
            &&& self.sealing() matches Provider::Sealed(p)
            &&& p.key() == k@
        } else {
            self.sealing() is Plain
        }
    }

    /// A manager for the settings whose directory for temporary files is
    /// named by `temp_id`, the random id that was drawn, if one was.  The
    /// settings are looked at first: a missing key or one of the wrong
    /// length is reported whatever was drawn.
    pub fn with_temp_id(
        config: BackupConfig,
        key: Option<&[u8]>,
        system_temp_dir: &str,
        temp_id: Option<u128>,
    ) -> (r: Result<Self, BackupError>)
        ensures
            r is Ok <==> usable(config, key) && temp_id is Some,
            r matches Ok(m) ==> temp_id matches Some(id) && m.made_of(
                config,
                key,
                system_temp_dir@,
                id,
            ),
            r matches Err(e) ==> e@ == refusal_of(config, key),
    {
        let provider = if config.encryption.enabled {
            match key {
                None => {
                    return Err(
                        BackupError::Config(
                            String::from_str("encryption is enabled but no key was given"),
                        ),
                    );
                },
                Some(k) => match AesGcmEncryption::from_key_bytes(k) {
                    Ok(p) => Provider::Sealed(p),
                    Err(e) => {
                        return Err(BackupError::Encryption(e));
                    },
                },
            }
        } else {
            Provider::Plain(NoOpEncryption)
        };
        let snapshot_manager = match &config.storage {
            StorageConfig::Local { path } => SnapshotManager::new(path.as_str()),
            _ => SnapshotManager::new("/var/lib/rast/backups/snapshots"),
        };
        let id = match temp_id {
            Some(id) => id,
            None => {
                return Err(BackupError::Io(String::from_str("no random bytes for an id")));
            },
        };
        let name = uuid_text(id);
        let base = join(system_temp_dir, "rast-backup");
        let temp_dir = join(base.as_str(), name.as_str());
        Ok(BackupManager { config, provider, snapshot_manager, temp_dir })
    }

    /// Where backups are stored.
    pub fn storage(&self) -> (r: &StorageConfig)
        ensures
            *r == self.store(),
    {
        &self.config.storage
    }

    /// The snapshot manager.
    pub fn snapshot_manager(&self) -> (r: &SnapshotManager)
        ensures
            *r == self.snapshots(),
    {
        &self.snapshot_manager
    }

    /// The encryption provider.
    pub fn provider(&self) -> (r: &Provider)
        ensures
            *r == self.sealing(),
    {
        &self.provider
    }

    /// Where the manager keeps its temporary files.
    pub fn temp_dir(&self) -> (r: &str)
        ensures
            r@ == self.temp(),
    {
        self.temp_dir.as_str()
    }

    /// What beginning a backup of `subvolume` gives, for the three random
    /// ids that were drawn and the time `now`.  The backup is named by
    /// `backup_uuid`; the snapshot is named by `snapshot_uuid`, gets the
    /// attributes of the snapshot manager with the description, and a place
    /// below the snapshot directory under the name of the subvolume and the
    /// time; the serialized snapshot goes to the file named by `temp_uuid` in
    /// the temporary directory.  The first piece of work is to find the
    /// snapshot of the parent where the delta is relative to one, and else
    /// to take the snapshot of the subvolume.
    pub open spec fn begins(
        &self,
        subvolume: Seq<char>,
        name: Option<Seq<char>>,
        description: Option<Seq<char>>,
        incremental: bool,
        parent: Option<BackupView>,
        backup_uuid: u128,
        snapshot_uuid: u128,
        temp_uuid: u128,
        now: i64,
        r: (CreateBackup, CreateAction),
    ) -> bool {
        &&& r.0.stage == (if incremental && parent is Some {
            CreateStage::ResolvingParent
        } else {
            CreateStage::Requested
        })
        &&& r.1.work() == create_work(r.0.stage)
        &&& r.0.subvolume@ == subvolume
        &&& opt_text(r.0.name) == name
        &&& opt_text(r.0.description) == description
        &&& r.0.incremental == incremental
        &&& opt_record(r.0.parent) == parent
        &&& r.0.backup_id@ == crate::ident::hyphenated(backup_uuid)
        &&& r.0.snapshot_id@ == snapshot_id_of(snapshot_uuid)
        &&& r.0.snapshot_dest@ == joined(
            self.snapshots().dir(),
            snapshot_name_of(subvolume, stamp_of(now)),
        )
        &&& r.0.read_only == self.snapshots().takes_read_only()
        &&& text_map(r.0.attributes@) == (match description {
            Some(d) => self.snapshots().defaults().insert("description"@, d),
            None => self.snapshots().defaults(),
        })
        &&& r.0.temp_file@ == joined(
            self.temp(),
            crate::ident::hyphenated(temp_uuid) + ".btrfs"@,
        )
        &&& r.0.record is None
        &&& r.0.snapshot is None
        &&& r.0.parent_snapshot is None
        &&& r.0.size == 0
        &&& r.0.failure is None
        &&& r.1 matches CreateAction::TakeSnapshot(p) ==> p.source@ == subvolume && p.dest@
            == r.0.snapshot_dest@ && p.read_only == r.0.read_only
    }

    /// Begins the creation of a backup of `subvolume` under three fresh
    /// random ids, at the current time.  It fails only where the operating
    /// system gave no random bytes for an id, or no time.
    pub fn create_backup(
        &self,
        subvolume: &str,
        name: Option<&str>,
        description: Option<&str>,
        incremental: bool,
        parent_backup: Option<&Backup>,
    ) -> (r: Result<(CreateBackup, CreateAction), BackupError>)
        ensures
            r matches Ok(x) ==> exists|a: u128, b: u128, c: u128, now: i64| #[trigger]
                self.begins(
                    subvolume@,
                    opt_str(name),
                    opt_str(description),
                    incremental,
                    opt_record_ref(parent_backup),
                    a,
                    b,
                    c,
                    now,
                    x,
                ),
            r matches Err(e) ==> e@ == no_random_id() || e@ == no_clock(),
    {
        let a = match random_uuid(os_random(UUID_BYTES)) {
            Some(id) => id,
            None => {
                return Err(BackupError::Io(String::from_str("no random bytes for an id")));
            },
        };
        let b = match random_uuid(os_random(UUID_BYTES)) {
            Some(id) => id,
            None => {
                return Err(BackupError::Io(String::from_str("no random bytes for an id")));
            },
        };
        let c = match random_uuid(os_random(UUID_BYTES)) {
            Some(id) => id,
            None => {
                return Err(BackupError::Io(String::from_str("no random bytes for an id")));
            },
        };
        let now = match utc_now() {
            Some(now) => now,
            None => {
                return Err(BackupError::Io(String::from_str("the clock cannot be read")));
            },
        };
        let x = self.begin_backup(
            subvolume,
            name,
            description,
            incremental,
            parent_backup,
            a,
            b,
            c,
            now,
        );
        assert(exists|a: u128, b: u128, c: u128, now: i64| #[trigger]
            self.begins(
                subvolume@,
                opt_str(name),
                opt_str(description),
                incremental,
                opt_record_ref(parent_backup),
                a,
                b,
                c,
                now,
                x,
            ));
        let r = Ok(x);
        assert(r matches Ok(y) && y == x);
        r
    }

    /// Begins the creation of a backup of `subvolume` under the three ids
    /// that were drawn, at the time `now`.
    pub fn begin_backup(
        &self,
        subvolume: &str,
        name: Option<&str>,
        description: Option<&str>,
        incremental: bool,
        parent_backup: Option<&Backup>,
        backup_uuid: u128,
        snapshot_uuid: u128,
        temp_uuid: u128,
        now: i64,
    ) -> (r: (CreateBackup, CreateAction))
        ensures
            self.begins(
                subvolume@,
                opt_str(name),
                opt_str(description),
                incremental,
                opt_record_ref(parent_backup),
                backup_uuid,
                snapshot_uuid,
                temp_uuid,
                now,
                r,
            ),
    {
        let backup_id = uuid_text(backup_uuid);
        let snap_id = snapshot_id(snapshot_uuid);
        let stamp = match format_utc(now) {
            Some(s) => s,
            None => String::from_str("0"),
        };
        assert(stamp@ == stamp_of(now));
        let plan = self.snapshot_manager.create_snapshot(subvolume, stamp.as_str());
        let attributes = self.snapshot_manager.snapshot_metadata(description);
        let mut temp_name = uuid_text(temp_uuid);
        temp_name.append(".btrfs");
        let temp_file = join(self.temp_dir.as_str(), temp_name.as_str());
        CreateBackup::start(
            subvolume,
            name,
            description,
            incremental,
            parent_backup,
            backup_id,
            snap_id,
            plan,
            attributes,
            temp_file,
        )
    }

    /// Tells the creation of a backup what the outside reports, at the
    /// current time, and asks for the next piece of work.  Where the clock
    /// of the system cannot be read no step is made, and the operation is
    /// handed back as it was.
    pub fn advance_create(&self, operation: CreateBackup, event: CreateEvent) -> (r: Result<
        (CreateBackup, CreateAction),
        CreateBackup,
    >)
        ensures
            r matches Ok(x) ==> exists|now: i64| #[trigger]
                operation.stepped(event, now, self.sealing(), x.0, x.1),
            r matches Err(back) ==> back == operation,
    {
        match utc_now() {
            Some(now) => {
                let x = operation.step(event, now, &self.provider);
                assert(exists|now: i64| #[trigger]
                    operation.stepped(event, now, self.sealing(), x.0, x.1));
                let r = Ok(x);
                assert(r matches Ok(y) && y == x);
                r
            },
            None => Err(operation),
        }
    }

    /// Begins the restoring of a backup: to `target` where one is given,
    /// else to where the subvolume was.
    pub fn restore_backup(&self, backup_id: &str, target: Option<&str>) -> (r: Result<
        (RestoreBackup, RestoreAction),
        BackupError,
    >)
        ensures
            match r {
                Ok((m, a)) => {
                    &&& backup_id@.len() >= 2
                    &&& m.stage == RestoreStage::Requested
                    &&& m.backup_id@ == backup_id@
                    &&& opt_text(m.target) == opt_str(target)
                    &&& m.temp_file@ == joined(
                        self.temp(),
                        crate::backup::pipeline::restore_file_name(backup_id@),
                    )
                    &&& a matches RestoreAction::FetchMetadata { path } && path@
                        == metadata_path_of(backup_id@)
                },
                Err(e) => backup_id@.len() < 2 && e@ == id_too_short(),
            },
    {
        RestoreBackup::start(backup_id, target, self.temp_dir.as_str())
    }

    /// Begins the deleting of a backup.
    pub fn delete_backup(&self, backup_id: &str) -> (r: Result<
        (DeleteBackup, DeleteAction),
        BackupError,
    >)
        ensures
            match r {
                Ok((m, a)) => {
                    &&& backup_id@.len() >= 2
                    &&& m.stage == DeleteStage::Requested
                    &&& m.backup_id@ == backup_id@
                    &&& m.snapshot_path is None
                    &&& a matches DeleteAction::FetchMetadata { path } && path@
                        == metadata_path_of(backup_id@)
                },
                Err(e) => backup_id@.len() < 2 && e@ == id_too_short(),
            },
    {
        DeleteBackup::start(backup_id)
    }

    /// The backup with the given id, from what fetching its record gave:
    /// `Ok(None)` stands for an object that is absent or is no record, and
    /// means that the backup is not found.
    pub fn get_backup(&self, backup_id: &str, fetched: Result<Option<Backup>, String>) -> (r:
        Result<Backup, BackupError>)
        ensures
            match fetched {
                Ok(Some(b)) => r matches Ok(x) && x == b,
                Ok(None) => r matches Err(BackupError::NotFound(id)) && id@ == backup_id@,
                Err(msg) => r matches Err(BackupError::Storage(m)) && m == msg,
            },
    {
        match fetched {
            Ok(Some(b)) => Ok(b),
            Ok(None) => Err(BackupError::NotFound(String::from_str(backup_id))),
            Err(msg) => Err(BackupError::Storage(msg)),
        }
    }

    /// Whether a backup is good, from what fetching its record gave: it is
    /// good when its record can be fetched and read.  Neither the blob nor
    /// its sealing is looked at.
    pub fn verify_backup(&self, backup_id: &str, fetched: Result<Option<Backup>, String>) -> (r:
        bool)
        ensures
            r == (fetched matches Ok(Some(_))),
    {
        self.get_backup(backup_id, fetched).is_ok()
    }

    /// The prefix under which the objects of all backups are listed.
    pub fn listing_prefix(&self) -> (r: String)
        ensures
            r@ == backup_prefix(),
    {
        String::from_str("backups/")
    }

    /// The listing of all backups, from what fetching the metadata records
    /// gave: records that could not be fetched or read are passed over, the
    /// others are listed with the newest first.
    pub fn list_backups(&self, fetched: Vec<Option<Backup>>) -> (r: Vec<Backup>)
        ensures
            listed(found_views(fetched@), backup_views(r@)),
    {
        assemble_listing(fetched)
    }
}

} // verus!

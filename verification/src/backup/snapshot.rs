//! Snapshots that backups are serialized from.

use crate::backup::btrfs::Subvolume;
use crate::ident::{hyphenated, random_uuid, uuid_text, UUID_BYTES};
use crate::paths::{file_name, join, joined, last_component};
use crate::random::os_random;
use crate::strmap::{text_map, StrMap};
use crate::text::{copy_opt, opt_text};
use vstd::prelude::*;
use vstd::string::*;

verus! {

/// What a snapshot record says, as plain values.
#[verifier::ext_equal]
pub struct SnapshotView {
    pub id: Seq<char>,
    pub subvolume: Seq<char>,
    pub path: Seq<char>,
    pub read_only: bool,
    pub parent_id: Option<Seq<char>>,
    pub created_at: i64,
    pub size: u64,
    pub metadata: Map<Seq<char>, Seq<char>>,
}

/// A snapshot of a subvolume.
pub struct Snapshot {
    /// The id of the snapshot.
    pub id: String,
    /// The subvolume that was snapshotted.
    pub subvolume: String,
    /// Where the snapshot lies.
    pub path: String,
    /// Whether it is read-only.
    pub read_only: bool,
    /// The snapshot that it is a delta of.
    pub parent_id: Option<String>,
    /// When it was taken, in microseconds since 1970, UTC.
    pub created_at: i64,
    /// Its size in bytes.
    pub size: u64,
    /// Free-form attributes.
    pub metadata: StrMap<String>,
}

impl View for Snapshot {
    type V = SnapshotView;

    open spec fn view(&self) -> SnapshotView {
        SnapshotView {
            id: self.id@,
            subvolume: self.subvolume@,
            path: self.path@,
            read_only: self.read_only,
            parent_id: opt_text(self.parent_id),
            created_at: self.created_at,
            size: self.size,
            metadata: text_map(self.metadata@),
        }
    }
}

/// The name of a snapshot of `subvolume` taken at the time with the compact
/// text `stamp`: the last component of the subvolume, or `subvol` where it
/// has none, an underscore and the stamp.
pub open spec fn snapshot_name_of(subvolume: Seq<char>, stamp: Seq<char>) -> Seq<char> {
    (match last_component(subvolume) {
        Some(n) => n,
        None => "subvol"@,
    }) + "_"@ + stamp
}

/// The id of a snapshot, made of a random identifier.
pub open spec fn snapshot_id_of(uuid: u128) -> Seq<char> {
    "snap_"@ + hyphenated(uuid)
}

/// The name of a snapshot of `subvolume` taken at the time `stamp`.
pub fn snapshot_name(subvolume: &str, stamp: &str) -> (r: String)
    ensures
        r@ == snapshot_name_of(subvolume@, stamp@),
{
    let mut name = match file_name(subvolume) {
        Some(n) => n,
        None => String::from_str("subvol"),
    };
    name.append("_");
    name.append(stamp);
    name
}

/// The id of a snapshot for a random identifier.
pub fn snapshot_id(uuid: u128) -> (r: String)
    ensures
        r@ == snapshot_id_of(uuid),
{
    let mut id = String::from_str("snap_");
    let text = uuid_text(uuid);
    id.append(text.as_str());
    id
}

/// Why the snapshot manager refuses a request.
#[derive(Debug, Clone, Copy, PartialEq, Eq, Structural)]
pub enum SnapshotError {
    /// No snapshot has the id that was asked for.
    SnapshotNotFound,
    /// The snapshot is the parent of another one.
    InvalidRelationship,
    /// The operating system gave no random bytes for an id.
    RandomSource,
}

/// What is to be snapshotted where.
#[derive(Debug)]
pub struct SnapshotPlan {
    /// The subvolume that is snapshotted.
    pub source: String,
    /// Where the snapshot goes.
    pub dest: String,
    /// Whether the snapshot is to be read-only.
    pub read_only: bool,
}

impl Snapshot {
    /// What taking a snapshot of `subvolume` does: the snapshot is taken of
    /// the subvolume itself and goes below `snapshot_dir` under its name.
    /// A parent plays no part here: it decides only what is serialized.
    pub fn plan(subvolume: &str, snapshot_dir: &str, read_only: bool, stamp: &str) -> (r:
        SnapshotPlan)
        ensures
            r.source@ == subvolume@,
            r.dest@ == joined(snapshot_dir@, snapshot_name_of(subvolume@, stamp@)),
            r.read_only == read_only,
    {
        let name = snapshot_name(subvolume, stamp);
        SnapshotPlan {
            source: String::from_str(subvolume),
            dest: join(snapshot_dir, name.as_str()),
            read_only,
        }
    }

    /// The record of a snapshot that the tool has taken: it lies where the
    /// plan put it, and flag, time and size are what the tool reports.
    pub fn create(
        id: String,
        subvolume: &str,
        taken: &Subvolume,
        parent: Option<&Snapshot>,
        metadata: StrMap<String>,
    ) -> (r: Self)
        ensures
            r@ == (SnapshotView {
                id: id@,
                subvolume: subvolume@,
                path: taken.path@,
                read_only: taken.read_only,
                parent_id: match parent {
                    Some(p) => Some(p.id@),
                    None => None,
                },
                created_at: taken.created_at,
                size: taken.size,
                metadata: text_map(metadata@),
            }),
    {
        Snapshot {
            id,
            subvolume: String::from_str(subvolume),
            path: taken.path.clone(),
            read_only: taken.read_only,
            parent_id: match parent {
                Some(p) => Some(p.id.clone()),
                None => None,
            },
            created_at: taken.created_at,
            size: taken.size,
            metadata,
        }
    }

    /// The record of a snapshot that a listing found.  `info` is what the
    /// snapshot says of itself; id, subvolume and parent are taken from it.
    /// A snapshot that names no id gets `fallback_id`, and one that names no
    /// subvolume counts as `unknown`.
    pub fn from_listing(found: &Subvolume, info: StrMap<String>, fallback_id: String) -> (r: Self)
        ensures
            r@ == (SnapshotView {
                id: if info@.contains_key("id"@) {
                    info@["id"@]@
                } else {
                    fallback_id@
                },
                subvolume: if info@.contains_key("subvolume"@) {
                    info@["subvolume"@]@
                } else {
                    "unknown"@
                },
                path: found.path@,
                read_only: found.read_only,
                parent_id: if info@.contains_key("parent_id"@) {
                    Some(info@["parent_id"@]@)
                } else {
                    None
                },
                created_at: found.created_at,
                size: found.size,
                metadata: text_map(info@),
            }),
    {
        let id = match info.get("id") {
            Some(v) => v.clone(),
            None => fallback_id,
        };
        let subvolume = match info.get("subvolume") {
            Some(v) => v.clone(),
            None => String::from_str("unknown"),
        };
        let parent_id = match info.get("parent_id") {
            Some(v) => Some(v.clone()),
            None => None,
        };
        Snapshot {
            id,
            subvolume,
            path: found.path.clone(),
            read_only: found.read_only,
            parent_id,
            created_at: found.created_at,
            size: found.size,
            metadata: info,
        }
    }

    /// A copy of the record.
    pub fn copy(&self) -> (r: Self)
        ensures
            r@ == self@,
    {
        Snapshot {
            id: self.id.clone(),
            subvolume: self.subvolume.clone(),
            path: self.path.clone(),
            read_only: self.read_only,
            parent_id: copy_opt(&self.parent_id),
            created_at: self.created_at,
            size: self.size,
            metadata: self.metadata.copy(),
        }
    }
}

/// What restoring a snapshot to a target does.
#[derive(Debug, Clone, Copy, PartialEq, Eq, Structural)]
pub enum RestoreStep {
    /// Snapshot the snapshot at the target, writable.
    Snapshot,
    /// Delete the subvolume at the target, then snapshot.
    ReplaceThenSnapshot,
    /// Refuse: the target exists and is no subvolume.
    Refuse,
}

/// What restoring a snapshot to a target does: a target that is a subvolume
/// is replaced, a target that is anything else is left alone.
pub fn restore_step(target_exists: bool, target_is_subvolume: bool) -> (r: RestoreStep)
    ensures
        r == (if !target_exists {
            RestoreStep::Snapshot
        } else if target_is_subvolume {
            RestoreStep::ReplaceThenSnapshot
        } else {
            RestoreStep::Refuse
        }),
{
    if !target_exists {
        RestoreStep::Snapshot
    } else if target_is_subvolume {
        RestoreStep::ReplaceThenSnapshot
    } else {
        RestoreStep::Refuse
    }
}

/// Takes and finds the snapshots of the backup system.
pub struct SnapshotManager {
    snapshot_dir: String,
    read_only: bool,
    default_metadata: StrMap<String>,
}

/// The record of a snapshot that may be missing.
pub open spec fn opt_snapshot(s: Option<Snapshot>) -> Option<SnapshotView> {
    match s {
        Some(s) => Some(s@),
        None => None,
    }
}

/// True when a snapshot of the list names `id` as its parent.
pub open spec fn has_child(snapshots: Seq<SnapshotView>, id: Seq<char>) -> bool {
    exists|j: int| 0 <= j < snapshots.len() && (#[trigger] snapshots[j]).parent_id == Some(id)
}

/// What is done for the request to delete the snapshot with the id: a
/// snapshot that the list does not hold is not found, one that another
/// names as its parent stays, and else the first with the id goes.
pub open spec fn deletion(snapshots: Seq<SnapshotView>, id: Seq<char>) -> Result<
    Seq<char>,
    SnapshotError,
> {
    if first_with_id(snapshots, id) >= snapshots.len() {
        Err(SnapshotError::SnapshotNotFound)
    } else if has_child(snapshots, id) {
        Err(SnapshotError::InvalidRelationship)
    } else {
        Ok(snapshots[first_with_id(snapshots, id)].path)
    }
}

/// The records of a list of snapshots.
pub open spec fn snapshot_views(v: Seq<Snapshot>) -> Seq<SnapshotView> {
    v.map_values(|s: Snapshot| s@)
}

/// The place of the first snapshot with the id, or the length of the list.
pub open spec fn first_with_id(snapshots: Seq<SnapshotView>, id: Seq<char>) -> int
    decreases snapshots.len(),
{
    if snapshots.len() == 0 {
        0
    } else if snapshots[0].id == id {
        0
    } else {
        1 + first_with_id(snapshots.drop_first(), id)
    }
}

/// The place of the first snapshot that lies at the path, or the length of
/// the list.
pub open spec fn first_at_path(snapshots: Seq<SnapshotView>, path: Seq<char>) -> int
    decreases snapshots.len(),
{
    if snapshots.len() == 0 {
        0
    } else if snapshots[0].path == path {
        0
    } else {
        1 + first_at_path(snapshots.drop_first(), path)
    }
}

/// `first_with_id` stays within the list, and finds the id where it stops
/// short of the end.
pub proof fn lemma_first_with_id(snapshots: Seq<SnapshotView>, id: Seq<char>)
    ensures
        0 <= first_with_id(snapshots, id) <= snapshots.len(),
        first_with_id(snapshots, id) < snapshots.len() ==> snapshots[first_with_id(
            snapshots,
            id,
        )].id == id,
        forall|j: int| 0 <= j < first_with_id(snapshots, id) ==> (#[trigger] snapshots[j]).id != id,
    decreases snapshots.len(),
{
    if snapshots.len() > 0 && snapshots[0].id != id {
        lemma_first_with_id(snapshots.drop_first(), id);
        assert forall|j: int| 0 <= j < first_with_id(snapshots, id) implies (
        #[trigger] snapshots[j]).id != id by {
            if j > 0 {
                assert(snapshots.drop_first()[j - 1] == snapshots[j]);
            }
        }
    }
}

/// `first_at_path` stays within the list, and finds the path where it stops
/// short of the end.
pub proof fn lemma_first_at_path(snapshots: Seq<SnapshotView>, path: Seq<char>)
    ensures
        0 <= first_at_path(snapshots, path) <= snapshots.len(),
        first_at_path(snapshots, path) < snapshots.len() ==> snapshots[first_at_path(
            snapshots,
            path,
        )].path == path,
        forall|j: int|
            0 <= j < first_at_path(snapshots, path) ==> (#[trigger] snapshots[j]).path != path,
    decreases snapshots.len(),
{
    if snapshots.len() > 0 && snapshots[0].path != path {
        lemma_first_at_path(snapshots.drop_first(), path);
        assert forall|j: int| 0 <= j < first_at_path(snapshots, path) implies (
        #[trigger] snapshots[j]).path != path by {
            if j > 0 {
                assert(snapshots.drop_first()[j - 1] == snapshots[j]);
            }
        }
    }
}

impl SnapshotManager {
    /// Where the snapshots lie.
    pub closed spec fn dir(&self) -> Seq<char> {
        self.snapshot_dir@
    }

    /// Whether snapshots are taken read-only.
    pub closed spec fn takes_read_only(&self) -> bool {
        self.read_only
    }

    /// The attributes that every new snapshot gets.
    pub closed spec fn defaults(&self) -> Map<Seq<char>, Seq<char>> {
        text_map(self.default_metadata@)
    }

    /// A manager for the snapshots below `snapshot_dir`.  Snapshots are
    /// taken read-only, without attributes.
    pub fn new(snapshot_dir: &str) -> (r: Self)
        ensures
            r.dir() == snapshot_dir@,
            r.takes_read_only(),
            r.defaults() == Map::<Seq<char>, Seq<char>>::empty(),
    {
        let r = SnapshotManager {
            snapshot_dir: String::from_str(snapshot_dir),
            read_only: true,
            default_metadata: StrMap::new(),
        };
        assert(r.defaults() =~= Map::<Seq<char>, Seq<char>>::empty());
        r
    }

    /// The same manager, taking snapshots read-only or not.
    pub fn read_only(self, read_only: bool) -> (r: Self)
        ensures
            r.dir() == self.dir(),
            r.takes_read_only() == read_only,
            r.defaults() == self.defaults(),
    {
        let mut m = self;
        m.read_only = read_only;
        m
    }

    /// The same manager with one more attribute for every new snapshot.
    pub fn with_metadata(self, key: &str, value: &str) -> (r: Self)
        ensures
            r.dir() == self.dir(),
            r.takes_read_only() == self.takes_read_only(),
            r.defaults() == self.defaults().insert(key@, value@),
    {
        let mut m = self;
        let mut attrs = StrMap::new();
        core::mem::swap(&mut attrs, &mut m.default_metadata);
        let ghost before = attrs@;
        let _old = attrs.insert(String::from_str(key), String::from_str(value));
        assert(text_map(attrs@) =~= text_map(before).insert(key@, value@));
        m.default_metadata = attrs;
        m
    }

    /// Where the snapshots lie.
    pub fn snapshot_dir(&self) -> (r: &str)
        ensures
            r@ == self.dir(),
    {
        self.snapshot_dir.as_str()
    }

    /// The attributes of a new snapshot: those of the manager, and the
    /// description where one is given.
    pub fn snapshot_metadata(&self, description: Option<&str>) -> (r: StrMap<String>)
        ensures
            text_map(r@) == (match description {
                Some(d) => self.defaults().insert("description"@, d@),
                None => self.defaults(),
            }),
    {
        let mut attrs = self.default_metadata.copy();
        match description {
            Some(d) => {
                let ghost before = attrs@;
                let _old = attrs.insert(String::from_str("description"), String::from_str(d));
                assert(text_map(attrs@) =~= text_map(before).insert("description"@, d@));
            },
            None => {},
        }
        attrs
    }

    /// What taking a full snapshot of `subvolume` does, at the time `stamp`.
    pub fn create_snapshot(&self, subvolume: &str, stamp: &str) -> (r: SnapshotPlan)
        ensures
            r.source@ == subvolume@,
            r.dest@ == joined(self.dir(), snapshot_name_of(subvolume@, stamp@)),
            r.read_only == self.takes_read_only(),
    {
        Snapshot::plan(subvolume, self.snapshot_dir.as_str(), self.read_only, stamp)
    }

    /// What taking a snapshot of `subvolume` relative to `parent` does, at
    /// the time `stamp`.  The parent is looked up by its id among the
    /// snapshots that exist; where it is missing nothing is taken.
    pub fn create_incremental_snapshot(
        &self,
        snapshots: &Vec<Snapshot>,
        subvolume: &str,
        parent: &Snapshot,
        stamp: &str,
    ) -> (r: Result<SnapshotPlan, SnapshotError>)
        ensures
            r is Ok <==> first_with_id(snapshot_views(snapshots@), parent.id@) < snapshots@.len(),
            r matches Ok(p) ==> p.source@ == subvolume@ && p.dest@ == joined(
                self.dir(),
                snapshot_name_of(subvolume@, stamp@),
            ) && p.read_only == self.takes_read_only(),
            r matches Err(e) ==> e == SnapshotError::SnapshotNotFound,
    {
        match Self::find_snapshot(snapshots, parent.id.as_str()) {
            Some(_) => Ok(
                Snapshot::plan(subvolume, self.snapshot_dir.as_str(), self.read_only, stamp),
            ),
            None => Err(SnapshotError::SnapshotNotFound),
        }
    }

    /// The file in which a snapshot says what it is.
    pub fn info_path(snapshot_path: &str) -> (r: String)
        ensures
            r@ == joined(snapshot_path@, ".snapinfo"@),
    {
        join(snapshot_path, ".snapinfo")
    }

    /// The first snapshot of a listing with the given id.
    pub fn find_snapshot<'a>(snapshots: &'a Vec<Snapshot>, id: &str) -> (r: Option<&'a Snapshot>)
        ensures
            match r {
                Some(s) => first_with_id(snapshot_views(snapshots@), id@) < snapshots@.len()
                    && s@ == snapshot_views(snapshots@)[first_with_id(
                    snapshot_views(snapshots@),
                    id@,
                )],
                None => first_with_id(snapshot_views(snapshots@), id@) == snapshots@.len(),
            },
            r matches Some(s) ==> s.id@ == id@,
            r is None ==> forall|j: int| 0 <= j < snapshots@.len() ==> (#[trigger] snapshots@[j]).id@ != id@,
    {
        let ghost all = snapshot_views(snapshots@);
        let mut i: usize = 0;
        proof {
            assert(all.skip(0) =~= all);
            lemma_first_with_id(all, id@);
            assert forall|j: int| 0 <= j < snapshots@.len() implies (#[trigger] snapshots@[j]).id@
                == all[j].id by {}
        }
        while i < snapshots.len()
            invariant
                i <= snapshots@.len(),
                all == snapshot_views(snapshots@),
                first_with_id(all, id@) == i + first_with_id(all.skip(i as int), id@),
            decreases snapshots@.len() - i,
        {
            assert(all.skip(i as int)[0] == all[i as int]);
            if *snapshots[i].id.as_str() == *id {
                return Some(&snapshots[i]);
            }
            assert(all.skip(i as int).drop_first() =~= all.skip(i + 1));
            i += 1;
        }
        None
    }

    /// The first snapshot of a listing that lies at the given path.
    pub fn find_by_path<'a>(snapshots: &'a Vec<Snapshot>, path: &str) -> (r: Option<&'a Snapshot>)
        ensures
            match r {
                Some(s) => first_at_path(snapshot_views(snapshots@), path@) < snapshots@.len()
                    && s@ == snapshot_views(snapshots@)[first_at_path(
                    snapshot_views(snapshots@),
                    path@,
                )],
                None => first_at_path(snapshot_views(snapshots@), path@) == snapshots@.len(),
            },
            r matches Some(s) ==> s.path@ == path@,
            r is None ==> forall|j: int|
                0 <= j < snapshots@.len() ==> (#[trigger] snapshots@[j]).path@ != path@,
    {
        let ghost all = snapshot_views(snapshots@);
        let mut i: usize = 0;
        proof {
            assert(all.skip(0) =~= all);
            lemma_first_at_path(all, path@);
            assert forall|j: int| 0 <= j < snapshots@.len() implies (
            #[trigger] snapshots@[j]).path@ == all[j].path by {}
        }
        while i < snapshots.len()
            invariant
                i <= snapshots@.len(),
                all == snapshot_views(snapshots@),
                first_at_path(all, path@) == i + first_at_path(all.skip(i as int), path@),
            decreases snapshots@.len() - i,
        {
            assert(all.skip(i as int)[0] == all[i as int]);
            if *snapshots[i].path.as_str() == *path {
                return Some(&snapshots[i]);
            }
            assert(all.skip(i as int).drop_first() =~= all.skip(i + 1));
            i += 1;
        }
        None
    }

    /// True when a snapshot of the listing names `id` as its parent.
    pub fn has_children(snapshots: &Vec<Snapshot>, id: &str) -> (r: bool)
        ensures
            r == has_child(snapshot_views(snapshots@), id@),
    {
        let ghost all = snapshot_views(snapshots@);
        let mut i: usize = 0;
        while i < snapshots.len()
            invariant
                i <= snapshots@.len(),
                all == snapshot_views(snapshots@),
                forall|j: int| 0 <= j < i ==> (#[trigger] all[j]).parent_id != Some(id@),
            decreases snapshots@.len() - i,
        {
            assert(all[i as int] == snapshots@[i as int]@);
            match &snapshots[i].parent_id {
                Some(p) => {
                    if *p.as_str() == *id {
                        assert(all[i as int].parent_id == Some(id@));
                        return true;
                    }
                },
                None => {},
            }
            i += 1;
        }
        false
    }

    /// The path of the snapshot that is to be deleted for the given id.  A
    /// snapshot that the listing does not hold is not found; one that
    /// another snapshot names as its parent is not deleted before that one.
    pub fn delete_snapshot(snapshots: &Vec<Snapshot>, id: &str) -> (r: Result<
        String,
        SnapshotError,
    >)
        ensures
            r is Ok == deletion(snapshot_views(snapshots@), id@) is Ok,
            r matches Ok(p) ==> deletion(snapshot_views(snapshots@), id@) == Ok::<
                Seq<char>,
                SnapshotError,
            >(p@),
            r matches Err(e) ==> deletion(snapshot_views(snapshots@), id@) == Err::<
                Seq<char>,
                SnapshotError,
            >(e),
    {
        match Self::find_snapshot(snapshots, id) {
            Some(s) => {
                if Self::has_children(snapshots, id) {
                    Err(SnapshotError::InvalidRelationship)
                } else {
                    Ok(s.path.clone())
                }
            },
            None => Err(SnapshotError::SnapshotNotFound),
        }
    }

    /// The snapshots of a listing: for every subvolume that was found, with
    /// what the snapshot says of itself, the record made of the two.  A
    /// snapshot that names no id gets a random one; the listing fails only
    /// where one is needed and the operating system gave no random bytes.
    pub fn list_snapshots(found: Vec<(Subvolume, StrMap<String>)>) -> (r: Result<
        Vec<Snapshot>,
        SnapshotError,
    >)
        ensures
            (forall|i: int| 0 <= i < found@.len() ==> (#[trigger] found@[i]).1@.contains_key("id"@))
                ==> r is Ok,
            r matches Ok(v) ==> v@.len() == found@.len() && forall|i: int|
                0 <= i < v@.len() ==> listed_as((#[trigger] v@[i])@, found@[i].0, found@[i].1@),
            r matches Err(e) ==> e == SnapshotError::RandomSource,
    {
        let ghost all = found@;
        let mut rest = found;
        let mut rev: Vec<Snapshot> = Vec::new();
        while rest.len() > 0
            invariant
                rest@.len() <= all.len(),
                rest@ == all.take(rest@.len() as int),
                rev@.len() == all.len() - rest@.len(),
                all == found@,
                forall|k: int|
                    0 <= k < rev@.len() ==> listed_as(
                        (#[trigger] rev@[k])@,
                        all[all.len() - 1 - k].0,
                        all[all.len() - 1 - k].1@,
                    ),
            decreases rest@.len(),
        {
            let (subvolume, info) = rest.pop().unwrap();
            let ghost i = rest@.len() as int;
            assert((subvolume, info) == all[i]);
            let s = if info.get("id").is_some() {
                Snapshot::from_listing(&subvolume, info, String::from_str(""))
            } else {
                match random_uuid(os_random(UUID_BYTES)) {
                    Some(uuid) => {
                        let s = Snapshot::from_listing(&subvolume, info, snapshot_id(uuid));
                        assert(s@.id == snapshot_id_of(uuid));
                        s
                    },
                    None => {
                        return Err(SnapshotError::RandomSource);
                    },
                }
            };
            rev.push(s);
        }
        let mut out: Vec<Snapshot> = Vec::new();
        while rev.len() > 0
            invariant
                rev@.len() + out@.len() == all.len(),
                forall|k: int|
                    0 <= k < rev@.len() ==> listed_as(
                        (#[trigger] rev@[k])@,
                        all[all.len() - 1 - k].0,
                        all[all.len() - 1 - k].1@,
                    ),
                forall|k: int|
                    0 <= k < out@.len() ==> listed_as((#[trigger] out@[k])@, all[k].0, all[k].1@),
            decreases rev@.len(),
        {
            let s = rev.pop().unwrap();
            out.push(s);
        }
        Ok(out)
    }
}

/// The record `s` is what a listing makes of the subvolume `found` that
/// says `info` of itself.
pub open spec fn listed_as(s: SnapshotView, found: Subvolume, info: Map<Seq<char>, String>) -> bool {
    &&& s.path == found.path@
    &&& s.read_only == found.read_only
    &&& s.created_at == found.created_at
    &&& s.size == found.size
    &&& s.metadata == text_map(info)
    &&& info.contains_key("id"@) ==> s.id == info["id"@]@
    &&& !info.contains_key("id"@) ==> exists|u: u128| s.id == #[trigger] snapshot_id_of(u)
    &&& s.subvolume == (if info.contains_key("subvolume"@) {
        info["subvolume"@]@
    } else {
        "unknown"@
    })
    &&& s.parent_id == (if info.contains_key("parent_id"@) {
        Some(info["parent_id"@]@)
    } else {
        None
    })
}

} // verus!

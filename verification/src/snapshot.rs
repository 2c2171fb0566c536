//! The lineage index: snapshots and the tree that their parents form.
//!
//! Snapshots refer to each other by id.  The index holds them in a map by
//! id, and keeps the order in which they were added, so a parent always
//! stands before its children and the records form a forest.

use crate::clock::utc_now;
use crate::ident::{random_uuid, UUID_BYTES};
use crate::random::os_random;
use crate::strmap::{text_map, StrMap};
use crate::text::{copy_opt, opt_text};
use std::collections::HashMap;
use vstd::prelude::*;
use vstd::string::*;

verus! {

/// What a snapshot record says, as plain values.
#[verifier::ext_equal]
pub struct SnapshotView {
    pub id: u128,
    pub name: Seq<char>,
    pub description: Option<Seq<char>>,
    pub path: Seq<char>,
    pub read_only: bool,
    pub created_at: i64,
    pub parent_id: Option<u128>,
    pub children_ids: Seq<u128>,
    pub system_version: Option<Seq<char>>,
    pub metadata: Map<Seq<char>, Seq<char>>,
}

/// A point-in-time copy of a subvolume.
pub struct Snapshot {
    /// The id by which the index finds the snapshot.
    pub id: u128,
    /// The name that the user gave.
    pub name: String,
    /// What the user said of it.
    pub description: Option<String>,
    /// Where the snapshot lies in the filesystem.
    pub path: String,
    /// Whether the snapshot is read-only.
    pub read_only: bool,
    /// When it was taken, in microseconds since 1970, UTC.
    pub created_at: i64,
    /// The snapshot that this one was taken from.
    pub parent_id: Option<u128>,
    /// The snapshots that were taken from this one.
    pub children_ids: Vec<u128>,
    /// The release of the system that the snapshot holds.
    pub system_version: Option<String>,
    /// Free-form attributes.
    pub metadata: StrMap<String>,
}

impl View for Snapshot {
    type V = SnapshotView;

    open spec fn view(&self) -> SnapshotView {
        SnapshotView {
            id: self.id,
            name: self.name@,
            description: opt_text(self.description),
            path: self.path@,
            read_only: self.read_only,
            created_at: self.created_at,
            parent_id: self.parent_id,
            children_ids: self.children_ids@,
            system_version: opt_text(self.system_version),
            metadata: text_map(self.metadata@),
        }
    }
}

/// The record of a snapshot that was just taken: read-only, without
/// description, children, version or attributes.
pub open spec fn fresh_record(
    id: u128,
    created_at: i64,
    name: Seq<char>,
    path: Seq<char>,
    parent_id: Option<u128>,
) -> SnapshotView {
    SnapshotView {
        id,
        name,
        description: None,
        path,
        read_only: true,
        created_at,
        parent_id,
        children_ids: Seq::empty(),
        system_version: None,
        metadata: Map::empty(),
    }
}

/// The id of an optional snapshot.
pub open spec fn id_of(parent: Option<&Snapshot>) -> Option<u128> {
    match parent {
        Some(p) => Some(p.id),
        None => None,
    }
}

/// A copy of a list of ids.
pub fn copy_ids(ids: &Vec<u128>) -> (r: Vec<u128>)
    ensures
        r@ == ids@,
{
    let mut out: Vec<u128> = Vec::new();
    let mut i: usize = 0;
    while i < ids.len()
        invariant
            i <= ids@.len(),
            out@ == ids@.take(i as int),
        decreases ids@.len() - i,
    {
        out.push(ids[i]);
        assert(ids@.take(i + 1) =~= ids@.take(i as int).push(ids@[i as int]));
        i += 1;
    }
    assert(ids@.take(i as int) =~= ids@);
    out
}

impl Snapshot {
    /// The record of a snapshot with the given id and time of creation.
    pub fn with_identity(
        id: u128,
        created_at: i64,
        name: &str,
        path: &str,
        parent: Option<&Snapshot>,
    ) -> (r: Self)
        ensures
            r@ == fresh_record(id, created_at, name@, path@, id_of(parent)),
    {
        let parent_id = match parent {
            Some(p) => Some(p.id),
            None => None,
        };
        let r = Snapshot {
            id,
            name: String::from_str(name),
            description: None,
            path: String::from_str(path),
            read_only: true,
            created_at,
            parent_id,
            children_ids: Vec::new(),
            system_version: None,
            metadata: StrMap::new(),
        };
        assert(r@.metadata =~= Map::<Seq<char>, Seq<char>>::empty());
        r
    }

    /// The record of a snapshot taken now, under a fresh random id.  It
    /// fails only where the operating system gave no random bytes, or no
    /// time.
    pub fn new(name: &str, path: &str, parent: Option<&Snapshot>) -> (r: Result<
        Self,
        SnapshotTreeError,
    >)
        ensures
            r matches Ok(s) ==> s@ == fresh_record(
                s.id,
                s.created_at,
                name@,
                path@,
                id_of(parent),
            ),
            r matches Err(e) ==> e == SnapshotTreeError::RandomSource || e
                == SnapshotTreeError::Clock,
    {
        match random_uuid(os_random(UUID_BYTES)) {
            Some(id) => match utc_now() {
                Some(now) => Ok(Self::with_identity(id, now, name, path, parent)),
                None => Err(SnapshotTreeError::Clock),
            },
            None => Err(SnapshotTreeError::RandomSource),
        }
    }

    /// The same record with a description.
    pub fn with_description(self, description: &str) -> (r: Self)
        ensures
            r@ == (SnapshotView { description: Some(description@), ..self@ }),
    {
        let mut s = self;
        s.description = Some(String::from_str(description));
        s
    }

    /// The same record with a system version.
    pub fn with_system_version(self, version: &str) -> (r: Self)
        ensures
            r@ == (SnapshotView { system_version: Some(version@), ..self@ }),
    {
        let mut s = self;
        s.system_version = Some(String::from_str(version));
        s
    }

    /// The same record with one attribute set.
    pub fn with_metadata(self, key: &str, value: &str) -> (r: Self)
        ensures
            r@ == (SnapshotView { metadata: self@.metadata.insert(key@, value@), ..self@ }),
    {
        let mut s = self;
        let _old = s.metadata.insert(String::from_str(key), String::from_str(value));
        assert(text_map(s.metadata@) =~= text_map(self.metadata@).insert(key@, value@));
        s
    }

    /// A copy of the record.
    pub fn copy(&self) -> (r: Self)
        ensures
            r@ == self@,
    {
        Snapshot {
            id: self.id,
            name: self.name.clone(),
            description: copy_opt(&self.description),
            path: self.path.clone(),
            read_only: self.read_only,
            created_at: self.created_at,
            parent_id: self.parent_id,
            children_ids: copy_ids(&self.children_ids),
            system_version: copy_opt(&self.system_version),
            metadata: self.metadata.copy(),
        }
    }
}

/// Why the index refused.
#[derive(Debug)]
pub enum SnapshotTreeError {
    /// No snapshot has this id.
    SnapshotNotFound(u128),
    /// A path cannot be handed to the filesystem tool.
    InvalidPath(String),
    /// The relation between parent and child does not allow it.
    InvalidRelationship,
    /// A snapshot would become its own ancestor.
    CircularReference,
    /// The filesystem tool failed with this status.
    Btrfs(i32),
    /// The operating system failed.
    Io(String),
    /// The operating system gave no random bytes for an id.
    RandomSource,
    /// The clock of the system cannot be read as a time.
    Clock,
}

/// True when one of the records has this id.
pub open spec fn has_id(nodes: Seq<SnapshotView>, id: u128) -> bool {
    exists|i: int| 0 <= i < nodes.len() && (#[trigger] nodes[i]).id == id
}

/// The place of the record with this id, where there is one.
pub open spec fn place_of(nodes: Seq<SnapshotView>, id: u128) -> int {
    choose|i: int| 0 <= i < nodes.len() && (#[trigger] nodes[i]).id == id
}

/// No id occurs twice.
pub open spec fn ids_unique(nodes: Seq<SnapshotView>) -> bool {
    forall|i: int, j: int|
        0 <= i < j < nodes.len() ==> (#[trigger] nodes[i]).id != (#[trigger] nodes[j]).id
}

/// The record at place `i` has its parent before it, and the parent lists it
/// as a child.
pub open spec fn parent_before(nodes: Seq<SnapshotView>, i: int) -> bool {
    nodes[i].parent_id matches Some(p) ==> exists|j: int|
        0 <= j < i && (#[trigger] nodes[j]).id == p && nodes[j].children_ids.contains(nodes[i].id)
}

/// The records form a forest: ids are unique, and every record that names a
/// parent stands after it and is listed among its children.  So no record is
/// its own ancestor.
pub open spec fn is_forest(nodes: Seq<SnapshotView>) -> bool {
    &&& ids_unique(nodes)
    &&& forall|i: int| 0 <= i < nodes.len() ==> #[trigger] parent_before(nodes, i)
}

/// The same record with one more child.
pub open spec fn record_child(s: SnapshotView, child: u128) -> SnapshotView {
    SnapshotView { children_ids: s.children_ids.push(child), ..s }
}

/// The test for an id other than `gone`.
pub open spec fn other_than(gone: u128) -> spec_fn(u128) -> bool {
    |c: u128| c != gone
}

/// The same record without the child `child`.
pub open spec fn forget_child(s: SnapshotView, child: u128) -> SnapshotView {
    SnapshotView { children_ids: s.children_ids.filter(other_than(child)), ..s }
}

/// The index after `s` was added, or why it is refused: an id that is taken
/// cannot be added again, and a parent must be there before its child.
pub open spec fn add_result(nodes: Seq<SnapshotView>, s: SnapshotView) -> Result<
    Seq<SnapshotView>,
    SnapshotTreeError,
> {
    if has_id(nodes, s.id) {
        Err(SnapshotTreeError::InvalidRelationship)
    } else {
        match s.parent_id {
            None => Ok(nodes.push(s)),
            Some(p) => if has_id(nodes, p) {
                let j = place_of(nodes, p);
                Ok(nodes.update(j, record_child(nodes[j], s.id)).push(s))
            } else {
                Err(SnapshotTreeError::SnapshotNotFound(p))
            },
        }
    }
}

/// The index after the record with this id was taken out, or why that is
/// refused: the record must be there and must list no children.
pub open spec fn remove_result(nodes: Seq<SnapshotView>, id: u128) -> Result<
    Seq<SnapshotView>,
    SnapshotTreeError,
> {
    if !has_id(nodes, id) {
        Err(SnapshotTreeError::SnapshotNotFound(id))
    } else {
        let i = place_of(nodes, id);
        if nodes[i].children_ids.len() > 0 {
            Err(SnapshotTreeError::InvalidRelationship)
        } else {
            match nodes[i].parent_id {
                Some(p) => if has_id(nodes, p) {
                    let j = place_of(nodes, p);
                    Ok(nodes.update(j, forget_child(nodes[j], id)).remove(i))
                } else {
                    Ok(nodes.remove(i))
                },
                None => Ok(nodes.remove(i)),
            }
        }
    }
}

/// The records with no parent, in the order of the index.
pub open spec fn roots_of(nodes: Seq<SnapshotView>) -> Seq<SnapshotView> {
    nodes.filter(|s: SnapshotView| s.parent_id is None)
}

/// The record for an id, if there is one.
pub open spec fn lookup(nodes: Seq<SnapshotView>, id: u128) -> Option<SnapshotView> {
    if has_id(nodes, id) {
        Some(nodes[place_of(nodes, id)])
    } else {
        None
    }
}

/// The records for a list of ids, in the order of the list; ids without a
/// record are passed over.
pub open spec fn lookup_all(nodes: Seq<SnapshotView>, ids: Seq<u128>) -> Seq<SnapshotView> {
    ids.filter_map(|id: u128| lookup(nodes, id))
}

/// The children of a record: the records for the ids that it lists.
pub open spec fn children_of(nodes: Seq<SnapshotView>, id: u128) -> Seq<SnapshotView> {
    match lookup(nodes, id) {
        Some(s) => lookup_all(nodes, s.children_ids),
        None => Seq::empty(),
    }
}

/// The parent of a record, if the record is there and names one that is
/// there.
pub open spec fn parent_of(nodes: Seq<SnapshotView>, id: u128) -> Option<SnapshotView> {
    match lookup(nodes, id) {
        Some(s) => match s.parent_id {
            Some(p) => lookup(nodes, p),
            None => None,
        },
        None => None,
    }
}

/// The records from a root down to the record at place `i`.
pub open spec fn path_from(nodes: Seq<SnapshotView>, i: int) -> Seq<SnapshotView>
    decreases i,
{
    if 0 <= i < nodes.len() {
        match nodes[i].parent_id {
            Some(p) => {
                let j = place_of(nodes, p);
                if has_id(nodes, p) && j < i {
                    path_from(nodes, j).push(nodes[i])
                } else {
                    seq![nodes[i]]
                }
            },
            None => seq![nodes[i]],
        }
    } else {
        Seq::empty()
    }
}

/// The records from a root down to the record with this id; empty where no
/// record has the id.
pub open spec fn path_to(nodes: Seq<SnapshotView>, id: u128) -> Seq<SnapshotView> {
    if has_id(nodes, id) {
        path_from(nodes, place_of(nodes, id))
    } else {
        Seq::empty()
    }
}

/// In a forest, a record is found at one place only.
pub proof fn lemma_place_unique(nodes: Seq<SnapshotView>, i: int)
    requires
        ids_unique(nodes),
        0 <= i < nodes.len(),
    ensures
        has_id(nodes, nodes[i].id),
        place_of(nodes, nodes[i].id) == i,
{
    let j = place_of(nodes, nodes[i].id);
    assert(0 <= j < nodes.len() && nodes[j].id == nodes[i].id);
    if j < i {
        assert(nodes[j].id != nodes[i].id);
    } else if i < j {
        assert(nodes[i].id != nodes[j].id);
    }
}

/// Adding a record keeps the forest.
pub proof fn lemma_add_keeps_forest(nodes: Seq<SnapshotView>, s: SnapshotView)
    requires
        is_forest(nodes),
        add_result(nodes, s) is Ok,
    ensures
        is_forest(add_result(nodes, s)->Ok_0),
{
    let after = add_result(nodes, s)->Ok_0;
    let n = nodes.len() as int;
    assert(after.len() == n + 1);
    assert forall|k: int| 0 <= k < n implies (#[trigger] after[k]).id == nodes[k].id
        && after[k].parent_id == nodes[k].parent_id && (forall|c: u128|
        nodes[k].children_ids.contains(c) ==> after[k].children_ids.contains(c)) by {
        if s.parent_id is Some && has_id(nodes, s.parent_id->0) && k == place_of(
            nodes,
            s.parent_id->0,
        ) {
            assert forall|c: u128| nodes[k].children_ids.contains(c) implies after[k].children_ids.contains(
                c,
            ) by {
                let w = choose|w: int|
                    0 <= w < nodes[k].children_ids.len() && nodes[k].children_ids[w] == c;
                assert(after[k].children_ids[w] == c);
            }
        }
    }
    assert(after[n] == s);
    assert forall|i: int, j: int| 0 <= i < j < after.len() implies (#[trigger] after[i]).id != (
    #[trigger] after[j]).id by {
        if j < n {
            assert(nodes[i].id != nodes[j].id);
        } else {
            assert(nodes[i].id == after[i].id);
        }
    }
    assert forall|i: int| 0 <= i < after.len() implies #[trigger] parent_before(after, i) by {
        if i < n {
            assert(parent_before(nodes, i));
            if nodes[i].parent_id is Some {
                let p = nodes[i].parent_id->0;
                let j = choose|j: int|
                    0 <= j < i && (#[trigger] nodes[j]).id == p && nodes[j].children_ids.contains(
                        nodes[i].id,
                    );
                assert(after[j].id == p);
                assert(after[j].children_ids.contains(after[i].id));
            }
        } else {
            if s.parent_id is Some {
                let p = s.parent_id->0;
                let j = place_of(nodes, p);
                assert(0 <= j < n && nodes[j].id == p);
                assert(after[j].children_ids == nodes[j].children_ids.push(s.id));
                assert(after[j].children_ids[nodes[j].children_ids.len() as int] == s.id);
                assert(after[j].id == p);
            }
        }
    }
}

/// What `filter` keeps of a list of ids.
pub proof fn lemma_forget_keeps_others(ids: Seq<u128>, gone: u128, c: u128)
    requires
        ids.contains(c),
        c != gone,
    ensures
        ids.filter(other_than(gone)).contains(c),
        !ids.filter(other_than(gone)).contains(gone),
    decreases ids.len(),
{
    reveal(Seq::filter);
    let pred = other_than(gone);
    let w = choose|w: int| 0 <= w < ids.len() && ids[w] == c;
    if w == ids.len() - 1 {
        let f = ids.drop_last().filter(pred);
        assert(ids.filter(pred) == f.push(c));
        assert(f.push(c)[f.len() as int] == c);
    } else {
        assert(ids.drop_last()[w] == c);
        lemma_forget_keeps_others(ids.drop_last(), gone, c);
        let f = ids.drop_last().filter(pred);
        let v = choose|v: int| 0 <= v < f.len() && f[v] == c;
        if pred(ids.last()) {
            assert(f.push(ids.last())[v] == c);
        }
    }
    lemma_forget_drops(ids, gone);
}

/// `filter` keeps none of what it drops.
pub proof fn lemma_forget_drops(ids: Seq<u128>, gone: u128)
    ensures
        !ids.filter(other_than(gone)).contains(gone),
    decreases ids.len(),
{
    reveal(Seq::filter);
    let pred = other_than(gone);
    if ids.len() > 0 {
        lemma_forget_drops(ids.drop_last(), gone);
        let f = ids.drop_last().filter(pred);
        if pred(ids.last()) {
            assert forall|v: int| 0 <= v < f.push(ids.last()).len() implies f.push(ids.last())[v]
                != gone by {
                if v < f.len() {
                    if f[v] == gone {
                        assert(f.contains(gone));
                    }
                }
            }
        }
    }
}

/// Taking a record out keeps the forest.
pub proof fn lemma_remove_keeps_forest(nodes: Seq<SnapshotView>, id: u128)
    requires
        is_forest(nodes),
        remove_result(nodes, id) is Ok,
    ensures
        is_forest(remove_result(nodes, id)->Ok_0),
{
    let after = remove_result(nodes, id)->Ok_0;
    let r = place_of(nodes, id);
    assert(0 <= r < nodes.len() && nodes[r].id == id);
    let n = nodes.len() as int;
    assert(after.len() == n - 1);
    let mid = if nodes[r].parent_id is Some && has_id(nodes, nodes[r].parent_id->0) {
        let j = place_of(nodes, nodes[r].parent_id->0);
        nodes.update(j, forget_child(nodes[j], id))
    } else {
        nodes
    };
    assert(after == mid.remove(r));
    assert forall|k: int| 0 <= k < n implies (#[trigger] mid[k]).id == nodes[k].id
        && mid[k].parent_id == nodes[k].parent_id && (forall|c: u128|
        nodes[k].children_ids.contains(c) && c != id ==> mid[k].children_ids.contains(c)) by {
        assert forall|c: u128| nodes[k].children_ids.contains(c) && c != id implies mid[k].children_ids.contains(
            c,
        ) by {
            if mid[k] != nodes[k] {
                lemma_forget_keeps_others(nodes[k].children_ids, id, c);
            }
        }
    }
    // No record names the one that goes as its parent.
    assert forall|k: int| 0 <= k < n implies (#[trigger] nodes[k]).parent_id != Some(id) by {
        if nodes[k].parent_id == Some(id) {
            assert(parent_before(nodes, k));
            let j = choose|j: int|
                0 <= j < k && (#[trigger] nodes[j]).id == id && nodes[j].children_ids.contains(
                    nodes[k].id,
                );
            lemma_place_unique(nodes, j);
            assert(j == r);
            assert(nodes[r].children_ids.len() > 0);
        }
    }
    assert forall|i: int, j: int| 0 <= i < j < after.len() implies (#[trigger] after[i]).id != (
    #[trigger] after[j]).id by {
        let ii = if i < r { i } else { i + 1 };
        let jj = if j < r { j } else { j + 1 };
        assert(after[i] == mid[ii]);
        assert(after[j] == mid[jj]);
        assert(nodes[ii].id != nodes[jj].id);
    }
    assert forall|i: int| 0 <= i < after.len() implies #[trigger] parent_before(after, i) by {
        let ii = if i < r { i } else { i + 1 };
        assert(after[i] == mid[ii]);
        assert(parent_before(nodes, ii));
        if nodes[ii].parent_id is Some {
            let p = nodes[ii].parent_id->0;
            let j = choose|j: int|
                0 <= j < ii && (#[trigger] nodes[j]).id == p && nodes[j].children_ids.contains(
                    nodes[ii].id,
                );
            assert(nodes[ii].parent_id != Some(id));
            assert(j != r);
            let jj = if j < r { j } else { j - 1 };
            assert(after[jj] == mid[j]);
            assert(nodes[ii].id != id) by {
                if ii < r {
                    assert(nodes[ii].id != nodes[r].id);
                } else {
                    assert(nodes[r].id != nodes[ii].id);
                }
            }
            assert(mid[j].children_ids.contains(nodes[ii].id));
            assert(0 <= jj < i);
        }
    }
}

/// The lineage index: the snapshots by id, and the ids in the order in
/// which the snapshots were added.
pub struct SnapshotTree {
    snapshots: HashMap<u128, Snapshot>,
    order: Vec<u128>,
}

/// The records of a list of borrowed snapshots.
pub open spec fn records_of_refs(nodes: Seq<&Snapshot>) -> Seq<SnapshotView> {
    nodes.map_values(|s: &Snapshot| s@)
}

/// The records of the snapshots of a map, in the order of a list of ids.
pub open spec fn listed(snapshots: Map<u128, Snapshot>, order: Seq<u128>) -> Seq<SnapshotView> {
    Seq::new(order.len(), |i: int| snapshots[order[i]]@)
}

/// Map and list hold the same snapshots: every id of the list has its
/// snapshot in the map, under its own id, and the map holds no other.
pub open spec fn in_step(snapshots: Map<u128, Snapshot>, order: Seq<u128>) -> bool {
    &&& forall|i: int|
        0 <= i < order.len() ==> snapshots.contains_key(#[trigger] order[i])
            && snapshots[order[i]].id == order[i]
    &&& forall|k: u128| snapshots.contains_key(k) ==> order.contains(k)
}

/// The map holds an id exactly when a record of the list has it, and then
/// holds that record under it.
proof fn lemma_listed_lookup(snapshots: Map<u128, Snapshot>, order: Seq<u128>, id: u128)
    requires
        in_step(snapshots, order),
        ids_unique(listed(snapshots, order)),
    ensures
        snapshots.contains_key(id) == has_id(listed(snapshots, order), id),
        snapshots.contains_key(id) ==> lookup(listed(snapshots, order), id) == Some(
            snapshots[id]@,
        ) && 0 <= place_of(listed(snapshots, order), id) < order.len() && order[place_of(
            listed(snapshots, order),
            id,
        )] == id,
{
    let l = listed(snapshots, order);
    if snapshots.contains_key(id) {
        assert(order.contains(id));
        let i = choose|i: int| 0 <= i < order.len() && order[i] == id;
        assert(l[i].id == id);
        lemma_place_unique(l, i);
    }
    if has_id(l, id) {
        let i = place_of(l, id);
        assert(l[i] == snapshots[order[i]]@);
        assert(snapshots.contains_key(order[i]));
    }
}

impl View for SnapshotTree {
    type V = Seq<SnapshotView>;

    closed spec fn view(&self) -> Seq<SnapshotView> {
        listed(self.snapshots@, self.order@)
    }
}

impl SnapshotTree {
    #[verifier::type_invariant]
    spec fn inv(&self) -> bool {
        &&& in_step(self.snapshots@, self.order@)
        &&& is_forest(listed(self.snapshots@, self.order@))
    }

    /// States what holds of every index: its records form a forest.
    pub fn note_forest(&self)
        ensures
            is_forest(self@),
    {
        proof {
            use_type_invariant(self);
        }
    }

    /// An empty index.
    pub fn new() -> (r: Self)
        ensures
            r@.len() == 0,
    {
        SnapshotTree { snapshots: HashMap::new(), order: Vec::new() }
    }

    /// The number of snapshots.
    pub fn len(&self) -> (r: usize)
        ensures
            r == self@.len(),
    {
        self.order.len()
    }

    /// The place of the snapshot with this id in the order of the index.
    fn place(&self, id: u128) -> (r: Option<usize>)
        ensures
            match r {
                Some(i) => has_id(self@, id) && i == place_of(self@, id) && i < self.order@.len()
                    && self.order@[i as int] == id,
                None => !has_id(self@, id),
            },
    {
        proof {
            use_type_invariant(self);
            lemma_listed_lookup(self.snapshots@, self.order@, id);
        }
        if !self.snapshots.contains_key(&id) {
            return None;
        }
        let mut i: usize = 0;
        while i < self.order.len()
            invariant
                i <= self.order@.len(),
                in_step(self.snapshots@, self.order@),
                is_forest(self@),
                self.snapshots@.contains_key(id),
                forall|j: int| 0 <= j < i ==> (#[trigger] self.order@[j]) != id,
            decreases self.order@.len() - i,
        {
            if self.order[i] == id {
                proof {
                    assert(self@[i as int].id == id);
                    lemma_place_unique(self@, i as int);
                }
                return Some(i);
            }
            i += 1;
        }
        proof {
            assert(self.order@.contains(id));
        }
        None
    }

    /// The snapshot at a place of the order of the index.
    fn at(&self, i: usize) -> (r: &Snapshot)
        requires
            i < self.order@.len(),
        ensures
            r@ == self@[i as int],
            r.id == self.order@[i as int],
    {
        proof {
            use_type_invariant(self);
        }
        let id = self.order[i];
        self.snapshots.get(&id).unwrap()
    }

    /// Adds a snapshot.  Its id must be new, and the parent that it names,
    /// if any, must be in the index already; the parent then lists it as a
    /// child.  A refused snapshot leaves the index as it was.
    pub fn add_snapshot(&mut self, snapshot: Snapshot) -> (r: Result<(), SnapshotTreeError>)
        ensures
            match add_result(old(self)@, snapshot@) {
                Ok(after) => r is Ok && final(self)@ == after,
                Err(e) => r == Err::<(), SnapshotTreeError>(e) && final(self)@ == old(self)@,
            },
    {
        let ghost before = self@;
        let id = snapshot.id;
        let parent_id = snapshot.parent_id;
        proof {
            use_type_invariant(&*self);
            lemma_listed_lookup(self.snapshots@, self.order@, id);
            if parent_id is Some {
                lemma_listed_lookup(self.snapshots@, self.order@, parent_id->0);
            }
        }
        if self.snapshots.contains_key(&id) {
            return Err(SnapshotTreeError::InvalidRelationship);
        }
        match parent_id {
            Some(p) => {
                if !self.snapshots.contains_key(&p) {
                    return Err(SnapshotTreeError::SnapshotNotFound(p));
                }
            },
            None => {},
        }
        let mut taken = SnapshotTree::new();
        core::mem::swap(&mut taken, self);
        let SnapshotTree { snapshots, order } = taken;
        let mut snapshots = snapshots;
        let mut order = order;
        let ghost old_map = snapshots@;
        let ghost old_order = order@;
        match parent_id {
            Some(p) => {
                let mut parent = snapshots.remove(&p).unwrap();
                parent.children_ids.push(id);
                let _old = snapshots.insert(p, parent);
            },
            None => {},
        }
        let ghost added = snapshot@;
        let _old = snapshots.insert(id, snapshot);
        order.push(id);
        proof {
            lemma_add_keeps_forest(before, added);
            let after = add_result(before, added)->Ok_0;
            let now = listed(snapshots@, order@);
            assert(now.len() == after.len());
            assert forall|k: int| 0 <= k < now.len() implies now[k] == after[k] by {
                if k < old_order.len() {
                    assert(order@[k] == old_order[k]);
                    assert(old_map.contains_key(old_order[k]));
                    assert(before[k].id == old_order[k]);
                    lemma_place_unique(before, k);
                }
            }
            assert(now =~= after);
            assert forall|k: u128| snapshots@.contains_key(k) implies order@.contains(k) by {
                if k == id {
                    assert(order@[order@.len() - 1] == id);
                } else {
                    assert(old_map.contains_key(k));
                    assert(old_order.contains(k));
                    let i = choose|i: int| 0 <= i < old_order.len() && old_order[i] == k;
                    assert(order@[i] == k);
                }
            }
            assert forall|k: int| 0 <= k < order@.len() implies snapshots@.contains_key(
                #[trigger] order@[k],
            ) && snapshots@[order@[k]].id == order@[k] by {
                if k < old_order.len() {
                    assert(order@[k] == old_order[k]);
                    assert(old_map.contains_key(old_order[k]));
                }
            }
        }
        *self = SnapshotTree { snapshots, order };
        Ok(())
    }

    /// The snapshot with this id.
    pub fn get_snapshot(&self, id: u128) -> (r: Option<&Snapshot>)
        ensures
            match r {
                Some(s) => lookup(self@, id) == Some(s@),
                None => lookup(self@, id) is None,
            },
    {
        proof {
            use_type_invariant(self);
            lemma_listed_lookup(self.snapshots@, self.order@, id);
        }
        self.snapshots.get(&id)
    }

    /// The snapshots without a parent, in the order in which they were added.
    pub fn get_roots(&self) -> (r: Vec<&Snapshot>)
        ensures
            records_of_refs(r@) == roots_of(self@),
    {
        let mut out: Vec<&Snapshot> = Vec::new();
        let mut i: usize = 0;
        let ghost pred = |s: SnapshotView| s.parent_id is None;
        proof {
            reveal(Seq::filter);
            assert(self@.take(0) =~= Seq::<SnapshotView>::empty());
        }
        while i < self.order.len()
            invariant
                i <= self.order@.len(),
                pred == |s: SnapshotView| s.parent_id is None,
                records_of_refs(out@) == self@.take(i as int).filter(pred),
            decreases self.order@.len() - i,
        {
            proof {
                reveal(Seq::filter);
                assert(self@.take(i + 1).drop_last() =~= self@.take(i as int));
                assert(self@.take(i + 1).last() == self@[i as int]);
            }
            if self.at(i).parent_id.is_none() {
                let ghost prev = out@;
                out.push(self.at(i));
                assert(records_of_refs(out@) =~= records_of_refs(prev).push(self@[i as int]));
            }
            i += 1;
        }
        assert(self@.take(i as int) =~= self@);
        out
    }

    /// All snapshots, in the order in which they were added.
    pub fn get_all_snapshots(&self) -> (r: Vec<&Snapshot>)
        ensures
            records_of_refs(r@) == self@,
    {
        let mut out: Vec<&Snapshot> = Vec::new();
        let mut i: usize = 0;
        while i < self.order.len()
            invariant
                i <= self.order@.len(),
                records_of_refs(out@) == self@.take(i as int),
            decreases self.order@.len() - i,
        {
            let ghost prev = out@;
            out.push(self.at(i));
            assert(records_of_refs(out@) =~= records_of_refs(prev).push(self@[i as int]));
            assert(self@.take(i + 1) =~= self@.take(i as int).push(self@[i as int]));
            i += 1;
        }
        assert(self@.take(i as int) =~= self@);
        out
    }

    /// The children of a snapshot: the snapshots that it lists, in the order
    /// of its list.  Empty where no snapshot has the id.
    pub fn get_children(&self, parent_id: u128) -> (r: Vec<&Snapshot>)
        ensures
            records_of_refs(r@) == children_of(self@, parent_id),
    {
        let mut out: Vec<&Snapshot> = Vec::new();
        match self.place(parent_id) {
            None => {
                assert(records_of_refs(out@) =~= Seq::<SnapshotView>::empty());
            },
            Some(pi) => {
                let ids = &self.at(pi).children_ids;
                let ghost f = |id: u128| lookup(self@, id);
                let mut k: usize = 0;
                assert(ids@.take(0) =~= Seq::<u128>::empty());
                while k < ids.len()
                    invariant
                        k <= ids@.len(),
                        f == |id: u128| lookup(self@, id),
                        records_of_refs(out@) == ids@.take(k as int).filter_map(f),
                    decreases ids@.len() - k,
                {
                    proof {
                        assert(ids@.take(k + 1).drop_last() =~= ids@.take(k as int));
                        assert(ids@.take(k + 1).last() == ids@[k as int]);
                    }
                    match self.place(ids[k]) {
                        Some(ci) => {
                            let ghost prev = out@;
                            out.push(self.at(ci));
                            assert(records_of_refs(out@) =~= records_of_refs(prev) + seq![
                                self@[ci as int],
                            ]);
                        },
                        None => {},
                    }
                    k += 1;
                }
                assert(ids@.take(k as int) =~= ids@);
            },
        }
        out
    }

    /// The parent of a snapshot.
    pub fn get_parent(&self, child_id: u128) -> (r: Option<&Snapshot>)
        ensures
            match r {
                Some(s) => parent_of(self@, child_id) == Some(s@),
                None => parent_of(self@, child_id) is None,
            },
    {
        match self.place(child_id) {
            None => None,
            Some(i) => match self.at(i).parent_id {
                None => None,
                Some(p) => self.get_snapshot(p),
            },
        }
    }

    /// The snapshots from a root down to the one with this id.  For a root
    /// that is the root alone; for an id without a snapshot it is empty.
    pub fn get_path_to_snapshot(&self, id: u128) -> (r: Option<Vec<&Snapshot>>)
        ensures
            r matches Some(path) && records_of_refs(path@) == path_to(self@, id),
            lookup(self@, id) matches Some(s) ==> (s.parent_id is None ==> (r matches Some(path)
                && records_of_refs(path@) == seq![s])),
    {
        proof {
            use_type_invariant(self);
        }
        let start = match self.place(id) {
            None => {
                let empty: Vec<&Snapshot> = Vec::new();
                assert(records_of_refs(empty@) =~= Seq::<SnapshotView>::empty());
                return Some(empty);
            },
            Some(i) => i,
        };
        let mut up: Vec<usize> = Vec::new();
        let mut cur: usize = start;
        loop
            invariant_except_break
                cur < self.order@.len(),
                is_forest(self@),
                forall|m: int| 0 <= m < up@.len() ==> (#[trigger] up@[m]) < self.order@.len(),
                path_from(self@, start as int) == path_from(self@, cur as int) + Seq::new(
                    up@.len(),
                    |m: int| self@[up@[up@.len() - 1 - m] as int],
                ),
            ensures
                forall|m: int| 0 <= m < up@.len() ==> (#[trigger] up@[m]) < self.order@.len(),
                path_from(self@, start as int) == Seq::new(
                    up@.len(),
                    |m: int| self@[up@[up@.len() - 1 - m] as int],
                ),
            decreases cur,
        {
            let ghost before = up@;
            let ghost tail = Seq::new(
                before.len(),
                |m: int| self@[before[before.len() - 1 - m] as int],
            );
            up.push(cur);
            let ghost longer = Seq::new(up@.len(), |m: int| self@[up@[up@.len() - 1 - m] as int]);
            proof {
                assert(longer =~= seq![self@[cur as int]] + tail);
            }
            let next = match self.at(cur).parent_id {
                None => None,
                Some(p) => self.place(p),
            };
            match next {
                Some(j) => {
                    proof {
                        assert(parent_before(self@, cur as int));
                        let p = self@[cur as int].parent_id->0;
                        let w = choose|w: int|
                            0 <= w < cur && (#[trigger] self@[w]).id == p
                                && self@[w].children_ids.contains(self@[cur as int].id);
                        lemma_place_unique(self@, w);
                        assert(j == w);
                        assert(path_from(self@, cur as int) == path_from(self@, j as int).push(
                            self@[cur as int],
                        ));
                        assert(path_from(self@, start as int) =~= path_from(self@, j as int)
                            + longer);
                    }
                    cur = j;
                },
                None => {
                    proof {
                        if self@[cur as int].parent_id is Some {
                            assert(parent_before(self@, cur as int));
                        }
                        assert(path_from(self@, cur as int) == seq![self@[cur as int]]);
                        assert(path_from(self@, start as int) =~= longer);
                    }
                    break ;
                },
            }
        }
        let mut path: Vec<&Snapshot> = Vec::new();
        let mut k: usize = up.len();
        let ghost want = Seq::new(up@.len(), |m: int| self@[up@[up@.len() - 1 - m] as int]);
        while k > 0
            invariant
                k <= up@.len(),
                forall|m: int| 0 <= m < up@.len() ==> (#[trigger] up@[m]) < self.order@.len(),
                want == Seq::new(up@.len(), |m: int| self@[up@[up@.len() - 1 - m] as int]),
                records_of_refs(path@) == want.take(up@.len() - k),
            decreases k,
        {
            k -= 1;
            let ghost prev = path@;
            path.push(self.at(up[k]));
            proof {
                assert(records_of_refs(path@) =~= records_of_refs(prev).push(self@[up@[k as int] as int]));
                assert(want.take(up@.len() - k) =~= want.take(up@.len() - k - 1).push(
                    want[up@.len() - k - 1],
                ));
            }
        }
        proof {
            assert(want.take(up@.len() as int) =~= want);
            if self@[start as int].parent_id is None {
                assert(path_from(self@, start as int) == seq![self@[start as int]]);
            }
        }
        Some(path)
    }

    /// Takes a snapshot out of the index and hands it back.  A snapshot that
    /// lists children stays, and so does the index; once the children are
    /// gone it can go.  The parent no longer lists a snapshot that went.
    pub fn remove_snapshot(&mut self, id: u128) -> (r: Result<Snapshot, SnapshotTreeError>)
        ensures
            match remove_result(old(self)@, id) {
                Ok(after) => r matches Ok(s) && lookup(old(self)@, id) == Some(s@) && final(self)@
                    == after,
                Err(e) => r matches Err(f) && f == e && final(self)@ == old(self)@,
            },
            lookup(old(self)@, id) matches Some(s) ==> (s.children_ids.len() > 0 ==> r is Err),
    {
        let ghost before = self@;
        proof {
            use_type_invariant(&*self);
            lemma_listed_lookup(self.snapshots@, self.order@, id);
        }
        let i = match self.place(id) {
            None => {
                return Err(SnapshotTreeError::SnapshotNotFound(id));
            },
            Some(i) => i,
        };
        let found = self.at(i);
        if found.children_ids.len() > 0 {
            return Err(SnapshotTreeError::InvalidRelationship);
        }
        let parent_id = found.parent_id;
        let parent_there = match parent_id {
            Some(p) => self.snapshots.contains_key(&p),
            None => false,
        };
        proof {
            if parent_id is Some {
                lemma_listed_lookup(self.snapshots@, self.order@, parent_id->0);
                assert(parent_before(before, i as int));
                assert(parent_there);
                assert(parent_id->0 != id);
            }
        }
        let mut taken = SnapshotTree::new();
        core::mem::swap(&mut taken, self);
        let SnapshotTree { snapshots, order } = taken;
        let mut snapshots = snapshots;
        let mut order = order;
        let ghost old_map = snapshots@;
        let ghost old_order = order@;
        let gone = snapshots.remove(&id).unwrap();
        match parent_id {
            Some(p) => {
                let mut parent = snapshots.remove(&p).unwrap();
                parent.children_ids = without_id(&parent.children_ids, id);
                let _old = snapshots.insert(p, parent);
            },
            None => {},
        }
        let _id = order.remove(i);
        proof {
            lemma_remove_keeps_forest(before, id);
            let after = remove_result(before, id)->Ok_0;
            let now = listed(snapshots@, order@);
            assert(now.len() == after.len());
            assert forall|k: int| 0 <= k < now.len() implies now[k] == after[k] by {
                let m = if k < i {
                    k
                } else {
                    k + 1
                };
                assert(order@[k] == old_order[m]);
                assert(old_map.contains_key(old_order[m]));
                assert(before[m].id == old_order[m]);
                lemma_place_unique(before, m);
                lemma_place_unique(before, i as int);
            }
            assert(now =~= after);
            assert forall|k: u128| snapshots@.contains_key(k) implies order@.contains(k) by {
                assert(old_map.contains_key(k));
                assert(old_order.contains(k));
                let m = choose|m: int| 0 <= m < old_order.len() && old_order[m] == k;
                assert(m != i);
                if m < i {
                    assert(order@[m] == k);
                } else {
                    assert(order@[m - 1] == k);
                }
            }
            assert forall|k: int| 0 <= k < order@.len() implies snapshots@.contains_key(
                #[trigger] order@[k],
            ) && snapshots@[order@[k]].id == order@[k] by {
                let m = if k < i {
                    k
                } else {
                    k + 1
                };
                assert(order@[k] == old_order[m]);
                assert(old_map.contains_key(old_order[m]));
                assert(before[m].id == old_order[m]);
                lemma_place_unique(before, m);
                lemma_place_unique(before, i as int);
            }
        }
        *self = SnapshotTree { snapshots, order };
        Ok(gone)
    }
}

/// The ids of a list other than `gone`, in their order.
pub fn without_id(ids: &Vec<u128>, gone: u128) -> (r: Vec<u128>)
    ensures
        r@ == ids@.filter(other_than(gone)),
{
    let mut out: Vec<u128> = Vec::new();
    let mut i: usize = 0;
    let ghost pred = other_than(gone);
    proof {
        reveal(Seq::filter);
        assert(ids@.take(0) =~= Seq::<u128>::empty());
    }
    while i < ids.len()
        invariant
            i <= ids@.len(),
            pred == other_than(gone),
            out@ == ids@.take(i as int).filter(pred),
        decreases ids@.len() - i,
    {
        proof {
            reveal(Seq::filter);
            assert(ids@.take(i + 1).drop_last() =~= ids@.take(i as int));
            assert(ids@.take(i + 1).last() == ids@[i as int]);
        }
        if ids[i] != gone {
            out.push(ids[i]);
        }
        i += 1;
    }
    assert(ids@.take(i as int) =~= ids@);
    out
}

/// The record of a snapshot taken from `source`: it has the given id, time,
/// name, place and flag, names `source` as its parent, and carries the
/// version and the attributes of `source`.
pub open spec fn derived_record(
    source: SnapshotView,
    id: u128,
    created_at: i64,
    name: Seq<char>,
    path: Seq<char>,
    read_only: bool,
) -> SnapshotView {
    SnapshotView {
        id,
        name,
        description: None,
        path,
        read_only,
        created_at,
        parent_id: Some(source.id),
        children_ids: Seq::empty(),
        system_version: source.system_version,
        metadata: source.metadata,
    }
}

/// The index `after` is `before` with a snapshot of `source` entered under
/// the id `id` at the time `t`.
pub open spec fn entered_at(
    before: Seq<SnapshotView>,
    after: Seq<SnapshotView>,
    source: SnapshotView,
    id: u128,
    t: i64,
    name: Seq<char>,
    path: Seq<char>,
    read_only: bool,
) -> bool {
    add_result(before, derived_record(source, id, t, name, path, read_only)) == Ok::<
        Seq<SnapshotView>,
        SnapshotTreeError,
    >(after)
}

/// The index `after` is `before` with a snapshot of `source` entered under
/// the id `id`, at some time.
pub open spec fn entered(
    before: Seq<SnapshotView>,
    after: Seq<SnapshotView>,
    source: SnapshotView,
    id: u128,
    name: Seq<char>,
    path: Seq<char>,
    read_only: bool,
) -> bool {
    exists|t: i64| #[trigger] entered_at(before, after, source, id, t, name, path, read_only)
}

/// True for a path that can be handed to the filesystem tool: one without
/// a NUL character.
pub open spec fn is_tool_path(path: Seq<char>) -> bool {
    !path.contains('\0')
}

/// Says whether a path can be handed to the filesystem tool.
pub fn tool_path(path: &str) -> (r: bool)
    ensures
        r == is_tool_path(path@),
{
    let chars = crate::text::chars_of(path);
    let mut i: usize = 0;
    while i < chars.len()
        invariant
            i <= chars@.len(),
            chars@ == path@,
            forall|j: int| 0 <= j < i ==> path@[j] != '\0',
        decreases chars@.len() - i,
    {
        if chars[i] == '\0' {
            assert(path@[i as int] == '\0');
            return false;
        }
        i += 1;
    }
    true
}

impl SnapshotTree {
    /// What is checked before the tool snapshots `source_id` at `dest_path`:
    /// the source must be in the index, and both paths must be fit for the
    /// tool.  Gives the path of the source.
    pub fn snapshot_source(&self, source_id: u128, dest_path: &str) -> (r: Result<
        String,
        SnapshotTreeError,
    >)
        ensures
            match lookup(self@, source_id) {
                None => r matches Err(SnapshotTreeError::SnapshotNotFound(id)) && id == source_id,
                Some(s) => if is_tool_path(s.path) && is_tool_path(dest_path@) {
                    r matches Ok(p) && p@ == s.path
                } else {
                    r matches Err(SnapshotTreeError::InvalidPath(_))
                },
            },
    {
        match self.get_snapshot(source_id) {
            None => Err(SnapshotTreeError::SnapshotNotFound(source_id)),
            Some(s) => {
                if !tool_path(s.path.as_str()) {
                    Err(SnapshotTreeError::InvalidPath(String::from_str("Invalid source path")))
                } else if !tool_path(dest_path) {
                    Err(
                        SnapshotTreeError::InvalidPath(
                            String::from_str("Invalid destination path"),
                        ),
                    )
                } else {
                    Ok(s.path.clone())
                }
            },
        }
    }

    /// Enters the snapshot that the tool took of `source_id` at `dest_path`,
    /// with the given id and time.  The index is left as it was where the
    /// source is missing or the id is taken.
    pub fn record_snapshot(
        &mut self,
        source_id: u128,
        new_id: u128,
        created_at: i64,
        name: &str,
        dest_path: &str,
        read_only: bool,
    ) -> (r: Result<u128, SnapshotTreeError>)
        ensures
            match lookup(old(self)@, source_id) {
                None => (r matches Err(SnapshotTreeError::SnapshotNotFound(id)) && id == source_id)
                    && final(self)@ == old(self)@,
                Some(s) => match add_result(
                    old(self)@,
                    derived_record(s, new_id, created_at, name@, dest_path@, read_only),
                ) {
                    Ok(after) => r == Ok::<u128, SnapshotTreeError>(new_id) && final(self)@
                        == after,
                    Err(e) => r == Err::<u128, SnapshotTreeError>(e) && final(self)@ == old(self)@,
                },
            },
    {
        let snapshot = match self.get_snapshot(source_id) {
            None => {
                return Err(SnapshotTreeError::SnapshotNotFound(source_id));
            },
            Some(source) => {
                let mut s = Snapshot::with_identity(
                    new_id,
                    created_at,
                    name,
                    dest_path,
                    Some(source),
                );
                s.read_only = read_only;
                s.system_version = copy_opt(&source.system_version);
                s.metadata = source.metadata.copy();
                s
            },
        };
        match self.add_snapshot(snapshot) {
            Ok(()) => Ok(new_id),
            Err(e) => Err(e),
        }
    }

    /// Enters a snapshot of `source_id` at `dest_path` after the tool ran
    /// and ended with `status`, under a fresh id and the current time.  A
    /// status other than zero is the failure of the tool; the index is then
    /// left as it was, as it is where the operating system gave no random
    /// bytes for the id, or no time.
    pub fn create_snapshot(
        &mut self,
        source_id: u128,
        name: &str,
        dest_path: &str,
        read_only: bool,
        status: i32,
    ) -> (r: Result<u128, SnapshotTreeError>)
        ensures
            lookup(old(self)@, source_id) is None ==> (r matches Err(
                SnapshotTreeError::SnapshotNotFound(id),
            ) && id == source_id) && final(self)@ == old(self)@,
            lookup(old(self)@, source_id) matches Some(s) ==> (!(is_tool_path(s.path)
                && is_tool_path(dest_path@)) ==> (r matches Err(SnapshotTreeError::InvalidPath(_)))
                && final(self)@ == old(self)@),
            lookup(old(self)@, source_id) matches Some(s) ==> (is_tool_path(s.path)
                && is_tool_path(dest_path@) && status != 0 ==> r == Err::<
                u128,
                SnapshotTreeError,
            >(SnapshotTreeError::Btrfs(status)) && final(self)@ == old(self)@),
            lookup(old(self)@, source_id) matches Some(s) ==> (is_tool_path(s.path)
                && is_tool_path(dest_path@) && status == 0 ==> (r matches Ok(id) ==> entered(
                old(self)@,
                final(self)@,
                s,
                id,
                name@,
                dest_path@,
                read_only,
            ))),
            lookup(old(self)@, source_id) matches Some(s) ==> (is_tool_path(s.path)
                && is_tool_path(dest_path@) && status == 0 ==> (r matches Err(e) ==> (e
                == SnapshotTreeError::InvalidRelationship || e == SnapshotTreeError::RandomSource
                || e == SnapshotTreeError::Clock) && final(self)@ == old(self)@)),
    {
        match self.snapshot_source(source_id, dest_path) {
            Err(e) => {
                return Err(e);
            },
            Ok(_) => {},
        }
        if status != 0 {
            return Err(SnapshotTreeError::Btrfs(status));
        }
        let id = match random_uuid(os_random(UUID_BYTES)) {
            Some(id) => id,
            None => {
                return Err(SnapshotTreeError::RandomSource);
            },
        };
        let now = match utc_now() {
            Some(now) => now,
            None => {
                return Err(SnapshotTreeError::Clock);
            },
        };
        let ghost s = lookup(self@, source_id)->Some_0;
        let r = self.record_snapshot(source_id, id, now, name, dest_path, read_only);
        proof {
            let rec = derived_record(s, id, now, name@, dest_path@, read_only);
            let i = place_of(old(self)@, source_id);
            assert(old(self)@[i].id == source_id);
            if add_result(old(self)@, rec) is Ok {
                assert(entered_at(old(self)@, self@, s, id, now, name@, dest_path@, read_only));
            }
        }
        r
    }
}

/// A snapshot with one recorded child cannot be taken out until the child
/// is: while the child is in the index the parent is refused, the child
/// itself can go, and after it went the parent can go too.
pub proof fn lemma_parent_goes_after_child(nodes: Seq<SnapshotView>, parent: u128, child: u128)
    requires
        is_forest(nodes),
        lookup(nodes, parent) matches Some(p) && p.children_ids == seq![child],
        lookup(nodes, child) matches Some(c) && c.parent_id == Some(parent)
            && c.children_ids.len() == 0,
    ensures
        remove_result(nodes, parent) == Err::<Seq<SnapshotView>, SnapshotTreeError>(
            SnapshotTreeError::InvalidRelationship,
        ),
        remove_result(nodes, child) is Ok,
        remove_result(remove_result(nodes, child)->Ok_0, parent) is Ok,
{
    let j = place_of(nodes, parent);
    let i = place_of(nodes, child);
    assert(0 <= j < nodes.len() && nodes[j].id == parent);
    assert(0 <= i < nodes.len() && nodes[i].id == child);
    assert(nodes[j].children_ids.len() == 1);
    assert(i != j);
    let after = remove_result(nodes, child)->Ok_0;
    lemma_remove_keeps_forest(nodes, child);
    let mid = nodes.update(j, forget_child(nodes[j], child));
    assert(after == mid.remove(i));
    let jj = if j < i {
        j
    } else {
        j - 1
    };
    assert(after[jj] == mid[j]);
    assert(after[jj].id == parent);
    lemma_place_unique(after, jj);
    reveal_with_fuel(Seq::filter, 2);
    assert(seq![child].drop_last() =~= Seq::<u128>::empty());
    assert(seq![child].filter(other_than(child)) =~= Seq::<u128>::empty());
    assert(after[jj].children_ids.len() == 0);
}

} // verus!

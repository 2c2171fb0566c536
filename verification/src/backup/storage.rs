//! Where backup objects are kept.
//!
//! A storage backend offers five operations on objects that are keyed by a
//! logical path: put, get, list, delete and exists.  This module holds what
//! the backends compute: the place of an object under the root of the local
//! backend, the key of an object in a remote bucket, and the model of a store
//! that the contracts of the backup manager speak of.

use crate::text::{
    chars_of, has_prefix, lemma_split_on_clean, lemma_split_on_join, lemma_split_on_pieces_clean,
    pieces_view, split, split_on, starts_with, string_of, texts,
};
use crate::paths::{push_component, sep};
use vstd::prelude::*;
use vstd::string::*;

verus! {

/// The component that stands for the directory itself.
pub open spec fn dot() -> Seq<char> {
    seq!['.']
}

/// The component that stands for the parent directory.
pub open spec fn dotdot() -> Seq<char> {
    seq!['.', '.']
}

/// The components of a logical path that name something below the root:
/// not empty, not the directory itself and not its parent.
pub open spec fn is_kept(c: Seq<char>) -> bool {
    c.len() > 0 && c != dot() && c != dotdot()
}

/// The test `is_kept`, as a value.
pub open spec fn kept() -> spec_fn(Seq<char>) -> bool {
    |c: Seq<char>| is_kept(c)
}

/// What a logical path names below the root, component by component.
pub open spec fn kept_components(path: Seq<char>) -> Seq<Seq<char>> {
    split_on(path, sep()).filter(kept())
}

/// `base` with the given components below it.
pub open spec fn join_under(base: Seq<char>, components: Seq<Seq<char>>) -> Seq<char>
    decreases components.len(),
{
    if components.len() == 0 {
        base
    } else {
        push_component(join_under(base, components.drop_last()), components.last())
    }
}

/// The place of the object with the logical path `path` under `base`.
pub open spec fn resolved(base: Seq<char>, path: Seq<char>) -> Seq<char> {
    join_under(base, kept_components(path))
}

/// True when `full` lies inside `base`: it begins with `base`, and no
/// component of what follows leads to a parent directory.
pub open spec fn inside(base: Seq<char>, full: Seq<char>) -> bool {
    &&& has_prefix(full, base)
    &&& forall|k: int|
        0 <= k < split_on(full.skip(base.len() as int), sep()).len() ==> (#[trigger] split_on(
            full.skip(base.len() as int),
            sep(),
        )[k]) != dotdot()
}

/// The pieces of what `join_under` puts behind `base` are empty or among the
/// components.
proof fn lemma_join_under_pieces(base: Seq<char>, components: Seq<Seq<char>>)
    requires
        forall|k: int|
            0 <= k < components.len() ==> (#[trigger] components[k]).len() > 0
                && !components[k].contains(sep()),
    ensures
        has_prefix(join_under(base, components), base),
        components.len() > 0 ==> join_under(base, components).len() > base.len() && join_under(
            base,
            components,
        ).last() != sep(),
        forall|k: int|
            0 <= k < split_on(join_under(base, components).skip(base.len() as int), sep()).len()
                ==> {
                let piece = #[trigger] split_on(
                    join_under(base, components).skip(base.len() as int),
                    sep(),
                )[k];
                piece.len() == 0 || components.contains(piece)
            },
    decreases components.len(),
{
    let full = join_under(base, components);
    let rest = full.skip(base.len() as int);
    if components.len() == 0 {
        assert(full.take(base.len() as int) =~= base);
        assert(rest =~= Seq::<char>::empty());
        assert(split_on(rest, sep()) =~= seq![Seq::<char>::empty()]);
    } else {
        let shorter = components.drop_last();
        let c = components.last();
        assert(c.len() > 0 && !c.contains(sep()));
        assert forall|k: int| 0 <= k < shorter.len() implies (#[trigger] shorter[k]).len() > 0
            && !shorter[k].contains(sep()) by {
            assert(shorter[k] == components[k]);
        }
        lemma_join_under_pieces(base, shorter);
        let acc = join_under(base, shorter);
        let acc_rest = acc.skip(base.len() as int);
        assert(acc.take(base.len() as int) == base);
        assert(full.take(base.len() as int) =~= acc.take(base.len() as int));
        assert(full.last() == c.last());
        assert(c.last() != sep()) by {
            if c.last() == sep() {
                assert(c[c.len() - 1] == sep());
                assert(c.contains(sep()));
            }
        }
        lemma_split_on_clean(c, sep());
        let pieces = split_on(rest, sep());
        if acc.len() == 0 || acc.last() == sep() {
            // Only the bare base can be empty or end with a separator.
            assert(shorter.len() == 0);
            assert(acc == base);
            assert(rest =~= c);
            assert forall|k: int| 0 <= k < pieces.len() implies {
                let piece = #[trigger] pieces[k];
                piece.len() == 0 || components.contains(piece)
            } by {
                assert(pieces[k] == c);
                assert(components[components.len() - 1] == c);
            }
        } else {
            assert(rest =~= acc_rest + seq![sep()] + c);
            lemma_split_on_join(acc_rest, c, sep());
            let old_pieces = split_on(acc_rest, sep());
            assert(pieces == old_pieces + seq![c]);
            assert forall|k: int| 0 <= k < pieces.len() implies {
                let piece = #[trigger] pieces[k];
                piece.len() == 0 || components.contains(piece)
            } by {
                if k < old_pieces.len() {
                    assert(pieces[k] == old_pieces[k]);
                    if old_pieces[k].len() != 0 {
                        assert(shorter.contains(old_pieces[k]));
                        let w = choose|w: int| 0 <= w < shorter.len() && shorter[w] == old_pieces[k];
                        assert(components[w] == old_pieces[k]);
                    }
                } else {
                    assert(pieces[k] == c);
                    assert(components[components.len() - 1] == c);
                }
            }
        }
    }
}

/// The test for a component that is no parent directory, as a value.
pub open spec fn no_parent() -> spec_fn(Seq<char>) -> bool {
    |c: Seq<char>| c != dotdot()
}

/// The components of a logical path without those that lead to a parent
/// directory.
pub open spec fn without_parents(path: Seq<char>) -> Seq<Seq<char>> {
    split_on(path, sep()).filter(no_parent())
}

/// Dropping the parent directories from a list of components before the
/// components that name something are picked changes nothing.
proof fn lemma_kept_after_no_parent(cs: Seq<Seq<char>>)
    ensures
        cs.filter(no_parent()).filter(kept()) == cs.filter(kept()),
    decreases cs.len(),
{
    reveal(Seq::filter);
    if cs.len() > 0 {
        lemma_kept_after_no_parent(cs.drop_last());
        let c = cs.last();
        let sub = cs.drop_last().filter(no_parent());
        if no_parent()(c) {
            assert(sub.push(c).drop_last() =~= sub);
        } else {
            assert(!is_kept(c));
        }
    }
}

/// Parent directories do not count: a logical path resolves to the place
/// that its components without the parent directories name.
pub proof fn lemma_parents_do_not_count(base: Seq<char>, path: Seq<char>)
    ensures
        resolved(base, path) == join_under(base, without_parents(path).filter(kept())),
{
    lemma_kept_after_no_parent(split_on(path, sep()));
}

/// Two logical paths that differ only in components that lead to a parent
/// directory resolve to one place, and that place lies inside the root.
pub proof fn lemma_same_place_without_parents(base: Seq<char>, p: Seq<char>, q: Seq<char>)
    requires
        without_parents(p) == without_parents(q),
    ensures
        resolved(base, p) == resolved(base, q),
        inside(base, resolved(base, p)),
{
    lemma_parents_do_not_count(base, p);
    lemma_parents_do_not_count(base, q);
    lemma_resolved_stays_inside(base, p);
}

/// Path containment: whatever the logical path holds, parent-directory
/// components included, the place it resolves to lies inside the root.
pub proof fn lemma_resolved_stays_inside(base: Seq<char>, path: Seq<char>)
    ensures
        inside(base, resolved(base, path)),
{
    let all = split_on(path, sep());
    let cs = kept_components(path);
    lemma_split_on_pieces_clean(path, sep());
    assert forall|k: int| 0 <= k < cs.len() implies (#[trigger] cs[k]).len() > 0 && !cs[k].contains(
        sep(),
    ) && cs[k] != dotdot() by {
        all.lemma_filter_contains_rev(kept(), cs[k]);
        assert(all.contains(cs[k]));
        let w = choose|w: int| 0 <= w < all.len() && all[w] == cs[k];
        assert(!all[w].contains(sep()));
        all.lemma_filter_pred(kept(), k);
    }
    lemma_join_under_pieces(base, cs);
    let rest = resolved(base, path).skip(base.len() as int);
    assert forall|k: int| 0 <= k < split_on(rest, sep()).len() implies (#[trigger] split_on(
        rest,
        sep(),
    )[k]) != dotdot() by {
        let piece = split_on(rest, sep())[k];
        if piece.len() != 0 {
            assert(cs.contains(piece));
            let w = choose|w: int| 0 <= w < cs.len() && cs[w] == piece;
            assert(cs[w] != dotdot());
        } else {
            assert(dotdot().len() == 2);
        }
    }
}

/// True for a component that names something below the root.
pub fn keeps(c: &[char]) -> (r: bool)
    ensures
        r == is_kept(c@),
{
    if c.len() == 0 {
        false
    } else if c.len() == 1 {
        let r = c[0] != '.';
        proof {
            if !r {
                assert(c@ =~= dot());
            } else {
                assert(c@[0] != dot()[0]);
            }
            assert(dotdot().len() == 2);
        }
        r
    } else if c.len() == 2 {
        let r = !(c[0] == '.' && c[1] == '.');
        proof {
            if !r {
                assert(c@ =~= dotdot());
            } else {
                assert(c@[0] != dotdot()[0] || c@[1] != dotdot()[1]);
            }
            assert(dot().len() == 1);
        }
        r
    } else {
        proof {
            assert(dot().len() == 1);
            assert(dotdot().len() == 2);
        }
        true
    }
}

/// The place of the object with the logical path `path` under the root
/// `base`.  Empty components, `.` and `..` are dropped before the rest is
/// joined to the root, so the place lies inside the root.
pub fn resolve_under(base: &str, path: &str) -> (r: String)
    ensures
        r@ == resolved(base@, path@),
        inside(base@, r@),
{
    let chars = chars_of(path);
    let pieces = split(chars.as_slice(), '/');
    let mut acc = chars_of(base);
    let mut i: usize = 0;
    proof {
        reveal(Seq::filter);
        assert(pieces_view(pieces@).take(0) =~= Seq::<Seq<char>>::empty());
    }
    while i < pieces.len()
        invariant
            i <= pieces@.len(),
            pieces_view(pieces@) == split_on(path@, sep()),
            acc@ == join_under(base@, pieces_view(pieces@).take(i as int).filter(kept())),
        decreases pieces@.len() - i,
    {
        let piece = &pieces[i];
        proof {
            reveal(Seq::filter);
            let upto = pieces_view(pieces@).take(i + 1);
            assert(upto.drop_last() =~= pieces_view(pieces@).take(i as int));
            assert(upto.last() == piece@);
            if is_kept(piece@) {
                assert(upto.filter(kept()).drop_last() =~= upto.drop_last().filter(kept()));
            }
        }
        if keeps(piece.as_slice()) {
            if acc.len() > 0 && acc[acc.len() - 1] != '/' {
                acc.push('/');
            }
            let mut k: usize = 0;
            let ghost start = acc@;
            while k < piece.len()
                invariant
                    k <= piece@.len(),
                    acc@ == start + piece@.take(k as int),
                decreases piece@.len() - k,
            {
                acc.push(piece[k]);
                assert(piece@.take(k + 1) =~= piece@.take(k as int).push(piece@[k as int]));
                k += 1;
            }
            assert(piece@.take(k as int) =~= piece@);
        }
        i += 1;
    }
    proof {
        assert(pieces_view(pieces@).take(i as int) =~= pieces_view(pieces@));
        lemma_resolved_stays_inside(base@, path@);
    }
    string_of(acc.as_slice())
}

/// The local backend: objects are files below a root directory.
pub struct LocalStorage {
    base_path: String,
}

impl LocalStorage {
    /// The root directory.
    pub closed spec fn root(&self) -> Seq<char> {
        self.base_path@
    }

    /// A backend rooted at `base_path`.
    pub fn new(base_path: &str) -> (r: Self)
        ensures
            r.root() == base_path@,
    {
        LocalStorage { base_path: String::from_str(base_path) }
    }

    /// The root directory.
    pub fn base_path(&self) -> (r: &str)
        ensures
            r@ == self.root(),
    {
        self.base_path.as_str()
    }

    /// The file that holds the object with the logical path `path`.  It lies
    /// inside the root whatever the path holds.
    pub fn resolve_path(&self, path: &str) -> (r: String)
        ensures
            r@ == resolved(self.root(), path@),
            inside(self.root(), r@),
    {
        resolve_under(self.base_path.as_str(), path)
    }

    /// The logical path of a file below the root, as listings report it:
    /// what follows the root and the separators after it.  `None` for a file
    /// that does not lie below the root.
    pub fn logical_path(&self, file: &str) -> (r: Option<String>)
        ensures
            match r {
                Some(p) => has_prefix(file@, self.root()) && p@ == strip_separators(
                    file@.skip(self.root().len() as int),
                ),
                None => !has_prefix(file@, self.root()),
            },
    {
        let full = chars_of(file);
        let base = chars_of(self.base_path.as_str());
        if !starts_with(full.as_slice(), base.as_slice()) {
            return None;
        }
        let mut at: usize = base.len();
        let ghost rest = file@.skip(base@.len() as int);
        while at < full.len() && full[at] == '/'
            invariant
                base@.len() <= at <= full@.len(),
                full@ == file@,
                rest == file@.skip(base@.len() as int),
                strip_separators(rest) == strip_separators(full@.skip(at as int)),
            decreases full@.len() - at,
        {
            proof {
                assert(full@.skip(at as int).drop_first() =~= full@.skip(at + 1));
            }
            at += 1;
        }
        proof {
            let tail = full@.skip(at as int);
            assert(tail.len() == 0 || tail[0] != sep());
        }
        let tail = vstd::slice::slice_subrange(full.as_slice(), at, full.len());
        assert(tail@ =~= full@.skip(at as int));
        Some(string_of(tail))
    }
}

/// The files of a disk: what each place holds.
pub type Files = Map<Seq<char>, Seq<u8>>;

impl LocalStorage {
    /// The files after `data` was put under the logical path `path`: the
    /// place that the path resolves to holds the data, and every other
    /// place holds what it held.
    pub open spec fn after_put(&self, files: Files, path: Seq<char>, data: Seq<u8>) -> Files {
        files.insert(resolved(self.root(), path), data)
    }

    /// What is read under the logical path `path`: what the place holds
    /// that the path resolves to, if it holds anything.
    pub open spec fn read_at(&self, files: Files, path: Seq<char>) -> Option<Seq<u8>> {
        if files.contains_key(resolved(self.root(), path)) {
            Some(files[resolved(self.root(), path)])
        } else {
            None
        }
    }

    /// Reading stays inside the root.  A logical path with parent
    /// directories is read at the place of the same path without them, which
    /// lies inside the root; what is put under a path is read under it
    /// again; and a put changes no place but the one inside the root that
    /// its path resolves to.
    pub proof fn lemma_read_stays_inside(
        self,
        files: Files,
        path: Seq<char>,
        bare: Seq<char>,
        data: Seq<u8>,
        elsewhere: Seq<char>,
    )
        requires
            without_parents(path) == without_parents(bare),
            elsewhere != resolved(self.root(), path),
        ensures
            self.read_at(files, path) == self.read_at(files, bare),
            inside(self.root(), resolved(self.root(), path)),
            self.read_at(self.after_put(files, path, data), path) == Some(data),
            self.read_at(self.after_put(files, path, data), bare) == Some(data),
            self.after_put(files, path, data).contains_key(elsewhere) == files.contains_key(
                elsewhere,
            ),
            files.contains_key(elsewhere) ==> self.after_put(files, path, data)[elsewhere]
                == files[elsewhere],
    {
        lemma_same_place_without_parents(self.root(), path, bare);
    }
}

/// `s` without the separators that it begins with.
pub open spec fn strip_separators(s: Seq<char>) -> Seq<char>
    decreases s.len(),
{
    if s.len() > 0 && s[0] == sep() {
        strip_separators(s.drop_first())
    } else {
        s
    }
}

/// The key of an object in a remote bucket: the logical path with forward
/// slashes for backslashes.
pub open spec fn normalized(path: Seq<char>) -> Seq<char> {
    path.map_values(|c: char| if c == '\\' { '/' } else { c })
}

/// The key under which a remote bucket holds the object with the logical
/// path `path`.
pub fn normalize_path(path: &str) -> (r: String)
    ensures
        r@ == normalized(path@),
{
    let chars = chars_of(path);
    let mut out: Vec<char> = Vec::new();
    let mut i: usize = 0;
    while i < chars.len()
        invariant
            i <= chars@.len(),
            chars@ == path@,
            out@ == normalized(path@.take(i as int)),
        decreases chars@.len() - i,
    {
        let c = chars[i];
        out.push(if c == '\\' { '/' } else { c });
        assert(normalized(path@.take(i + 1)) =~= normalized(path@.take(i as int)).push(
            if c == '\\' { '/' } else { c },
        ));
        i += 1;
    }
    assert(path@.take(i as int) =~= path@);
    string_of(out.as_slice())
}

/// What probing the bucket of a remote backend found.
#[derive(Debug, Clone, Copy, PartialEq, Eq, Structural)]
pub enum BucketProbe {
    /// The bucket is there.
    Present,
    /// The provider says that there is no such bucket.
    Missing,
    /// The probe failed for another reason.
    Failed,
}

/// What a remote backend does before its first use.
#[derive(Debug, Clone, Copy, PartialEq, Eq, Structural)]
pub enum BucketStep {
    /// Use the bucket.
    Use,
    /// Create the bucket, then use it.
    Create,
    /// Give up with a storage error.
    GiveUp,
}

/// A remote backend creates its bucket on first use if it is absent, and
/// gives up where the probe failed otherwise.
pub fn bucket_step(probe: BucketProbe) -> (r: BucketStep)
    ensures
        r == (match probe {
            BucketProbe::Present => BucketStep::Use,
            BucketProbe::Missing => BucketStep::Create,
            BucketProbe::Failed => BucketStep::GiveUp,
        }),
{
    match probe {
        BucketProbe::Present => BucketStep::Use,
        BucketProbe::Missing => BucketStep::Create,
        BucketProbe::Failed => BucketStep::GiveUp,
    }
}

/// The path under which the object store knows the object with the key
/// `key`, as `Path::parse` reads it; `None` for a key that is no path.
pub uninterp spec fn parsed_object_path(key: Seq<char>) -> Option<Seq<char>>;

/// The path of the object store for a text, as `Path::from` makes it.
pub uninterp spec fn encoded_object_path(text: Seq<char>) -> Seq<char>;

/// `object_store::path::Path::parse`, as text.  The result is a function of
/// the key.
#[verifier::external_body]
fn parse_object_path(key: &str) -> (r: Option<String>)
    ensures
        r matches Some(p) ==> parsed_object_path(key@) == Some(p@),
        r is None ==> parsed_object_path(key@) is None,
{
    let path = object_store::path::Path::parse(key).ok()?;
    Some(String::from(path))
}

/// `object_store::path::Path::from` on a text, as text.  The result is a
/// function of the text.
#[verifier::external_body]
fn encode_object_path(text: &str) -> (r: String)
    ensures
        r@ == encoded_object_path(text@),
{
    String::from(object_store::path::Path::from(text))
}

/// The function `parsed_object_path`, as a value.
pub open spec fn reads_object_path() -> spec_fn(Seq<char>) -> Option<Seq<char>> {
    |k: Seq<char>| parsed_object_path(k)
}

/// The listing of a remote backend: the paths of the keys that the bucket
/// reports, in their order; keys that are no paths are passed over.
pub fn remote_listing(keys: &Vec<String>) -> (r: Vec<String>)
    ensures
        texts(r@) == texts(keys@).filter_map(reads_object_path()),
{
    let mut out: Vec<String> = Vec::new();
    let mut i: usize = 0;
    let ghost all = texts(keys@);
    assert(all.take(0) =~= Seq::<Seq<char>>::empty());
    while i < keys.len()
        invariant
            i <= keys@.len(),
            all == texts(keys@),
            texts(out@) == all.take(i as int).filter_map(reads_object_path()),
        decreases keys@.len() - i,
    {
        proof {
            assert(all.take(i + 1).drop_last() =~= all.take(i as int));
            assert(all.take(i + 1).last() == keys@[i as int]@);
        }
        match parse_object_path(keys[i].as_str()) {
            Some(p) => {
                let ghost prev = out@;
                out.push(p);
                assert(texts(out@) =~= texts(prev) + seq![p@]);
            },
            None => {},
        }
        i += 1;
    }
    assert(all.take(i as int) =~= all);
    out
}

impl LocalStorage {
    /// The entry of a listing for a file: the object path of its logical
    /// path.  `None` for a file that does not lie below the root.
    pub fn listed_object(&self, file: &str) -> (r: Option<String>)
        ensures
            match r {
                Some(p) => has_prefix(file@, self.root()) && p@ == encoded_object_path(
                    strip_separators(file@.skip(self.root().len() as int)),
                ),
                None => !has_prefix(file@, self.root()),
            },
    {
        match self.logical_path(file) {
            Some(p) => Some(encode_object_path(p.as_str())),
            None => None,
        }
    }
}

} // verus!

//! The copy-on-write filesystem tool.
//!
//! Subvolumes are created, snapshotted, deleted, sent and received by the
//! `btrfs` command.  This module says which command does what, which
//! conditions are checked before a command runs, and what its output means.
//! The stream that `send` writes and `receive` reads is never looked into.

use crate::command::{command, Command, CommandOutput, CommandView};
use crate::paths::sep;
use crate::text::{
    chars_of, contains, fields, fields_of, has_infix, lines, lines_of, parse_u64, parsed_u64,
    opt_text, pieces_view, split, split_on, string_of, strip_prefixes, texts, trim_start,
};
use vstd::prelude::*;
use vstd::string::*;

verus! {

/// Why an operation on a subvolume failed.
#[derive(Debug)]
pub enum BtrfsError {
    /// The tool ended with a failure; what it wrote to its error output.
    CommandFailed(String),
    /// The path cannot hold a subvolume.
    InvalidSubvolume(String),
    /// The operating system failed.
    Io(String),
    /// The path is no subvolume.
    NotASubvolume(String),
    /// The destination of a snapshot is taken.
    SnapshotExists(String),
}

/// A subvolume or snapshot, as the tool describes it.
#[derive(Debug)]
pub struct Subvolume {
    /// Where the subvolume lies.
    pub path: String,
    /// Whether it is read-only.
    pub read_only: bool,
    /// The snapshot that it is sent relative to.
    pub parent: Option<String>,
    /// When it was made, in microseconds since 1970, UTC.
    pub created_at: i64,
    /// Its size in bytes.
    pub size: u64,
}

/// The command line of the tool with the given arguments.
pub open spec fn btrfs(args: Seq<Seq<char>>) -> CommandView {
    CommandView { program: "btrfs"@, args }
}

/// A list of one to five arguments, the empty ones at the end left out.
fn args_of(a: &str, b: &str, c: &str, d: Option<&str>, e: Option<&str>) -> (r: Vec<String>)
    ensures
        texts(r@) == seq![a@, b@, c@] + (match d {
            Some(x) => seq![x@],
            None => Seq::empty(),
        }) + (match e {
            Some(x) => seq![x@],
            None => Seq::empty(),
        }),
{
    let mut v: Vec<String> = Vec::new();
    v.push(String::from_str(a));
    v.push(String::from_str(b));
    v.push(String::from_str(c));
    match d {
        Some(x) => {
            v.push(String::from_str(x));
        },
        None => {},
    }
    match e {
        Some(x) => {
            v.push(String::from_str(x));
        },
        None => {},
    }
    assert(texts(v@) =~= seq![a@, b@, c@] + (match d {
        Some(x) => seq![x@],
        None => Seq::empty(),
    }) + (match e {
        Some(x) => seq![x@],
        None => Seq::empty(),
    }));
    v
}

/// The directory above a path: what stands before its last separator, or the
/// root where nothing stands there.  `None` for a path without a separator.
pub open spec fn parent_of(path: Seq<char>) -> Option<Seq<char>> {
    let pieces = split_on(path, sep());
    if pieces.len() <= 1 {
        None
    } else {
        let cut = path.len() - pieces.last().len() - 1;
        if cut == 0 {
            Some(seq![sep()])
        } else {
            Some(path.take(cut))
        }
    }
}

/// The directory above a path.
pub fn parent_dir(path: &str) -> (r: Option<String>)
    ensures
        match r {
            Some(p) => parent_of(path@) == Some(p@),
            None => parent_of(path@) is None,
        },
{
    let chars = chars_of(path);
    let pieces = split(chars.as_slice(), '/');
    proof {
        crate::text::lemma_split_on_nonempty(path@, sep());
        lemma_last_piece_fits(path@, sep());
    }
    if pieces.len() <= 1 {
        return None;
    }
    let last = pieces[pieces.len() - 1].len();
    let cut = chars.len() - last - 1;
    if cut == 0 {
        let mut root: Vec<char> = Vec::new();
        root.push('/');
        assert(root@ =~= seq![sep()]);
        Some(string_of(root.as_slice()))
    } else {
        let head = vstd::slice::slice_subrange(chars.as_slice(), 0, cut);
        assert(head@ =~= path@.take(cut as int));
        Some(string_of(head))
    }
}

/// The last piece of a text with a separator leaves room for that separator.
pub proof fn lemma_last_piece_fits(s: Seq<char>, c: char)
    ensures
        split_on(s, c).len() >= 1,
        split_on(s, c).last().len() <= s.len(),
        split_on(s, c).len() > 1 ==> split_on(s, c).last().len() < s.len(),
    decreases s.len(),
{
    if s.len() > 0 {
        lemma_last_piece_fits(s.drop_last(), c);
    }
}

/// The command that makes a subvolume at `path`.
pub fn create_command(path: &str) -> (r: Command)
    ensures
        r@ == btrfs(seq!["subvolume"@, "create"@, path@]),
{
    let args = args_of("subvolume", "create", path, None, None);
    assert(texts(args@) =~= seq!["subvolume"@, "create"@, path@]);
    command("btrfs", args)
}

/// The command that deletes the subvolume at `path`.
pub fn delete_command(path: &str) -> (r: Command)
    ensures
        r@ == btrfs(seq!["subvolume"@, "delete"@, path@]),
{
    let args = args_of("subvolume", "delete", path, None, None);
    assert(texts(args@) =~= seq!["subvolume"@, "delete"@, path@]);
    command("btrfs", args)
}

/// What deleting the subvolume at a path does.
#[derive(Debug, Clone, Copy, PartialEq, Eq, Structural)]
pub enum DeleteStep {
    /// Nothing: the path is gone already.
    Skip,
    /// Run the tool; its failure is the failure of the deletion.
    Run,
}

/// What deleting the subvolume at a path does.  Deleting what is gone
/// already changes nothing and does not fail; for a path that is there the
/// tool is run.
pub fn delete_step(path_exists: bool) -> (r: DeleteStep)
    ensures
        r == (if path_exists {
            DeleteStep::Run
        } else {
            DeleteStep::Skip
        }),
{
    if path_exists {
        DeleteStep::Run
    } else {
        DeleteStep::Skip
    }
}

/// What the deletion of the subvolume at a path comes to: nothing is run
/// for a path that is gone already, and the deletion has then ended well;
/// for a path that is there, `outcome` is how the tool ended, and its
/// failure is reported with what it wrote to its error output.
pub fn check_delete(path_exists: bool, outcome: &CommandOutput) -> (r: Result<(), BtrfsError>)
    ensures
        !path_exists || outcome.success ==> r is Ok,
        path_exists && !outcome.success ==> (r matches Err(BtrfsError::CommandFailed(m)) && m@
            == outcome.stderr@),
{
    match delete_step(path_exists) {
        DeleteStep::Skip => Ok(()),
        DeleteStep::Run => check_outcome(outcome),
    }
}

/// The command that describes the subvolume at `path`.  It fails for a path
/// that is no subvolume.
pub fn show_command(path: &str) -> (r: Command)
    ensures
        r@ == btrfs(seq!["subvolume"@, "show"@, path@]),
{
    let args = args_of("subvolume", "show", path, None, None);
    assert(texts(args@) =~= seq!["subvolume"@, "show"@, path@]);
    command("btrfs", args)
}

/// The command that lists the subvolumes below `path`, with their parents.
pub fn list_command(path: &str) -> (r: Command)
    ensures
        r@ == btrfs(seq!["subvolume"@, "list"@, "-p"@, path@]),
{
    let args = args_of("subvolume", "list", "-p", Some(path), None);
    assert(texts(args@) =~= seq!["subvolume"@, "list"@, "-p"@, path@]);
    command("btrfs", args)
}

/// The command that measures what lies at `path`, in bytes.
pub fn size_command(path: &str) -> (r: Command)
    ensures
        r@ == (CommandView { program: "du"@, args: seq!["-bs"@, path@] }),
{
    let mut args: Vec<String> = Vec::new();
    args.push(String::from_str("-bs"));
    args.push(String::from_str(path));
    assert(texts(args@) =~= seq!["-bs"@, path@]);
    command("du", args)
}

/// The arguments of the command that snapshots `source` at `dest`.
pub open spec fn snapshot_args(source: Seq<char>, dest: Seq<char>, read_only: bool) -> Seq<
    Seq<char>,
> {
    if read_only {
        seq!["subvolume"@, "snapshot"@, "-r"@, source, dest]
    } else {
        seq!["subvolume"@, "snapshot"@, source, dest]
    }
}

/// The command that snapshots `source` at `dest`, read-only where that is
/// asked for.
pub fn snapshot_command(source: &str, dest: &str, read_only: bool) -> (r: Command)
    ensures
        r@ == btrfs(snapshot_args(source@, dest@, read_only)),
{
    let args = if read_only {
        args_of("subvolume", "snapshot", "-r", Some(source), Some(dest))
    } else {
        args_of("subvolume", "snapshot", source, Some(dest), None)
    };
    assert(texts(args@) =~= snapshot_args(source@, dest@, read_only));
    command("btrfs", args)
}

/// The arguments of the command that serializes a subvolume: the whole of
/// it, or with a parent only what differs from the parent.
pub open spec fn send_args(path: Seq<char>, parent: Option<Seq<char>>) -> Seq<Seq<char>> {
    match parent {
        Some(p) => seq!["send"@, "-p"@, p, path],
        None => seq!["send"@, path],
    }
}

impl Subvolume {
    /// The command that serializes the subvolume to its output.
    pub fn send_command(&self) -> (r: Command)
        ensures
            r@ == btrfs(send_args(self.path@, opt_text(self.parent))),
    {
        let mut args: Vec<String> = Vec::new();
        args.push(String::from_str("send"));
        match &self.parent {
            Some(p) => {
                args.push(String::from_str("-p"));
                args.push(p.clone());
            },
            None => {},
        }
        args.push(self.path.clone());
        assert(texts(args@) =~= send_args(self.path@, opt_text(self.parent)));
        command("btrfs", args)
    }

    /// The command that snapshots the subvolume, read-only, at `dest`.
    pub fn snapshot(&self, dest: &str) -> (r: Command)
        ensures
            r@ == btrfs(snapshot_args(self.path@, dest@, true)),
    {
        snapshot_command(self.path.as_str(), dest, true)
    }

    /// The record of the subvolume at `path`, from what the tool said of it.
    /// `show` is how the describing command ended, `created_at` the time of
    /// creation that the filesystem recorded, `du` how the measuring command
    /// ended.  A path that the tool does not describe is no subvolume; a size
    /// that cannot be had counts as zero.
    pub fn from_probe(path: &str, show: &CommandOutput, created_at: i64, du: &CommandOutput) -> (r:
        Result<Self, BtrfsError>)
        ensures
            match r {
                Ok(s) => show.success && s.path@ == path@ && s.read_only == says_read_only(
                    show.stdout@,
                ) && s.parent is None && s.created_at == created_at && s.size == (if du.success {
                    measured_size(du.stdout@)
                } else {
                    0
                }),
                Err(e) => !show.success && (e matches BtrfsError::NotASubvolume(p) && p@
                    == path@),
            },
    {
        if !show.success {
            return Err(BtrfsError::NotASubvolume(String::from_str(path)));
        }
        let read_only = parse_read_only(show.stdout.as_str());
        let size = if du.success {
            parse_size(du.stdout.as_str())
        } else {
            0
        };
        Ok(
            Subvolume {
                path: String::from_str(path),
                read_only,
                parent: None,
                created_at,
                size,
            },
        )
    }
}

/// The command that rebuilds a subvolume at `dest` from its input.  The tool
/// is given the directory above `dest`, or the root where there is none.
pub fn receive_command(dest: &str) -> (r: Command)
    ensures
        r@ == btrfs(
            seq![
                "receive"@,
                match parent_of(dest@) {
                    Some(p) => p,
                    None => seq![sep()],
                },
            ],
        ),
{
    let mut args: Vec<String> = Vec::new();
    args.push(String::from_str("receive"));
    match parent_dir(dest) {
        Some(p) => {
            args.push(p);
        },
        None => {
            let mut root: Vec<char> = Vec::new();
            root.push('/');
            assert(root@ =~= seq![sep()]);
            args.push(string_of(root.as_slice()));
        },
    }
    assert(texts(args@) =~= seq![
        "receive"@,
        match parent_of(dest@) {
            Some(p) => p,
            None => seq![sep()],
        },
    ]);
    command("btrfs", args)
}

/// What the end of a command means: a failure is reported with what the
/// command wrote to its error output.
pub fn check_outcome(output: &CommandOutput) -> (r: Result<(), BtrfsError>)
    ensures
        output.success ==> r is Ok,
        !output.success ==> (r matches Err(BtrfsError::CommandFailed(m)) && m@
            == output.stderr@),
{
    if output.success {
        Ok(())
    } else {
        Err(BtrfsError::CommandFailed(output.stderr.clone()))
    }
}

/// What is checked before a snapshot is taken: the source must be a
/// subvolume, and the destination must be free.
pub fn check_snapshot(source: &str, source_is_subvolume: bool, dest: &str, dest_exists: bool) -> (r:
    Result<(), BtrfsError>)
    ensures
        !source_is_subvolume ==> (r matches Err(BtrfsError::NotASubvolume(p)) && p@ == source@),
        source_is_subvolume && dest_exists ==> (r matches Err(BtrfsError::SnapshotExists(p))
            && p@ == dest@),
        source_is_subvolume && !dest_exists ==> r is Ok,
{
    if !source_is_subvolume {
        Err(BtrfsError::NotASubvolume(String::from_str(source)))
    } else if dest_exists {
        Err(BtrfsError::SnapshotExists(String::from_str(dest)))
    } else {
        Ok(())
    }
}

/// What is checked before a subvolume is deleted or its flag is set: it
/// must be a subvolume.
pub fn check_subvolume(path: &str, is_subvolume: bool) -> (r: Result<(), BtrfsError>)
    ensures
        is_subvolume ==> r is Ok,
        !is_subvolume ==> (r matches Err(BtrfsError::NotASubvolume(p)) && p@ == path@),
{
    if is_subvolume {
        Ok(())
    } else {
        Err(BtrfsError::NotASubvolume(String::from_str(path)))
    }
}

/// The command that makes the subvolume at `path` read-only or writable.
pub fn readonly_command(path: &str, read_only: bool) -> (r: Command)
    ensures
        r@ == btrfs(
            seq![
                "property"@,
                "set"@,
                path@,
                "ro"@,
                if read_only {
                    "true"@
                } else {
                    "false"@
                },
            ],
        ),
{
    let args = args_of(
        "property",
        "set",
        path,
        Some("ro"),
        Some(
            if read_only {
                "true"
            } else {
                "false"
            },
        ),
    );
    assert(texts(args@) =~= seq![
        "property"@,
        "set"@,
        path@,
        "ro"@,
        if read_only {
            "true"@
        } else {
            "false"@
        },
    ]);
    command("btrfs", args)
}

/// What is checked before a stream is received: a destination that exists
/// must be a subvolume already.
pub fn check_receive(dest: &str, dest_exists: bool, dest_is_subvolume: bool) -> (r: Result<
    (),
    BtrfsError,
>)
    ensures
        dest_exists && !dest_is_subvolume ==> (r matches Err(BtrfsError::InvalidSubvolume(p))
            && p@ == dest@),
        !(dest_exists && !dest_is_subvolume) ==> r is Ok,
{
    if dest_exists && !dest_is_subvolume {
        Err(BtrfsError::InvalidSubvolume(String::from_str(dest)))
    } else {
        Ok(())
    }
}

/// True for a line of the description that gives the flags and names
/// `readonly` among them.
pub open spec fn line_says_read_only(line: Seq<char>) -> bool {
    has_infix(line, "Flags:"@) && has_infix(line, "readonly"@)
}

/// True when the description of a subvolume says that it is read-only.
pub open spec fn says_read_only(output: Seq<char>) -> bool {
    exists|i: int|
        0 <= i < lines_of(output).len() && line_says_read_only(#[trigger] lines_of(output)[i])
}

/// Reads the read-only flag off the description of a subvolume.
pub fn parse_read_only(output: &str) -> (r: bool)
    ensures
        r == says_read_only(output@),
{
    let chars = chars_of(output);
    let all = lines(chars.as_slice());
    let flags = chars_of("Flags:");
    let word = chars_of("readonly");
    let mut i: usize = 0;
    while i < all.len()
        invariant
            i <= all@.len(),
            pieces_view(all@) == lines_of(output@),
            flags@ == "Flags:"@,
            word@ == "readonly"@,
            forall|j: int| 0 <= j < i ==> !line_says_read_only(#[trigger] lines_of(output@)[j]),
        decreases all@.len() - i,
    {
        let line = &all[i];
        assert(line@ == lines_of(output@)[i as int]);
        if contains(line.as_slice(), flags.as_slice()) && contains(
            line.as_slice(),
            word.as_slice(),
        ) {
            return true;
        }
        i += 1;
    }
    false
}

/// The size that the measuring command reports: the number in the first
/// field of its output, or zero where there is none.
pub open spec fn measured_size(output: Seq<char>) -> u64 {
    let f = fields_of(output);
    if f.len() > 0 {
        match parsed_u64(f[0]) {
            Some(n) => n,
            None => 0,
        }
    } else {
        0
    }
}

/// Reads the size off the output of the measuring command.
pub fn parse_size(output: &str) -> (r: u64)
    ensures
        r == measured_size(output@),
{
    let chars = chars_of(output);
    let f = fields(chars.as_slice());
    if f.len() > 0 {
        assert(f@[0]@ == fields_of(output@)[0]);
        match parse_u64(f[0].as_slice()) {
            Some(n) => n,
            None => 0,
        }
    } else {
        0
    }
}

/// The id of the top-level subvolume, which listings pass over.
pub const TOP_LEVEL_ID: u64 = 5;

/// The path that a line of the listing names: the tenth field, without
/// leading `./`, of a line whose second and fourth fields are numbers and
/// whose second field is not the id of the top level.
pub open spec fn listed_path(line: Seq<char>) -> Option<Seq<char>> {
    let parts = fields_of(line);
    if parts.len() >= 10 && parsed_u64(parts[1]) is Some && parsed_u64(parts[3]) is Some
        && parsed_u64(parts[1]) != Some(TOP_LEVEL_ID) {
        Some(strip_prefixes(parts[9], "./"@))
    } else {
        None
    }
}

/// The function `listed_path`, as a value.
pub open spec fn names_path() -> spec_fn(Seq<char>) -> Option<Seq<char>> {
    |l: Seq<char>| listed_path(l)
}

/// The paths that a listing names, in its order.
pub open spec fn listed_paths(output: Seq<char>) -> Seq<Seq<char>> {
    lines_of(output).filter_map(names_path())
}

/// The path that a line of the listing names.
pub fn parse_list_line(line: &[char]) -> (r: Option<String>)
    ensures
        match r {
            Some(p) => listed_path(line@) == Some(p@),
            None => listed_path(line@) is None,
        },
{
    let parts = fields(line);
    if parts.len() < 10 {
        return None;
    }
    assert(parts@[1]@ == fields_of(line@)[1]);
    assert(parts@[3]@ == fields_of(line@)[3]);
    assert(parts@[9]@ == fields_of(line@)[9]);
    let id = match parse_u64(parts[1].as_slice()) {
        Some(id) => id,
        None => {
            return None;
        },
    };
    if parse_u64(parts[3].as_slice()).is_none() {
        return None;
    }
    if id == TOP_LEVEL_ID {
        return None;
    }
    let here = chars_of("./");
    let path = trim_start(parts[9].as_slice(), here.as_slice());
    Some(string_of(path.as_slice()))
}

/// Reads the paths of the subvolumes off a listing.
pub fn parse_subvolume_list(output: &str) -> (r: Vec<String>)
    ensures
        texts(r@) == listed_paths(output@),
{
    let chars = chars_of(output);
    let all = lines(chars.as_slice());
    let ghost ls = lines_of(output@);
    let mut out: Vec<String> = Vec::new();
    let mut i: usize = 0;
    assert(ls.take(0) =~= Seq::<Seq<char>>::empty());
    while i < all.len()
        invariant
            i <= all@.len(),
            pieces_view(all@) == ls,
            texts(out@) == ls.take(i as int).filter_map(names_path()),
        decreases all@.len() - i,
    {
        let line = &all[i];
        proof {
            assert(line@ == ls[i as int]);
            assert(ls.take(i + 1).drop_last() =~= ls.take(i as int));
            assert(ls.take(i + 1).last() == ls[i as int]);
        }
        match parse_list_line(line.as_slice()) {
            Some(p) => {
                let ghost prev = out@;
                out.push(p);
                assert(texts(out@) =~= texts(prev) + seq![p@]);
            },
            None => {},
        }
        i += 1;
    }
    assert(ls.take(i as int) =~= ls);
    out
}

} // verus!

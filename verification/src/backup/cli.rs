//! The commands of the backup tool.

use crate::backup::config::{is_default_config, BackupConfig};
use crate::backup::{Backup, BackupError, ErrorKind};
use crate::text::{chars_of, contains, has_infix};
use vstd::prelude::*;
use vstd::string::*;

verus! {

/// The backup tool with its command.
#[derive(Debug)]
pub struct BackupCli {
    /// What is to be done.
    pub command: BackupCommand,
    /// The file with the settings.
    pub config: String,
    /// Whether more is said.
    pub debug: bool,
}

/// The commands of the backup tool.
#[derive(Debug)]
#[allow(inconsistent_fields)]
pub enum BackupCommand {
    /// Create a backup.
    Create {
        /// The subvolume to back up.
        subvolume: String,
        /// Whether a delta is asked for.
        incremental: bool,
        /// What is said of the backup.
        description: Option<String>,
    },
    /// List the backups.
    List {
        /// The subvolume whose backups are listed.
        subvolume: Option<String>,
        /// Whether more is said of each backup.
        verbose: bool,
    },
    /// Restore a backup.
    Restore {
        /// The backup to restore.
        backup_id: String,
        /// Where it is restored to.
        target: Option<String>,
        /// Whether the question is left out.
        force: bool,
    },
    /// Verify a backup.
    Verify {
        /// The backup to verify.
        backup_id: String,
    },
    /// Remove a backup.
    Remove {
        /// The backup to remove.
        backup_id: String,
        /// Whether the question is left out.
        force: bool,
    },
    /// Show the state of the backup system.
    Status {
        /// Whether more is said.
        verbose: bool,
    },
    /// Write the settings for a kind of storage.
    Init {
        /// The kind of storage.
        storage: String,
        /// The file that the settings are written to.
        output: String,
    },
}

/// The file with the settings where none is named.
pub fn default_config_path() -> (r: String)
    ensures
        r@ == "/etc/rast/backup.toml"@,
{
    "/etc/rast/backup.toml".to_string()
}

/// What the lower-case form of a text is, as `str::to_lowercase` gives it.
pub uninterp spec fn lower_text(s: Seq<char>) -> Seq<char>;

/// `str::to_lowercase`: the lower-case form of a text.
#[verifier::external_body]
fn to_lower(s: &str) -> (r: String)
    ensures
        r@ == lower_text(s@),
{
    s.to_lowercase()
}

/// True for the lower-case names of the kinds of storage that settings can
/// be written for.
pub open spec fn is_storage_kind(kind: Seq<char>) -> bool {
    kind == "s3"@ || kind == "local"@
}

/// Says whether settings can be written for the lower-case name of a kind of
/// storage.
pub fn storage_kind_known(kind: &str) -> (r: bool)
    ensures
        r == is_storage_kind(kind@),
{
    *kind == *"s3" || *kind == *"local"
}

/// The message for a kind of storage that is not known.
pub open spec fn unsupported_storage(storage: Seq<char>) -> Seq<char> {
    "Unsupported storage type: "@ + storage
}

impl BackupCli {
    /// The settings that `Init` writes for a kind of storage, whatever the
    /// case of its name: the default settings for `s3` and for `local`.
    /// Any other kind is refused.
    pub fn handle_init(storage: &str) -> (r: Result<BackupConfig, BackupError>)
        ensures
            r is Ok <==> is_storage_kind(lower_text(storage@)),
            r matches Ok(c) ==> is_default_config(c),
            r matches Err(e) ==> (e matches BackupError::Config(m) && m@ == unsupported_storage(
                storage@,
            )),
    {
        let kind = to_lower(storage);
        if storage_kind_known(kind.as_str()) {
            Ok(BackupConfig::default())
        } else {
            let mut m = String::from_str("Unsupported storage type: ");
            m.append(storage);
            Err(BackupError::Config(m))
        }
    }

    /// The backup that a delta of `subvolume` is relative to: the first one
    /// of the listing that is a backup of that subvolume, which is the newest
    /// one where the listing has the newest first.
    pub fn handle_create<'a>(backups: &'a Vec<Backup>, subvolume: &str) -> (r: Option<&'a Backup>)
        ensures
            match r {
                Some(b) => exists|i: int|
                    0 <= i < backups@.len() && backups@[i] == *b
                        && b.subvolume_path@ == subvolume@ && forall|j: int|
                        0 <= j < i ==> (#[trigger] backups@[j]).subvolume_path@ != subvolume@,
                None => forall|j: int|
                    0 <= j < backups@.len() ==> (#[trigger] backups@[j]).subvolume_path@
                        != subvolume@,
            },
    {
        let mut i: usize = 0;
        while i < backups.len()
            invariant
                i <= backups@.len(),
                forall|j: int| 0 <= j < i ==> (#[trigger] backups@[j]).subvolume_path@ != subvolume@,
            decreases backups@.len() - i,
        {
            if *backups[i].subvolume_path.as_str() == *subvolume {
                return Some(&backups[i]);
            }
            i += 1;
        }
        None
    }

    /// Whether `List` shows a backup: every backup where no subvolume is
    /// named, else those whose subvolume holds the name.
    pub fn handle_list(backup: &Backup, subvolume: Option<&str>) -> (r: bool)
        ensures
            r == (match subvolume {
                Some(s) => has_infix(backup.subvolume_path@, s@),
                None => true,
            }),
    {
        match subvolume {
            None => true,
            Some(s) => {
                let hay = chars_of(backup.subvolume_path.as_str());
                let needle = chars_of(s);
                contains(hay.as_slice(), needle.as_slice())
            },
        }
    }
}

} // verus!

//! The settings of the backup system.

use vstd::prelude::*;
use vstd::string::*;

verus! {

/// Where backups are stored.
#[derive(Debug)]
pub enum StorageConfig {
    /// On the local filesystem.
    Local {
        /// The root directory of the store.
        path: String,
    },
    /// In a bucket of an S3-compatible service.
    S3 {
        /// The bucket.
        bucket: String,
        /// The region of the bucket.
        region: String,
        /// The endpoint, for services other than AWS.
        endpoint: Option<String>,
        /// The access key.
        access_key_id: String,
        /// The secret of the access key.
        secret_access_key: String,
    },
}

/// Whether and how backups are sealed.
#[derive(Debug)]
pub struct EncryptionConfig {
    /// Whether payloads are sealed before they are stored.
    pub enabled: bool,
    /// The file that holds the key.
    pub key_path: Option<String>,
    /// The name of the cipher.
    pub algorithm: String,
}

impl Default for EncryptionConfig {
    fn default() -> (r: Self)
        ensures
            !r.enabled,
            r.key_path is None,
            r.algorithm@.len() == 0,
    {
        EncryptionConfig { enabled: false, key_path: None, algorithm: String::new() }
    }
}

/// How long backups are kept.  The core accepts these settings; it does not
/// prune.
#[derive(Debug, Clone, Copy, PartialEq, Eq, Structural)]
pub struct RetentionPolicy {
    /// Days for which every backup is kept.
    pub keep_daily: Option<u32>,
    /// Weeks for which weekly backups are kept.
    pub keep_weekly: Option<u32>,
    /// Months for which monthly backups are kept.
    pub keep_monthly: Option<u32>,
    /// Years for which yearly backups are kept.
    pub keep_yearly: Option<u32>,
}

impl Default for RetentionPolicy {
    fn default() -> (r: Self)
        ensures
            r == (RetentionPolicy {
                keep_daily: None,
                keep_weekly: None,
                keep_monthly: None,
                keep_yearly: None,
            }),
    {
        RetentionPolicy { keep_daily: None, keep_weekly: None, keep_monthly: None, keep_yearly: None }
    }
}

/// The knobs of uploads.
#[derive(Debug, Clone, Copy, PartialEq, Eq, Structural)]
pub struct PerformanceSettings {
    /// How many uploads may run at once.
    pub max_parallel_uploads: usize,
    /// The size of an upload chunk, in bytes.
    pub chunk_size: usize,
    /// Whether payloads are compressed.
    pub compression: bool,
    /// The level of compression, from 1 to 22.
    pub compression_level: u32,
    /// The most bytes per second that uploads may use.
    pub max_bandwidth: Option<u64>,
}

impl Default for PerformanceSettings {
    fn default() -> (r: Self)
        ensures
            r == (PerformanceSettings {
                max_parallel_uploads: 0,
                chunk_size: 0,
                compression: false,
                compression_level: 0,
                max_bandwidth: None,
            }),
    {
        PerformanceSettings {
            max_parallel_uploads: 0,
            chunk_size: 0,
            compression: false,
            compression_level: 0,
            max_bandwidth: None,
        }
    }
}

/// The settings of the backup system.
#[derive(Debug)]
pub struct BackupConfig {
    /// Where backups are stored.
    pub storage: StorageConfig,
    /// Whether and how backups are sealed.
    pub encryption: EncryptionConfig,
    /// How long backups are kept.
    pub retention: RetentionPolicy,
    /// The knobs of uploads.
    pub performance: PerformanceSettings,
}

/// The store of the default settings.
pub open spec fn default_store() -> Seq<char> {
    "/var/lib/rast/backups"@
}

/// The upload settings of the default settings: four uploads at once, chunks
/// of eight mebibytes, compression at level three, no limit on bandwidth.
pub open spec fn default_performance() -> PerformanceSettings {
    PerformanceSettings {
        max_parallel_uploads: 4,
        chunk_size: 8388608,
        compression: true,
        compression_level: 3,
        max_bandwidth: None,
    }
}

/// True for the default settings: backups go to the default store on the
/// local disk and are not sealed, nothing is pruned, and uploads have their
/// default knobs.
pub open spec fn is_default_config(c: BackupConfig) -> bool {
    &&& c.storage matches StorageConfig::Local { path } && path@ == default_store()
    &&& !c.encryption.enabled
    &&& c.encryption.key_path is None
    &&& c.encryption.algorithm@.len() == 0
    &&& c.retention == (RetentionPolicy {
        keep_daily: None,
        keep_weekly: None,
        keep_monthly: None,
        keep_yearly: None,
    })
    &&& c.performance == default_performance()
}

impl Default for BackupConfig {
    fn default() -> (r: Self)
        ensures
            is_default_config(r),
    {
        BackupConfig {
            storage: StorageConfig::Local { path: String::from_str("/var/lib/rast/backups") },
            encryption: EncryptionConfig::default(),
            retention: RetentionPolicy::default(),
            performance: PerformanceSettings {
                max_parallel_uploads: 4,
                chunk_size: 8388608,
                compression: true,
                compression_level: 3,
                max_bandwidth: None,
            },
        }
    }
}

} // verus!

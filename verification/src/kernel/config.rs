//! The settings of a kernel build.

use crate::paths::{join, joined};
use crate::text::texts;
use vstd::prelude::*;
use vstd::string::*;

verus! {

/// What a kernel is built for.
#[derive(Debug, Clone, Copy, PartialEq, Eq, Structural)]
pub enum KernelProfile {
    /// A host of containers.
    ContainerHost,
    /// Development, with debugging.
    Development,
    /// Production, hardened.
    Production,
}

impl Default for KernelProfile {
    fn default() -> (r: Self)
        ensures
            r == KernelProfile::ContainerHost,
    {
        KernelProfile::ContainerHost
    }
}

/// The settings of a kernel build.
#[derive(Debug)]
pub struct KernelConfig {
    /// Where the source lies.
    pub source_dir: String,
    /// Where the build happens.
    pub build_dir: String,
    /// Where the kernel is installed.
    pub install_dir: String,
    /// What the kernel is built for.
    pub profile: KernelProfile,
    /// How many jobs run at once.
    pub jobs: usize,
    /// Further arguments for `make`.
    pub make_args: Vec<String>,
}

/// Why the settings cannot be used.
#[derive(Debug)]
pub enum ConfigError {
    /// The operating system failed.
    Io(String),
    /// The settings contradict each other.
    InvalidConfig(String),
    /// A file or directory is missing.
    MissingPath(String),
}

/// `num_cpus::get`: the number of processors that the system offers, which
/// is at least one.
#[verifier::external_body]
pub(crate) fn available_cpus() -> (r: usize)
    ensures
        r >= 1,
{
    num_cpus::get()
}

impl Default for KernelConfig {
    fn default() -> (r: Self)
        ensures
            r.source_dir@ == "/usr/src/linux"@,
            r.build_dir@ == joined("/usr/src/linux"@, "build"@),
            r.install_dir@ == "/boot"@,
            r.profile == KernelProfile::ContainerHost,
            r.jobs >= 1,
            r.make_args@.len() == 0,
    {
        KernelConfig {
            source_dir: String::from_str("/usr/src/linux"),
            build_dir: join("/usr/src/linux", "build"),
            install_dir: String::from_str("/boot"),
            profile: KernelProfile::ContainerHost,
            jobs: available_cpus(),
            make_args: Vec::new(),
        }
    }
}

impl KernelConfig {
    /// The settings for a source directory: the build happens in `build`
    /// below it, the kernel goes to `/boot`, and one job runs per processor.
    pub fn new(source_dir: String) -> (r: Self)
        ensures
            r.source_dir@ == source_dir@,
            r.build_dir@ == joined(source_dir@, "build"@),
            r.install_dir@ == "/boot"@,
            r.profile == KernelProfile::ContainerHost,
            r.jobs >= 1,
            r.make_args@.len() == 0,
    {
        let build_dir = join(source_dir.as_str(), "build");
        KernelConfig {
            source_dir,
            build_dir,
            install_dir: String::from_str("/boot"),
            profile: KernelProfile::ContainerHost,
            jobs: available_cpus(),
            make_args: Vec::new(),
        }
    }

    /// The same settings for another profile.
    pub fn with_profile(self, profile: KernelProfile) -> (r: Self)
        ensures
            r == (KernelConfig { profile, ..self }),
    {
        let mut c = self;
        c.profile = profile;
        c
    }

    /// The same settings with another number of jobs.
    pub fn with_jobs(self, jobs: usize) -> (r: Self)
        ensures
            r == (KernelConfig { jobs, ..self }),
    {
        let mut c = self;
        c.jobs = jobs;
        c
    }

    /// The same settings with another build directory.
    pub fn with_build_dir(self, build_dir: String) -> (r: Self)
        ensures
            r == (KernelConfig { build_dir, ..self }),
    {
        let mut c = self;
        c.build_dir = build_dir;
        c
    }

    /// The same settings with another installation directory.
    pub fn with_install_dir(self, install_dir: String) -> (r: Self)
        ensures
            r == (KernelConfig { install_dir, ..self }),
    {
        let mut c = self;
        c.install_dir = install_dir;
        c
    }

    /// The same settings with one more argument for `make`.
    pub fn add_make_arg(self, arg: &str) -> (r: Self)
        ensures
            r.source_dir == self.source_dir,
            r.build_dir == self.build_dir,
            r.install_dir == self.install_dir,
            r.profile == self.profile,
            r.jobs == self.jobs,
            texts(r.make_args@) == texts(self.make_args@).push(arg@),
    {
        let mut c = self;
        c.make_args.push(String::from_str(arg));
        assert(texts(c.make_args@) =~= texts(self.make_args@).push(arg@));
        c
    }

    /// Checks the settings against the filesystem.  `source_exists` says
    /// whether the source directory is there.  Without it the settings are
    /// refused; with it, the directories are named that must be there before
    /// the build: the build directory, then the installation directory.
    pub fn validate(&self, source_exists: bool) -> (r: Result<Vec<String>, ConfigError>)
        ensures
            match r {
                Ok(dirs) => source_exists && texts(dirs@) == seq![
                    self.build_dir@,
                    self.install_dir@,
                ],
                Err(e) => !source_exists && (e matches ConfigError::MissingPath(p) && p@
                    == self.source_dir@),
            },
    {
        if !source_exists {
            return Err(ConfigError::MissingPath(self.source_dir.clone()));
        }
        let mut dirs: Vec<String> = Vec::new();
        dirs.push(self.build_dir.clone());
        dirs.push(self.install_dir.clone());
        assert(texts(dirs@) =~= seq![self.build_dir@, self.install_dir@]);
        Ok(dirs)
    }
}

} // verus!

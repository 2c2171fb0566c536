//! The steps of a kernel build.

use crate::command::{command, Command, CommandView};
use crate::kernel::config::{available_cpus, KernelProfile};
use crate::paths::{join, joined};
use crate::text::{decimal, decimal_text, texts};
use vstd::prelude::*;
use vstd::string::*;

verus! {

/// Builds a kernel from a source directory.
#[derive(Debug)]
pub struct KernelBuilder {
    /// Where the source lies.
    pub source_dir: String,
    /// Where the build happens.
    pub build_dir: String,
    /// Where the kernel is installed.
    pub install_dir: String,
    /// The kernel configuration to use, where one is given.
    pub config_path: Option<String>,
    /// What the kernel is built for.
    pub profile: KernelProfile,
    /// How many jobs run at once.
    pub jobs: usize,
}

/// The command line of `make` in the source directory, building in `build`.
pub open spec fn make(source_dir: Seq<char>, rest: Seq<Seq<char>>) -> CommandView {
    CommandView { program: "make"@, args: seq!["-C"@, source_dir, "O=build"@] + rest }
}

impl KernelBuilder {
    /// A builder for a source directory: the build happens in `build` below
    /// it, the kernel goes to `install` below it, and one job runs per
    /// processor.
    pub fn new(source_dir: &str) -> (r: Self)
        ensures
            r.source_dir@ == source_dir@,
            r.build_dir@ == joined(source_dir@, "build"@),
            r.install_dir@ == joined(source_dir@, "install"@),
            r.config_path is None,
            r.profile == KernelProfile::ContainerHost,
            r.jobs >= 1,
    {
        KernelBuilder {
            source_dir: String::from_str(source_dir),
            build_dir: join(source_dir, "build"),
            install_dir: join(source_dir, "install"),
            config_path: None,
            profile: KernelProfile::ContainerHost,
            jobs: available_cpus(),
        }
    }

    /// The same builder with a kernel configuration of its own.
    pub fn with_config(self, config_path: &str) -> (r: Self)
        ensures
            r.config_path matches Some(p) && p@ == config_path@,
            r.source_dir == self.source_dir,
            r.build_dir == self.build_dir,
            r.install_dir == self.install_dir,
            r.profile == self.profile,
            r.jobs == self.jobs,
    {
        let mut b = self;
        b.config_path = Some(String::from_str(config_path));
        b
    }

    /// The same builder for another profile.
    pub fn with_profile(self, profile: KernelProfile) -> (r: Self)
        ensures
            r == (KernelBuilder { profile, ..self }),
    {
        let mut b = self;
        b.profile = profile;
        b
    }

    /// The same builder with another number of jobs.
    pub fn with_jobs(self, jobs: usize) -> (r: Self)
        ensures
            r == (KernelBuilder { jobs, ..self }),
    {
        let mut b = self;
        b.jobs = jobs;
        b
    }

    /// The command line of `make` for this source directory.
    fn make_command(&self, rest: Vec<String>) -> (r: Command)
        ensures
            r@ == make(self.source_dir@, texts(rest@)),
    {
        let mut args: Vec<String> = Vec::new();
        args.push(String::from_str("-C"));
        args.push(self.source_dir.clone());
        args.push(String::from_str("O=build"));
        let ghost head = texts(args@);
        let mut rest = rest;
        let ghost tail = texts(rest@);
        args.append(&mut rest);
        assert(texts(args@) =~= head + tail);
        assert(head =~= seq!["-C"@, self.source_dir@, "O=build"@]);
        command("make", args)
    }

    /// The command that completes the kernel configuration with defaults.
    pub fn configure(&self) -> (r: Command)
        ensures
            r@ == make(self.source_dir@, seq!["olddefconfig"@]),
    {
        let mut rest: Vec<String> = Vec::new();
        rest.push(String::from_str("olddefconfig"));
        assert(texts(rest@) =~= seq!["olddefconfig"@]);
        self.make_command(rest)
    }

    /// The command that compiles the kernel with the jobs of the builder.
    pub fn compile(&self) -> (r: Command)
        ensures
            r@ == make(self.source_dir@, seq!["-j"@ + decimal_text(self.jobs as nat), "all"@]),
    {
        let mut jobs = String::from_str("-j");
        let n = decimal(self.jobs as u64);
        jobs.append(n.as_str());
        let mut rest: Vec<String> = Vec::new();
        rest.push(jobs);
        rest.push(String::from_str("all"));
        assert(texts(rest@) =~= seq!["-j"@ + decimal_text(self.jobs as nat), "all"@]);
        self.make_command(rest)
    }

    /// The commands that install the kernel: first its modules below the
    /// installation directory, then its image in `boot` below it.
    pub fn install(&self) -> (r: (Command, Command))
        ensures
            r.0@ == make(
                self.source_dir@,
                seq!["INSTALL_MOD_PATH="@ + self.install_dir@, "modules_install"@],
            ),
            r.1@ == make(
                self.source_dir@,
                seq!["INSTALL_PATH="@ + self.install_dir@ + "/boot"@, "install"@],
            ),
    {
        let mut modules = String::from_str("INSTALL_MOD_PATH=");
        modules.append(self.install_dir.as_str());
        let mut first: Vec<String> = Vec::new();
        first.push(modules);
        first.push(String::from_str("modules_install"));
        assert(texts(first@) =~= seq![
            "INSTALL_MOD_PATH="@ + self.install_dir@,
            "modules_install"@,
        ]);
        let mut image = String::from_str("INSTALL_PATH=");
        image.append(self.install_dir.as_str());
        image.append("/boot");
        let mut second: Vec<String> = Vec::new();
        second.push(image);
        second.push(String::from_str("install"));
        assert(texts(second@) =~= seq![
            "INSTALL_PATH="@ + self.install_dir@ + "/boot"@,
            "install"@,
        ]);
        (self.make_command(first), self.make_command(second))
    }

    /// The file that the kernel configuration goes to before the build.
    pub fn config_target(&self) -> (r: String)
        ensures
            r@ == joined(self.source_dir@, ".config"@),
    {
        join(self.source_dir.as_str(), ".config")
    }
}

} // verus!

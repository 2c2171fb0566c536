use rastos::fs::directory::{PathKind, StdDirectory};
use rastos::fs::error::{FsError, IoFailure};
use rastos::fs::file_ops::{check_delete, copy_failed, copy_target, move_fallback, MoveFallback};
use rastos::fs::utils::{case_sensitive, glob_pattern, GlobOptions};
use rastos::kernel::builder::KernelBuilder;
use rastos::kernel::config::{ConfigError, KernelConfig, KernelProfile};
use rastos::kernel::error::KernelError;
use rastos::oci::container::{check_builder, ContainerError, ContainerState};
use rastos::command::CommandOutput;
use rastos::package::{
    Context, InstallStep, PackageError, PackageList, PackageManager, PackageSpec,
};
use rastos::text::{chars_of, decimal, fields, lines, parse_u64, split, trim};

#[test]
fn test_package_manager_creation() {
    let temp_dir = tempfile::tempdir().unwrap();
    let test_path = temp_dir.path().to_str().unwrap();
    let _pm = PackageManager::new(test_path);
    temp_dir.close().unwrap();
}

#[test]
fn test_kernel_builder_creation() {
    let builder = KernelBuilder::new("/tmp/linux-test");
    assert_eq!(builder.source_dir, "/tmp/linux-test");
    assert_eq!(builder.jobs, num_cpus::get());
    assert_eq!(builder.build_dir, "/tmp/linux-test/build");
    assert_eq!(builder.install_dir, "/tmp/linux-test/install");
    assert!(builder.config_path.is_none());
    assert_eq!(builder.profile, KernelProfile::ContainerHost);
}

fn spec(name: &str, version: Option<&str>, source: Option<&str>) -> PackageSpec {
    PackageSpec {
        name: name.to_string(),
        version: version.map(|v| v.to_string()),
        source: source.map(|v| v.to_string()),
        options: None,
    }
}

#[test]
fn install_list_orders_hooks_and_installers() {
    let list = PackageList {
        packages: vec![
            spec("vim", None, Some("official")),
            spec("paru-bin", None, Some("aur")),
            spec("linux", Some(">=6.1"), Some("core")),
            spec("yay", Some("12"), None),
        ],
        pre_install: Some(vec!["echo pre".to_string()]),
        post_install: Some(vec!["echo one".to_string(), "echo two".to_string()]),
    };
    let pm = PackageManager::new("/").verbose(true);
    assert!(pm.says_more());
    let commands = pm.install_list(&list);
    let shown: Vec<(String, Vec<String>)> =
        commands.into_iter().map(|c| (c.program, c.args)).collect();
    let s = |v: &[&str]| v.iter().map(|x| x.to_string()).collect::<Vec<_>>();
    assert_eq!(
        shown,
        vec![
            ("sh".to_string(), s(&["-c", "echo pre"])),
            ("pacman".to_string(), s(&["-S", "--noconfirm", "--needed", "vim linux >=6.1"])),
            ("paru".to_string(), s(&["-S", "--noconfirm", "--needed", "paru-bin yay@12"])),
            ("sh".to_string(), s(&["-c", "echo one"])),
            ("sh".to_string(), s(&["-c", "echo two"])),
        ]
    );
}

#[test]
fn install_list_leaves_out_what_is_not_there() {
    let pm = PackageManager::new("/");
    assert!(!pm.says_more());
    let empty = PackageList { packages: vec![], pre_install: None, post_install: None };
    assert!(pm.install_list(&empty).is_empty());
    let only_aur = PackageList {
        packages: vec![spec("a", None, None)],
        pre_install: None,
        post_install: None,
    };
    let commands = pm.install_list(&only_aur);
    assert_eq!(commands.len(), 1);
    assert_eq!(commands[0].program, "paru");
    assert_eq!(commands[0].args[3], "a");
}

#[test]
fn package_errors_say_what_failed() {
    match PackageManager::hook_failed(Context::PreInstall, "make x", "exit 2") {
        PackageError::OperationFailed(m) => {
            assert_eq!(m, "pre-install command failed: make x - exit 2")
        }
        _ => panic!("expected a failed operation"),
    }
    match PackageManager::hook_failed(Context::PostInstall, "l", "r") {
        PackageError::OperationFailed(m) => assert_eq!(m, "post-install command failed: l - r"),
        _ => panic!("expected a failed operation"),
    }
    match PackageManager::command_failed("pacman", "no such package") {
        PackageError::OperationFailed(m) => {
            assert_eq!(m, "Command 'pacman' failed: no such package")
        }
        _ => panic!("expected a failed operation"),
    }
}

#[test]
fn kernel_config_builders() {
    let config = KernelConfig::new("/usr/src/linux-6".to_string());
    assert_eq!(config.source_dir, "/usr/src/linux-6");
    assert_eq!(config.build_dir, "/usr/src/linux-6/build");
    assert_eq!(config.install_dir, "/boot");
    assert_eq!(config.profile, KernelProfile::ContainerHost);
    assert_eq!(config.jobs, num_cpus::get());
    assert!(config.make_args.is_empty());
    let config = config
        .with_profile(KernelProfile::Production)
        .with_jobs(3)
        .with_build_dir("/b".to_string())
        .with_install_dir("/i".to_string())
        .add_make_arg("V=1")
        .add_make_arg("W=1");
    assert_eq!(config.profile, KernelProfile::Production);
    assert_eq!(config.jobs, 3);
    assert_eq!(config.build_dir, "/b");
    assert_eq!(config.install_dir, "/i");
    assert_eq!(config.make_args, vec!["V=1".to_string(), "W=1".to_string()]);
    assert_eq!(config.source_dir, "/usr/src/linux-6");
    assert_eq!(config.validate(true).unwrap(), vec!["/b".to_string(), "/i".to_string()]);
    assert!(matches!(
        config.validate(false),
        Err(ConfigError::MissingPath(p)) if p == "/usr/src/linux-6"
    ));
    let d = KernelConfig::default();
    assert_eq!(d.source_dir, "/usr/src/linux");
    assert_eq!(d.build_dir, "/usr/src/linux/build");
    assert_eq!(KernelProfile::default(), KernelProfile::ContainerHost);
}

#[test]
fn kernel_build_commands() {
    let b = KernelBuilder::new("/src")
        .with_jobs(12)
        .with_profile(KernelProfile::Development)
        .with_config("/etc/kernel.config");
    assert_eq!(b.config_path.as_deref(), Some("/etc/kernel.config"));
    assert_eq!(b.config_target(), "/src/.config");
    let c = b.configure();
    assert_eq!(c.program, "make");
    assert_eq!(c.args, vec!["-C", "/src", "O=build", "olddefconfig"]);
    assert_eq!(b.compile().args, vec!["-C", "/src", "O=build", "-j12", "all"]);
    let (modules, image) = b.install();
    assert_eq!(
        modules.args,
        vec!["-C", "/src", "O=build", "INSTALL_MOD_PATH=/src/install", "modules_install"]
    );
    assert_eq!(
        image.args,
        vec!["-C", "/src", "O=build", "INSTALL_PATH=/src/install/boot", "install"]
    );
}

#[test]
fn kernel_command_error() {
    match KernelError::command_error("make", Some(2), "  error: no rule\n") {
        KernelError::CommandError { command, code, message } => {
            assert_eq!(command, "make");
            assert_eq!(code, 2);
            assert_eq!(message, "error: no rule");
        }
        _ => panic!("expected a command error"),
    }
    match KernelError::command_error("make", None, "") {
        KernelError::CommandError { code, message, .. } => {
            assert_eq!(code, -1);
            assert_eq!(message, "");
        }
        _ => panic!("expected a command error"),
    }
}

#[test]
fn fs_errors() {
    assert!(matches!(FsError::not_found("/p"), FsError::NotFound(p) if p == "/p"));
    assert!(matches!(FsError::permission_denied("/p"), FsError::PermissionDenied(p) if p == "/p"));
    assert!(matches!(FsError::already_exists("/p"), FsError::AlreadyExists(p) if p == "/p"));
    assert!(matches!(FsError::invalid_path("m"), FsError::InvalidPath(m) if m == "m"));
    assert!(matches!(FsError::not_supported("m"), FsError::NotSupported(m) if m == "m"));
    assert!(matches!(FsError::directory_not_empty("/p"), FsError::DirectoryNotEmpty(p) if p == "/p"));
    assert!(matches!(
        FsError::from_io(IoFailure::NotFound, "/nonexistent/path", "x"),
        FsError::NotFound(p) if p == "/nonexistent/path"
    ));
    assert!(matches!(
        FsError::from_io(IoFailure::PermissionDenied, "/p", "x"),
        FsError::PermissionDenied(_)
    ));
    assert!(matches!(FsError::from_io(IoFailure::Other, "/p", "boom"), FsError::Io(m) if m == "boom"));
}

#[test]
fn directories() {
    let d = StdDirectory::open("/tmp", PathKind::Directory).unwrap();
    assert_eq!(d.path(), "/tmp");
    assert!(matches!(StdDirectory::open("/x", PathKind::Missing), Err(FsError::NotFound(p)) if p == "/x"));
    assert!(matches!(
        StdDirectory::open("/x", PathKind::File),
        Err(FsError::InvalidPath(m)) if m == "Not a directory"
    ));
    assert!(StdDirectory::create("/x", PathKind::Missing).is_ok());
    assert!(matches!(
        StdDirectory::create("/x", PathKind::Directory),
        Err(FsError::AlreadyExists(p)) if p == "/x"
    ));
    assert!(matches!(StdDirectory::create("/x", PathKind::File), Err(FsError::AlreadyExists(_))));
    assert!(StdDirectory::create_all("/x", PathKind::Missing).is_ok());
    assert!(StdDirectory::create_all("/x", PathKind::Directory).is_ok());
    assert!(matches!(
        StdDirectory::create_all("/x", PathKind::File),
        Err(FsError::InvalidPath(m)) if m == "Path exists but is not a directory"
    ));
}

#[test]
fn glob_patterns() {
    let d = GlobOptions::default();
    assert!(!d.case_insensitive && !d.match_hidden && !d.require_literal_separator);
    assert!(case_sensitive(&d));
    assert_eq!(glob_pattern("*.txt", &d), "[!.]*/**/*.txt");
    assert_eq!(glob_pattern("**/x", &d), "**/x");
    assert_eq!(glob_pattern(".hidden", &d), ".hidden");
    assert_eq!(glob_pattern("*/x", &d), "*/x");
    let hidden = GlobOptions { case_insensitive: true, match_hidden: true, require_literal_separator: false };
    assert_eq!(glob_pattern("*.txt", &hidden), "*.txt");
    assert!(!case_sensitive(&hidden));
}

#[test]
fn container_states() {
    assert_eq!(ContainerState::default(), ContainerState::Created);
    assert_eq!(ContainerState::Created.started(), ContainerState::Running);
    assert_eq!(ContainerState::Running.stopped(), ContainerState::Stopped);
    assert!(check_builder(true, true).is_ok());
    assert!(matches!(
        check_builder(false, true),
        Err(ContainerError::InvalidConfig(m)) if m == "Process configuration is required"
    ));
    assert!(matches!(
        check_builder(false, false),
        Err(ContainerError::InvalidConfig(m)) if m == "Process configuration is required"
    ));
    assert!(matches!(
        check_builder(true, false),
        Err(ContainerError::InvalidConfig(m)) if m == "Linux configuration is required"
    ));
}

#[test]
fn text_helpers() {
    assert_eq!(decimal(0), "0");
    assert_eq!(decimal(7), "7");
    assert_eq!(decimal(10), "10");
    assert_eq!(decimal(u64::MAX), "18446744073709551615");
    let c = |s: &str| chars_of(s);
    assert_eq!(parse_u64(&c("0")), Some(0));
    assert_eq!(parse_u64(&c("+12")), Some(12));
    assert_eq!(parse_u64(&c("007")), Some(7));
    assert_eq!(parse_u64(&c("")), None);
    assert_eq!(parse_u64(&c("+")), None);
    assert_eq!(parse_u64(&c("1 ")), None);
    assert_eq!(parse_u64(&c("-1")), None);
    assert_eq!(parse_u64(&c("18446744073709551615")), Some(u64::MAX));
    assert_eq!(parse_u64(&c("18446744073709551616")), None);
    let s = |v: Vec<Vec<char>>| v.into_iter().map(|p| p.into_iter().collect::<String>()).collect::<Vec<_>>();
    assert_eq!(s(split(&c("a/b//c"), '/')), vec!["a", "b", "", "c"]);
    assert_eq!(s(split(&c(""), '/')), vec![""]);
    assert_eq!(s(fields(&c("  a\tb \u{a0} c\n"))), vec!["a", "b", "c"]);
    assert!(fields(&c(" \t ")).is_empty());
    assert_eq!(s(lines(&c("a\r\nb\n\nc"))), vec!["a", "b", "", "c"]);
    assert_eq!(s(lines(&c("a\n"))), vec!["a"]);
    assert!(lines(&c("")).is_empty());
    // A carriage return goes only together with the line feed behind it.
    assert_eq!(s(lines(&c("a\r"))), vec!["a\r"]);
    assert_eq!(s(lines(&c("a\r\nb\r"))), vec!["a", "b\r"]);
    assert_eq!(s(lines(&c("a\r\n"))), vec!["a"]);
    assert_eq!(s(lines(&c("\r"))), vec!["\r"]);
    assert_eq!(s(lines(&c("a\r\r\nb"))), vec!["a\r", "b"]);
    for text in ["", "\n", "\r\n", "x\ny\r", "x\r\n\r", "\n\n", "a\rb\nc\r\n\r\nd"] {
        let expected: Vec<String> = text.lines().map(|l| l.to_string()).collect();
        assert_eq!(s(lines(&c(text))), expected);
    }
    assert_eq!(trim(&c(" \t x y \n")).into_iter().collect::<String>(), "x y");
    assert_eq!(trim(&c("   ")).into_iter().collect::<String>(), "");
}

#[test]
fn copy_move_and_delete_rules() {
    assert_eq!(copy_target("/a/f.txt", PathKind::File, "/b/g.txt", PathKind::Missing).unwrap(), "/b/g.txt");
    assert_eq!(copy_target("/a/f.txt", PathKind::File, "/b/g.txt", PathKind::File).unwrap(), "/b/g.txt");
    assert_eq!(copy_target("/a/f.txt", PathKind::File, "/b", PathKind::Directory).unwrap(), "/b/f.txt");
    assert!(matches!(
        copy_target("/a/f.txt", PathKind::Missing, "/b", PathKind::Directory),
        Err(FsError::NotFound(p)) if p == "/a/f.txt"
    ));
    assert!(matches!(
        copy_target("/a", PathKind::Directory, "/b", PathKind::Directory),
        Err(FsError::InvalidPath(m)) if m == "Source is not a file"
    ));
    assert!(matches!(
        copy_target("/a/..", PathKind::File, "/b", PathKind::Directory),
        Err(FsError::InvalidPath(m)) if m == "Invalid source filename"
    ));
    assert!(matches!(
        copy_failed(IoFailure::PermissionDenied, "/b/f", "denied"),
        FsError::PermissionDenied(p) if p == "/b/f"
    ));
    assert!(matches!(copy_failed(IoFailure::Other, "/b/f", "boom"), FsError::Io(m) if m == "boom"));
    assert!(matches!(copy_failed(IoFailure::NotFound, "/b/f", "gone"), FsError::Io(m) if m == "gone"));
    assert_eq!(move_fallback("/a", PathKind::Directory).unwrap(), MoveFallback::CopyTree);
    assert_eq!(move_fallback("/a", PathKind::File).unwrap(), MoveFallback::CopyFile);
    assert!(matches!(move_fallback("/a", PathKind::Missing), Err(FsError::NotFound(p)) if p == "/a"));
    assert!(check_delete("/a", PathKind::File).is_ok());
    assert!(matches!(check_delete("/a", PathKind::Missing), Err(FsError::NotFound(_))));
    assert!(matches!(
        check_delete("/a", PathKind::Directory),
        Err(FsError::InvalidPath(m)) if m == "Path is a directory, use remove_dir instead"
    ));
}

#[test]
fn commands_know_their_step() {
    let list = PackageList {
        packages: vec![spec("vim", None, Some("official")), spec("yay", None, None)],
        pre_install: Some(vec!["a".to_string()]),
        post_install: Some(vec!["b".to_string(), "c".to_string()]),
    };
    // sh, pacman, paru, sh, sh
    assert_eq!(PackageManager::context_of(&list, 0), Some(Context::PreInstall));
    assert_eq!(PackageManager::context_of(&list, 1), None);
    assert_eq!(PackageManager::context_of(&list, 2), None);
    assert_eq!(PackageManager::context_of(&list, 3), Some(Context::PostInstall));
    assert_eq!(PackageManager::context_of(&list, 4), Some(Context::PostInstall));
    assert_eq!(PackageManager::context_of(&list, 5), None);
    let bare = PackageList { packages: vec![], pre_install: None, post_install: Some(vec!["x".into()]) };
    assert_eq!(PackageManager::context_of(&bare, 0), Some(Context::PostInstall));
    assert_eq!(PackageManager::context_of(&bare, 1), None);
}

#[test]
fn test_metadata_nonexistent() {
    // What the operating system says of a path that is not there.
    let failure = match std::io::Error::from(std::io::ErrorKind::NotFound).kind() {
        std::io::ErrorKind::NotFound => IoFailure::NotFound,
        std::io::ErrorKind::PermissionDenied => IoFailure::PermissionDenied,
        _ => IoFailure::Other,
    };
    let result: Result<(), FsError> = Err(FsError::from_io(failure, "/nonexistent/path", "not found"));
    assert!(matches!(result, Err(FsError::NotFound(_))));
}

#[test]
fn installation_stops_at_the_first_command_that_fails() {
    let list = PackageList {
        packages: vec![PackageSpec {
            name: "vim".to_string(),
            version: None,
            source: Some("official".to_string()),
            options: None,
        }],
        pre_install: Some(vec!["echo before".to_string()]),
        post_install: Some(vec!["echo after".to_string(), "false".to_string()]),
    };
    let commands = PackageManager::new("/").install_list(&list);
    assert_eq!(commands.len(), 4);
    let fine = CommandOutput { success: true, stdout: String::new(), stderr: String::new() };
    let bad = CommandOutput { success: false, stdout: String::new(), stderr: "boom".to_string() };
    assert!(matches!(PackageManager::after_command(&list, &commands, 0, &fine), InstallStep::Run(1)));
    assert!(matches!(PackageManager::after_command(&list, &commands, 2, &fine), InstallStep::Run(3)));
    assert!(matches!(PackageManager::after_command(&list, &commands, 3, &fine), InstallStep::Finished));
    assert!(matches!(PackageManager::after_command(&list, &commands, 4, &bad), InstallStep::Finished));
    match PackageManager::after_command(&list, &commands, 0, &bad) {
        InstallStep::Failed(PackageError::OperationFailed(m)) => assert_eq!(
            m,
            "pre-install command failed: echo before - Package operation failed: Command 'sh' failed: boom"
        ),
        _ => panic!("expected the failure of the hook"),
    }
    match PackageManager::after_command(&list, &commands, 1, &bad) {
        InstallStep::Failed(PackageError::OperationFailed(m)) => {
            assert_eq!(m, format!("Command '{}' failed: boom", commands[1].program))
        }
        _ => panic!("expected the failure of the command"),
    }
    match PackageManager::after_command(&list, &commands, 3, &bad) {
        InstallStep::Failed(PackageError::OperationFailed(m)) => assert_eq!(
            m,
            "post-install command failed: false - Package operation failed: Command 'sh' failed: boom"
        ),
        _ => panic!("expected the failure of the hook"),
    }
    assert_eq!(PackageError::Io("x".to_string()).describe(), "I/O error: x");
    assert_eq!(
        PackageError::ParseError("y".to_string()).describe(),
        "Failed to parse package list: y"
    );
}

use thermite::error::ThermiteError;
use thermite::shell::{command_failed, command_not_found, display_command, OutputSettings};
use thermite::steps::autopkgtest::{autopkgtest_qemu_args, buildvm_args, testbed_image_name};

#[test]
fn command_failed_carries_stdout_and_stderr() {
    let err = ThermiteError::CommandFailed {
        cmd: "test-cmd".to_owned(),
        code: 1,
        stdout: "stdout content".to_owned(),
        stderr: "stderr content".to_owned(),
    };
    assert!(err.message().contains("test-cmd"));
    if let ThermiteError::CommandFailed { stdout, stderr, .. } = &err {
        assert_eq!(stdout, "stdout content");
        assert_eq!(stderr, "stderr content");
    } else {
        panic!("expected CommandFailed variant");
    }
}

#[test]
fn invalid_lp_user_variant_exists() {
    let err = ThermiteError::InvalidLpUser("empty-user".to_owned());
    assert!(err.message().contains("empty-user"));
    assert!(matches!(err, ThermiteError::InvalidLpUser(_)));
}

#[test]
fn invalid_lp_bug_number_variant_exists() {
    let err = ThermiteError::InvalidLpBugNumber("abc".to_owned());
    assert!(err.message().contains("abc"));
    assert!(matches!(err, ThermiteError::InvalidLpBugNumber(_)));
}

#[test]
fn error_messages_are_exact() {
    let err = ThermiteError::CommandFailed {
        cmd: "git push".to_owned(),
        code: -1,
        stdout: String::new(),
        stderr: "denied".to_owned(),
    };
    assert_eq!(err.message(), "command 'git push' failed with exit code -1:\ndenied");
    assert_eq!(
        ThermiteError::UnknownRelease("x".to_owned()).message(),
        "unknown Ubuntu release 'x'"
    );
    assert_eq!(ThermiteError::Io("boom".to_owned()).message(), "IO error: boom");
    assert_eq!(
        ThermiteError::InvalidRustVersion("1.2".to_owned()).message(),
        "invalid Rust version string '1.2': expected X.Y.Z format"
    );
    assert_eq!(
        ThermiteError::CommandNotFound("dch".to_owned()).message(),
        "command 'dch' was not found on PATH"
    );
}

#[test]
fn disk_size_arg_contains_no_embedded_space() {
    let args = buildvm_args("noble", 20, 4096, 4);
    assert!(args.iter().any(|a| a == "-s"));
    assert!(args.iter().any(|a| a == "20G"));
    for arg in &args {
        assert!(!arg.contains(' '), "arg '{arg}' must not contain an embedded space");
    }
}

#[test]
fn qemu_args_and_image_name() {
    let args = autopkgtest_qemu_args("rustc-1.85", "/i.img", "deb x", "/l.log", 8192, 4);
    assert_eq!(
        args,
        vec![
            "rustc-1.85", "--apt-upgrade", "--shell-fail", "--add-apt-source=deb x",
            "--log-file=/l.log", "--", "qemu", "--ram-size=8192", "--cpus=4", "/i.img"
        ]
    );
    assert_eq!(testbed_image_name("noble", "amd64"), "autopkgtest-noble-amd64.img");
}

#[test]
fn shell_helpers() {
    let args = vec!["push".to_owned(), "origin".to_owned()];
    assert_eq!(display_command("git", &args), "git push origin");
    match command_failed("git push origin", None, "o", "e") {
        ThermiteError::CommandFailed { cmd, code, stdout, stderr } => {
            assert_eq!(cmd, "git push origin");
            assert_eq!(code, -1);
            assert_eq!(stdout, "o");
            assert_eq!(stderr, "e");
        }
        other => panic!("unexpected {other:?}"),
    }
    assert!(matches!(command_not_found("dch"), ThermiteError::CommandNotFound(p) if p == "dch"));
}

#[test]
fn output_settings_are_set_once() {
    let mut s = OutputSettings::new();
    assert!(!s.is_verbose());
    assert_eq!(s.verbosity(), 0);
    s.set_verbose(true);
    s.set_verbose(false);
    assert!(s.is_verbose());
    s.set_verbosity(2);
    s.set_verbosity(0);
    assert_eq!(s.verbosity(), 2);
}

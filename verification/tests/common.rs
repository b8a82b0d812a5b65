use packler::common::{is_executable, path_exists, run_command, strip_prefix, CommandOutcome, PathProbe};

#[test]
fn found_path_exists() {
    let probe = PathProbe::Found { is_file: false, mode: 0 };
    assert_eq!(path_exists("dist", &probe), Ok(true));
}

#[test]
fn missing_path_does_not_exist() {
    assert_eq!(path_exists("dist", &PathProbe::NotFound), Ok(false));
}

#[test]
fn failed_probe_is_an_error() {
    let probe = PathProbe::Failed("permission denied".to_string());
    assert_eq!(
        path_exists("dist", &probe),
        Err("error checking for existence of path at \"dist\": permission denied".to_string())
    );
    assert_eq!(
        is_executable("bin/sass", &probe),
        Err("error checking file mode for file \"bin/sass\": permission denied".to_string())
    );
}

#[test]
fn executable_needs_file_and_owner_bit() {
    assert_eq!(is_executable("sass", &PathProbe::Found { is_file: true, mode: 0o755 }), Ok(true));
    assert_eq!(is_executable("sass", &PathProbe::Found { is_file: true, mode: 0o100 }), Ok(true));
    assert_eq!(is_executable("sass", &PathProbe::Found { is_file: true, mode: 0o644 }), Ok(false));
    assert_eq!(is_executable("sass", &PathProbe::Found { is_file: true, mode: 0o011 }), Ok(false));
    assert_eq!(is_executable("sass", &PathProbe::Found { is_file: false, mode: 0o755 }), Ok(false));
    assert_eq!(is_executable("sass", &PathProbe::NotFound), Ok(false));
}

#[test]
fn prefix_is_stripped_when_under_cwd() {
    assert_eq!(strip_prefix("/home/me/project/dist", "/home/me/project"), "dist");
    assert_eq!(strip_prefix("/home/me/project", "/home/me/project"), "");
}

#[test]
fn target_is_kept_when_not_under_cwd() {
    assert_eq!(strip_prefix("/opt/tool", "/home/me/project"), "/opt/tool");
    assert_eq!(strip_prefix("/home/me/project-2/x", "/home/me/project"), "/home/me/project-2/x");
}

#[test]
fn command_succeeds_only_with_exit_code_zero() {
    assert_eq!(run_command("sass", &CommandOutcome::Exited { success: true }), Ok(()));
    assert_eq!(
        run_command("sass", &CommandOutcome::Exited { success: false }),
        Err("sass call returned a bad status".to_string())
    );
}

#[test]
fn command_that_did_not_run_fails() {
    assert_eq!(
        run_command("sass", &CommandOutcome::SpawnFailed("not found".to_string())),
        Err("error spawning sass call: not found".to_string())
    );
    assert_eq!(
        run_command("sass", &CommandOutcome::WaitFailed("interrupted".to_string())),
        Err("error during sass call: interrupted".to_string())
    );
}

#[test]
fn prefix_is_stripped_whatever_the_separators() {
    assert_eq!(strip_prefix("/w//x", "/w"), "x");
    assert_eq!(strip_prefix("/w", "/w/"), "");
    assert_eq!(strip_prefix("/w/a//b/", "/w//"), "a/b");
    for (target, cwd) in [("/w//x", "/w"), ("/w", "/w/"), ("/w/a//b/", "/w//"), ("/v/x", "/w")] {
        let expected = std::path::Path::new(target)
            .strip_prefix(cwd)
            .unwrap_or(std::path::Path::new(target));
        assert_eq!(std::path::Path::new(&strip_prefix(target, cwd)), expected);
    }
}

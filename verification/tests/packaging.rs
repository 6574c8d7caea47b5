use capture_agent::packaging::{
    binary_suffix, check_package_target, demo_arguments, demo_job_id, package_binaries,
    package_directories, package_location, release_binary, release_build_arguments,
    resolve_target, workspace_index, PackageDestination, PackageError, TargetArg,
};

#[test]
fn targets_resolve_to_triples() {
    assert_eq!(resolve_target(TargetArg::Current, "x86_64-unknown-linux-gnu"), "x86_64-unknown-linux-gnu");
    assert_eq!(resolve_target(TargetArg::WindowsX64, "host"), "x86_64-pc-windows-msvc");
    assert_eq!(resolve_target(TargetArg::MacosArm64, "host"), "aarch64-apple-darwin");
    assert_eq!(resolve_target(TargetArg::MacosX64, "host"), "x86_64-apple-darwin");
    assert_eq!(resolve_target(TargetArg::LinuxX64, "host"), "x86_64-unknown-linux-gnu");
}

#[test]
fn packages_are_built_on_their_own_target() {
    let host = "x86_64-unknown-linux-gnu".to_string();
    assert_eq!(check_package_target(&host.clone(), &host), Ok(()));
    assert_eq!(
        check_package_target(&"x86_64-pc-windows-msvc".to_string(), &host),
        Err(PackageError::ForeignTarget)
    );
}

#[test]
fn windows_programs_end_in_exe() {
    assert_eq!(binary_suffix("x86_64-pc-windows-msvc"), ".exe");
    assert_eq!(binary_suffix("aarch64-apple-darwin"), "");
    assert_eq!(
        package_binaries("x86_64-pc-windows-msvc"),
        vec![
            ("omni-inlet.exe".to_string(), PackageDestination::App),
            ("capture-agent.exe".to_string(), PackageDestination::Bin),
            ("window-enumerator.exe".to_string(), PackageDestination::Bin),
        ]
    );
    assert_eq!(package_binaries("x86_64-unknown-linux-gnu")[1].0, "capture-agent");
}

#[test]
fn package_layout_is_fixed() {
    assert_eq!(package_directories(), vec!["bin", "lib", "resources", "licenses"]);
    assert_eq!(
        package_location("0.1.0", "x86_64-unknown-linux-gnu"),
        vec!["dist", "0.1.0", "x86_64-unknown-linux-gnu", "app"]
    );
    assert_eq!(
        release_binary("x86_64-unknown-linux-gnu", "capture-agent"),
        vec!["target", "x86_64-unknown-linux-gnu", "release", "capture-agent"]
    );
    assert_eq!(
        release_build_arguments("aarch64-apple-darwin"),
        vec!["build", "--release", "-p", "capture-agent", "--bins", "--target", "aarch64-apple-darwin"]
    );
}

#[test]
fn demo_runs_the_test_pattern() {
    assert_eq!(demo_job_id(1700000000123), "demo-1700000000123");
    assert_eq!(
        demo_arguments(2, 5, "demo-7", "capture-data/demo-7"),
        vec![
            "run", "-p", "capture-agent", "--bin", "capture-agent", "--", "run", "--source",
            "test-pattern", "--segments", "2", "--segment-seconds", "5", "--job-id", "demo-7",
            "--output", "capture-data/demo-7",
        ]
    );
}

#[test]
fn workspace_root_is_the_nearest_workspace_manifest() {
    let manifests = vec![
        None,
        Some("[package]\nname = \"member\"\n".to_string()),
        Some("[workspace]\nmembers = [\"member\"]\n".to_string()),
        Some("[workspace]\n".to_string()),
    ];
    assert_eq!(workspace_index(&manifests), Some(2));
    assert_eq!(workspace_index(&vec![None, Some("[package]\n".to_string())]), None);
}

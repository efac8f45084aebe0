use cargo_flash::{
    build_artifact, read_metadata, BuildSelection, ConfigRead, DirNode, Fs, ManifestFacts,
    PackageFacts, Target, TargetKind,
};

fn node(parent: Option<usize>, name: &str) -> DirNode {
    DirNode {
        parent,
        name: name.to_string(),
        manifest: None,
        config_legacy: None,
        config_newer: None,
    }
}

fn package(name: &str, chip: Option<&str>, targets: Vec<Target>) -> ManifestFacts {
    ManifestFacts::Parsed {
        package: Some(PackageFacts {
            name: name.to_string(),
            chip: chip.map(|c| c.to_string()),
            targets,
        }),
        workspace_members: None,
    }
}

fn bin_target(name: &str) -> Target {
    Target {
        kind: TargetKind::Binary,
        name: name.to_string(),
    }
}

fn lib_target(name: &str) -> Target {
    Target {
        kind: TargetKind::Library,
        name: name.to_string(),
    }
}

fn example_target(name: &str) -> Target {
    Target {
        kind: TargetKind::Example,
        name: name.to_string(),
    }
}

fn selection(args: &[&str]) -> BuildSelection {
    let owned: Vec<String> = args.iter().map(|s| (*s).to_string()).collect();
    BuildSelection::from_args(&owned).expect("argument tokens should parse")
}

fn segments(path: &[&str]) -> Vec<String> {
    path.iter().map(|s| (*s).to_string()).collect()
}

/// A single package declaring one binary, with tool metadata naming a chip.
fn binary_project(name: &str) -> Fs {
    let mut root = node(None, name);
    root.manifest = Some(package(name, Some("nrf51822"), vec![bin_target(name)]));
    Fs { nodes: vec![root] }
}

/// A workspace with a binary member and a library member.
fn workspace_project() -> Fs {
    let mut root = node(None, "workspace_project");
    root.manifest = Some(ManifestFacts::Parsed {
        package: None,
        workspace_members: Some(vec![1, 2]),
    });
    let mut ws_bin = node(Some(0), "workspace_bin");
    ws_bin.manifest = Some(package(
        "workspace_bin",
        None,
        vec![bin_target("workspace_bin")],
    ));
    let mut ws_lib = node(Some(0), "workspace_lib");
    ws_lib.manifest = Some(package(
        "workspace_lib",
        None,
        vec![lib_target("workspace_lib")],
    ));
    Fs {
        nodes: vec![root, ws_bin, ws_lib],
    }
}

#[test]
fn read_chip_metadata() {
    let fs = binary_project("binary_project");

    let metadata = read_metadata(&fs, 0).expect("Failed to read metadata.");

    assert_eq!(metadata.chip, Some("nrf51822".to_owned()));
}

#[test]
fn get_binary_artifact() {
    let fs = binary_project("binary_project");
    let expected_path = segments(&["binary_project", "target", "debug", "binary_project"]);

    let args = selection(&[]);

    let binary_path = build_artifact(&fs, 0, &args).expect("Failed to read artifact path.");

    assert_eq!(binary_path.segments, expected_path);
}

#[test]
fn get_binary_artifact_with_cargo_config() {
    let mut fs = binary_project("binary_cargo_config");
    fs.nodes[0].config_legacy = Some(ConfigRead::Table {
        target: Some("thumbv7m-none-eabi".to_string()),
    });
    let expected_path = segments(&[
        "binary_cargo_config",
        "target",
        "thumbv7m-none-eabi",
        "debug",
        "binary_cargo_config",
    ]);

    let args = selection(&[]);

    let binary_path = build_artifact(&fs, 0, &args).expect("Failed to read artifact path.");

    assert_eq!(binary_path.segments, expected_path);
}

#[test]
fn get_binary_artifact_with_cargo_config_toml() {
    let mut fs = binary_project("binary_cargo_config_toml");
    fs.nodes[0].config_newer = Some(ConfigRead::Table {
        target: Some("thumbv7m-none-eabi".to_string()),
    });
    let expected_path = segments(&[
        "binary_cargo_config_toml",
        "target",
        "thumbv7m-none-eabi",
        "debug",
        "binary_cargo_config_toml",
    ]);

    let args = selection(&[]);

    let binary_path = build_artifact(&fs, 0, &args).expect("Failed to read artifact path.");

    assert_eq!(binary_path.segments, expected_path);
}

#[test]
fn get_library_artifact_fails() {
    let mut fs = binary_project("library_project");
    fs.nodes[0].manifest = Some(package(
        "library_project",
        None,
        vec![lib_target("library_project")],
    ));

    let args = selection(&["--release"]);

    let binary_path = build_artifact(&fs, 0, &args);

    assert!(
        binary_path.is_err(),
        "Library project should not return a path to a binary, but got {}",
        binary_path.unwrap().path_string()
    );
}

#[test]
fn workspace_root() {
    // In a workspace with a single binary crate,
    // we should be able to find the binary for that crate.

    let fs = workspace_project();

    let expected_path = segments(&["workspace_project", "target", "release", "workspace_bin"]);

    let args = selection(&["--release"]);

    let binary_path = build_artifact(&fs, 0, &args).expect("Failed to read artifact path.");

    assert_eq!(binary_path.segments, expected_path);
}

#[test]
fn workspace_binary_package() {
    // In a binary crate which is a member of a workspace,
    // we should be able to find the binary for that crate.

    let fs = workspace_project();

    let expected_path = segments(&["workspace_project", "target", "release", "workspace_bin"]);

    let args = selection(&["--release"]);

    let binary_path = build_artifact(&fs, 1, &args).expect("Failed to read artifact path.");

    assert_eq!(binary_path.segments, expected_path);
}

#[test]
fn workspace_library_package() {
    // In a library crate which is a member of a workspace,
    // we should show an error message.

    let fs = workspace_project();

    let args = selection(&["--release"]);

    let binary_path = build_artifact(&fs, 2, &args);

    assert!(
        binary_path.is_err(),
        "Library project should not return a path to a binary, but got {}",
        binary_path.unwrap().path_string()
    );
}

#[test]
fn multiple_binaries_in_crate() {
    // With multiple binaries in a crate,
    // we should show an error message if no binary is specified
    let mut fs = binary_project("multiple_binary_project");
    fs.nodes[0].manifest = Some(package(
        "multiple_binary_project",
        None,
        vec![bin_target("bin_a"), bin_target("bin_b")],
    ));

    let args = selection(&[]);

    let binary_path = build_artifact(&fs, 0, &args);

    assert!(
        binary_path.is_err(),
        "With multiple binaries, an error message should be shown. Got path '{}' instead.",
        binary_path.unwrap().path_string()
    );
}

#[test]
fn multiple_binaries_in_crate_select_binary() {
    // With multiple binaries in a crate,
    // we should show an error message if no binary is specified
    let mut fs = binary_project("multiple_binary_project");
    fs.nodes[0].manifest = Some(package(
        "multiple_binary_project",
        None,
        vec![bin_target("bin_a"), bin_target("bin_b")],
    ));
    let expected_path = segments(&["multiple_binary_project", "target", "debug", "bin_a"]);

    let args = selection(&["--bin", "bin_a"]);

    let binary_path = build_artifact(&fs, 0, &args).expect("Failed to get artifact path.");

    assert_eq!(binary_path.segments, expected_path);
}

#[test]
fn library_with_example() {
    // In a library with no binary target, but with an example,
    // we should return an error. (Same behaviour as cargo run)
    let mut fs = binary_project("library_with_example_project");
    fs.nodes[0].manifest = Some(package(
        "library_with_example_project",
        None,
        vec![
            lib_target("library_with_example_project"),
            example_target("example"),
        ],
    ));

    let args = selection(&[]);

    let binary_path = build_artifact(&fs, 0, &args);

    assert!(binary_path.is_err())
}

#[test]
fn library_with_example_specified() {
    // When the example flag is specified, we should flash that example
    let mut fs = binary_project("library_with_example_project");
    fs.nodes[0].manifest = Some(package(
        "library_with_example_project",
        None,
        vec![
            lib_target("library_with_example_project"),
            example_target("example"),
        ],
    ));
    let expected_path = segments(&[
        "library_with_example_project",
        "target",
        "debug",
        "examples",
        "example",
    ]);

    let args = selection(&["--example", "example"]);

    let binary_path = build_artifact(&fs, 0, &args).expect("Failed to get artifact path.");

    assert_eq!(binary_path.segments, expected_path);
}

use cargo_flash::{
    build_artifact, read_metadata, BuildSelection, ConfigRead, DirNode, Fs, ManifestFacts,
    PackageFacts, Profile, ResolveError, Target, TargetKind,
};

fn node(parent: Option<usize>, name: &str) -> DirNode {
    DirNode {
        parent,
        name: name.to_string(),
        manifest: None,
        config_legacy: None,
        config_newer: None,
    }
}

fn package(name: &str, targets: Vec<Target>) -> ManifestFacts {
    ManifestFacts::Parsed {
        package: Some(PackageFacts {
            name: name.to_string(),
            chip: None,
            targets,
        }),
        workspace_members: None,
    }
}

fn bin_target(name: &str) -> Target {
    Target {
        kind: TargetKind::Binary,
        name: name.to_string(),
    }
}

fn lib_target(name: &str) -> Target {
    Target {
        kind: TargetKind::Library,
        name: name.to_string(),
    }
}

fn example_target(name: &str) -> Target {
    Target {
        kind: TargetKind::Example,
        name: name.to_string(),
    }
}

fn default_selection() -> BuildSelection {
    BuildSelection {
        profile: Profile::Debug,
        bin_name: None,
        example_name: None,
    }
}

fn one_binary_project(name: &str) -> Fs {
    let mut root = node(None, name);
    root.manifest = Some(package(name, vec![bin_target(name)]));
    Fs { nodes: vec![root] }
}

#[test]
fn manifest_not_found() {
    let fs = Fs {
        nodes: vec![node(None, "empty"), node(Some(0), "sub")],
    };
    let r = build_artifact(&fs, 1, &default_selection());
    assert!(matches!(r, Err(ResolveError::ManifestNotFound)));
}

#[test]
fn malformed_manifest_is_reported() {
    let mut root = node(None, "broken");
    root.manifest = Some(ManifestFacts::Malformed);
    let fs = Fs { nodes: vec![root] };
    let r = build_artifact(&fs, 0, &default_selection());
    assert!(matches!(r, Err(ResolveError::ManifestParseError)));
}

#[test]
fn malformed_config_is_reported() {
    let mut fs = one_binary_project("proj");
    fs.nodes[0].config_legacy = Some(ConfigRead::Malformed);
    let r = build_artifact(&fs, 0, &default_selection());
    assert!(matches!(r, Err(ResolveError::ConfigParseError)));
}

#[test]
fn ambiguous_binaries_lists_all_names() {
    let mut root = node(None, "multi");
    root.manifest = Some(package(
        "multi",
        vec![
            bin_target("bin_a"),
            lib_target("multi"),
            bin_target("bin_b"),
        ],
    ));
    let fs = Fs { nodes: vec![root] };
    let r = build_artifact(&fs, 0, &default_selection());
    match r {
        Err(ResolveError::AmbiguousBinaries(names)) => {
            assert_eq!(names, vec!["bin_a".to_string(), "bin_b".to_string()]);
        }
        _ => panic!("expected AmbiguousBinaries"),
    }
}

#[test]
fn missing_binary_name_is_reported() {
    let fs = one_binary_project("proj");
    let sel = BuildSelection {
        profile: Profile::Debug,
        bin_name: Some("absent".to_string()),
        example_name: None,
    };
    match build_artifact(&fs, 0, &sel) {
        Err(ResolveError::BinaryNotFound(name)) => assert_eq!(name, "absent"),
        _ => panic!("expected BinaryNotFound"),
    }
}

#[test]
fn missing_example_name_is_reported() {
    let fs = one_binary_project("proj");
    let sel = BuildSelection {
        profile: Profile::Debug,
        bin_name: None,
        example_name: Some("absent".to_string()),
    };
    match build_artifact(&fs, 0, &sel) {
        Err(ResolveError::ExampleNotFound(name)) => assert_eq!(name, "absent"),
        _ => panic!("expected ExampleNotFound"),
    }
}

#[test]
fn newer_config_takes_precedence() {
    let mut fs = one_binary_project("proj");
    fs.nodes[0].config_legacy = Some(ConfigRead::Table {
        target: Some("legacy-triple".to_string()),
    });
    fs.nodes[0].config_newer = Some(ConfigRead::Table {
        target: Some("newer-triple".to_string()),
    });
    let r = build_artifact(&fs, 0, &default_selection()).expect("resolution should succeed");
    assert_eq!(
        r.segments,
        vec![
            "proj".to_string(),
            "target".to_string(),
            "newer-triple".to_string(),
            "debug".to_string(),
            "proj".to_string(),
        ]
    );
}

#[test]
fn override_from_either_file_is_identical() {
    let mut with_legacy = one_binary_project("proj");
    with_legacy.nodes[0].config_legacy = Some(ConfigRead::Table {
        target: Some("thumbv7m-none-eabi".to_string()),
    });
    let mut with_newer = one_binary_project("proj");
    with_newer.nodes[0].config_newer = Some(ConfigRead::Table {
        target: Some("thumbv7m-none-eabi".to_string()),
    });
    let a = build_artifact(&with_legacy, 0, &default_selection()).expect("legacy should resolve");
    let b = build_artifact(&with_newer, 0, &default_selection()).expect("newer should resolve");
    assert_eq!(a.segments, b.segments);
}

#[test]
fn resolution_is_idempotent() {
    let mut fs = one_binary_project("proj");
    fs.nodes[0].config_newer = Some(ConfigRead::Table {
        target: Some("thumbv7m-none-eabi".to_string()),
    });
    let first = build_artifact(&fs, 0, &default_selection()).expect("first resolution");
    let second = build_artifact(&fs, 0, &default_selection()).expect("second resolution");
    assert_eq!(first.segments, second.segments);
}

#[test]
fn nearest_manifest_found_from_subdirectory() {
    let mut root = node(None, "proj");
    root.manifest = Some(package("proj", vec![bin_target("proj")]));
    let sub = node(Some(0), "src");
    let fs = Fs {
        nodes: vec![root, sub],
    };
    let r = build_artifact(&fs, 1, &default_selection()).expect("resolution should succeed");
    assert_eq!(
        r.segments,
        vec![
            "proj".to_string(),
            "target".to_string(),
            "debug".to_string(),
            "proj".to_string(),
        ]
    );
}

#[test]
fn workspace_member_subdirectory_uses_workspace_output_root() {
    let mut root = node(None, "ws");
    root.manifest = Some(ManifestFacts::Parsed {
        package: None,
        workspace_members: Some(vec![1]),
    });
    let mut member = node(Some(0), "member_bin");
    member.manifest = Some(package("member_bin", vec![bin_target("member_bin")]));
    let sub = node(Some(1), "src");
    let fs = Fs {
        nodes: vec![root, member, sub],
    };
    let r = build_artifact(&fs, 2, &default_selection()).expect("resolution should succeed");
    assert_eq!(
        r.segments,
        vec![
            "ws".to_string(),
            "target".to_string(),
            "debug".to_string(),
            "member_bin".to_string(),
        ]
    );
}

#[test]
fn selection_from_args_reads_flags() {
    let args = vec![
        "--release".to_string(),
        "--bin".to_string(),
        "main".to_string(),
    ];
    let sel = BuildSelection::from_args(&args).expect("tokens should parse");
    assert!(matches!(sel.profile, Profile::Release));
    assert_eq!(sel.bin_name, Some("main".to_string()));
    assert_eq!(sel.example_name, None);
}

#[test]
fn selection_from_args_ignores_unknown_tokens() {
    let args = vec!["--chip".to_string(), "nrf51822".to_string()];
    let sel = BuildSelection::from_args(&args).expect("tokens should parse");
    assert!(matches!(sel.profile, Profile::Debug));
    assert_eq!(sel.bin_name, None);
    assert_eq!(sel.example_name, None);
}

#[test]
fn selection_from_args_requires_a_name_after_bin() {
    let args = vec!["--bin".to_string()];
    assert!(BuildSelection::from_args(&args).is_none());
}

#[test]
fn selection_from_args_does_not_match_flag_prefixes() {
    let args = vec!["--releasex".to_string()];
    let sel = BuildSelection::from_args(&args).expect("tokens should parse");
    assert!(matches!(sel.profile, Profile::Debug));
}

#[test]
fn check_wf_accepts_a_proper_tree() {
    let fs = one_binary_project("proj");
    assert!(fs.check_wf());
}

#[test]
fn check_wf_rejects_a_downward_parent_link() {
    let fs = Fs {
        nodes: vec![node(Some(0), "loop")],
    };
    assert!(!fs.check_wf());
}

#[test]
fn check_wf_rejects_an_out_of_range_member() {
    let mut root = node(None, "ws");
    root.manifest = Some(ManifestFacts::Parsed {
        package: None,
        workspace_members: Some(vec![7]),
    });
    let fs = Fs { nodes: vec![root] };
    assert!(!fs.check_wf());
}

#[test]
fn metadata_of_workspace_root_has_no_chip() {
    let mut root = node(None, "ws");
    root.manifest = Some(ManifestFacts::Parsed {
        package: None,
        workspace_members: Some(vec![]),
    });
    let fs = Fs { nodes: vec![root] };
    let md = read_metadata(&fs, 0).expect("metadata should be readable");
    assert_eq!(md.chip, None);
}

#[test]
fn metadata_of_malformed_manifest_fails() {
    let mut root = node(None, "broken");
    root.manifest = Some(ManifestFacts::Malformed);
    let fs = Fs { nodes: vec![root] };
    assert!(matches!(
        read_metadata(&fs, 0),
        Err(ResolveError::ManifestParseError)
    ));
}

#[test]
fn path_string_joins_the_segments() {
    let fs = one_binary_project("proj");
    let r = build_artifact(&fs, 0, &default_selection()).expect("resolution should succeed");
    assert_eq!(r.path_string(), "proj/target/debug/proj");
}

#[test]
fn member_config_does_not_govern_workspace_builds() {
    // The override is read at the output-directory root, which for a
    // workspace member is the workspace root, never the member directory.
    let mut root = node(None, "ws");
    root.manifest = Some(ManifestFacts::Parsed {
        package: None,
        workspace_members: Some(vec![1]),
    });
    let mut member = node(Some(0), "member_bin");
    member.manifest = Some(package("member_bin", vec![bin_target("member_bin")]));
    member.config_newer = Some(ConfigRead::Table {
        target: Some("thumbv7m-none-eabi".to_string()),
    });
    let fs = Fs {
        nodes: vec![root, member],
    };
    let r = build_artifact(&fs, 1, &default_selection()).expect("resolution should succeed");
    assert_eq!(r.path_string(), "ws/target/debug/member_bin");
}

#[test]
fn malformed_member_manifest_fails_workspace_resolution() {
    let mut root = node(None, "ws");
    root.manifest = Some(ManifestFacts::Parsed {
        package: None,
        workspace_members: Some(vec![1]),
    });
    let mut member = node(Some(0), "member_bin");
    member.manifest = Some(ManifestFacts::Malformed);
    let fs = Fs {
        nodes: vec![root, member],
    };
    let r = build_artifact(&fs, 0, &default_selection());
    assert!(matches!(r, Err(ResolveError::ManifestParseError)));
}

#[test]
fn release_profile_changes_the_directory() {
    let fs = one_binary_project("proj");
    let sel = BuildSelection {
        profile: Profile::Release,
        bin_name: None,
        example_name: None,
    };
    let r = build_artifact(&fs, 0, &sel).expect("resolution should succeed");
    assert_eq!(
        r.segments,
        vec![
            "proj".to_string(),
            "target".to_string(),
            "release".to_string(),
            "proj".to_string(),
        ]
    );
}

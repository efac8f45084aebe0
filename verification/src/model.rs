//! The data model of a resolution: directory-tree facts, declared targets,
//! the caller's selection, and the typed results.
//!
//! Filesystem access is abstracted into a tree of [`DirNode`] facts: each
//! directory records its parent, its name, whether a manifest is present
//! and what it declares, and which build-configuration files it holds.
//! A resolution is a pure computation over one such [`Fs`] value, so the
//! same logic can be run against a real directory tree or a synthetic one.

use vstd::prelude::*;

verus! {

/// The kind of a buildable target a package declares.
#[derive(Clone, Copy, PartialEq, Eq, Structural, Debug)]
pub enum TargetKind {
    Binary,
    Library,
    Example,
}

/// A buildable target: a kind and a name.
#[derive(Debug)]
pub struct Target {
    pub kind: TargetKind,
    pub name: String,
}

impl Clone for Target {
    /// Cloning a target preserves its value exactly.
    fn clone(&self) -> (r: Self)
        ensures
            r == *self,
    {
        Target { kind: self.kind, name: self.name.clone() }
    }
}

/// What a well-formed manifest declares about its package: the package
/// name, optional tool metadata (the chip to operate on), and the
/// declared targets.
#[derive(Debug)]
pub struct PackageFacts {
    pub name: String,
    pub chip: Option<String>,
    pub targets: Vec<Target>,
}

/// The result of reading a manifest file.
#[derive(Debug)]
pub enum ManifestFacts {
    /// The file exists but cannot be parsed.
    Malformed,
    /// A parsed manifest: it may declare a package, a workspace (whose
    /// members are directory indices into the same tree), or both.
    Parsed { package: Option<PackageFacts>, workspace_members: Option<Vec<usize>> },
}

/// The result of reading one build-configuration file.
#[derive(Debug)]
pub enum ConfigRead {
    /// The file exists but is malformed.
    Malformed,
    /// A parsed configuration, holding the build target triple if one
    /// is configured.
    Table { target: Option<String> },
}

/// Facts about one directory of the tree.
#[derive(Debug)]
pub struct DirNode {
    /// Index of the parent directory, `None` for the topmost directory.
    pub parent: Option<usize>,
    /// The path segment naming this directory.
    pub name: String,
    /// The manifest in this directory, if one is present.
    pub manifest: Option<ManifestFacts>,
    /// The legacy-named build-configuration file, if present.
    pub config_legacy: Option<ConfigRead>,
    /// The newer-named build-configuration file, if present.
    pub config_newer: Option<ConfigRead>,
}

/// A directory tree, as a vector of nodes linked by parent indices.
#[derive(Debug)]
pub struct Fs {
    pub nodes: Vec<DirNode>,
}

/// The workspace member indices a node's manifest declares; empty when
/// it declares no workspace.
pub open spec fn spec_member_seq(n: DirNode) -> Seq<usize> {
    match n.manifest {
        Some(ManifestFacts::Parsed { workspace_members: Some(ms), .. }) => ms@,
        _ => Seq::empty(),
    }
}

/// Well-formedness of one node: the parent link goes strictly upward
/// (toward lower indices) and every declared workspace member is a node
/// of the tree.
pub open spec fn spec_node_wf(nodes: Seq<DirNode>, i: int) -> bool {
    &&& match nodes[i].parent {
        Some(p) => p < i,
        None => true,
    }
    &&& forall|j: int|
        0 <= j < spec_member_seq(nodes[i]).len() ==> #[trigger] spec_member_seq(nodes[i])[j]
            < nodes.len()
}

impl Fs {
    /// Well-formedness of the whole tree.
    pub open spec fn wf(self) -> bool {
        forall|i: int| 0 <= i < self.nodes@.len() ==> #[trigger] spec_node_wf(self.nodes@, i)
    }

    /// Checks well-formedness at run time, so an unverified caller that
    /// built the tree from a real filesystem can establish `wf` before
    /// resolving.
    pub fn check_wf(&self) -> (r: bool)
        ensures
            r == self.wf(),
    {
        let n = self.nodes.len();
        let mut i: usize = 0;
        while i < n
            invariant
                n == self.nodes@.len(),
                i <= n,
                forall|k: int| 0 <= k < i ==> #[trigger] spec_node_wf(self.nodes@, k),
            decreases n - i,
        {
            match self.nodes[i].parent {
                Some(p) => {
                    if p >= i {
                        assert(!spec_node_wf(self.nodes@, i as int));
                        return false;
                    }
                },
                None => {},
            }
            match &self.nodes[i].manifest {
                Some(ManifestFacts::Parsed { workspace_members: Some(ms), .. }) => {
                    let mut j: usize = 0;
                    while j < ms.len()
                        invariant
                            n == self.nodes@.len(),
                            i < n,
                            j <= ms@.len(),
                            spec_member_seq(self.nodes@[i as int]) == ms@,
                            forall|k: int| 0 <= k < j ==> (#[trigger] ms@[k]) < n,
                        decreases ms@.len() - j,
                    {
                        if ms[j] >= n {
                            proof {
                                if spec_node_wf(self.nodes@, i as int) {
                                    assert(spec_member_seq(self.nodes@[i as int])[j as int] < n);
                                    assert(false);
                                }
                            }
                            return false;
                        }
                        j += 1;
                    }
                },
                _ => {},
            }
            assert(spec_node_wf(self.nodes@, i as int));
            i += 1;
        }
        true
    }
}

/// The build profile, determining the output subdirectory.
#[derive(Clone, Copy, PartialEq, Eq, Structural, Debug)]
pub enum Profile {
    Debug,
    Release,
}

/// The caller's selection: a profile, and at most one of a binary name or
/// an example name. Absence of both means "infer from context".
#[derive(Debug)]
pub struct BuildSelection {
    pub profile: Profile,
    pub bin_name: Option<String>,
    pub example_name: Option<String>,
}

impl BuildSelection {
    /// Interprets caller-level argument tokens; the result is exactly
    /// [`spec_selection_from_args`].
    pub fn from_args(args: &Vec<String>) -> (r: Option<BuildSelection>)
        ensures
            r == spec_selection_from_args(args@),
    {
        let mut acc = BuildSelection {
            profile: Profile::Debug,
            bin_name: None,
            example_name: None,
        };
        let mut i: usize = 0;
        proof {
            assert(args@.skip(0) =~= args@);
        }
        while i < args.len()
            invariant
                i <= args@.len(),
                spec_args_fold(args@.skip(i as int), acc) == spec_selection_from_args(args@),
            decreases args@.len() - i,
        {
            proof {
                assert(args@.skip(i as int).first() == args@[i as int]);
                assert(args@.skip(i as int).drop_first() =~= args@.skip(i as int + 1));
            }
            let a = &args[i];
            if str_eq(a.as_str(), "--release") {
                acc = BuildSelection {
                    profile: Profile::Release,
                    bin_name: acc.bin_name,
                    example_name: acc.example_name,
                };
                i += 1;
            } else if str_eq(a.as_str(), "--bin") {
                if i + 1 < args.len() {
                    proof {
                        assert(args@.skip(i as int)[1] == args@[i as int + 1]);
                        assert(args@.skip(i as int).skip(2) =~= args@.skip(i as int + 2));
                    }
                    acc = BuildSelection {
                        profile: acc.profile,
                        bin_name: Some(args[i + 1].clone()),
                        example_name: acc.example_name,
                    };
                    i += 2;
                } else {
                    return None;
                }
            } else if str_eq(a.as_str(), "--example") {
                if i + 1 < args.len() {
                    proof {
                        assert(args@.skip(i as int)[1] == args@[i as int + 1]);
                        assert(args@.skip(i as int).skip(2) =~= args@.skip(i as int + 2));
                    }
                    acc = BuildSelection {
                        profile: acc.profile,
                        bin_name: acc.bin_name,
                        example_name: Some(args[i + 1].clone()),
                    };
                    i += 2;
                } else {
                    return None;
                }
            } else {
                i += 1;
            }
        }
        proof {
            assert(args@.skip(i as int) =~= Seq::<String>::empty());
        }
        Some(acc)
    }
}

/// Relies on `str`'s `==` (`str::eq`): true exactly when the two strings
/// hold the same characters.
#[verifier::external_body]
fn str_eq(a: &str, b: &str) -> (r: bool)
    ensures
        r == (a@ == b@),
{
    a == b
}

/// Folds caller-level argument tokens, left to right, into a selection:
/// `--release` switches the profile, `--bin` and `--example` take the
/// following token as a name (the last occurrence wins), and any other
/// token is left for the build step and does not affect the selection.
/// A flag missing its name yields `None`.
pub open spec fn spec_args_fold(args: Seq<String>, acc: BuildSelection) -> Option<BuildSelection>
    decreases args.len(),
{
    if args.len() == 0 {
        Some(acc)
    } else if args.first()@ == "--release"@ {
        spec_args_fold(
            args.drop_first(),
            BuildSelection {
                profile: Profile::Release,
                bin_name: acc.bin_name,
                example_name: acc.example_name,
            },
        )
    } else if args.first()@ == "--bin"@ {
        if args.len() >= 2 {
            spec_args_fold(
                args.skip(2),
                BuildSelection {
                    profile: acc.profile,
                    bin_name: Some(args[1]),
                    example_name: acc.example_name,
                },
            )
        } else {
            None
        }
    } else if args.first()@ == "--example"@ {
        if args.len() >= 2 {
            spec_args_fold(
                args.skip(2),
                BuildSelection {
                    profile: acc.profile,
                    bin_name: acc.bin_name,
                    example_name: Some(args[1]),
                },
            )
        } else {
            None
        }
    } else {
        spec_args_fold(args.drop_first(), acc)
    }
}

/// The selection denoted by a full argument list, starting from the
/// default selection: debug profile, no explicit binary or example.
pub open spec fn spec_selection_from_args(args: Seq<String>) -> Option<BuildSelection> {
    spec_args_fold(
        args,
        BuildSelection { profile: Profile::Debug, bin_name: None, example_name: None },
    )
}

/// The closed set of resolution failures.
#[derive(Debug)]
pub enum ResolveError {
    /// No manifest was found walking up from the working directory.
    ManifestNotFound,
    /// A manifest exists but cannot be parsed.
    ManifestParseError,
    /// A build-configuration file exists but is malformed.
    ConfigParseError,
    /// The package declares no binary and no example was requested.
    NoBinaryArtifact,
    /// More than one binary exists and none was selected; carries all
    /// declared binary names.
    AmbiguousBinaries(Vec<String>),
    /// The explicitly selected binary does not exist.
    BinaryNotFound(String),
    /// The explicitly selected example does not exist.
    ExampleNotFound(String),
}

/// The mathematical image of a [`ResolveError`]: the same variants, with
/// sequence payloads.
pub enum ResolveErrorV {
    ManifestNotFound,
    ManifestParseError,
    ConfigParseError,
    NoBinaryArtifact,
    AmbiguousBinaries(Seq<String>),
    BinaryNotFound(String),
    ExampleNotFound(String),
}

impl View for ResolveError {
    type V = ResolveErrorV;

    open spec fn view(&self) -> ResolveErrorV {
        match self {
            ResolveError::ManifestNotFound => ResolveErrorV::ManifestNotFound,
            ResolveError::ManifestParseError => ResolveErrorV::ManifestParseError,
            ResolveError::ConfigParseError => ResolveErrorV::ConfigParseError,
            ResolveError::NoBinaryArtifact => ResolveErrorV::NoBinaryArtifact,
            ResolveError::AmbiguousBinaries(names) => ResolveErrorV::AmbiguousBinaries(names@),
            ResolveError::BinaryNotFound(name) => ResolveErrorV::BinaryNotFound(*name),
            ResolveError::ExampleNotFound(name) => ResolveErrorV::ExampleNotFound(*name),
        }
    }
}

/// The resolved artifact: the full output path, as its segments from the
/// top of the directory tree.
#[derive(Debug)]
pub struct ResolvedArtifact {
    pub segments: Vec<String>,
}

/// Path segments joined into one path, with a separator between
/// consecutive segments.
pub open spec fn spec_joined_path(segs: Seq<Seq<char>>) -> Seq<char>
    decreases segs.len(),
{
    if segs.len() == 0 {
        Seq::empty()
    } else if segs.len() == 1 {
        segs[0]
    } else {
        spec_joined_path(segs.drop_last()) + "/"@ + segs.last()
    }
}

impl ResolvedArtifact {
    /// The artifact path as one string, with a separator between
    /// segments.
    pub fn path_string(&self) -> (r: String)
        ensures
            r@ == spec_joined_path(self.segments.deep_view()),
    {
        let ghost all = self.segments.deep_view();
        let mut s = String::new();
        let mut i: usize = 0;
        proof {
            assert(all.take(0) =~= Seq::<Seq<char>>::empty());
        }
        while i < self.segments.len()
            invariant
                i <= self.segments@.len(),
                all == self.segments.deep_view(),
                all.len() == self.segments@.len(),
                s@ == spec_joined_path(all.take(i as int)),
            decreases self.segments@.len() - i,
        {
            proof {
                assert(all.take(i as int + 1).drop_last() =~= all.take(i as int));
                assert(all.take(i as int + 1).last() == all[i as int]);
                assert(all[i as int] == self.segments@[i as int]@);
            }
            if i > 0 {
                s.append("/");
            } else {
                proof {
                    assert(s@ =~= Seq::<char>::empty());
                }
            }
            s.append(self.segments[i].as_str());
            proof {
                if i == 0 {
                    assert(s@ =~= all.take(1)[0]);
                } else {
                    assert(s@ =~= spec_joined_path(all.take(i as int)) + "/"@ + all[i as int]);
                }
            }
            i += 1;
        }
        proof {
            assert(all.take(self.segments@.len() as int) =~= all);
        }
        s
    }
}

/// Tool metadata read from the manifest governing a working directory.
#[derive(Debug)]
pub struct Metadata {
    pub chip: Option<String>,
}

} // verus!

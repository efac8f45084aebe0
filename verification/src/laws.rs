//! Laws of the resolution, stated and proved over the spec functions that
//! the executable entry points are pinned to.
//!
//! Each law quantifies over every directory tree, working directory and
//! selection of the shape its hypotheses describe; none fixes concrete
//! names or paths.

use vstd::prelude::*;

use crate::model::{
    BuildSelection, ConfigRead, Fs, ManifestFacts, PackageFacts, ResolveErrorV, Target, TargetKind,
};
use crate::resolve::{
    spec_binaries, spec_declared_targets, spec_dir_path, spec_find_target, spec_member_targets,
    spec_nearest_manifest, spec_profile_dir, spec_resolve, spec_select_target,
    spec_triple_override, spec_workspace_ancestor, spec_workspace_root,
};

verus! {

/// Every target the binary filter keeps is a binary.
proof fn lemma_binaries_are_binaries(ts: Seq<Target>, i: int)
    requires
        0 <= i < spec_binaries(ts).len(),
    ensures
        spec_binaries(ts)[i].kind == TargetKind::Binary,
    decreases ts.len(),
{
    if ts.len() > 0 {
        let prefix = spec_binaries(ts.drop_last());
        if i < prefix.len() {
            lemma_binaries_are_binaries(ts.drop_last(), i);
        }
    }
}

/// A found target has the kind and the name that were searched for.
proof fn lemma_find_target_found(ts: Seq<Target>, kind: TargetKind, name: Seq<char>)
    requires
        spec_find_target(ts, kind, name) is Some,
    ensures
        spec_find_target(ts, kind, name).unwrap().kind == kind,
        spec_find_target(ts, kind, name).unwrap().name@ == name,
    decreases ts.len(),
{
    if ts.len() > 0 && !(ts.first().kind == kind && ts.first().name@ == name) {
        lemma_find_target_found(ts.drop_first(), kind, name);
    }
}

/// For a standalone package declaring exactly one binary, resolution with
/// no explicit selection succeeds and yields
/// `<package_root>/target/<profile>/<binary_name>`.
pub proof fn lemma_single_binary_default(
    fs: Fs,
    d: usize,
    sel: BuildSelection,
    pkg: PackageFacts,
    bin: Target,
)
    requires
        fs.wf(),
        d < fs.nodes@.len(),
        fs.nodes@[d as int].manifest == Some(
            ManifestFacts::Parsed { package: Some(pkg), workspace_members: None },
        ),
        spec_binaries(pkg.targets@) == seq![bin],
        match fs.nodes@[d as int].parent {
            Some(p) => p < d && spec_workspace_ancestor(fs, p, d) is None,
            None => true,
        },
        fs.nodes@[d as int].config_legacy is None,
        fs.nodes@[d as int].config_newer is None,
        sel.bin_name is None,
        sel.example_name is None,
    ensures
        spec_resolve(fs, d, sel) == Ok::<Seq<Seq<char>>, ResolveErrorV>(
            spec_dir_path(fs, d).push("target"@).push(spec_profile_dir(sel.profile)).push(
                bin.name@,
            ),
        ),
{
    lemma_binaries_are_binaries(pkg.targets@, 0);
    assert(spec_nearest_manifest(fs, d) == Some(d));
    assert(spec_declared_targets(fs, d) == Ok::<Seq<Target>, ResolveErrorV>(pkg.targets@));
    assert(spec_select_target(pkg.targets@, sel) == Ok::<Target, ResolveErrorV>(bin));
    assert(spec_workspace_root(fs, d) == d);
    assert(spec_triple_override(fs, d) == Ok::<Option<String>, ResolveErrorV>(None));
}

/// The override is read identically from the legacy and the newer
/// configuration file: either file alone, well-formed and holding a
/// triple, yields that triple as the override.
pub proof fn lemma_override_from_either_file(fs: Fs, root: usize, triple: String)
    requires
        root < fs.nodes@.len(),
        ({
            let n = fs.nodes@[root as int];
            ||| (n.config_newer == Some(ConfigRead::Table { target: Some(triple) })
                && !(n.config_legacy matches Some(ConfigRead::Malformed)))
            ||| (n.config_newer is None && n.config_legacy == Some(
                ConfigRead::Table { target: Some(triple) },
            ))
        }),
    ensures
        spec_triple_override(fs, root) == Ok::<Option<String>, ResolveErrorV>(Some(triple)),
{
}

/// With a triple override configured at the package root, the resolved
/// path carries the triple segment between the output directory and the
/// profile: `<package_root>/target/<triple>/<profile>/<binary_name>`.
pub proof fn lemma_single_binary_with_override(
    fs: Fs,
    d: usize,
    sel: BuildSelection,
    pkg: PackageFacts,
    bin: Target,
    triple: String,
)
    requires
        fs.wf(),
        d < fs.nodes@.len(),
        fs.nodes@[d as int].manifest == Some(
            ManifestFacts::Parsed { package: Some(pkg), workspace_members: None },
        ),
        spec_binaries(pkg.targets@) == seq![bin],
        match fs.nodes@[d as int].parent {
            Some(p) => p < d && spec_workspace_ancestor(fs, p, d) is None,
            None => true,
        },
        spec_triple_override(fs, d) == Ok::<Option<String>, ResolveErrorV>(Some(triple)),
        sel.bin_name is None,
        sel.example_name is None,
    ensures
        spec_resolve(fs, d, sel) == Ok::<Seq<Seq<char>>, ResolveErrorV>(
            spec_dir_path(fs, d).push("target"@).push(triple@).push(
                spec_profile_dir(sel.profile),
            ).push(bin.name@),
        ),
{
    lemma_binaries_are_binaries(pkg.targets@, 0);
    assert(spec_nearest_manifest(fs, d) == Some(d));
    assert(spec_select_target(pkg.targets@, sel) == Ok::<Target, ResolveErrorV>(bin));
    assert(spec_workspace_root(fs, d) == d);
}

/// A package declaring no binary, with no example requested, never yields
/// a path: resolution fails with `NoBinaryArtifact`, whatever workspace
/// or configuration surrounds it. This covers the library-only package,
/// the library workspace member, and the library whose declared example
/// was not requested.
pub proof fn lemma_no_binary_no_artifact(fs: Fs, d: usize, sel: BuildSelection, pkg: PackageFacts)
    requires
        fs.wf(),
        d < fs.nodes@.len(),
        fs.nodes@[d as int].manifest matches Some(
            ManifestFacts::Parsed { package: Some(p), .. },
        ) && p == pkg,
        spec_binaries(pkg.targets@) == Seq::<Target>::empty(),
        sel.bin_name is None,
        sel.example_name is None,
    ensures
        spec_resolve(fs, d, sel) == Err::<Seq<Seq<char>>, ResolveErrorV>(
            ResolveErrorV::NoBinaryArtifact,
        ),
{
    assert(spec_nearest_manifest(fs, d) == Some(d));
    assert(spec_declared_targets(fs, d) == Ok::<Seq<Target>, ResolveErrorV>(pkg.targets@));
}

/// Invoked from the root of a workspace whose members contribute exactly
/// one binary, resolution succeeds and yields
/// `<workspace_root>/target/<profile>/<binary_name>`.
pub proof fn lemma_workspace_root_resolution(
    fs: Fs,
    w: usize,
    sel: BuildSelection,
    ts: Seq<Target>,
    bin: Target,
)
    requires
        fs.wf(),
        w < fs.nodes@.len(),
        fs.nodes@[w as int].manifest matches Some(
            ManifestFacts::Parsed { package: None, workspace_members: Some(ms) },
        ) && spec_member_targets(fs, ms@) == Ok::<Seq<Target>, ResolveErrorV>(ts),
        spec_binaries(ts) == seq![bin],
        fs.nodes@[w as int].config_legacy is None,
        fs.nodes@[w as int].config_newer is None,
        sel.bin_name is None,
        sel.example_name is None,
    ensures
        spec_resolve(fs, w, sel) == Ok::<Seq<Seq<char>>, ResolveErrorV>(
            spec_dir_path(fs, w).push("target"@).push(spec_profile_dir(sel.profile)).push(
                bin.name@,
            ),
        ),
{
    lemma_binaries_are_binaries(ts, 0);
    assert(spec_nearest_manifest(fs, w) == Some(w));
    assert(spec_declared_targets(fs, w) == Ok::<Seq<Target>, ResolveErrorV>(ts));
    assert(spec_select_target(ts, sel) == Ok::<Target, ResolveErrorV>(bin));
    assert(spec_workspace_root(fs, w) == w);
    assert(spec_triple_override(fs, w) == Ok::<Option<String>, ResolveErrorV>(None));
}

/// Invoked from inside a binary-producing workspace member, resolution
/// succeeds and the output root is the workspace root, never the member
/// directory: the path is `<workspace_root>/target/<profile>/<binary_name>`.
pub proof fn lemma_workspace_member_resolution(
    fs: Fs,
    d: usize,
    w: usize,
    sel: BuildSelection,
    pkg: PackageFacts,
    bin: Target,
)
    requires
        fs.wf(),
        d < fs.nodes@.len(),
        fs.nodes@[d as int].manifest == Some(
            ManifestFacts::Parsed { package: Some(pkg), workspace_members: None },
        ),
        spec_binaries(pkg.targets@) == seq![bin],
        fs.nodes@[d as int].parent matches Some(p) && p < d && spec_workspace_ancestor(fs, p, d)
            == Some(w),
        fs.nodes@[w as int].config_legacy is None,
        fs.nodes@[w as int].config_newer is None,
        sel.bin_name is None,
        sel.example_name is None,
    ensures
        spec_resolve(fs, d, sel) == Ok::<Seq<Seq<char>>, ResolveErrorV>(
            spec_dir_path(fs, w).push("target"@).push(spec_profile_dir(sel.profile)).push(
                bin.name@,
            ),
        ),
{
    lemma_binaries_are_binaries(pkg.targets@, 0);
    assert(spec_nearest_manifest(fs, d) == Some(d));
    assert(spec_select_target(pkg.targets@, sel) == Ok::<Target, ResolveErrorV>(bin));
    assert(spec_workspace_root(fs, d) == w);
    assert(spec_triple_override(fs, w) == Ok::<Option<String>, ResolveErrorV>(None));
}

/// Resolving from the workspace root and from within its single
/// binary-producing member yields the identical artifact path.
pub proof fn lemma_workspace_invocation_agrees(
    fs: Fs,
    w: usize,
    d: usize,
    sel: BuildSelection,
    ts: Seq<Target>,
    pkg: PackageFacts,
    bin: Target,
)
    requires
        fs.wf(),
        w < fs.nodes@.len(),
        d < fs.nodes@.len(),
        fs.nodes@[w as int].manifest matches Some(
            ManifestFacts::Parsed { package: None, workspace_members: Some(ms) },
        ) && spec_member_targets(fs, ms@) == Ok::<Seq<Target>, ResolveErrorV>(ts),
        spec_binaries(ts) == seq![bin],
        fs.nodes@[d as int].manifest == Some(
            ManifestFacts::Parsed { package: Some(pkg), workspace_members: None },
        ),
        spec_binaries(pkg.targets@) == seq![bin],
        fs.nodes@[d as int].parent matches Some(p) && p < d && spec_workspace_ancestor(fs, p, d)
            == Some(w),
        fs.nodes@[w as int].config_legacy is None,
        fs.nodes@[w as int].config_newer is None,
        sel.bin_name is None,
        sel.example_name is None,
    ensures
        spec_resolve(fs, w, sel) == spec_resolve(fs, d, sel),
{
    lemma_workspace_root_resolution(fs, w, sel, ts, bin);
    lemma_workspace_member_resolution(fs, d, w, sel, pkg, bin);
}

/// With several declared binaries and no explicit selection, resolution
/// fails with `AmbiguousBinaries` listing every declared binary name, in
/// declaration order.
pub proof fn lemma_ambiguous_binaries(fs: Fs, d: usize, sel: BuildSelection, pkg: PackageFacts)
    requires
        fs.wf(),
        d < fs.nodes@.len(),
        fs.nodes@[d as int].manifest matches Some(
            ManifestFacts::Parsed { package: Some(p), .. },
        ) && p == pkg,
        spec_binaries(pkg.targets@).len() >= 2,
        sel.bin_name is None,
        sel.example_name is None,
    ensures
        spec_resolve(fs, d, sel) == Err::<Seq<Seq<char>>, ResolveErrorV>(
            ResolveErrorV::AmbiguousBinaries(
                spec_binaries(pkg.targets@).map_values(|t: Target| t.name),
            ),
        ),
{
    assert(spec_nearest_manifest(fs, d) == Some(d));
    assert(spec_declared_targets(fs, d) == Ok::<Seq<Target>, ResolveErrorV>(pkg.targets@));
}

/// Supplying the name of a declared binary selects exactly that binary:
/// the path is `<package_root>/target/<profile>/<chosen_name>`.
pub proof fn lemma_bin_selection(
    fs: Fs,
    d: usize,
    sel: BuildSelection,
    pkg: PackageFacts,
    bin: Target,
)
    requires
        fs.wf(),
        d < fs.nodes@.len(),
        fs.nodes@[d as int].manifest == Some(
            ManifestFacts::Parsed { package: Some(pkg), workspace_members: None },
        ),
        match fs.nodes@[d as int].parent {
            Some(p) => p < d && spec_workspace_ancestor(fs, p, d) is None,
            None => true,
        },
        fs.nodes@[d as int].config_legacy is None,
        fs.nodes@[d as int].config_newer is None,
        sel.example_name is None,
        sel.bin_name matches Some(b) && spec_find_target(pkg.targets@, TargetKind::Binary, b@)
            == Some(bin),
    ensures
        spec_resolve(fs, d, sel) == Ok::<Seq<Seq<char>>, ResolveErrorV>(
            spec_dir_path(fs, d).push("target"@).push(spec_profile_dir(sel.profile)).push(
                bin.name@,
            ),
        ),
{
    lemma_find_target_found(pkg.targets@, TargetKind::Binary, sel.bin_name.unwrap()@);
    assert(spec_nearest_manifest(fs, d) == Some(d));
    assert(spec_select_target(pkg.targets@, sel) == Ok::<Target, ResolveErrorV>(bin));
    assert(spec_workspace_root(fs, d) == d);
    assert(spec_triple_override(fs, d) == Ok::<Option<String>, ResolveErrorV>(None));
}

/// Supplying the name of a declared example selects that example and
/// inserts the `examples` segment:
/// `<package_root>/target/<profile>/examples/<example_name>`.
pub proof fn lemma_example_selection(
    fs: Fs,
    d: usize,
    sel: BuildSelection,
    pkg: PackageFacts,
    ex: Target,
)
    requires
        fs.wf(),
        d < fs.nodes@.len(),
        fs.nodes@[d as int].manifest == Some(
            ManifestFacts::Parsed { package: Some(pkg), workspace_members: None },
        ),
        match fs.nodes@[d as int].parent {
            Some(p) => p < d && spec_workspace_ancestor(fs, p, d) is None,
            None => true,
        },
        fs.nodes@[d as int].config_legacy is None,
        fs.nodes@[d as int].config_newer is None,
        sel.example_name matches Some(e) && spec_find_target(
            pkg.targets@,
            TargetKind::Example,
            e@,
        ) == Some(ex),
    ensures
        spec_resolve(fs, d, sel) == Ok::<Seq<Seq<char>>, ResolveErrorV>(
            spec_dir_path(fs, d).push("target"@).push(spec_profile_dir(sel.profile)).push(
                "examples"@,
            ).push(ex.name@),
        ),
{
    lemma_find_target_found(pkg.targets@, TargetKind::Example, sel.example_name.unwrap()@);
    assert(spec_nearest_manifest(fs, d) == Some(d));
    assert(spec_select_target(pkg.targets@, sel) == Ok::<Target, ResolveErrorV>(ex));
    assert(spec_workspace_root(fs, d) == d);
    assert(spec_triple_override(fs, d) == Ok::<Option<String>, ResolveErrorV>(None));
}

/// Resolution is deterministic: with the same tree, working directory and
/// selection, two resolutions yield identical results.
pub proof fn lemma_resolution_deterministic(
    fs1: Fs,
    fs2: Fs,
    d1: usize,
    d2: usize,
    sel1: BuildSelection,
    sel2: BuildSelection,
)
    requires
        fs1 == fs2,
        d1 == d2,
        sel1 == sel2,
    ensures
        spec_resolve(fs1, d1, sel1) == spec_resolve(fs2, d2, sel2),
{
}

} // verus!


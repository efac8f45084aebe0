//! The resolution pipeline: locate the governing manifest, determine the
//! workspace root that owns the output directory, read the target-triple
//! override, select the one target to operate on, and compose the artifact
//! path.
//!
//! Every executable function is specified against a spec-level function of
//! the same shape, and the top-level entry points are pinned to
//! [`spec_resolve`] and [`spec_metadata`], which state the whole
//! computation mathematically.

use vstd::prelude::*;

use crate::model::{
    BuildSelection, ConfigRead, DirNode, Fs, ManifestFacts, Metadata, Profile, ResolveError,
    ResolveErrorV, ResolvedArtifact, Target, TargetKind,
};
use crate::model::{spec_member_seq, spec_node_wf};

verus! {

// ---------------------------------------------------------------------
// Manifest/workspace loader
// ---------------------------------------------------------------------

/// The nearest directory, walking upward from `d` (inclusive), that holds
/// a manifest; `None` when no ancestor holds one.
pub open spec fn spec_nearest_manifest(fs: Fs, d: usize) -> Option<usize>
    decreases d,
{
    if d < fs.nodes@.len() {
        if fs.nodes@[d as int].manifest is Some {
            Some(d)
        } else {
            match fs.nodes@[d as int].parent {
                Some(p) => if p < d {
                    spec_nearest_manifest(fs, p)
                } else {
                    None
                },
                None => None,
            }
        }
    } else {
        None
    }
}

/// Whether a node's manifest declares a workspace.
pub open spec fn spec_declares_workspace(n: DirNode) -> bool {
    n.manifest matches Some(ManifestFacts::Parsed { workspace_members: Some(_), .. })
}

/// Whether a node's manifest declares a workspace that lists directory
/// `pkg` as a member.
pub open spec fn spec_lists_member(n: DirNode, pkg: usize) -> bool {
    spec_member_seq(n).contains(pkg)
}

/// The nearest ancestor, walking upward from `a` (inclusive), whose
/// manifest declares a workspace listing `pkg` as a member.
pub open spec fn spec_workspace_ancestor(fs: Fs, a: usize, pkg: usize) -> Option<usize>
    decreases a,
{
    if a < fs.nodes@.len() {
        if spec_lists_member(fs.nodes@[a as int], pkg) {
            Some(a)
        } else {
            match fs.nodes@[a as int].parent {
                Some(p) => if p < a {
                    spec_workspace_ancestor(fs, p, pkg)
                } else {
                    None
                },
                None => None,
            }
        }
    } else {
        None
    }
}

/// The directory owning the shared output directory for the package whose
/// manifest sits at `m`: `m` itself when its manifest declares a
/// workspace, else the nearest ancestor declaring a workspace that lists
/// `m` as a member, else `m` standing alone.
pub open spec fn spec_workspace_root(fs: Fs, m: usize) -> usize {
    if spec_declares_workspace(fs.nodes@[m as int]) {
        m
    } else {
        match fs.nodes@[m as int].parent {
            Some(p) => if p < m {
                match spec_workspace_ancestor(fs, p, m) {
                    Some(a) => a,
                    None => m,
                }
            } else {
                m
            },
            None => m,
        }
    }
}

/// The path of directory `d`, as its name segments from the top of the
/// tree.
pub open spec fn spec_dir_path(fs: Fs, d: usize) -> Seq<Seq<char>>
    decreases d,
{
    if d < fs.nodes@.len() {
        match fs.nodes@[d as int].parent {
            Some(p) => if p < d {
                spec_dir_path(fs, p).push(fs.nodes@[d as int].name@)
            } else {
                seq![fs.nodes@[d as int].name@]
            },
            None => seq![fs.nodes@[d as int].name@],
        }
    } else {
        Seq::empty()
    }
}

fn nearest_manifest(fs: &Fs, d: usize) -> (r: Option<usize>)
    requires
        fs.wf(),
        d < fs.nodes@.len(),
    ensures
        r == spec_nearest_manifest(*fs, d),
    decreases d,
{
    proof {
        assert(spec_node_wf(fs.nodes@, d as int));
    }
    if fs.nodes[d].manifest.is_some() {
        Some(d)
    } else {
        match fs.nodes[d].parent {
            Some(p) => nearest_manifest(fs, p),
            None => None,
        }
    }
}

/// Whether the member list `ms` contains the directory index `x`.
fn members_contain(ms: &Vec<usize>, x: usize) -> (r: bool)
    ensures
        r == ms@.contains(x),
{
    let mut i: usize = 0;
    while i < ms.len()
        invariant
            i <= ms@.len(),
            forall|k: int| 0 <= k < i ==> ms@[k] != x,
        decreases ms@.len() - i,
    {
        if ms[i] == x {
            return true;
        }
        i += 1;
    }
    false
}

fn lists_member(n: &DirNode, pkg: usize) -> (r: bool)
    ensures
        r == spec_lists_member(*n, pkg),
{
    match &n.manifest {
        Some(ManifestFacts::Parsed { workspace_members: Some(ms), .. }) => {
            members_contain(ms, pkg)
        },
        _ => {
            proof {
                assert(spec_member_seq(*n) =~= Seq::empty());
                assert(!spec_member_seq(*n).contains(pkg));
            }
            false
        },
    }
}

fn workspace_ancestor(fs: &Fs, a: usize, pkg: usize) -> (r: Option<usize>)
    requires
        fs.wf(),
        a < fs.nodes@.len(),
    ensures
        r == spec_workspace_ancestor(*fs, a, pkg),
    decreases a,
{
    proof {
        assert(spec_node_wf(fs.nodes@, a as int));
    }
    if lists_member(&fs.nodes[a], pkg) {
        Some(a)
    } else {
        match fs.nodes[a].parent {
            Some(p) => workspace_ancestor(fs, p, pkg),
            None => None,
        }
    }
}

fn declares_workspace(n: &DirNode) -> (r: bool)
    ensures
        r == spec_declares_workspace(*n),
{
    match &n.manifest {
        Some(ManifestFacts::Parsed { workspace_members: Some(_), .. }) => true,
        _ => false,
    }
}

fn workspace_root(fs: &Fs, m: usize) -> (r: usize)
    requires
        fs.wf(),
        m < fs.nodes@.len(),
    ensures
        r == spec_workspace_root(*fs, m),
        r < fs.nodes@.len(),
{
    proof {
        assert(spec_node_wf(fs.nodes@, m as int));
    }
    if declares_workspace(&fs.nodes[m]) {
        m
    } else {
        match fs.nodes[m].parent {
            Some(p) => {
                match workspace_ancestor(fs, p, m) {
                    Some(a) => {
                        proof {
                            lemma_workspace_ancestor_in_range(*fs, p, m);
                        }
                        a
                    },
                    None => m,
                }
            },
            None => m,
        }
    }
}

/// A found workspace ancestor is a directory of the tree.
proof fn lemma_workspace_ancestor_in_range(fs: Fs, a: usize, pkg: usize)
    ensures
        match spec_workspace_ancestor(fs, a, pkg) {
            Some(w) => w < fs.nodes@.len(),
            None => true,
        },
    decreases a,
{
    if a < fs.nodes@.len() && !spec_lists_member(fs.nodes@[a as int], pkg) {
        match fs.nodes@[a as int].parent {
            Some(p) => {
                if p < a {
                    lemma_workspace_ancestor_in_range(fs, p, pkg);
                }
            },
            None => {},
        }
    }
}

fn dir_path(fs: &Fs, d: usize) -> (r: Vec<String>)
    requires
        fs.wf(),
        d < fs.nodes@.len(),
    ensures
        r.deep_view() == spec_dir_path(*fs, d),
    decreases d,
{
    proof {
        assert(spec_node_wf(fs.nodes@, d as int));
    }
    match fs.nodes[d].parent {
        Some(p) => {
            let mut v = dir_path(fs, p);
            v.push(fs.nodes[d].name.clone());
            proof {
                assert(v.deep_view() =~= spec_dir_path(*fs, d));
            }
            v
        },
        None => {
            let mut v: Vec<String> = Vec::new();
            v.push(fs.nodes[d].name.clone());
            proof {
                assert(v.deep_view() =~= spec_dir_path(*fs, d));
            }
            v
        },
    }
}

// ---------------------------------------------------------------------
// Target-triple override reader
// ---------------------------------------------------------------------

/// The triple override configured at the output-directory root `root`:
/// a malformed configuration file is an error; otherwise the newer file,
/// when present, is authoritative, and the legacy file is consulted only
/// in its absence.
pub open spec fn spec_triple_override(fs: Fs, root: usize) -> Result<Option<String>, ResolveErrorV> {
    let n = fs.nodes@[root as int];
    if n.config_newer matches Some(ConfigRead::Malformed) || n.config_legacy matches Some(
        ConfigRead::Malformed,
    ) {
        Err(ResolveErrorV::ConfigParseError)
    } else {
        match n.config_newer {
            Some(ConfigRead::Table { target }) => Ok(target),
            _ => match n.config_legacy {
                Some(ConfigRead::Table { target }) => Ok(target),
                _ => Ok(None),
            },
        }
    }
}

fn clone_opt_string(o: &Option<String>) -> (r: Option<String>)
    ensures
        r == *o,
{
    match o {
        Some(s) => Some(s.clone()),
        None => None,
    }
}

fn triple_override(fs: &Fs, root: usize) -> (r: Result<Option<String>, ResolveError>)
    requires
        root < fs.nodes@.len(),
    ensures
        match r {
            Ok(t) => spec_triple_override(*fs, root) == Ok::<Option<String>, ResolveErrorV>(t),
            Err(e) => spec_triple_override(*fs, root) == Err::<Option<String>, ResolveErrorV>(e@),
        },
{
    let n = &fs.nodes[root];
    let newer_malformed = match &n.config_newer {
        Some(ConfigRead::Malformed) => true,
        _ => false,
    };
    let legacy_malformed = match &n.config_legacy {
        Some(ConfigRead::Malformed) => true,
        _ => false,
    };
    if newer_malformed || legacy_malformed {
        return Err(ResolveError::ConfigParseError);
    }
    match &n.config_newer {
        Some(ConfigRead::Table { target }) => Ok(clone_opt_string(target)),
        _ => match &n.config_legacy {
            Some(ConfigRead::Table { target }) => Ok(clone_opt_string(target)),
            _ => Ok(None),
        },
    }
}

// ---------------------------------------------------------------------
// Declared targets
// ---------------------------------------------------------------------

/// The targets contributed by the workspace members `ms`, in member-list
/// order: a member whose manifest is malformed is an error; a member
/// without a parsed package contributes nothing.
pub open spec fn spec_member_targets(fs: Fs, ms: Seq<usize>) -> Result<Seq<Target>, ResolveErrorV>
    decreases ms.len(),
{
    if ms.len() == 0 {
        Ok(Seq::empty())
    } else {
        match spec_member_targets(fs, ms.drop_last()) {
            Err(e) => Err(e),
            Ok(ts) => {
                let m = ms.last();
                if m < fs.nodes@.len() {
                    match fs.nodes@[m as int].manifest {
                        Some(ManifestFacts::Malformed) => Err(ResolveErrorV::ManifestParseError),
                        Some(ManifestFacts::Parsed { package: Some(p), .. }) => Ok(ts + p.targets@),
                        _ => Ok(ts),
                    }
                } else {
                    Ok(ts)
                }
            },
        }
    }
}

/// The targets governed by the manifest at `m`: its package's declared
/// targets, or, for a manifest declaring only a workspace, the targets of
/// all its members; a manifest declaring neither cannot be used.
pub open spec fn spec_declared_targets(fs: Fs, m: usize) -> Result<Seq<Target>, ResolveErrorV> {
    match fs.nodes@[m as int].manifest {
        None => Err(ResolveErrorV::ManifestParseError),
        Some(ManifestFacts::Malformed) => Err(ResolveErrorV::ManifestParseError),
        Some(ManifestFacts::Parsed { package: Some(p), .. }) => Ok(p.targets@),
        Some(
            ManifestFacts::Parsed { package: None, workspace_members: Some(ms) },
        ) => spec_member_targets(fs, ms@),
        Some(ManifestFacts::Parsed { package: None, workspace_members: None }) => Err(
            ResolveErrorV::ManifestParseError,
        ),
    }
}

/// A prefix that already failed decides the whole member walk.
proof fn lemma_member_targets_prefix_err(fs: Fs, s: Seq<usize>, k: int)
    requires
        0 <= k <= s.len(),
        spec_member_targets(fs, s.take(k)) is Err,
    ensures
        spec_member_targets(fs, s) == spec_member_targets(fs, s.take(k)),
    decreases s.len() - k,
{
    if k == s.len() {
        assert(s.take(k) =~= s);
    } else {
        assert(s.take(k + 1).drop_last() =~= s.take(k));
        assert(s.take(k + 1).len() == k + 1);
        lemma_member_targets_prefix_err(fs, s, k + 1);
    }
}

fn append_targets(acc: &mut Vec<Target>, ts: &Vec<Target>)
    ensures
        final(acc)@ == old(acc)@ + ts@,
{
    proof {
        assert(old(acc)@ + ts@.take(0) =~= old(acc)@);
    }
    let mut j: usize = 0;
    while j < ts.len()
        invariant
            j <= ts@.len(),
            acc@ == old(acc)@ + ts@.take(j as int),
        decreases ts@.len() - j,
    {
        acc.push(ts[j].clone());
        proof {
            assert(old(acc)@ + ts@.take(j as int + 1) =~= (old(acc)@ + ts@.take(j as int)).push(
                ts@[j as int],
            ));
        }
        j += 1;
    }
    proof {
        assert(ts@.take(ts@.len() as int) =~= ts@);
    }
}

fn clone_targets(ts: &Vec<Target>) -> (r: Vec<Target>)
    ensures
        r@ == ts@,
{
    let mut v: Vec<Target> = Vec::new();
    append_targets(&mut v, ts);
    proof {
        assert(Seq::<Target>::empty() + ts@ =~= ts@);
    }
    v
}

fn member_targets(fs: &Fs, ms: &Vec<usize>) -> (r: Result<Vec<Target>, ResolveError>)
    ensures
        match r {
            Ok(v) => spec_member_targets(*fs, ms@) == Ok::<Seq<Target>, ResolveErrorV>(v@),
            Err(e) => spec_member_targets(*fs, ms@) == Err::<Seq<Target>, ResolveErrorV>(e@),
        },
{
    let mut acc: Vec<Target> = Vec::new();
    let mut i: usize = 0;
    proof {
        assert(ms@.take(0) =~= Seq::<usize>::empty());
    }
    while i < ms.len()
        invariant
            i <= ms@.len(),
            spec_member_targets(*fs, ms@.take(i as int)) == Ok::<Seq<Target>, ResolveErrorV>(acc@),
        decreases ms@.len() - i,
    {
        proof {
            assert(ms@.take(i as int + 1).drop_last() =~= ms@.take(i as int));
            assert(ms@.take(i as int + 1).last() == ms@[i as int]);
        }
        let mi = ms[i];
        if mi < fs.nodes.len() {
            match &fs.nodes[mi].manifest {
                Some(ManifestFacts::Malformed) => {
                    proof {
                        lemma_member_targets_prefix_err(*fs, ms@, i as int + 1);
                    }
                    return Err(ResolveError::ManifestParseError);
                },
                Some(ManifestFacts::Parsed { package: Some(p), .. }) => {
                    append_targets(&mut acc, &p.targets);
                },
                _ => {},
            }
        }
        i += 1;
    }
    proof {
        assert(ms@.take(ms@.len() as int) =~= ms@);
    }
    Ok(acc)
}

fn declared_targets(fs: &Fs, m: usize) -> (r: Result<Vec<Target>, ResolveError>)
    requires
        m < fs.nodes@.len(),
    ensures
        match r {
            Ok(v) => spec_declared_targets(*fs, m) == Ok::<Seq<Target>, ResolveErrorV>(v@),
            Err(e) => spec_declared_targets(*fs, m) == Err::<Seq<Target>, ResolveErrorV>(e@),
        },
{
    match &fs.nodes[m].manifest {
        None => Err(ResolveError::ManifestParseError),
        Some(ManifestFacts::Malformed) => Err(ResolveError::ManifestParseError),
        Some(ManifestFacts::Parsed { package: Some(p), .. }) => Ok(clone_targets(&p.targets)),
        Some(ManifestFacts::Parsed { package: None, workspace_members: Some(ms) }) => member_targets(
            fs,
            ms,
        ),
        Some(ManifestFacts::Parsed { package: None, workspace_members: None }) => Err(
            ResolveError::ManifestParseError,
        ),
    }
}

// ---------------------------------------------------------------------
// Target selector
// ---------------------------------------------------------------------

/// The first target of the given kind and name, in declaration order.
pub open spec fn spec_find_target(ts: Seq<Target>, kind: TargetKind, name: Seq<char>) -> Option<
    Target,
>
    decreases ts.len(),
{
    if ts.len() == 0 {
        None
    } else if ts.first().kind == kind && ts.first().name@ == name {
        Some(ts.first())
    } else {
        spec_find_target(ts.drop_first(), kind, name)
    }
}

/// The binary targets among `ts`, in declaration order.
pub open spec fn spec_binaries(ts: Seq<Target>) -> Seq<Target>
    decreases ts.len(),
{
    if ts.len() == 0 {
        Seq::empty()
    } else {
        let prefix = spec_binaries(ts.drop_last());
        if ts.last().kind == TargetKind::Binary {
            prefix.push(ts.last())
        } else {
            prefix
        }
    }
}

/// The selection rule: an explicit example name must match an example; an
/// explicit binary name must match a binary; with no explicit selection,
/// exactly one declared binary is chosen, zero is `NoBinaryArtifact`, and
/// several are `AmbiguousBinaries` listing every binary name.
pub open spec fn spec_select_target(ts: Seq<Target>, sel: BuildSelection) -> Result<
    Target,
    ResolveErrorV,
> {
    match sel.example_name {
        Some(e) => match spec_find_target(ts, TargetKind::Example, e@) {
            Some(t) => Ok(t),
            None => Err(ResolveErrorV::ExampleNotFound(e)),
        },
        None => match sel.bin_name {
            Some(b) => match spec_find_target(ts, TargetKind::Binary, b@) {
                Some(t) => Ok(t),
                None => Err(ResolveErrorV::BinaryNotFound(b)),
            },
            None => {
                let bins = spec_binaries(ts);
                if bins.len() == 1 {
                    Ok(bins[0])
                } else if bins.len() == 0 {
                    Err(ResolveErrorV::NoBinaryArtifact)
                } else {
                    Err(
                        ResolveErrorV::AmbiguousBinaries(
                            bins.map_values(|t: Target| t.name),
                        ),
                    )
                }
            },
        },
    }
}

fn find_target(ts: &Vec<Target>, kind: TargetKind, name: &String, i: usize) -> (r: Option<Target>)
    requires
        i <= ts@.len(),
    ensures
        r == spec_find_target(ts@.skip(i as int), kind, name@),
    decreases ts@.len() - i,
{
    if i == ts.len() {
        proof {
            assert(ts@.skip(i as int) =~= Seq::<Target>::empty());
        }
        None
    } else {
        proof {
            assert(ts@.skip(i as int).first() == ts@[i as int]);
            assert(ts@.skip(i as int).drop_first() =~= ts@.skip(i as int + 1));
        }
        let t = &ts[i];
        if t.kind == kind && t.name == *name {
            Some(t.clone())
        } else {
            find_target(ts, kind, name, i + 1)
        }
    }
}

fn collect_binaries(ts: &Vec<Target>) -> (r: Vec<Target>)
    ensures
        r@ == spec_binaries(ts@),
{
    let mut v: Vec<Target> = Vec::new();
    let mut i: usize = 0;
    proof {
        assert(ts@.take(0) =~= Seq::<Target>::empty());
    }
    while i < ts.len()
        invariant
            i <= ts@.len(),
            v@ == spec_binaries(ts@.take(i as int)),
        decreases ts@.len() - i,
    {
        proof {
            assert(ts@.take(i as int + 1).drop_last() =~= ts@.take(i as int));
            assert(ts@.take(i as int + 1).last() == ts@[i as int]);
        }
        if ts[i].kind == TargetKind::Binary {
            v.push(ts[i].clone());
        }
        i += 1;
    }
    proof {
        assert(ts@.take(ts@.len() as int) =~= ts@);
    }
    v
}

fn binary_names(bins: &Vec<Target>) -> (r: Vec<String>)
    ensures
        r@ == bins@.map_values(|t: Target| t.name),
{
    let mut v: Vec<String> = Vec::new();
    let mut i: usize = 0;
    proof {
        assert(v@ =~= bins@.take(0).map_values(|t: Target| t.name));
    }
    while i < bins.len()
        invariant
            i <= bins@.len(),
            v@ == bins@.take(i as int).map_values(|t: Target| t.name),
        decreases bins@.len() - i,
    {
        v.push(bins[i].name.clone());
        proof {
            assert(bins@.take(i as int + 1).map_values(|t: Target| t.name) =~= bins@.take(
                i as int,
            ).map_values(|t: Target| t.name).push(bins@[i as int].name));
        }
        i += 1;
    }
    proof {
        assert(bins@.take(bins@.len() as int) =~= bins@);
    }
    v
}

fn select_target(ts: &Vec<Target>, selection: &BuildSelection) -> (r: Result<Target, ResolveError>)
    ensures
        match r {
            Ok(t) => spec_select_target(ts@, *selection) == Ok::<Target, ResolveErrorV>(t),
            Err(e) => spec_select_target(ts@, *selection) == Err::<Target, ResolveErrorV>(e@),
        },
{
    proof {
        assert(ts@.skip(0) =~= ts@);
    }
    match &selection.example_name {
        Some(e) => match find_target(ts, TargetKind::Example, e, 0) {
            Some(t) => Ok(t),
            None => Err(ResolveError::ExampleNotFound(e.clone())),
        },
        None => match &selection.bin_name {
            Some(b) => match find_target(ts, TargetKind::Binary, b, 0) {
                Some(t) => Ok(t),
                None => Err(ResolveError::BinaryNotFound(b.clone())),
            },
            None => {
                let bins = collect_binaries(ts);
                if bins.len() == 1 {
                    Ok(bins[0].clone())
                } else if bins.len() == 0 {
                    Err(ResolveError::NoBinaryArtifact)
                } else {
                    let names = binary_names(&bins);
                    Err(ResolveError::AmbiguousBinaries(names))
                }
            },
        },
    }
}

// ---------------------------------------------------------------------
// Artifact path builder
// ---------------------------------------------------------------------

/// The output subdirectory of a profile.
pub open spec fn spec_profile_dir(p: Profile) -> Seq<char> {
    match p {
        Profile::Debug => "debug"@,
        Profile::Release => "release"@,
    }
}

/// The composed artifact path: the output root, the shared output
/// directory, the triple segment when an override is present, the profile
/// segment, the `examples` segment when the target is an example, and the
/// target name.
pub open spec fn spec_artifact_path(
    fs: Fs,
    root: usize,
    triple: Option<String>,
    profile: Profile,
    t: Target,
) -> Seq<Seq<char>> {
    let base = spec_dir_path(fs, root).push("target"@);
    let with_triple = match triple {
        Some(s) => base.push(s@),
        None => base,
    };
    let with_profile = with_triple.push(spec_profile_dir(profile));
    let with_examples = if t.kind == TargetKind::Example {
        with_profile.push("examples"@)
    } else {
        with_profile
    };
    with_examples.push(t.name@)
}

fn profile_dir(p: Profile) -> (r: String)
    ensures
        r@ == spec_profile_dir(p),
{
    match p {
        Profile::Debug => "debug".to_owned(),
        Profile::Release => "release".to_owned(),
    }
}

fn build_path(fs: &Fs, root: usize, triple: Option<String>, profile: Profile, t: &Target) -> (r:
    Vec<String>)
    requires
        fs.wf(),
        root < fs.nodes@.len(),
    ensures
        r.deep_view() == spec_artifact_path(*fs, root, triple, profile, *t),
{
    let mut v = dir_path(fs, root);
    let ghost base0 = v.deep_view();
    v.push("target".to_owned());
    proof {
        assert(v.deep_view() =~= base0.push("target"@));
    }
    let ghost base1 = v.deep_view();
    let pushed_triple: bool = match triple {
        Some(s) => {
            v.push(s);
            true
        },
        None => false,
    };
    proof {
        if pushed_triple {
            assert(v.deep_view() =~= base1.push(triple.unwrap()@));
        }
    }
    let ghost base2 = v.deep_view();
    v.push(profile_dir(profile));
    proof {
        assert(v.deep_view() =~= base2.push(spec_profile_dir(profile)));
    }
    let ghost base3 = v.deep_view();
    if t.kind == TargetKind::Example {
        v.push("examples".to_owned());
        proof {
            assert(v.deep_view() =~= base3.push("examples"@));
        }
    }
    let ghost base4 = v.deep_view();
    v.push(t.name.clone());
    proof {
        assert(v.deep_view() =~= base4.push(t.name@));
    }
    v
}

// ---------------------------------------------------------------------
// Entry points
// ---------------------------------------------------------------------

/// A found nearest manifest lies in the tree.
proof fn lemma_nearest_in_range(fs: Fs, d: usize)
    ensures
        match spec_nearest_manifest(fs, d) {
            Some(m) => m < fs.nodes@.len(),
            None => true,
        },
    decreases d,
{
    if d < fs.nodes@.len() && fs.nodes@[d as int].manifest is None {
        match fs.nodes@[d as int].parent {
            Some(p) => {
                if p < d {
                    lemma_nearest_in_range(fs, p);
                }
            },
            None => {},
        }
    }
}

/// The whole resolution, mathematically: find the nearest manifest above
/// the working directory, obtain the governed targets, select the one
/// target, determine the workspace root, read the triple override there,
/// and compose the artifact path.
pub open spec fn spec_resolve(fs: Fs, working_dir: usize, sel: BuildSelection) -> Result<
    Seq<Seq<char>>,
    ResolveErrorV,
> {
    match spec_nearest_manifest(fs, working_dir) {
        None => Err(ResolveErrorV::ManifestNotFound),
        Some(m) => match spec_declared_targets(fs, m) {
            Err(e) => Err(e),
            Ok(ts) => match spec_select_target(ts, sel) {
                Err(e) => Err(e),
                Ok(t) => {
                    let root = spec_workspace_root(fs, m);
                    match spec_triple_override(fs, root) {
                        Err(e) => Err(e),
                        Ok(triple) => Ok(spec_artifact_path(fs, root, triple, sel.profile, t)),
                    }
                },
            },
        },
    }
}

/// The mathematical image of a resolution result: the path as segment
/// views on success, the error's image on failure.
pub open spec fn spec_outcome(r: Result<ResolvedArtifact, ResolveError>) -> Result<
    Seq<Seq<char>>,
    ResolveErrorV,
> {
    match r {
        Ok(a) => Ok(a.segments.deep_view()),
        Err(e) => Err(e@),
    }
}

/// Resolves the artifact path for `working_dir` under `selection`.
///
/// The result is exactly [`spec_resolve`]: one path on success, one typed
/// error otherwise.
pub fn build_artifact(fs: &Fs, working_dir: usize, selection: &BuildSelection) -> (r: Result<
    ResolvedArtifact,
    ResolveError,
>)
    requires
        fs.wf(),
        working_dir < fs.nodes@.len(),
    ensures
        spec_outcome(r) == spec_resolve(*fs, working_dir, *selection),
{
    let m = match nearest_manifest(fs, working_dir) {
        Some(m) => m,
        None => {
            return Err(ResolveError::ManifestNotFound);
        },
    };
    proof {
        lemma_nearest_in_range(*fs, working_dir);
    }
    let ts = match declared_targets(fs, m) {
        Ok(ts) => ts,
        Err(e) => {
            return Err(e);
        },
    };
    let chosen = match select_target(&ts, selection) {
        Ok(t) => t,
        Err(e) => {
            return Err(e);
        },
    };
    let root = workspace_root(fs, m);
    let triple = match triple_override(fs, root) {
        Ok(t) => t,
        Err(e) => {
            return Err(e);
        },
    };
    let segments = build_path(fs, root, triple, selection.profile, &chosen);
    Ok(ResolvedArtifact { segments })
}

/// The tool metadata governed by the nearest manifest: the package's
/// configured chip, or `None` for a manifest declaring only a workspace.
pub open spec fn spec_metadata(fs: Fs, working_dir: usize) -> Result<
    Option<String>,
    ResolveErrorV,
> {
    match spec_nearest_manifest(fs, working_dir) {
        None => Err(ResolveErrorV::ManifestNotFound),
        Some(m) => match fs.nodes@[m as int].manifest {
            None => Err(ResolveErrorV::ManifestParseError),
            Some(ManifestFacts::Malformed) => Err(ResolveErrorV::ManifestParseError),
            Some(ManifestFacts::Parsed { package: Some(p), .. }) => Ok(p.chip),
            Some(ManifestFacts::Parsed { package: None, workspace_members: Some(_) }) => Ok(None),
            Some(ManifestFacts::Parsed { package: None, workspace_members: None }) => Err(
                ResolveErrorV::ManifestParseError,
            ),
        },
    }
}

/// Reads the tool metadata for `working_dir`; the result is exactly
/// [`spec_metadata`].
pub fn read_metadata(fs: &Fs, working_dir: usize) -> (r: Result<Metadata, ResolveError>)
    requires
        fs.wf(),
        working_dir < fs.nodes@.len(),
    ensures
        match r {
            Ok(md) => spec_metadata(*fs, working_dir) == Ok::<Option<String>, ResolveErrorV>(
                md.chip,
            ),
            Err(e) => spec_metadata(*fs, working_dir) == Err::<Option<String>, ResolveErrorV>(e@),
        },
{
    let m = match nearest_manifest(fs, working_dir) {
        Some(m) => m,
        None => {
            return Err(ResolveError::ManifestNotFound);
        },
    };
    proof {
        lemma_nearest_in_range(*fs, working_dir);
    }
    match &fs.nodes[m].manifest {
        None => Err(ResolveError::ManifestParseError),
        Some(ManifestFacts::Malformed) => Err(ResolveError::ManifestParseError),
        Some(ManifestFacts::Parsed { package: Some(p), .. }) => Ok(
            Metadata { chip: clone_opt_string(&p.chip) },
        ),
        Some(ManifestFacts::Parsed { package: None, workspace_members: Some(_) }) => Ok(
            Metadata { chip: None },
        ),
        Some(ManifestFacts::Parsed { package: None, workspace_members: None }) => Err(
            ResolveError::ManifestParseError,
        ),
    }
}

} // verus!

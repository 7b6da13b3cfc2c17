//! Finding the directory that holds a project's build artifacts.
use vstd::prelude::*;
use crate::paths::{join, join_spec, strip_prefix, strip_prefix_spec};
use crate::text::{chars_of, string_from};

verus! {

/// What the detection saw of a project directory.
#[derive(Debug)]
pub struct ArtifactsProbe {
    /// `Anchor.toml` exists.
    pub anchor_toml: bool,
    /// `Cargo.toml` exists.
    pub cargo_toml: bool,
    /// `target/deploy` exists.
    pub root_deploy: bool,
    /// `target` exists.
    pub root_target: bool,
    /// Each directory under `programs/` (in listing order), and whether its
    /// `target/deploy` and its `target` exist.
    pub program_dirs: Vec<(String, bool, bool)>,
    /// Each directory of the project directory (in listing order), and whether its
    /// `target/deploy` exists.
    pub root_dirs: Vec<(String, bool)>,
}

/// `path` relative to `root` where it lies under it.
pub open spec fn rel_to(root: Seq<char>, path: Seq<char>) -> Seq<char> {
    match strip_prefix_spec(path, root) {
        Some(r) => r,
        None => path,
    }
}

fn rel_to_exec(root: &str, path: &str) -> (r: String)
    ensures
        r@ == rel_to(root@, path@),
{
    match strip_prefix(path, root) {
        Some(r) => r,
        None => string_from(&chars_of(path)),
    }
}

/// The artifacts directory found under the program directories, from index `i` on.
pub open spec fn from_program_dirs(dirs: Seq<(String, bool, bool)>, i: int) -> Option<Seq<char>>
    decreases dirs.len() - i,
{
    if i < 0 || i >= dirs.len() {
        None
    } else if dirs[i].1 {
        Some(join_spec(dirs[i].0@, "target/deploy"@))
    } else if dirs[i].2 {
        Some(join_spec(dirs[i].0@, "target"@))
    } else {
        from_program_dirs(dirs, i + 1)
    }
}

/// The artifacts directory found under the project's directories, from index `i` on.
pub open spec fn from_root_dirs(dirs: Seq<(String, bool)>, i: int) -> Option<Seq<char>>
    decreases dirs.len() - i,
{
    if i < 0 || i >= dirs.len() {
        None
    } else if dirs[i].1 {
        Some(join_spec(dirs[i].0@, "target/deploy"@))
    } else {
        from_root_dirs(dirs, i + 1)
    }
}

/// The artifacts directory of a project (before it is made relative to the
/// project): Anchor's `target/deploy`, a single package's `target/deploy` or
/// `target`, a program's under `programs/`, or a member's `target/deploy`.
pub open spec fn artifacts_dir_spec(root: Seq<char>, p: ArtifactsProbe) -> Option<Seq<char>> {
    if p.anchor_toml && p.root_deploy {
        Some(join_spec(root, "target/deploy"@))
    } else if p.cargo_toml && p.root_deploy {
        Some(join_spec(root, "target/deploy"@))
    } else if p.cargo_toml && p.root_target {
        Some(join_spec(root, "target"@))
    } else if from_program_dirs(p.program_dirs@, 0) is Some {
        from_program_dirs(p.program_dirs@, 0)
    } else {
        from_root_dirs(p.root_dirs@, 0)
    }
}

/// A project's own `target/deploy`, where it exists next to `Anchor.toml` or
/// `Cargo.toml`, is the artifacts directory; its `target` is taken only for a
/// `Cargo.toml` project without `target/deploy`.
pub proof fn lemma_deploy_dir_first(root: Seq<char>, p: ArtifactsProbe)
    ensures
        (p.anchor_toml || p.cargo_toml) && p.root_deploy ==> artifacts_dir_spec(root, p) == Some(
            join_spec(root, seq!['t', 'a', 'r', 'g', 'e', 't', '/', 'd', 'e', 'p', 'l', 'o', 'y']),
        ),
        p.cargo_toml && !p.root_deploy && p.root_target ==> artifacts_dir_spec(root, p) == Some(
            join_spec(root, seq!['t', 'a', 'r', 'g', 'e', 't']),
        ),
{
    reveal_strlit("target/deploy");
    reveal_strlit("target");
    assert("target/deploy"@ =~= seq!['t', 'a', 'r', 'g', 'e', 't', '/', 'd', 'e', 'p', 'l', 'o', 'y']);
    assert("target"@ =~= seq!['t', 'a', 'r', 'g', 'e', 't']);
}

/// No artifacts directory was found.
#[derive(Clone, Copy, Debug, PartialEq, Eq, Structural)]
pub enum ArtifactsDirError {
    NotFound,
}

/// Detects the artifacts (deploy) directory of a Solana project from what was seen
/// of it, for Anchor, single-package and workspace layouts; the result is relative
/// to the project directory.
pub fn detect_artifacts_dir(root: &str, probe: &ArtifactsProbe) -> (r: Result<String, ArtifactsDirError>)
    ensures
        r matches Ok(d) ==> (artifacts_dir_spec(root@, *probe) matches Some(a) && d@ == rel_to(
            root@,
            a,
        )),
        r is Err ==> artifacts_dir_spec(root@, *probe) is None,
        (probe.anchor_toml || probe.cargo_toml) && probe.root_deploy ==> (r matches Ok(d) && d@
            == rel_to(root@, join_spec(root@, "target/deploy"@))),
{
    if (probe.anchor_toml || probe.cargo_toml) && probe.root_deploy {
        let d = join(root, "target/deploy");
        return Ok(rel_to_exec(root, d.as_str()));
    }
    if probe.cargo_toml && probe.root_target {
        let d = join(root, "target");
        return Ok(rel_to_exec(root, d.as_str()));
    }
    let mut i: usize = 0;
    while i < probe.program_dirs.len()
        invariant
            i <= probe.program_dirs@.len(),
            from_program_dirs(probe.program_dirs@, 0) == from_program_dirs(probe.program_dirs@, i as int),
            !((probe.anchor_toml || probe.cargo_toml) && probe.root_deploy),
            !(probe.cargo_toml && probe.root_target),
        decreases probe.program_dirs@.len() - i,
    {
        let (dir, deploy, target) = &probe.program_dirs[i];
        if *deploy {
            let d = join(dir.as_str(), "target/deploy");
            return Ok(rel_to_exec(root, d.as_str()));
        }
        if *target {
            let d = join(dir.as_str(), "target");
            return Ok(rel_to_exec(root, d.as_str()));
        }
        i = i + 1;
    }
    let mut j: usize = 0;
    while j < probe.root_dirs.len()
        invariant
            j <= probe.root_dirs@.len(),
            from_program_dirs(probe.program_dirs@, 0) is None,
            !((probe.anchor_toml || probe.cargo_toml) && probe.root_deploy),
            !(probe.cargo_toml && probe.root_target),
            from_root_dirs(probe.root_dirs@, 0) == from_root_dirs(probe.root_dirs@, j as int),
        decreases probe.root_dirs@.len() - j,
    {
        let (dir, deploy) = &probe.root_dirs[j];
        if *deploy {
            let d = join(dir.as_str(), "target/deploy");
            return Ok(rel_to_exec(root, d.as_str()));
        }
        j = j + 1;
    }
    Err(ArtifactsDirError::NotFound)
}

} // verus!

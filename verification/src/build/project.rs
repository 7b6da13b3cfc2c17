//! Which packages of a Cargo workspace are Solana programs.
use vstd::prelude::*;
use crate::paths::{starts_with, strip_prefix_spec};
use crate::text::{chars_of, eq_str, string_from};

verus! {

/// What the program detection reads of a package from `cargo metadata`.
#[derive(Debug)]
pub struct PackageInfo {
    pub name: String,
    pub manifest_path: String,
    /// The canonical directory that holds the manifest.
    pub manifest_dir: String,
    /// The names of the package's dependencies.
    pub dependency_names: Vec<String>,
    /// The crate types of each of the package's targets.
    pub target_crate_types: Vec<Vec<String>>,
}

/// A Solana program package.
#[derive(Debug)]
pub struct SolanaProgram {
    pub name: String,
    pub manifest_path: String,
    /// Whether the program uses Anchor.
    pub is_anchor: bool,
}

/// Whether some element of `names` is `s`.
pub open spec fn has_name(names: Seq<String>, s: Seq<char>) -> bool {
    exists|i: int| 0 <= i < names.len() && #[trigger] names[i]@ == s
}

/// Whether a package depends on `anchor-lang`.
pub open spec fn is_anchor_spec(p: PackageInfo) -> bool {
    has_name(p.dependency_names@, "anchor-lang"@)
}

/// Whether a package is a Solana program: it depends on `solana-program`,
/// `anchor-lang` or `pinocchio`, and one of its targets builds a `cdylib`.
pub open spec fn is_program_spec(p: PackageInfo) -> bool {
    &&& (has_name(p.dependency_names@, "solana-program"@) || has_name(
        p.dependency_names@,
        "anchor-lang"@,
    ) || has_name(p.dependency_names@, "pinocchio"@))
    &&& exists|t: int|
        0 <= t < p.target_crate_types@.len() && has_name(
            #[trigger] p.target_crate_types@[t]@,
            "cdylib"@,
        )
}

fn has_name_exec(names: &Vec<String>, s: &str) -> (r: bool)
    ensures
        r == has_name(names@, s@),
{
    let mut i: usize = 0;
    while i < names.len()
        invariant
            i <= names@.len(),
            forall|k: int| 0 <= k < i ==> #[trigger] names@[k]@ != s@,
        decreases names@.len() - i,
    {
        let c = chars_of(names[i].as_str());
        if eq_str(&c, s) {
            return true;
        }
        i = i + 1;
    }
    false
}

/// Whether a package uses Anchor.
pub fn is_anchor_package(p: &PackageInfo) -> (r: bool)
    ensures
        r == is_anchor_spec(*p),
{
    has_name_exec(&p.dependency_names, "anchor-lang")
}

/// Heuristically tells whether a package is a Solana native or Anchor program.
pub fn is_program(p: &PackageInfo) -> (r: bool)
    ensures
        r == is_program_spec(*p),
{
    let dep = has_name_exec(&p.dependency_names, "solana-program") || has_name_exec(
        &p.dependency_names,
        "anchor-lang",
    ) || has_name_exec(&p.dependency_names, "pinocchio");
    let mut cdylib = false;
    let mut t: usize = 0;
    while t < p.target_crate_types.len()
        invariant
            t <= p.target_crate_types@.len(),
            cdylib == exists|k: int|
                0 <= k < t && has_name(#[trigger] p.target_crate_types@[k]@, "cdylib"@),
        decreases p.target_crate_types@.len() - t,
    {
        if has_name_exec(&p.target_crate_types[t], "cdylib") {
            cdylib = true;
        }
        t = t + 1;
    }
    dep && cdylib
}

/// Whether a package belongs to the programs detected from directory `cwd`: its
/// manifest lies under `cwd` and it is a program.
pub open spec fn selected_spec(p: PackageInfo, cwd: Seq<char>) -> bool {
    strip_prefix_spec(p.manifest_dir@, cwd) is Some && is_program_spec(p)
}

/// The indices of the packages selected from `cwd`, in order.
pub open spec fn selected_indices(packages: Seq<PackageInfo>, cwd: Seq<char>) -> Seq<int>
    decreases packages.len(),
{
    if packages.len() == 0 {
        Seq::empty()
    } else {
        selected_indices(packages.drop_last(), cwd) + if selected_spec(packages.last(), cwd) {
            seq![packages.len() - 1]
        } else {
            Seq::empty()
        }
    }
}

/// Whether `prog` describes package `p`.
pub open spec fn describes(prog: SolanaProgram, p: PackageInfo) -> bool {
    &&& prog.name@ == p.name@
    &&& prog.manifest_path@ == p.manifest_path@
    &&& prog.is_anchor == is_anchor_spec(p)
}

proof fn lemma_selected_prefix(packages: Seq<PackageInfo>, cwd: Seq<char>, i: int)
    requires
        0 <= i <= packages.len(),
    ensures
        forall|k: int|
            0 <= k < selected_indices(packages.take(i), cwd).len() ==> 0 <= #[trigger] selected_indices(
                packages.take(i),
                cwd,
            )[k] < i,
    decreases i,
{
    if i > 0 {
        lemma_selected_prefix(packages, cwd, i - 1);
        let t = packages.take(i);
        assert(t.drop_last() =~= packages.take(i - 1));
        let prev = selected_indices(packages.take(i - 1), cwd);
        let tail = if selected_spec(t.last(), cwd) {
            seq![t.len() - 1]
        } else {
            Seq::<int>::empty()
        };
        assert(selected_indices(t, cwd) == prev + tail);
        assert forall|k: int| 0 <= k < selected_indices(t, cwd).len() implies 0
            <= #[trigger] selected_indices(t, cwd)[k] < i by {
            if k < prev.len() {
                assert(selected_indices(t, cwd)[k] == prev[k]);
            } else {
                assert(selected_indices(t, cwd)[k] == tail[k - prev.len()]);
            }
        }
    }
}

/// The Solana programs among `packages` whose manifest lies under the current
/// directory `cwd` (both canonical), in the order of `packages`, so that running
/// from a subdirectory of a large workspace does not build everything.
pub fn select_programs(packages: &Vec<PackageInfo>, cwd: &str) -> (r: Vec<SolanaProgram>)
    ensures
        r@.len() == selected_indices(packages@, cwd@).len(),
        forall|k: int|
            0 <= k < r@.len() ==> describes(
                #[trigger] r@[k],
                packages@[selected_indices(packages@, cwd@)[k]],
            ),
{
    let mut out: Vec<SolanaProgram> = Vec::new();
    let mut i: usize = 0;
    while i < packages.len()
        invariant
            i <= packages@.len(),
            out@.len() == selected_indices(packages@.take(i as int), cwd@).len(),
            forall|k: int|
                0 <= k < out@.len() ==> describes(
                    #[trigger] out@[k],
                    packages@[selected_indices(packages@.take(i as int), cwd@)[k]],
                ),
        decreases packages@.len() - i,
    {
        let p = &packages[i];
        let ghost prev = selected_indices(packages@.take(i as int), cwd@);
        assert(packages@.take(i + 1).drop_last() =~= packages@.take(i as int));
        assert(packages@.take(i + 1).last() == packages@[i as int]);
        proof {
            lemma_selected_prefix(packages@, cwd@, i as int);
        }
        if starts_with(p.manifest_dir.as_str(), cwd) && is_program(p) {
            let name = string_from(&chars_of(p.name.as_str()));
            let manifest_path = string_from(&chars_of(p.manifest_path.as_str()));
            let is_anchor = is_anchor_package(p);
            let ghost before = out@;
            out.push(SolanaProgram { name, manifest_path, is_anchor });
            let ghost now = selected_indices(packages@.take(i + 1), cwd@);
            assert(now == prev + seq![i as int]);
            assert forall|k: int| 0 <= k < out@.len() implies describes(
                #[trigger] out@[k],
                packages@[now[k]],
            ) by {
                if k < before.len() {
                    assert(out@[k] == before[k]);
                    assert(now[k] == prev[k]);
                }
            }
        } else {
            let ghost now = selected_indices(packages@.take(i + 1), cwd@);
            assert(now =~= prev);
        }
        i = i + 1;
    }
    assert(packages@.take(packages@.len() as int) =~= packages@);
    out
}

} // verus!

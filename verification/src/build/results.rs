//! Results of building programs, and the build summary.
use vstd::prelude::*;
use crate::build::project::SolanaProgram;
use crate::paths::{parent, parent_spec};
use crate::text::{chars_of, eq_chars, push_str, string_from};

verus! {

/// Whether a program built.
#[derive(Clone, Copy, Debug, PartialEq, Eq, Structural)]
pub enum BuildStatus {
    Success,
    Failed,
}

/// The outcome of building one program.
#[derive(Debug)]
pub struct BuildResult {
    pub name: String,
    pub manifest_path: String,
    pub status: BuildStatus,
    pub error: Option<String>,
}

/// A program whose debug file did not pass the check, with the reason.
#[derive(Debug)]
pub struct FailedDebugInfo {
    pub name: String,
    pub path: String,
    pub error: String,
}

fn copy_string(s: &String) -> (r: String)
    ensures
        r@ == s@,
{
    string_from(&chars_of(s.as_str()))
}

/// The result of building `prog`, given what the build gave: success, or the
/// failure's message.
pub fn build_result(prog: &SolanaProgram, outcome: &Result<(), String>) -> (r: BuildResult)
    ensures
        r.name@ == prog.name@,
        r.manifest_path@ == prog.manifest_path@,
        outcome is Ok ==> r.status == BuildStatus::Success && r.error is None,
        outcome matches Err(e) ==> (r.status == BuildStatus::Failed && (r.error matches Some(m)
            && m@ == e@)),
{
    match outcome {
        Ok(()) => BuildResult {
            name: copy_string(&prog.name),
            manifest_path: copy_string(&prog.manifest_path),
            status: BuildStatus::Success,
            error: None,
        },
        Err(e) => BuildResult {
            name: copy_string(&prog.name),
            manifest_path: copy_string(&prog.manifest_path),
            status: BuildStatus::Failed,
            error: Some(copy_string(e)),
        },
    }
}

/// The directory in which to build the Anchor IDL after `prog` built: its
/// manifest's directory, for an Anchor program whose manifest path has one.
pub fn anchor_idl_dir(prog: &SolanaProgram) -> (r: Option<String>)
    ensures
        !prog.is_anchor ==> r is None,
        prog.is_anchor ==> (r matches Some(d) ==> parent_spec(prog.manifest_path@) == Some(d@)),
        prog.is_anchor ==> (r is None <==> parent_spec(prog.manifest_path@) is None),
{
    if prog.is_anchor {
        parent(prog.manifest_path.as_str())
    } else {
        None
    }
}

/// The arguments given to `cargo-build-sbf` to build a program in debug mode with
/// the settings of its `seer.toml`.
pub fn build_command_args(manifest_path: &str, seer_toml_path: &str) -> (r: Vec<String>)
    ensures
        r@.len() == 6,
        r@[0]@ == "--manifest-path"@,
        r@[1]@ == manifest_path@,
        r@[2]@ == "--debug"@,
        r@[3]@ == "--"@,
        r@[4]@ == "--config"@,
        r@[5]@ == seer_toml_path@,
{
    let mut v: Vec<String> = Vec::new();
    v.push(string_from(&chars_of("--manifest-path")));
    v.push(string_from(&chars_of(manifest_path)));
    v.push(string_from(&chars_of("--debug")));
    v.push(string_from(&chars_of("--")));
    v.push(string_from(&chars_of("--config")));
    v.push(string_from(&chars_of(seer_toml_path)));
    v
}

/// The message of a failed build, with the build's error output.
pub fn build_failure_message(manifest_path: &str, stderr: &str) -> (r: String)
    ensures
        r@ == "Build failed for "@ + manifest_path@ + "\nCargo error output:\n"@ + stderr@,
{
    let mut out: Vec<char> = Vec::new();
    push_str(&mut out, "Build failed for ");
    push_str(&mut out, manifest_path);
    push_str(&mut out, "\nCargo error output:\n");
    push_str(&mut out, stderr);
    string_from(&out)
}

/// The error recorded for `name` among `failed`: that of the last entry with this
/// name, as a map filled in order keeps it.
pub open spec fn failed_error(failed: Seq<FailedDebugInfo>, name: Seq<char>) -> Option<Seq<char>>
    decreases failed.len(),
{
    if failed.len() == 0 {
        None
    } else if failed.last().name@ == name {
        Some(failed.last().error@)
    } else {
        failed_error(failed.drop_last(), name)
    }
}

/// The success lines of the summary: programs that built and passed the debug check.
pub open spec fn success_lines(results: Seq<BuildResult>, failed: Seq<FailedDebugInfo>) -> Seq<
    Seq<char>,
>
    decreases results.len(),
{
    if results.len() == 0 {
        Seq::empty()
    } else {
        let r = results.last();
        success_lines(results.drop_last(), failed) + if r.status == BuildStatus::Success
            && failed_error(failed, r.name@) is None {
            seq!["- "@ + r.name@ + ": SUCCESS"@]
        } else {
            Seq::empty()
        }
    }
}

/// Why a program failed: its build error, or else its failed debug check.
pub open spec fn fail_reason(r: BuildResult, failed: Seq<FailedDebugInfo>) -> Option<Seq<char>> {
    if r.status == BuildStatus::Failed {
        match r.error {
            Some(e) => Some(e@),
            None => None,
        }
    } else {
        failed_error(failed, r.name@)
    }
}

/// The failure lines of the summary: programs whose build or debug check failed.
pub open spec fn failure_lines(results: Seq<BuildResult>, failed: Seq<FailedDebugInfo>) -> Seq<
    Seq<char>,
>
    decreases results.len(),
{
    if results.len() == 0 {
        Seq::empty()
    } else {
        let r = results.last();
        failure_lines(results.drop_last(), failed) + match fail_reason(r, failed) {
            Some(e) => seq!["- "@ + r.name@ + ": FAILED ("@ + e + ")"@],
            None => Seq::empty(),
        }
    }
}

/// The lines of the build summary.
pub open spec fn summary_spec(results: Seq<BuildResult>, failed: Seq<FailedDebugInfo>) -> Seq<
    Seq<char>,
> {
    seq!["\nBuild summary:"@] + success_lines(results, failed) + failure_lines(results, failed)
        + seq!["seer build complete."@]
}

/// The views of a sequence of strings.
pub open spec fn lines_view(v: Seq<String>) -> Seq<Seq<char>> {
    v.map_values(|x: String| x@)
}

fn failed_error_exec(failed: &Vec<FailedDebugInfo>, name: &String) -> (r: Option<String>)
    ensures
        r matches Some(e) ==> failed_error(failed@, name@) == Some(e@),
        r is None ==> failed_error(failed@, name@) is None,
{
    let n = chars_of(name.as_str());
    let mut j: usize = failed.len();
    assert(failed@.take(failed@.len() as int) =~= failed@);
    while j > 0
        invariant
            j <= failed@.len(),
            n@ == name@,
            failed_error(failed@, name@) == failed_error(failed@.take(j as int), name@),
        decreases j,
    {
        assert(failed@.take(j as int).drop_last() =~= failed@.take(j - 1));
        let f = chars_of(failed[j - 1].name.as_str());
        if eq_chars(&f, &n) {
            return Some(copy_string(&failed[j - 1].error));
        }
        j = j - 1;
    }
    None
}

/// The build summary: first the programs that built and passed the debug check,
/// then those whose build or debug check failed, with the reason.
pub fn print_build_summary(results: &Vec<BuildResult>, failed: &Vec<FailedDebugInfo>) -> (r: Vec<
    String,
>)
    ensures
        lines_view(r@) == summary_spec(results@, failed@),
{
    let mut out: Vec<String> = Vec::new();
    out.push(string_from(&chars_of("\nBuild summary:")));
    let mut i: usize = 0;
    while i < results.len()
        invariant
            i <= results@.len(),
            lines_view(out@) == seq!["\nBuild summary:"@] + success_lines(
                results@.take(i as int),
                failed@,
            ),
        decreases results@.len() - i,
    {
        assert(results@.take(i + 1).drop_last() =~= results@.take(i as int));
        let r = &results[i];
        let ghost before = lines_view(out@);
        if r.status == BuildStatus::Success {
            match failed_error_exec(failed, &r.name) {
                None => {
                    let mut line: Vec<char> = Vec::new();
                    push_str(&mut line, "- ");
                    push_str(&mut line, r.name.as_str());
                    push_str(&mut line, ": SUCCESS");
                    let s = string_from(&line);
                    let ghost sv = s@;
                    out.push(s);
                    assert(lines_view(out@) =~= before.push(sv));
                },
                Some(_) => {
                    assert(lines_view(out@) =~= before + Seq::<Seq<char>>::empty());
                },
            }
        } else {
            assert(lines_view(out@) =~= before + Seq::<Seq<char>>::empty());
        }
        i = i + 1;
    }
    assert(results@.take(results@.len() as int) =~= results@);
    let ghost head = lines_view(out@);
    let mut i: usize = 0;
    while i < results.len()
        invariant
            i <= results@.len(),
            lines_view(out@) == head + failure_lines(results@.take(i as int), failed@),
        decreases results@.len() - i,
    {
        assert(results@.take(i + 1).drop_last() =~= results@.take(i as int));
        let r = &results[i];
        let ghost before = lines_view(out@);
        let reason: Option<String> = if r.status == BuildStatus::Failed {
            match &r.error {
                Some(e) => Some(copy_string(e)),
                None => None,
            }
        } else {
            failed_error_exec(failed, &r.name)
        };
        match reason {
            Some(err) => {
                let mut line: Vec<char> = Vec::new();
                push_str(&mut line, "- ");
                push_str(&mut line, r.name.as_str());
                push_str(&mut line, ": FAILED (");
                push_str(&mut line, err.as_str());
                push_str(&mut line, ")");
                let s = string_from(&line);
                let ghost sv = s@;
                out.push(s);
                assert(lines_view(out@) =~= before.push(sv));
            },
            None => {
                assert(lines_view(out@) =~= before + Seq::<Seq<char>>::empty());
            },
        }
        i = i + 1;
    }
    assert(results@.take(results@.len() as int) =~= results@);
    let ghost body = lines_view(out@);
    let last = string_from(&chars_of("seer build complete."));
    let ghost lv = last@;
    out.push(last);
    assert(lines_view(out@) =~= body.push(lv));
    assert(lines_view(out@) =~= summary_spec(results@, failed@));
    out
}

} // verus!

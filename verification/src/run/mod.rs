//! The `run` command: artifacts, authentication, consent, IDL files, source files,
//! uploads and the live session view.
pub mod artifacts;
pub mod auth;
pub mod blobs;
pub mod idl;
pub mod session_tui;
pub mod upload;
pub mod utils;
pub mod artifacts_dir;
pub mod consent;
pub mod source_paths;

use vstd::prelude::*;
use crate::paths::{components, is_absolute, join, join_spec, strip_prefix, strip_prefix_spec, extension, extension_spec};
use crate::run::artifacts::{file_map_get, FileMap, SessionArtifact};
use crate::text::{chars_of, eq_chars, push_str, starts_with, starts_with_chars, string_from};

verus! {

/// A path as it is announced to Seer: relative to the project directory `cwd`
/// where it lies under it, and always beginning with `./` or `../`.
pub open spec fn rel_path_spec(p: Seq<char>, cwd: Seq<char>) -> Seq<char> {
    let r = match strip_prefix_spec(p, cwd) {
        Some(r) => r,
        None => p,
    };
    if starts_with(r, "./"@) || starts_with(r, "../"@) {
        r
    } else {
        "./"@ + r
    }
}

/// The path of a file as it is announced to Seer.
pub fn rel_path(p: &str, cwd: &str) -> (r: String)
    ensures
        r@ == rel_path_spec(p@, cwd@),
{
    let r = match strip_prefix(p, cwd) {
        Some(r) => chars_of(r.as_str()),
        None => chars_of(p),
    };
    if starts_with_chars(&r, &chars_of("./")) || starts_with_chars(&r, &chars_of("../")) {
        string_from(&r)
    } else {
        let mut out: Vec<char> = Vec::new();
        push_str(&mut out, "./");
        crate::text::push_chars(&mut out, &r);
        string_from(&out)
    }
}

/// The hash of the first artifact announced under `path`.
pub open spec fn artifact_hash(artifacts: Seq<SessionArtifact>, path: Seq<char>, i: int) -> Option<
    Seq<char>,
>
    decreases artifacts.len() - i,
{
    if i < 0 || i >= artifacts.len() {
        None
    } else if artifacts[i].file_path@ == path {
        Some(artifacts[i].file_hash@)
    } else {
        artifact_hash(artifacts, path, i + 1)
    }
}

/// The uploads that Seer asks for and that the session can serve: for each
/// requested path (in order), the index of the request and the local file that
/// the file map holds for the hash announced under that path.
pub open spec fn missing_uploads_spec(
    requested: Seq<Seq<char>>,
    artifacts: Seq<SessionArtifact>,
    entries: Seq<crate::run::artifacts::FileEntry>,
) -> Seq<(int, Seq<char>)>
    decreases requested.len(),
{
    if requested.len() == 0 {
        Seq::empty()
    } else {
        let i = requested.len() - 1;
        missing_uploads_spec(requested.drop_last(), artifacts, entries) + match artifact_hash(
            artifacts,
            requested.last(),
            0,
        ) {
            Some(h) => match file_map_get(entries, h) {
                Some((p, _)) => seq![(i, p)],
                None => Seq::empty(),
            },
            None => Seq::empty(),
        }
    }
}

fn artifact_hash_exec(artifacts: &Vec<SessionArtifact>, path: &String) -> (r: Option<String>)
    ensures
        r matches Some(h) ==> artifact_hash(artifacts@, path@, 0) == Some(h@),
        r is None ==> artifact_hash(artifacts@, path@, 0) is None,
{
    let p = chars_of(path.as_str());
    let mut i: usize = 0;
    while i < artifacts.len()
        invariant
            i <= artifacts@.len(),
            p@ == path@,
            artifact_hash(artifacts@, path@, 0) == artifact_hash(artifacts@, path@, i as int),
        decreases artifacts@.len() - i,
    {
        if eq_chars(&chars_of(artifacts[i].file_path.as_str()), &p) {
            return Some(string_from(&chars_of(artifacts[i].file_hash.as_str())));
        }
        i = i + 1;
    }
    None
}

/// The uploads still needed: for each path that Seer asks for, the index of the
/// request and the local file with the content announced under that path.
pub fn missing_uploads(requested: &Vec<String>, artifacts: &Vec<SessionArtifact>, file_map: &FileMap) -> (r: Vec<
    (usize, String),
>)
    ensures
        r@.map_values(|x: (usize, String)| (x.0 as int, x.1@)) == missing_uploads_spec(
            requested@.map_values(|s: String| s@),
            artifacts@,
            file_map.entries@,
        ),
{
    let ghost rq = requested@.map_values(|s: String| s@);
    let mut out: Vec<(usize, String)> = Vec::new();
    let mut i: usize = 0;
    while i < requested.len()
        invariant
            i <= requested@.len(),
            rq == requested@.map_values(|s: String| s@),
            out@.map_values(|x: (usize, String)| (x.0 as int, x.1@)) == missing_uploads_spec(
                rq.take(i as int),
                artifacts@,
                file_map.entries@,
            ),
        decreases requested@.len() - i,
    {
        assert(rq.take(i + 1).drop_last() =~= rq.take(i as int));
        assert(rq.take(i + 1).last() == requested@[i as int]@);
        let ghost before = out@.map_values(|x: (usize, String)| (x.0 as int, x.1@));
        match artifact_hash_exec(artifacts, &requested[i]) {
            Some(h) => match file_map.get(h.as_str()) {
                Some((p, _)) => {
                    let ghost pv = p@;
                    out.push((i, p));
                    assert(out@.map_values(|x: (usize, String)| (x.0 as int, x.1@)) =~= before.push(
                        (i as int, pv),
                    ));
                },
                None => {
                    assert(out@.map_values(|x: (usize, String)| (x.0 as int, x.1@)) =~= before
                        + Seq::<(int, Seq<char>)>::empty());
                },
            },
            None => {
                assert(out@.map_values(|x: (usize, String)| (x.0 as int, x.1@)) =~= before
                    + Seq::<(int, Seq<char>)>::empty());
            },
        }
        i = i + 1;
    }
    assert(rq.take(requested@.len() as int) =~= rq);
    out
}

/// Where the artifacts of a run are taken from.
#[derive(Debug)]
pub enum ArtifactsChoice {
    /// The default `./target/deploy` was kept: the project's own `target/deploy`,
    /// which must be a directory.
    Default(String),
    /// The directory the user gave.
    Custom(String),
}

/// Whether the `--artifacts` value is the default `./target/deploy`, compared
/// component by component as paths compare.
pub open spec fn is_default_artifacts(arg: Seq<char>) -> bool {
    !is_absolute(arg) && components(arg) == components("./target/deploy"@)
}

/// The artifacts directory of a run, from the `--artifacts` value and the current
/// directory.
pub fn artifacts_dir_choice(arg: &str, cwd: &str) -> (r: ArtifactsChoice)
    ensures
        is_default_artifacts(arg@) ==> (r matches ArtifactsChoice::Default(d) && d@ == join_spec(
            cwd@,
            "target/deploy"@,
        )),
        !is_default_artifacts(arg@) ==> (r matches ArtifactsChoice::Custom(d) && d@ == arg@),
{
    let a = chars_of(arg);
    let ca = crate::paths::components_of(&a);
    let d = chars_of("./target/deploy");
    let cd = crate::paths::components_of(&d);
    let abs = a.len() > 0 && a[0] == '/';
    assert(crate::text::views(ca@).len() == ca@.len());
    assert(crate::text::views(cd@).len() == cd@.len());
    let mut same = !abs && ca.len() == cd.len();
    let mut i: usize = 0;
    while same && i < ca.len()
        invariant
            i <= ca@.len(),
            same ==> ca@.len() == cd@.len() && !is_absolute(arg@),
            same ==> forall|k: int| 0 <= k < i ==> crate::text::views(ca@)[k] == crate::text::views(cd@)[k],
            !same ==> !is_default_artifacts(arg@),
            crate::text::views(ca@) == components(arg@),
            crate::text::views(cd@) == components("./target/deploy"@),
        decreases ca@.len() - i,
    {
        assert(crate::text::views(ca@)[i as int] == ca@[i as int]@);
        assert(crate::text::views(cd@)[i as int] == cd@[i as int]@);
        if !eq_chars(&ca[i], &cd[i]) {
            same = false;
        }
        i = i + 1;
    }
    if same {
        assert(crate::text::views(ca@) =~= crate::text::views(cd@));
        ArtifactsChoice::Default(join(cwd, "target/deploy"))
    } else {
        ArtifactsChoice::Custom(string_from(&a))
    }
}

/// What to do with a source path listed in a debug file.
#[derive(Clone, Copy, Debug, PartialEq, Eq, Structural)]
pub enum SourceAction {
    /// Send the Rust source file.
    Send,
    /// A Rust source file that is not on disk: warn.
    WarnMissing,
    /// Not a Rust source file: skip it.
    Skip,
}

/// What to do with a source path: send `.rs` files that exist, warn about `.rs`
/// files that do not, and skip the rest.
pub fn source_action(path: &str, exists: bool) -> (r: SourceAction)
    ensures
        r == if extension_spec(path@) == Some("rs"@) {
            if exists {
                SourceAction::Send
            } else {
                SourceAction::WarnMissing
            }
        } else {
            SourceAction::Skip
        },
{
    let is_rs = match extension(path) {
        Some(e) => crate::text::eq_str(&chars_of(e.as_str()), "rs"),
        None => false,
    };
    if is_rs {
        if exists {
            SourceAction::Send
        } else {
            SourceAction::WarnMissing
        }
    } else {
        SourceAction::Skip
    }
}

/// The next step of a run once the session is created and the uploads it still
/// needs are known.
#[derive(Clone, Copy, Debug, PartialEq, Eq, Structural)]
pub enum UploadStep {
    /// Nothing to upload: start the session.
    StartSession,
    /// Ask the user whether the files may be uploaded.
    AskConsent,
    /// Upload the missing files, then start the session.
    Upload,
    /// The user declined: stop without starting the session.
    Stop,
}

/// Decides what a run does with the `missing` files Seer still needs: nothing to
/// upload starts the session; `--consent` uploads at once; otherwise the user is
/// asked (`answer` is `None` until they answered), and a refusal stops the run.
pub fn upload_step(consent_flag: bool, missing: usize, answer: Option<bool>) -> (s: UploadStep)
    ensures
        missing == 0 ==> s == UploadStep::StartSession,
        missing > 0 && consent_flag ==> s == UploadStep::Upload,
        missing > 0 && !consent_flag ==> s == match answer {
            None => UploadStep::AskConsent,
            Some(true) => UploadStep::Upload,
            Some(false) => UploadStep::Stop,
        },
{
    if missing == 0 {
        UploadStep::StartSession
    } else if consent_flag {
        UploadStep::Upload
    } else {
        match answer {
            None => UploadStep::AskConsent,
            Some(true) => UploadStep::Upload,
            Some(false) => UploadStep::Stop,
        }
    }
}

} // verus!

//! IDL files: finding them, telling Anchor from Codama IDLs, and deciding which to
//! send.
use vstd::prelude::*;
use crate::paths::{file_stem, file_stem_spec, join, join_spec};
use crate::text::{chars_of, eq_chars, push_str, string_from};

verus! {

/// The format of an IDL file.
#[derive(Clone, Copy, Debug, PartialEq, Eq, Structural)]
pub enum IdlFormat {
    Anchor,
    Codama,
}

impl IdlFormat {
    /// The format's name, as the tool shows it.
    pub fn name(&self) -> (r: &'static str)
        ensures
            r@ == match *self {
                IdlFormat::Anchor => "Anchor"@,
                IdlFormat::Codama => "Codama"@,
            },
    {
        match self {
            IdlFormat::Anchor => "Anchor",
            IdlFormat::Codama => "Codama",
        }
    }
}

/// A validated IDL file.
#[derive(Debug)]
pub struct IdlFile {
    pub path: String,
    pub program_name: String,
    pub format: IdlFormat,
}

/// Whether `serde_json` reads the text as an Anchor IDL (`anchor_lang_idl_spec::Idl`).
pub uninterp spec fn anchor_idl_parses(content: Seq<char>) -> bool;

/// Whether `serde_json` reads the text as a Codama IDL (`codama_nodes::RootNode`).
pub uninterp spec fn codama_idl_parses(content: Seq<char>) -> bool;

/// Tries `serde_json::from_str::<anchor_lang_idl_spec::Idl>` on the text and
/// tells whether it succeeds; which texts it accepts is not stated.
#[verifier::external_body]
fn parses_as_anchor_idl(content: &str) -> (r: bool)
    ensures
        r == anchor_idl_parses(content@),
{
    serde_json::from_str::<anchor_lang_idl_spec::Idl>(content).is_ok()
}

/// Tries `serde_json::from_str::<codama_nodes::RootNode>` on the text and tells
/// whether it succeeds; which texts it accepts is not stated.
#[verifier::external_body]
fn parses_as_codama_idl(content: &str) -> (r: bool)
    ensures
        r == codama_idl_parses(content@),
{
    serde_json::from_str::<codama_nodes::RootNode>(content).is_ok()
}

/// The text is neither a valid Anchor IDL nor a valid Codama IDL.
#[derive(Clone, Copy, Debug, PartialEq, Eq, Structural)]
pub enum IdlError {
    Unrecognized,
}

/// The format of an IDL given which parsers accept it: Anchor comes first.
pub fn idl_format_from(anchor_ok: bool, codama_ok: bool) -> (r: Result<IdlFormat, IdlError>)
    ensures
        anchor_ok ==> r == Ok::<IdlFormat, IdlError>(IdlFormat::Anchor),
        !anchor_ok && codama_ok ==> r == Ok::<IdlFormat, IdlError>(IdlFormat::Codama),
        !anchor_ok && !codama_ok ==> r == Err::<IdlFormat, IdlError>(IdlError::Unrecognized),
{
    if anchor_ok {
        Ok(IdlFormat::Anchor)
    } else if codama_ok {
        Ok(IdlFormat::Codama)
    } else {
        Err(IdlError::Unrecognized)
    }
}

/// Tries to read IDL text as an Anchor IDL, then as a Codama IDL, and gives the
/// format that matches.
pub fn validate_idl(content: &str) -> (r: Result<IdlFormat, IdlError>)
    ensures
        anchor_idl_parses(content@) ==> r == Ok::<IdlFormat, IdlError>(IdlFormat::Anchor),
        !anchor_idl_parses(content@) && codama_idl_parses(content@) ==> r == Ok::<
            IdlFormat,
            IdlError,
        >(IdlFormat::Codama),
        !anchor_idl_parses(content@) && !codama_idl_parses(content@) ==> r == Err::<
            IdlFormat,
            IdlError,
        >(IdlError::Unrecognized),
{
    if parses_as_anchor_idl(content) {
        return idl_format_from(true, false);
    }
    let codama = parses_as_codama_idl(content);
    idl_format_from(false, codama)
}

/// The two places searched for the IDL of program `name`, in order:
/// `target/idl/<name>.json` and `target/types/<name>.json` under `cwd`.
pub open spec fn idl_candidates_for(cwd: Seq<char>, name: Seq<char>) -> Seq<Seq<char>> {
    seq![
        join_spec(join_spec(cwd, "target/idl"@), name + ".json"@),
        join_spec(join_spec(cwd, "target/types"@), name + ".json"@),
    ]
}

/// The views of a sequence of strings.
pub open spec fn str_views(v: Seq<String>) -> Seq<Seq<char>> {
    v.map_values(|x: String| x@)
}

/// The candidate IDL paths for each program, two per program in order.
pub fn idl_candidates(cwd: &str, program_names: &Vec<String>) -> (r: Vec<String>)
    ensures
        r@.len() == 2 * program_names@.len(),
        forall|i: int|
            0 <= i < program_names@.len() ==> r@[2 * i]@ == idl_candidates_for(
                cwd@,
                #[trigger] program_names@[i]@,
            )[0] && r@[2 * i + 1]@ == idl_candidates_for(cwd@, program_names@[i]@)[1],
{
    let idl_dir = join(cwd, "target/idl");
    let types_dir = join(cwd, "target/types");
    let mut out: Vec<String> = Vec::new();
    let mut i: usize = 0;
    while i < program_names.len()
        invariant
            i <= program_names@.len(),
            idl_dir@ == join_spec(cwd@, "target/idl"@),
            types_dir@ == join_spec(cwd@, "target/types"@),
            out@.len() == 2 * i,
            forall|k: int|
                0 <= k < i ==> out@[2 * k]@ == idl_candidates_for(
                    cwd@,
                    #[trigger] program_names@[k]@,
                )[0] && out@[2 * k + 1]@ == idl_candidates_for(cwd@, program_names@[k]@)[1],
        decreases program_names@.len() - i,
    {
        let mut file: Vec<char> = Vec::new();
        push_str(&mut file, program_names[i].as_str());
        push_str(&mut file, ".json");
        let f = string_from(&file);
        let a = join(idl_dir.as_str(), f.as_str());
        let b = join(types_dir.as_str(), f.as_str());
        out.push(a);
        out.push(b);
        i = i + 1;
    }
    out
}

/// The IDL files discovered for each program: the first of its two candidates that
/// is a file (`is_file` tells, aligned with `idl_candidates`), in program order.
pub open spec fn discovered(candidates: Seq<Seq<char>>, is_file: Seq<bool>, n: int) -> Seq<Seq<char>>
    decreases n,
{
    if n <= 0 {
        Seq::empty()
    } else {
        let prev = discovered(candidates, is_file, n - 1);
        let i = n - 1;
        if is_file[2 * i] {
            prev.push(candidates[2 * i])
        } else if is_file[2 * i + 1] {
            prev.push(candidates[2 * i + 1])
        } else {
            prev
        }
    }
}

/// Discovers IDL files by probing the known directories for `<program>.json`: the
/// first match per program wins.
pub fn discover_idl_files(candidates: &Vec<String>, is_file: &Vec<bool>) -> (r: Vec<String>)
    requires
        is_file@.len() == candidates@.len(),
        candidates@.len() % 2 == 0,
    ensures
        str_views(r@) == discovered(str_views(candidates@), is_file@, (candidates@.len() / 2) as int),
{
    let n = candidates.len() / 2;
    let mut out: Vec<String> = Vec::new();
    let mut i: usize = 0;
    while i < n
        invariant
            i <= n,
            n == candidates@.len() / 2,
            is_file@.len() == candidates@.len(),
            candidates@.len() % 2 == 0,
            str_views(out@) == discovered(str_views(candidates@), is_file@, i as int),
        decreases n - i,
    {
        let ghost before = str_views(out@);
        assert(2 * i + 1 < candidates@.len()) by (nonlinear_arith)
            requires
                i < n,
                n == candidates@.len() / 2,
        ;
        assert(candidates.len() == candidates@.len());
        let j = i + i;
        if is_file[j] {
            let c = string_from(&chars_of(candidates[j].as_str()));
            let ghost cv = c@;
            out.push(c);
            assert(str_views(out@) =~= before.push(cv));
        } else if is_file[j + 1] {
            let c = string_from(&chars_of(candidates[j + 1].as_str()));
            let ghost cv = c@;
            out.push(c);
            assert(str_views(out@) =~= before.push(cv));
        }
        i = i + 1;
    }
    out
}

/// The program that an IDL file belongs to: the program named like the file's
/// stem, if there is one.
pub open spec fn idl_program(path: Seq<char>, program_names: Seq<Seq<char>>) -> Option<Seq<char>> {
    let stem = match file_stem_spec(path) {
        Some(s) => s,
        None => Seq::empty(),
    };
    if program_names.contains(stem) {
        Some(stem)
    } else {
        None
    }
}

/// The program an IDL file belongs to, by its file stem.
pub fn idl_program_name(path: &str, program_names: &Vec<String>) -> (r: Option<String>)
    ensures
        r matches Some(n) ==> idl_program(path@, str_views(program_names@)) == Some(n@),
        r is None ==> idl_program(path@, str_views(program_names@)) is None,
{
    let stem: Vec<char> = match file_stem(path) {
        Some(s) => chars_of(s.as_str()),
        None => Vec::new(),
    };
    let mut i: usize = 0;
    while i < program_names.len()
        invariant
            i <= program_names@.len(),
            stem@ == match file_stem_spec(path@) {
                Some(s) => s,
                None => Seq::empty(),
            },
            forall|k: int| 0 <= k < i ==> str_views(program_names@)[k] != stem@,
        decreases program_names@.len() - i,
    {
        let n = chars_of(program_names[i].as_str());
        assert(str_views(program_names@)[i as int] == n@);
        if eq_chars(&n, &stem) {
            assert(str_views(program_names@).contains(stem@));
            return Some(string_from(&stem));
        }
        i = i + 1;
    }
    assert(!str_views(program_names@).contains(stem@));
    None
}

/// What probing one IDL candidate found.
#[derive(Debug)]
pub struct IdlProbe {
    /// Whether the path exists.
    pub exists: bool,
    /// The file's text, or why it could not be read; `None` where it was not read.
    pub content: Option<Result<String, String>>,
}

/// Why an IDL candidate was not used.
#[derive(Clone, Copy, Debug, PartialEq, Eq, Structural)]
pub enum IdlRejection {
    Missing,
    UnknownProgram,
    Unreadable,
    Invalid,
}

/// The verdict on one IDL candidate.
pub open spec fn idl_verdict(path: Seq<char>, names: Seq<Seq<char>>, probe: IdlProbe) -> Result<
    (Seq<char>, IdlFormat),
    IdlRejection,
> {
    if !probe.exists {
        Err(IdlRejection::Missing)
    } else {
        match idl_program(path, names) {
            None => Err(IdlRejection::UnknownProgram),
            Some(name) => match probe.content {
                Some(Ok(text)) => if anchor_idl_parses(text@) {
                    Ok((name, IdlFormat::Anchor))
                } else if codama_idl_parses(text@) {
                    Ok((name, IdlFormat::Codama))
                } else {
                    Err(IdlRejection::Invalid)
                },
                _ => Err(IdlRejection::Unreadable),
            },
        }
    }
}

/// Judges one IDL candidate from what probing it found: it must exist, be named
/// after a known program, be readable and be a valid Anchor or Codama IDL.
pub fn check_idl_candidate(path: &str, program_names: &Vec<String>, probe: &IdlProbe) -> (r: Result<
    IdlFile,
    IdlRejection,
>)
    ensures
        r matches Ok(f) ==> f.path@ == path@ && idl_verdict(
            path@,
            str_views(program_names@),
            *probe,
        ) == Ok::<(Seq<char>, IdlFormat), IdlRejection>((f.program_name@, f.format)),
        r matches Err(e) ==> idl_verdict(path@, str_views(program_names@), *probe) == Err::<
            (Seq<char>, IdlFormat),
            IdlRejection,
        >(e),
{
    if !probe.exists {
        return Err(IdlRejection::Missing);
    }
    let name = match idl_program_name(path, program_names) {
        Some(n) => n,
        None => return Err(IdlRejection::UnknownProgram),
    };
    match &probe.content {
        Some(Ok(text)) => match validate_idl(text.as_str()) {
            Ok(format) => Ok(
                IdlFile { path: string_from(&chars_of(path)), program_name: name, format },
            ),
            Err(_) => Err(IdlRejection::Invalid),
        },
        _ => Err(IdlRejection::Unreadable),
    }
}

/// An IDL file as plain values: path, program name and format.
pub open spec fn idl_file_view(f: IdlFile) -> (Seq<char>, Seq<char>, IdlFormat) {
    (f.path@, f.program_name@, f.format)
}

/// The valid IDL files among the first `n` candidates, in candidate order, each
/// with the candidate's path.
pub open spec fn judged_valid(
    cands: Seq<Seq<char>>,
    names: Seq<Seq<char>>,
    probes: Seq<IdlProbe>,
    n: int,
) -> Seq<(Seq<char>, Seq<char>, IdlFormat)>
    decreases n,
{
    if n <= 0 {
        Seq::empty()
    } else {
        judged_valid(cands, names, probes, n - 1) + match idl_verdict(
            cands[n - 1],
            names,
            probes[n - 1],
        ) {
            Ok((name, format)) => seq![(cands[n - 1], name, format)],
            Err(_) => Seq::empty(),
        }
    }
}

/// The rejected candidates among the first `n`, in order: each index with the
/// reason.
pub open spec fn judged_rejections(
    cands: Seq<Seq<char>>,
    names: Seq<Seq<char>>,
    probes: Seq<IdlProbe>,
    n: int,
) -> Seq<(int, IdlRejection)>
    decreases n,
{
    if n <= 0 {
        Seq::empty()
    } else {
        judged_rejections(cands, names, probes, n - 1) + match idl_verdict(
            cands[n - 1],
            names,
            probes[n - 1],
        ) {
            Ok(_) => Seq::empty(),
            Err(e) => seq![(n - 1, e)],
        }
    }
}

/// Judges every IDL candidate from what probing it found (`probes[i]` for
/// `candidates[i]`): the valid IDL files in candidate order, the number of
/// rejected candidates, and each rejected candidate's index with the reason.
pub fn judge_idl_candidates(
    candidates: &Vec<String>,
    program_names: &Vec<String>,
    probes: &Vec<IdlProbe>,
) -> (r: (Vec<IdlFile>, usize, Vec<(usize, IdlRejection)>))
    requires
        probes@.len() == candidates@.len(),
    ensures
        r.0@.map_values(|f: IdlFile| idl_file_view(f)) == judged_valid(
            str_views(candidates@),
            str_views(program_names@),
            probes@,
            candidates@.len() as int,
        ),
        r.2@.map_values(|e: (usize, IdlRejection)| (e.0 as int, e.1)) == judged_rejections(
            str_views(candidates@),
            str_views(program_names@),
            probes@,
            candidates@.len() as int,
        ),
        r.1 == r.2@.len(),
{
    let ghost cv = str_views(candidates@);
    let ghost nv = str_views(program_names@);
    let mut valid: Vec<IdlFile> = Vec::new();
    let mut rejected: Vec<(usize, IdlRejection)> = Vec::new();
    let mut i: usize = 0;
    while i < candidates.len()
        invariant
            i <= candidates@.len(),
            probes@.len() == candidates@.len(),
            cv == str_views(candidates@),
            nv == str_views(program_names@),
            valid@.map_values(|f: IdlFile| idl_file_view(f)) == judged_valid(cv, nv, probes@, i as int),
            rejected@.map_values(|e: (usize, IdlRejection)| (e.0 as int, e.1)) == judged_rejections(
                cv,
                nv,
                probes@,
                i as int,
            ),
            rejected@.len() <= i,
        decreases candidates@.len() - i,
    {
        assert(cv[i as int] == candidates@[i as int]@);
        let ghost before_v = valid@.map_values(|f: IdlFile| idl_file_view(f));
        let ghost before_r = rejected@.map_values(|e: (usize, IdlRejection)| (e.0 as int, e.1));
        match check_idl_candidate(candidates[i].as_str(), program_names, &probes[i]) {
            Ok(f) => {
                let ghost fv = idl_file_view(f);
                valid.push(f);
                assert(valid@.map_values(|f: IdlFile| idl_file_view(f)) =~= before_v.push(fv));
            },
            Err(e) => {
                rejected.push((i, e));
                assert(rejected@.map_values(|e: (usize, IdlRejection)| (e.0 as int, e.1))
                    =~= before_r.push((i as int, e)));
            },
        }
        i = i + 1;
    }
    let n = rejected.len();
    (valid, n, rejected)
}

/// What to ask the user once the IDL candidates are judged.
#[derive(Clone, Copy, Debug, PartialEq, Eq, Structural)]
pub enum IdlQuestion {
    /// Nothing to ask: every candidate is valid.
    Nothing,
    /// No candidate is valid: continue without IDL?
    ContinueWithoutIdl,
    /// Some candidates are valid: continue with those only?
    ContinueWithValidOnly,
}

/// The question to ask after judging the candidates.
pub fn idl_question(valid: usize, invalid: usize) -> (q: IdlQuestion)
    ensures
        invalid == 0 ==> q == IdlQuestion::Nothing,
        invalid > 0 && valid == 0 ==> q == IdlQuestion::ContinueWithoutIdl,
        invalid > 0 && valid > 0 ==> q == IdlQuestion::ContinueWithValidOnly,
{
    if invalid == 0 {
        IdlQuestion::Nothing
    } else if valid == 0 {
        IdlQuestion::ContinueWithoutIdl
    } else {
        IdlQuestion::ContinueWithValidOnly
    }
}

/// The user declined to go on with invalid IDL files.
#[derive(Clone, Copy, Debug, PartialEq, Eq, Structural)]
pub enum IdlAbort {
    Aborted,
}

/// The IDL files to send: all valid ones when nothing was invalid or the user
/// agreed to go on, and an abort when the user declined.
pub fn collect_idl_files(valid: Vec<IdlFile>, invalid: usize, agreed: bool) -> (r: Result<
    Vec<IdlFile>,
    IdlAbort,
>)
    ensures
        invalid == 0 ==> (r matches Ok(v) && v@ == valid@),
        invalid > 0 && agreed ==> (r matches Ok(v) && v@ == valid@),
        invalid > 0 && !agreed ==> r == Err::<Vec<IdlFile>, IdlAbort>(IdlAbort::Aborted),
{
    if invalid > 0 && !agreed {
        Err(IdlAbort::Aborted)
    } else {
        Ok(valid)
    }
}

} // verus!

//! Checking the debug files that program builds leave in `target/deploy`.
use vstd::prelude::*;
use crate::build::results::FailedDebugInfo;
use crate::paths::{join, join_spec, parent, parent_spec};
use crate::text::{chars_of, push_str, string_from};

verus! {

/// Whether a section called `name` is among the sections of the object file in
/// `data`, as the `object` crate reads it; where it cannot read the file, the text
/// of its error.
pub uninterp spec fn section_probe(data: Seq<u8>, name: Seq<char>) -> Result<bool, Seq<char>>;

/// Parses `data` with `object::File::parse` and looks up the section `name` with
/// `Object::section_by_name`: `Ok(found)` where the file parses, and the parse
/// error's text where it does not. What the parser accepts, and its messages, are
/// not stated.
#[verifier::external_body]
fn probe_section(data: &[u8], name: &str) -> (r: Result<bool, String>)
    ensures
        match section_probe(data@, name@) {
            Ok(b) => r matches Ok(x) && x == b,
            Err(m) => r matches Err(t) && t@ == m,
        },
{
    match object::File::parse(data) {
        Ok(obj) => Ok(object::Object::section_by_name(&obj, name).is_some()),
        Err(e) => Err(e.to_string()),
    }
}

/// The section that holds DWARF debug information.
pub open spec fn debug_info_section() -> Seq<char> {
    ".debug_info"@
}

/// Why a debug file could not be checked.
#[derive(Debug, PartialEq, Eq)]
pub enum DebugCheckError {
    /// The file is not an object file that could be read; the reader's message.
    Unreadable(String),
}

/// Checks the contents of a `.debug` file: whether it carries DWARF debug
/// information (a `.debug_info` section).
pub fn check_debug_file(data: &[u8]) -> (r: Result<bool, DebugCheckError>)
    ensures
        match section_probe(data@, debug_info_section()) {
            Ok(b) => r matches Ok(x) && x == b,
            Err(m) => r matches Err(DebugCheckError::Unreadable(t)) && t@ == m,
        },
{
    let name = ".debug_info";
    proof {
        reveal_strlit(".debug_info");
    }
    assert(name@ == debug_info_section());
    match probe_section(data, name) {
        Ok(b) => Ok(b),
        Err(m) => Err(DebugCheckError::Unreadable(m)),
    }
}

/// The error message for a program whose debug check failed: whether its file is
/// missing or was found and failed the check.
pub open spec fn failed_debug_message(path: Seq<char>, exists: bool) -> Seq<char> {
    if !exists {
        ".debug file not found: "@ + path
    } else {
        "debug check failed: "@ + path
    }
}

/// Converts failed debug checks to error messages for the summary; `exists[i]`
/// tells whether the debug file of entry `i` exists.
pub fn collect_failed_debug_infos(failed_raw: &Vec<(String, String)>, exists: &Vec<bool>) -> (r: Vec<
    FailedDebugInfo,
>)
    requires
        exists@.len() == failed_raw@.len(),
    ensures
        r@.len() == failed_raw@.len(),
        forall|i: int|
            0 <= i < r@.len() ==> (#[trigger] r@[i]).name@ == failed_raw@[i].0@ && r@[i].path@
                == failed_raw@[i].1@ && r@[i].error@ == failed_debug_message(
                failed_raw@[i].1@,
                exists@[i],
            ),
{
    let mut out: Vec<FailedDebugInfo> = Vec::new();
    let mut i: usize = 0;
    while i < failed_raw.len()
        invariant
            i <= failed_raw@.len(),
            exists@.len() == failed_raw@.len(),
            out@.len() == i,
            forall|k: int|
                0 <= k < i ==> (#[trigger] out@[k]).name@ == failed_raw@[k].0@ && out@[k].path@
                    == failed_raw@[k].1@ && out@[k].error@ == failed_debug_message(
                    failed_raw@[k].1@,
                    exists@[k],
                ),
        decreases failed_raw@.len() - i,
    {
        let (name, path) = &failed_raw[i];
        let mut msg: Vec<char> = Vec::new();
        if !exists[i] {
            push_str(&mut msg, ".debug file not found: ");
        } else {
            push_str(&mut msg, "debug check failed: ");
        }
        push_str(&mut msg, path.as_str());
        out.push(
            FailedDebugInfo {
                name: string_from(&chars_of(name.as_str())),
                path: string_from(&chars_of(path.as_str())),
                error: string_from(&msg),
            },
        );
        i = i + 1;
    }
    out
}

/// The name of a program's debug file: Rust writes hyphens in output file names as
/// underscores.
pub open spec fn debug_file_name_spec(program: Seq<char>) -> Seq<char> {
    program.map_values(|c: char| if c == '-' { '_' } else { c }) + ".debug"@
}

/// The file name of a program's debug file.
pub fn debug_file_name(program: &str) -> (r: String)
    ensures
        r@ == debug_file_name_spec(program@),
{
    let c = chars_of(program);
    let mut out: Vec<char> = Vec::new();
    let mut i: usize = 0;
    while i < c.len()
        invariant
            i <= c@.len(),
            c@ == program@,
            out@ == c@.take(i as int).map_values(|c: char| if c == '-' { '_' } else { c }),
        decreases c@.len() - i,
    {
        out.push(if c[i] == '-' { '_' } else { c[i] });
        i = i + 1;
        assert(out@ =~= c@.take(i as int).map_values(|c: char| if c == '-' { '_' } else { c }));
    }
    assert(c@.take(c@.len() as int) =~= c@);
    push_str(&mut out, ".debug");
    string_from(&out)
}

/// The directories from `dir` up to the top, as `Path::ancestors` walks them.
pub open spec fn ancestors_spec(dir: Seq<char>, fuel: nat) -> Seq<Seq<char>>
    decreases fuel,
{
    if fuel == 0 {
        seq![dir]
    } else {
        match parent_spec(dir) {
            Some(p) => seq![dir] + ancestors_spec(p, (fuel - 1) as nat),
            None => seq![dir],
        }
    }
}

/// The directories from `dir` up to the top: `dir`, its parent, and so on while
/// there is a parent, for at most as many steps as `dir` has characters plus one
/// (more than a path has components).
pub fn ancestors(dir: &str) -> (r: Vec<String>)
    ensures
        str_views(r@) == ancestors_spec(dir@, ancestor_fuel(dir@.len())),
{
    let c = chars_of(dir);
    let fuel: usize = if c.len() < usize::MAX {
        c.len() + 1
    } else {
        c.len()
    };
    let mut out: Vec<String> = Vec::new();
    let mut cur = string_from(&c);
    let mut left: usize = fuel;
    loop
        invariant
            fuel == ancestor_fuel(dir@.len()),
            left <= fuel,
            str_views(out@) + ancestors_spec(cur@, left as nat) == ancestors_spec(
                dir@,
                fuel as nat,
            ),
        decreases left,
    {
        let ghost before = str_views(out@);
        let ghost cv = cur@;
        let next = if left == 0 {
            None
        } else {
            parent(cur.as_str())
        };
        let copy = string_from(&chars_of(cur.as_str()));
        out.push(copy);
        assert(str_views(out@) =~= before.push(cv));
        match next {
            Some(p) => {
                assert(ancestors_spec(cv, left as nat) == seq![cv] + ancestors_spec(
                    p@,
                    (left - 1) as nat,
                ));
                assert(before.push(cv) + ancestors_spec(p@, (left - 1) as nat) =~= before + (
                seq![cv] + ancestors_spec(p@, (left - 1) as nat)));
                cur = p;
                left = left - 1;
            },
            None => {
                assert(ancestors_spec(cv, left as nat) == seq![cv]);
                assert(before.push(cv) =~= before + seq![cv]);
                return out;
            },
        }
    }
}

/// How many steps up `ancestors` goes at most from a path of `len` characters.
pub open spec fn ancestor_fuel(len: nat) -> nat {
    if len < usize::MAX {
        len + 1
    } else {
        len
    }
}

/// The views of a sequence of strings.
pub open spec fn str_views(v: Seq<String>) -> Seq<Seq<char>> {
    v.map_values(|x: String| x@)
}


/// The directory that a program's build writes to, under a workspace root.
pub open spec fn deploy_dir_spec(root: Seq<char>) -> Seq<char> {
    join_spec(root, "target/deploy"@)
}

/// The directories to probe for a `target/deploy` directory, one per ancestor of
/// the directory of `manifest_path`, nearest first.
pub fn deploy_dir_probes(manifest_dir: &str) -> (r: Vec<String>)
    ensures
        str_views(r@) == ancestors_spec(manifest_dir@, ancestor_fuel(manifest_dir@.len())).map_values(
            |a: Seq<char>| deploy_dir_spec(a),
        ),
{
    let anc = ancestors(manifest_dir);
    let ghost av = ancestors_spec(manifest_dir@, ancestor_fuel(manifest_dir@.len()));
    let mut out: Vec<String> = Vec::new();
    let mut i: usize = 0;
    while i < anc.len()
        invariant
            i <= anc@.len(),
            str_views(anc@) == av,
            str_views(out@) == av.take(i as int).map_values(|a: Seq<char>| deploy_dir_spec(a)),
        decreases anc@.len() - i,
    {
        let d = join(anc[i].as_str(), "target/deploy");
        let ghost before = str_views(out@);
        let ghost dv = d@;
        assert(av[i as int] == anc@[i as int]@);
        out.push(d);
        assert(str_views(out@) =~= before.push(dv));
        assert(av.take(i + 1).map_values(|a: Seq<char>| deploy_dir_spec(a)) =~= av.take(
            i as int,
        ).map_values(|a: Seq<char>| deploy_dir_spec(a)).push(deploy_dir_spec(av[i as int])));
        i = i + 1;
    }
    assert(av.take(av.len() as int) =~= av);
    out
}

/// The first index at which `found` holds, from `i` on.
pub open spec fn first_found(found: Seq<bool>, i: int) -> Option<int>
    decreases found.len() - i,
{
    if i < 0 || i >= found.len() {
        None
    } else if found[i] {
        Some(i)
    } else {
        first_found(found, i + 1)
    }
}

/// The workspace root of a program: the nearest ancestor of its manifest's
/// directory that holds `target/deploy` (`found[i]` tells whether ancestor `i`
/// does), or else the directory's parent, or the directory itself.
pub open spec fn workspace_root_spec(manifest_dir: Seq<char>, found: Seq<bool>) -> Seq<char> {
    let anc = ancestors_spec(manifest_dir, ancestor_fuel(manifest_dir.len()));
    match first_found(found, 0) {
        Some(i) => if i < anc.len() {
            anc[i]
        } else {
            manifest_dir
        },
        None => match parent_spec(manifest_dir) {
            Some(p) => p,
            None => manifest_dir,
        },
    }
}

/// The path of a program's debug file: `target/deploy/<name>.debug` under its
/// workspace root.
pub open spec fn debug_path_spec(manifest_dir: Seq<char>, found: Seq<bool>, program: Seq<char>) -> Seq<
    char,
> {
    join_spec(
        deploy_dir_spec(workspace_root_spec(manifest_dir, found)),
        debug_file_name_spec(program),
    )
}

/// The workspace root of a program, given which of the probes from
/// `deploy_dir_probes` found a `target/deploy` directory.
pub fn workspace_root(manifest_dir: &str, found: &Vec<bool>) -> (r: String)
    ensures
        r@ == workspace_root_spec(manifest_dir@, found@),
{
    let anc = ancestors(manifest_dir);
    let mut i: usize = 0;
    while i < found.len()
        invariant
            i <= found@.len(),
            str_views(anc@) == ancestors_spec(manifest_dir@, ancestor_fuel(manifest_dir@.len())),
            first_found(found@, 0) == first_found(found@, i as int),
        decreases found@.len() - i,
    {
        if found[i] {
            if i < anc.len() {
                assert(str_views(anc@)[i as int] == anc@[i as int]@);
                return string_from(&chars_of(anc[i].as_str()));
            } else {
                return string_from(&chars_of(manifest_dir));
            }
        }
        i = i + 1;
    }
    match parent(manifest_dir) {
        Some(p) => p,
        None => string_from(&chars_of(manifest_dir)),
    }
}

/// The path of a program's debug file, given which of the probes from
/// `deploy_dir_probes` found a `target/deploy` directory.
pub fn debug_path(manifest_dir: &str, found: &Vec<bool>, program: &str) -> (r: String)
    ensures
        r@ == debug_path_spec(manifest_dir@, found@, program@),
{
    let root = workspace_root(manifest_dir, found);
    let deploy = join(root.as_str(), "target/deploy");
    let file = debug_file_name(program);
    join(deploy.as_str(), file.as_str())
}


/// What checking one program's debug file found.
#[derive(Debug)]
pub enum DebugOutcome {
    /// The file carries DWARF debug information.
    Valid,
    /// The file has no `.debug_info` section.
    NoDwarf,
    /// The file could not be read or parsed; the message says why.
    Unreadable(String),
    /// There is no such file.
    Missing,
}

/// What checking one debug file finds, from what reading it gave: `None` where
/// the file does not exist, the read error where it could not be read, else the
/// check of its bytes for DWARF debug information (with the reader's message where
/// the bytes are not an object file).
pub fn debug_outcome(read: Option<Result<Vec<u8>, String>>) -> (o: DebugOutcome)
    ensures
        match read {
            None => o is Missing,
            Some(Err(e)) => o matches DebugOutcome::Unreadable(m) && m@ == e@,
            Some(Ok(b)) => match section_probe(b@, debug_info_section()) {
                Ok(true) => o is Valid,
                Ok(false) => o is NoDwarf,
                Err(t) => o matches DebugOutcome::Unreadable(m) && m@ == t,
            },
        },
{
    match read {
        None => DebugOutcome::Missing,
        Some(Err(e)) => DebugOutcome::Unreadable(e),
        Some(Ok(b)) => match check_debug_file(b.as_slice()) {
            Ok(true) => DebugOutcome::Valid,
            Ok(false) => DebugOutcome::NoDwarf,
            Err(DebugCheckError::Unreadable(m)) => DebugOutcome::Unreadable(m),
        },
    }
}

/// One program's debug file and what checking it found.
#[derive(Debug)]
pub struct DebugEntry {
    pub name: String,
    pub path: String,
    pub outcome: DebugOutcome,
}

/// Where a report line goes.
#[derive(Clone, Copy, Debug, PartialEq, Eq, Structural)]
pub enum Stream {
    Out,
    Error,
}

/// The result of checking all debug files: the valid files, the programs that are
/// not ready (name and debug path), and the report, line by line.
#[derive(Debug)]
pub struct DebugReport {
    pub valid: Vec<String>,
    pub failed: Vec<(String, String)>,
    pub lines: Vec<(Stream, String)>,
}

/// The report line for one program's check, if one is printed.
pub open spec fn entry_line(e: DebugEntry, silent: bool) -> Seq<(Stream, Seq<char>)> {
    match e.outcome {
        DebugOutcome::Valid => if silent {
            Seq::empty()
        } else {
            seq![(Stream::Out, "[OK] "@ + e.path@)]
        },
        DebugOutcome::NoDwarf => seq![(Stream::Error, "[FAIL] "@ + e.path@ + ": insufficient DWARF info"@)],
        DebugOutcome::Unreadable(m) => seq![(Stream::Error, "[ERROR] "@ + e.path@ + ": "@ + m@)],
        DebugOutcome::Missing => seq![(Stream::Error, "[ERROR] .debug file not found: "@ + e.path@)],
    }
}

/// The valid debug files among `entries`.
pub open spec fn valid_paths(entries: Seq<DebugEntry>) -> Seq<Seq<char>>
    decreases entries.len(),
{
    if entries.len() == 0 {
        Seq::empty()
    } else {
        valid_paths(entries.drop_last()) + if entries.last().outcome is Valid {
            seq![entries.last().path@]
        } else {
            Seq::empty()
        }
    }
}

/// The programs among `entries` that are not ready: name and debug path.
pub open spec fn failed_entries(entries: Seq<DebugEntry>) -> Seq<(Seq<char>, Seq<char>)>
    decreases entries.len(),
{
    if entries.len() == 0 {
        Seq::empty()
    } else {
        failed_entries(entries.drop_last()) + if entries.last().outcome is Valid {
            Seq::empty()
        } else {
            seq![(entries.last().name@, entries.last().path@)]
        }
    }
}

/// The per-program report lines.
pub open spec fn entry_lines(entries: Seq<DebugEntry>, silent: bool) -> Seq<(Stream, Seq<char>)>
    decreases entries.len(),
{
    if entries.len() == 0 {
        Seq::empty()
    } else {
        entry_lines(entries.drop_last(), silent) + entry_line(entries.last(), silent)
    }
}

/// The summary printed after the per-program lines, unless silent.
pub open spec fn summary_lines(valid: Seq<Seq<char>>, failed: Seq<(Seq<char>, Seq<char>)>) -> Seq<
    (Stream, Seq<char>),
> {
    seq![(Stream::Out, "\nSummary of .debug files for Seer:"@)] + (if valid.len() > 0 {
        seq![(Stream::Out, "Ready for Seer:"@)] + valid.map_values(
            |p: Seq<char>| (Stream::Out, "- "@ + p),
        )
    } else {
        seq![(Stream::Out, "No valid .debug files found."@)]
    }) + (if failed.len() > 0 {
        seq![(Stream::Out, "\nNot ready for Seer:"@)] + failed.map_values(
            |f: (Seq<char>, Seq<char>)| (Stream::Out, "- "@ + f.0 + ": "@ + f.1),
        )
    } else {
        Seq::empty()
    })
}

/// The whole report.
pub open spec fn report_lines(entries: Seq<DebugEntry>, silent: bool) -> Seq<(Stream, Seq<char>)> {
    entry_lines(entries, silent) + if silent {
        Seq::empty()
    } else {
        summary_lines(valid_paths(entries), failed_entries(entries))
    }
}

/// The views of report lines.
pub open spec fn report_view(v: Seq<(Stream, String)>) -> Seq<(Stream, Seq<char>)> {
    v.map_values(|l: (Stream, String)| (l.0, l.1@))
}

/// The views of (name, path) pairs.
pub open spec fn pairs_view(v: Seq<(String, String)>) -> Seq<(Seq<char>, Seq<char>)> {
    v.map_values(|l: (String, String)| (l.0@, l.1@))
}

fn line1(a: &str) -> (r: String)
    ensures
        r@ == a@,
{
    string_from(&chars_of(a))
}

fn line2(a: &str, b: &str) -> (r: String)
    ensures
        r@ == a@ + b@,
{
    let mut out: Vec<char> = Vec::new();
    push_str(&mut out, a);
    push_str(&mut out, b);
    string_from(&out)
}

fn line3(a: &str, b: &str, c: &str) -> (r: String)
    ensures
        r@ == a@ + b@ + c@,
{
    let mut out: Vec<char> = Vec::new();
    push_str(&mut out, a);
    push_str(&mut out, b);
    push_str(&mut out, c);
    string_from(&out)
}

fn line_of(a: &str, b: &str, c: &str, d: &str) -> (r: String)
    ensures
        r@ == a@ + b@ + c@ + d@,
{
    let mut out: Vec<char> = Vec::new();
    push_str(&mut out, a);
    push_str(&mut out, b);
    push_str(&mut out, c);
    push_str(&mut out, d);
    assert(out@ =~= a@ + b@ + c@ + d@);
    string_from(&out)
}

/// Sorts the checked debug files into valid ones and programs that are not ready,
/// and writes the report: one line per program (`[OK]` lines only when not
/// silent), then, when not silent, a summary of both lists.
pub fn check_all_debug_files(entries: &Vec<DebugEntry>, silent: bool) -> (r: DebugReport)
    ensures
        str_views(r.valid@) == valid_paths(entries@),
        pairs_view(r.failed@) == failed_entries(entries@),
        report_view(r.lines@) == report_lines(entries@, silent),
{
    let mut valid: Vec<String> = Vec::new();
    let mut failed: Vec<(String, String)> = Vec::new();
    let mut lines: Vec<(Stream, String)> = Vec::new();
    let mut i: usize = 0;
    while i < entries.len()
        invariant
            i <= entries@.len(),
            str_views(valid@) == valid_paths(entries@.take(i as int)),
            pairs_view(failed@) == failed_entries(entries@.take(i as int)),
            report_view(lines@) == entry_lines(entries@.take(i as int), silent),
        decreases entries@.len() - i,
    {
        assert(entries@.take(i + 1).drop_last() =~= entries@.take(i as int));
        assert(entries@.take(i + 1).last() == entries@[i as int]);
        let e = &entries[i];
        let ghost v0 = str_views(valid@);
        let ghost f0 = pairs_view(failed@);
        let ghost l0 = report_view(lines@);
        let path = e.path.as_str();
        match &e.outcome {
            DebugOutcome::Valid => {
                let p = string_from(&chars_of(path));
                let ghost pv = p@;
                valid.push(p);
                assert(str_views(valid@) =~= v0.push(pv));
                if !silent {
                    let l = line2("[OK] ", path);
                    let ghost lv = l@;
                    lines.push((Stream::Out, l));
                    assert(report_view(lines@) =~= l0.push((Stream::Out, lv)));
                    assert(report_view(lines@) =~= l0 + entry_line(entries@[i as int], silent));
                } else {
                    assert(report_view(lines@) =~= l0 + Seq::<(Stream, Seq<char>)>::empty());
                }
                assert(pairs_view(failed@) =~= f0 + Seq::<(Seq<char>, Seq<char>)>::empty());
            },
            _ => {
                let n = string_from(&chars_of(e.name.as_str()));
                let p = string_from(&chars_of(path));
                let ghost nv = n@;
                let ghost pv = p@;
                failed.push((n, p));
                assert(pairs_view(failed@) =~= f0.push((nv, pv)));
                let l = match &e.outcome {
                    DebugOutcome::NoDwarf => line3("[FAIL] ", path, ": insufficient DWARF info"),
                    DebugOutcome::Unreadable(m) => line_of("[ERROR] ", path, ": ", m.as_str()),
                    _ => line2("[ERROR] .debug file not found: ", path),
                };
                let ghost lv = l@;
                lines.push((Stream::Error, l));
                assert(report_view(lines@) =~= l0.push((Stream::Error, lv)));
                assert(report_view(lines@) =~= l0 + entry_line(entries@[i as int], silent));
                assert(str_views(valid@) =~= v0 + Seq::<Seq<char>>::empty());
            },
        }
        i = i + 1;
    }
    assert(entries@.take(entries@.len() as int) =~= entries@);
    if !silent {
        let ghost head = report_view(lines@);
        let s1 = line1("\nSummary of .debug files for Seer:");
        lines.push((Stream::Out, s1));
        assert(report_view(lines@) =~= head.push((Stream::Out, "\nSummary of .debug files for Seer:"@)));
        if valid.len() > 0 {
            let s2 = line1("Ready for Seer:");
            lines.push((Stream::Out, s2));
            assert(report_view(lines@) =~= head + seq![(Stream::Out, "\nSummary of .debug files for Seer:"@), (Stream::Out, "Ready for Seer:"@)]
                + str_views(valid@).take(0).map_values(|p: Seq<char>| (Stream::Out, "- "@ + p)));
            let mut k: usize = 0;
            while k < valid.len()
                invariant
                    k <= valid@.len(),
                    report_view(lines@) == head + seq![(Stream::Out, "\nSummary of .debug files for Seer:"@), (Stream::Out, "Ready for Seer:"@)]
                        + str_views(valid@).take(k as int).map_values(|p: Seq<char>| (Stream::Out, "- "@ + p)),
                decreases valid@.len() - k,
            {
                let ghost before = report_view(lines@);
                let l = line2("- ", valid[k].as_str());
                let ghost lv = l@;
                lines.push((Stream::Out, l));
                assert(report_view(lines@) =~= before.push((Stream::Out, lv)));
                assert(str_views(valid@).take(k + 1).map_values(|p: Seq<char>| (Stream::Out, "- "@ + p))
                    =~= str_views(valid@).take(k as int).map_values(|p: Seq<char>| (Stream::Out, "- "@ + p)).push((Stream::Out, "- "@ + valid@[k as int]@)));
                k = k + 1;
            }
            assert(str_views(valid@).take(valid@.len() as int) =~= str_views(valid@));
        } else {
            lines.push((Stream::Out, line1("No valid .debug files found.")));
        }
        let ghost mid = report_view(lines@);
        if failed.len() > 0 {
            let s3 = line1("\nNot ready for Seer:");
            lines.push((Stream::Out, s3));
            assert(report_view(lines@) =~= mid + seq![(Stream::Out, "\nNot ready for Seer:"@)]
                + pairs_view(failed@).take(0).map_values(|f: (Seq<char>, Seq<char>)| (Stream::Out, "- "@ + f.0 + ": "@ + f.1)));
            let mut k: usize = 0;
            while k < failed.len()
                invariant
                    k <= failed@.len(),
                    report_view(lines@) == mid + seq![(Stream::Out, "\nNot ready for Seer:"@)]
                        + pairs_view(failed@).take(k as int).map_values(|f: (Seq<char>, Seq<char>)| (Stream::Out, "- "@ + f.0 + ": "@ + f.1)),
                decreases failed@.len() - k,
            {
                let ghost before = report_view(lines@);
                let l = line_of("- ", failed[k].0.as_str(), ": ", failed[k].1.as_str());
                let ghost lv = l@;
                lines.push((Stream::Out, l));
                assert(report_view(lines@) =~= before.push((Stream::Out, lv)));
                assert(pairs_view(failed@).take(k + 1).map_values(|f: (Seq<char>, Seq<char>)| (Stream::Out, "- "@ + f.0 + ": "@ + f.1))
                    =~= pairs_view(failed@).take(k as int).map_values(|f: (Seq<char>, Seq<char>)| (Stream::Out, "- "@ + f.0 + ": "@ + f.1)).push((Stream::Out, "- "@ + failed@[k as int].0@ + ": "@ + failed@[k as int].1@)));
                k = k + 1;
            }
            assert(pairs_view(failed@).take(failed@.len() as int) =~= pairs_view(failed@));
        }
        assert(report_view(lines@) =~= report_lines(entries@, silent));
    } else {
        assert(report_view(lines@) =~= report_lines(entries@, silent));
    }
    DebugReport { valid, failed, lines }
}

} // verus!

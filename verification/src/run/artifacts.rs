//! Program build artifacts: grouping the files of the artifacts directory into
//! programs, and recording the files sent to Seer.
use vstd::prelude::*;
use crate::paths::{extension, extension_spec, file_stem, file_stem_spec, join, join_spec, parent, parent_spec};
use crate::text::{chars_of, ends_with, ends_with_chars, eq_chars, eq_str, push_chars, push_str, slice_chars, string_from};

verus! {

/// The three files that make up a program's build artifacts.
#[derive(Debug)]
pub struct ProgramTarget {
    pub so_path: String,
    pub debug_path: String,
    pub json_path: String,
}

/// The kind of an artifact file.
#[derive(Clone, Copy, Debug, PartialEq, Eq, Structural)]
pub enum ArtifactKind {
    /// The program binary, `<name>.so`.
    So,
    /// The debug file, `<name>.debug`.
    Debug,
    /// The program keypair, `<name>-keypair.json`.
    Keypair,
}

/// The kind and program name of an artifact file, if it is one.
pub open spec fn classify_spec(path: Seq<char>) -> Option<(ArtifactKind, Seq<char>)> {
    match (extension_spec(path), file_stem_spec(path)) {
        (Some(ext), Some(stem)) => if ext == "so"@ {
            Some((ArtifactKind::So, stem))
        } else if ext == "debug"@ {
            Some((ArtifactKind::Debug, stem))
        } else if ext == "json"@ && ends_with(stem, "-keypair"@) {
            Some((ArtifactKind::Keypair, stem.take(stem.len() - 8)))
        } else {
            None
        },
        _ => None,
    }
}

/// Tells the kind and program name of an artifact file from its name: `.so`,
/// `.debug`, or `-keypair.json`.
pub fn classify_artifact(path: &str) -> (r: Option<(ArtifactKind, String)>)
    ensures
        r matches Some((k, n)) ==> classify_spec(path@) == Some((k, n@)),
        r is None ==> classify_spec(path@) is None,
{
    let ext = match extension(path) {
        Some(e) => e,
        None => return None,
    };
    let stem = match file_stem(path) {
        Some(s) => s,
        None => return None,
    };
    let e = chars_of(ext.as_str());
    let s = chars_of(stem.as_str());
    if eq_str(&e, "so") {
        Some((ArtifactKind::So, stem))
    } else if eq_str(&e, "debug") {
        Some((ArtifactKind::Debug, stem))
    } else if eq_str(&e, "json") {
        let suffix = chars_of("-keypair");
        proof {
            reveal_strlit("-keypair");
        }
        if ends_with_chars(&s, &suffix) {
            let n = slice_chars(&s, 0, s.len() - 8);
            assert(n@ =~= s@.take(s@.len() - 8));
            Some((ArtifactKind::Keypair, string_from(&n)))
        } else {
            None
        }
    } else {
        None
    }
}

/// The last of `files` of the given kind for program `name`.
pub open spec fn last_of(files: Seq<Seq<char>>, kind: ArtifactKind, name: Seq<char>) -> Option<
    Seq<char>,
>
    decreases files.len(),
{
    if files.len() == 0 {
        None
    } else if classify_spec(files.last()) == Some((kind, name)) {
        Some(files.last())
    } else {
        last_of(files.drop_last(), kind, name)
    }
}

/// The program names of `files`, in the order in which they first appear.
pub open spec fn names_of(files: Seq<Seq<char>>) -> Seq<Seq<char>>
    decreases files.len(),
{
    if files.len() == 0 {
        Seq::empty()
    } else {
        let prev = names_of(files.drop_last());
        match classify_spec(files.last()) {
            Some((k, n)) => if prev.contains(n) {
                prev
            } else {
                prev.push(n)
            },
            None => prev,
        }
    }
}

/// The views of a sequence of strings.
pub open spec fn str_views(v: Seq<String>) -> Seq<Seq<char>> {
    v.map_values(|x: String| x@)
}

fn last_of_exec(files: &Vec<String>, kind: ArtifactKind, name: &Vec<char>) -> (r: Option<String>)
    ensures
        r matches Some(p) ==> last_of(str_views(files@), kind, name@) == Some(p@),
        r is None ==> last_of(str_views(files@), kind, name@) is None,
{
    let ghost fv = str_views(files@);
    let mut j: usize = files.len();
    assert(fv.take(fv.len() as int) =~= fv);
    while j > 0
        invariant
            j <= files@.len(),
            fv == str_views(files@),
            last_of(fv, kind, name@) == last_of(fv.take(j as int), kind, name@),
        decreases j,
    {
        assert(fv.take(j as int).drop_last() =~= fv.take(j - 1));
        assert(fv.take(j as int).last() == files@[j - 1]@);
        match classify_artifact(files[j - 1].as_str()) {
            Some((k, n)) => {
                let nv = chars_of(n.as_str());
                if k == kind && eq_chars(&nv, name) {
                    return Some(string_from(&chars_of(files[j - 1].as_str())));
                }
            },
            None => {},
        }
        j = j - 1;
    }
    None
}

/// A program name and its artifact files, before its keypair is checked.
#[derive(Debug)]
pub struct TargetCandidate {
    pub name: String,
    pub target: ProgramTarget,
}

/// The warning for a program skipped for a missing file.
pub open spec fn missing_warning(name: Seq<char>, file: Seq<char>) -> Seq<char> {
    "[seer][warn] Skipping program '"@ + name + "' due to missing "@ + file + " file."@
}

/// What grouping the files found for one program: its target, or the warning for
/// the first missing file (`.so`, then `.debug`, then `-keypair.json`).
pub open spec fn group_verdict(files: Seq<Seq<char>>, name: Seq<char>) -> Result<
    (Seq<char>, Seq<char>, Seq<char>),
    Seq<char>,
> {
    match last_of(files, ArtifactKind::So, name) {
        None => Err(missing_warning(name, name + ".so"@)),
        Some(so) => match last_of(files, ArtifactKind::Debug, name) {
            None => Err(missing_warning(name, name + ".debug"@)),
            Some(dbg) => match last_of(files, ArtifactKind::Keypair, name) {
                None => Err(missing_warning(name, name + "-keypair.json"@)),
                Some(json) => Ok((so, dbg, json)),
            },
        },
    }
}

/// The programs among `names` whose three files are present, with their files.
pub open spec fn complete_targets(files: Seq<Seq<char>>, names: Seq<Seq<char>>) -> Seq<
    (Seq<char>, (Seq<char>, Seq<char>, Seq<char>)),
>
    decreases names.len(),
{
    if names.len() == 0 {
        Seq::empty()
    } else {
        complete_targets(files, names.drop_last()) + match group_verdict(files, names.last()) {
            Ok(t) => seq![(names.last(), t)],
            Err(_) => Seq::empty(),
        }
    }
}

/// The warnings for the programs among `names` that miss a file.
pub open spec fn group_warnings(files: Seq<Seq<char>>, names: Seq<Seq<char>>) -> Seq<Seq<char>>
    decreases names.len(),
{
    if names.len() == 0 {
        Seq::empty()
    } else {
        group_warnings(files, names.drop_last()) + match group_verdict(files, names.last()) {
            Ok(_) => Seq::empty(),
            Err(w) => seq![w],
        }
    }
}

/// The view of a target candidate.
pub open spec fn candidate_view(c: TargetCandidate) -> (Seq<char>, (Seq<char>, Seq<char>, Seq<char>)) {
    (c.name@, (c.target.so_path@, c.target.debug_path@, c.target.json_path@))
}

fn missing_warning_exec(name: &Vec<char>, suffix: &str) -> (r: String)
    ensures
        r@ == missing_warning(name@, name@ + suffix@),
{
    let mut out: Vec<char> = Vec::new();
    push_str(&mut out, "[seer][warn] Skipping program '");
    push_chars(&mut out, name);
    push_str(&mut out, "' due to missing ");
    push_chars(&mut out, name);
    push_str(&mut out, suffix);
    push_str(&mut out, " file.");
    assert(out@ =~= missing_warning(name@, name@ + suffix@));
    string_from(&out)
}

fn names_exec(files: &Vec<String>) -> (r: Vec<Vec<char>>)
    ensures
        crate::text::views(r@) == names_of(str_views(files@)),
{
    let ghost fv = str_views(files@);
    let mut names: Vec<Vec<char>> = Vec::new();
    let mut i: usize = 0;
    while i < files.len()
        invariant
            i <= files@.len(),
            fv == str_views(files@),
            crate::text::views(names@) == names_of(fv.take(i as int)),
        decreases files@.len() - i,
    {
        assert(fv.take(i + 1).drop_last() =~= fv.take(i as int));
        assert(fv.take(i + 1).last() == files@[i as int]@);
        match classify_artifact(files[i].as_str()) {
            Some((_, n)) => {
                let nv = chars_of(n.as_str());
                let mut seen = false;
                let mut k: usize = 0;
                while k < names.len()
                    invariant
                        k <= names@.len(),
                        seen == exists|m: int| 0 <= m < k && crate::text::views(names@)[m] == nv@,
                    decreases names@.len() - k,
                {
                    assert(crate::text::views(names@)[k as int] == names@[k as int]@);
                    if eq_chars(&names[k], &nv) {
                        seen = true;
                    }
                    k = k + 1;
                }
                let ghost before = crate::text::views(names@);
                if !seen {
                    let ghost v = nv@;
                    names.push(nv);
                    assert(crate::text::views(names@) =~= before.push(v));
                } else {
                    assert(before.contains(nv@));
                }
            },
            None => {},
        }
        i = i + 1;
    }
    assert(fv.take(fv.len() as int) =~= fv);
    names
}

/// Groups the files of the artifacts directory by program, in the order in which
/// programs first appear: a program needs its `.so`, `.debug` and `-keypair.json`
/// files (the last of each, where several have its name), and a program that
/// misses one is skipped with a warning.
pub fn group_targets(files: &Vec<String>) -> (r: (Vec<TargetCandidate>, Vec<String>))
    ensures
        r.0@.map_values(|c: TargetCandidate| candidate_view(c)) == complete_targets(
            str_views(files@),
            names_of(str_views(files@)),
        ),
        str_views(r.1@) == group_warnings(str_views(files@), names_of(str_views(files@))),
{
    let names = names_exec(files);
    let ghost fv = str_views(files@);
    let ghost nv = names_of(fv);
    let mut out: Vec<TargetCandidate> = Vec::new();
    let mut warnings: Vec<String> = Vec::new();
    let mut i: usize = 0;
    while i < names.len()
        invariant
            i <= names@.len(),
            fv == str_views(files@),
            crate::text::views(names@) == nv,
            out@.map_values(|c: TargetCandidate| candidate_view(c)) == complete_targets(
                fv,
                nv.take(i as int),
            ),
            str_views(warnings@) == group_warnings(fv, nv.take(i as int)),
        decreases names@.len() - i,
    {
        let name = &names[i];
        assert(nv.take(i + 1).drop_last() =~= nv.take(i as int));
        assert(nv.take(i + 1).last() == name@);
        let ghost c0 = out@.map_values(|c: TargetCandidate| candidate_view(c));
        let ghost w0 = str_views(warnings@);
        let so = last_of_exec(files, ArtifactKind::So, name);
        let dbg = last_of_exec(files, ArtifactKind::Debug, name);
        let json = last_of_exec(files, ArtifactKind::Keypair, name);
        let warning: Option<String> = match (&so, &dbg, &json) {
            (None, _, _) => Some(missing_warning_exec(name, ".so")),
            (Some(_), None, _) => Some(missing_warning_exec(name, ".debug")),
            (Some(_), Some(_), None) => Some(missing_warning_exec(name, "-keypair.json")),
            _ => None,
        };
        match warning {
            Some(w) => {
                let ghost wv = w@;
                warnings.push(w);
                assert(str_views(warnings@) =~= w0.push(wv));
                assert(out@.map_values(|c: TargetCandidate| candidate_view(c)) =~= c0 + Seq::<
                    (Seq<char>, (Seq<char>, Seq<char>, Seq<char>)),
                >::empty());
            },
            None => {
                match (so, dbg, json) {
                    (Some(s), Some(d), Some(j)) => {
                        let cand = TargetCandidate {
                            name: string_from(name),
                            target: ProgramTarget { so_path: s, debug_path: d, json_path: j },
                        };
                        let ghost cv = candidate_view(cand);
                        out.push(cand);
                        assert(out@.map_values(|c: TargetCandidate| candidate_view(c)) =~= c0.push(
                            cv,
                        ));
                        assert(str_views(warnings@) =~= w0 + Seq::<Seq<char>>::empty());
                    },
                    _ => {},
                }
            },
        }
        i = i + 1;
    }
    assert(nv.take(nv.len() as int) =~= nv);
    (out, warnings)
}

/// The warning for a program skipped for an unreadable keypair.
pub open spec fn invalid_keypair_warning(name: Seq<char>) -> Seq<char> {
    "[seer][warn] Skipping program '"@ + name + "' due to invalid keypair file."@
}

/// The indices at which `ok` holds (`want`) or fails (`!want`), in order.
pub open spec fn indices_where(ok: Seq<bool>, want: bool) -> Seq<int>
    decreases ok.len(),
{
    if ok.len() == 0 {
        Seq::empty()
    } else {
        indices_where(ok.drop_last(), want) + if ok.last() == want {
            seq![ok.len() - 1]
        } else {
            Seq::empty()
        }
    }
}

/// Whether `t` holds the files of `c`.
pub open spec fn same_target(t: ProgramTarget, c: TargetCandidate) -> bool {
    &&& t.so_path@ == c.target.so_path@
    &&& t.debug_path@ == c.target.debug_path@
    &&& t.json_path@ == c.target.json_path@
}

fn copy_string(s: &String) -> (r: String)
    ensures
        r@ == s@,
{
    string_from(&chars_of(s.as_str()))
}

/// The targets whose keypair file reads as a keypair (`keypair_ok[i]` tells for
/// candidate `i`), in order, and a warning for each of the others.
pub fn keep_valid_targets(candidates: &Vec<TargetCandidate>, keypair_ok: &Vec<bool>) -> (r: (
    Vec<ProgramTarget>,
    Vec<String>,
))
    requires
        keypair_ok@.len() == candidates@.len(),
    ensures
        r.0@.len() == indices_where(keypair_ok@, true).len(),
        forall|k: int|
            0 <= k < r.0@.len() ==> same_target(
                #[trigger] r.0@[k],
                candidates@[indices_where(keypair_ok@, true)[k]],
            ),
        r.1@.len() == indices_where(keypair_ok@, false).len(),
        forall|k: int|
            0 <= k < r.1@.len() ==> (#[trigger] r.1@[k])@ == invalid_keypair_warning(
                candidates@[indices_where(keypair_ok@, false)[k]].name@,
            ),
{
    let mut out: Vec<ProgramTarget> = Vec::new();
    let mut warnings: Vec<String> = Vec::new();
    let mut i: usize = 0;
    while i < candidates.len()
        invariant
            i <= candidates@.len(),
            keypair_ok@.len() == candidates@.len(),
            out@.len() == indices_where(keypair_ok@.take(i as int), true).len(),
            forall|k: int|
                0 <= k < out@.len() ==> same_target(
                    #[trigger] out@[k],
                    candidates@[indices_where(keypair_ok@.take(i as int), true)[k]],
                ),
            warnings@.len() == indices_where(keypair_ok@.take(i as int), false).len(),
            forall|k: int|
                0 <= k < warnings@.len() ==> (#[trigger] warnings@[k])@ == invalid_keypair_warning(
                    candidates@[indices_where(keypair_ok@.take(i as int), false)[k]].name@,
                ),
        decreases candidates@.len() - i,
    {
        let ghost t0 = indices_where(keypair_ok@.take(i as int), true);
        let ghost f0 = indices_where(keypair_ok@.take(i as int), false);
        assert(keypair_ok@.take(i + 1).drop_last() =~= keypair_ok@.take(i as int));
        assert(keypair_ok@.take(i + 1).last() == keypair_ok@[i as int]);
        let ghost t1 = indices_where(keypair_ok@.take(i + 1), true);
        let ghost f1 = indices_where(keypair_ok@.take(i + 1), false);
        let c = &candidates[i];
        if keypair_ok[i] {
            assert(t1 == t0 + seq![i as int]);
            assert(f1 =~= f0);
            let ghost before = out@;
            out.push(
                ProgramTarget {
                    so_path: copy_string(&c.target.so_path),
                    debug_path: copy_string(&c.target.debug_path),
                    json_path: copy_string(&c.target.json_path),
                },
            );
            assert forall|k: int| 0 <= k < out@.len() implies same_target(
                #[trigger] out@[k],
                candidates@[t1[k]],
            ) by {
                if k < before.len() {
                    assert(out@[k] == before[k]);
                    assert(t1[k] == t0[k]);
                }
            }
        } else {
            assert(f1 == f0 + seq![i as int]);
            assert(t1 =~= t0);
            let ghost before = warnings@;
            let mut w: Vec<char> = Vec::new();
            push_str(&mut w, "[seer][warn] Skipping program '");
            push_str(&mut w, c.name.as_str());
            push_str(&mut w, "' due to invalid keypair file.");
            assert(w@ =~= invalid_keypair_warning(c.name@));
            warnings.push(string_from(&w));
            assert forall|k: int| 0 <= k < warnings@.len() implies (#[trigger] warnings@[k])@
                == invalid_keypair_warning(candidates@[f1[k]].name@) by {
                if k < before.len() {
                    assert(warnings@[k] == before[k]);
                    assert(f1[k] == f0[k]);
                }
            }
        }
        i = i + 1;
    }
    assert(keypair_ok@.take(candidates@.len() as int) =~= keypair_ok@);
    (out, warnings)
}

/// A file of the session, as announced to Seer.
#[derive(Debug)]
pub struct SessionArtifact {
    pub file_path: String,
    pub file_hash: String,
    pub file_size: u64,
}

/// One entry of a file map: a content hash, and the path and size of a file with
/// that content.
#[derive(Debug)]
pub struct FileEntry {
    pub hash: String,
    pub path: String,
    pub size: u64,
}

/// Files by content hash; a later entry for a hash replaces an earlier one.
#[derive(Debug)]
pub struct FileMap {
    pub entries: Vec<FileEntry>,
}

/// The path and size recorded last for `hash` among `entries`.
pub open spec fn file_map_get(entries: Seq<FileEntry>, hash: Seq<char>) -> Option<(Seq<char>, u64)>
    decreases entries.len(),
{
    if entries.len() == 0 {
        None
    } else if entries.last().hash@ == hash {
        Some((entries.last().path@, entries.last().size))
    } else {
        file_map_get(entries.drop_last(), hash)
    }
}

impl FileMap {
    /// An empty map.
    pub fn new() -> (m: FileMap)
        ensures
            m.entries@.len() == 0,
    {
        FileMap { entries: Vec::new() }
    }

    /// Records `path` and `size` for `hash`, replacing what was recorded for it.
    pub fn insert(&mut self, hash: String, path: String, size: u64)
        ensures
            forall|h: Seq<char>|
                #[trigger] file_map_get(final(self).entries@, h) == if h == hash@ {
                    Some((path@, size))
                } else {
                    file_map_get(old(self).entries@, h)
                },
    {
        let ghost before = self.entries@;
        self.entries.push(FileEntry { hash, path, size });
        assert(self.entries@.drop_last() =~= before);
    }

    /// The path and size recorded for `hash`.
    pub fn get(&self, hash: &str) -> (r: Option<(String, u64)>)
        ensures
            r matches Some((p, s)) ==> file_map_get(self.entries@, hash@) == Some((p@, s)),
            r is None ==> file_map_get(self.entries@, hash@) is None,
    {
        let h = chars_of(hash);
        let mut j: usize = self.entries.len();
        assert(self.entries@.take(self.entries@.len() as int) =~= self.entries@);
        while j > 0
            invariant
                j <= self.entries@.len(),
                h@ == hash@,
                file_map_get(self.entries@, hash@) == file_map_get(
                    self.entries@.take(j as int),
                    hash@,
                ),
            decreases j,
        {
            assert(self.entries@.take(j as int).drop_last() =~= self.entries@.take(j - 1));
            let e = &self.entries[j - 1];
            if eq_chars(&chars_of(e.hash.as_str()), &h) {
                return Some((copy_string(&e.path), e.size));
            }
            j = j - 1;
        }
        None
    }
}

/// Records one file to send: its path relative to the project, its hash and its
/// size go to the list of files to send, to the session's artifacts and to the
/// file map.
pub fn process_artifact(
    rel_path: &str,
    hash: &str,
    size: u64,
    files_to_send: &mut Vec<String>,
    artifacts: &mut Vec<SessionArtifact>,
    file_map: &mut FileMap,
)
    ensures
        final(files_to_send)@.len() == old(files_to_send)@.len() + 1,
        final(files_to_send)@.drop_last() == old(files_to_send)@,
        final(files_to_send)@.last()@ == rel_path@,
        final(artifacts)@.len() == old(artifacts)@.len() + 1,
        final(artifacts)@.drop_last() == old(artifacts)@,
        final(artifacts)@.last().file_path@ == rel_path@,
        final(artifacts)@.last().file_hash@ == hash@,
        final(artifacts)@.last().file_size == size,
        forall|h: Seq<char>|
            #[trigger] file_map_get(final(file_map).entries@, h) == if h == hash@ {
                Some((rel_path@, size))
            } else {
                file_map_get(old(file_map).entries@, h)
            },
{
    let ghost f0 = files_to_send@;
    let ghost a0 = artifacts@;
    files_to_send.push(string_from(&chars_of(rel_path)));
    assert(files_to_send@.drop_last() =~= f0);
    artifacts.push(
        SessionArtifact {
            file_path: string_from(&chars_of(rel_path)),
            file_hash: string_from(&chars_of(hash)),
            file_size: size,
        },
    );
    assert(artifacts@.drop_last() =~= a0);
    file_map.insert(string_from(&chars_of(hash)), string_from(&chars_of(rel_path)), size);
}

/// Why no pubkey file can be named for a keypair file.
#[derive(Clone, Copy, Debug, PartialEq, Eq, Structural)]
pub enum PubkeyPathError {
    /// The keypair path has no usable file name.
    InvalidFileName,
    /// The file name does not end with `-keypair`.
    NotKeypair,
    /// The keypair path has no parent directory.
    NoParent,
}

/// The path of the `-pubkey.json` file written beside a `-keypair.json` file.
pub open spec fn pubkey_path_spec(keypair_path: Seq<char>) -> Result<Seq<char>, PubkeyPathError> {
    match file_stem_spec(keypair_path) {
        None => Err(PubkeyPathError::InvalidFileName),
        Some(stem) => if !ends_with(stem, "-keypair"@) {
            Err(PubkeyPathError::NotKeypair)
        } else {
            match parent_spec(keypair_path) {
                None => Err(PubkeyPathError::NoParent),
                Some(dir) => Ok(join_spec(dir, stem.take(stem.len() - 8) + "-pubkey.json"@)),
            }
        },
    }
}

/// Names the `-pubkey.json` file for a `-keypair.json` file: same directory, same
/// program name.
pub fn pubkey_file_path(keypair_path: &str) -> (r: Result<String, PubkeyPathError>)
    ensures
        r matches Ok(p) ==> pubkey_path_spec(keypair_path@) == Ok::<Seq<char>, PubkeyPathError>(p@),
        r matches Err(e) ==> pubkey_path_spec(keypair_path@) == Err::<Seq<char>, PubkeyPathError>(e),
{
    let stem = match file_stem(keypair_path) {
        Some(s) => chars_of(s.as_str()),
        None => return Err(PubkeyPathError::InvalidFileName),
    };
    let suffix = chars_of("-keypair");
    proof {
        reveal_strlit("-keypair");
    }
    if !ends_with_chars(&stem, &suffix) {
        return Err(PubkeyPathError::NotKeypair);
    }
    let dir = match parent(keypair_path) {
        Some(d) => d,
        None => return Err(PubkeyPathError::NoParent),
    };
    let mut name = slice_chars(&stem, 0, stem.len() - 8);
    assert(name@ =~= stem@.take(stem@.len() - 8));
    push_str(&mut name, "-pubkey.json");
    let n = string_from(&name);
    Ok(join(dir.as_str(), n.as_str()))
}

/// The Solana identity keypair under a home directory: `.config/solana/id.json`.
pub fn operator_keypair_path(home: &str) -> (r: String)
    ensures
        r@ == join_spec(join_spec(join_spec(home@, ".config"@), "solana"@), "id.json"@),
{
    let a = join(home, ".config");
    let b = join(a.as_str(), "solana");
    join(b.as_str(), "id.json")
}

} // verus!

use seer::build::debug_check::{
    ancestors, check_all_debug_files, check_debug_file, collect_failed_debug_infos, debug_file_name,
    debug_path, deploy_dir_probes, workspace_root, DebugCheckError, DebugEntry, DebugOutcome, Stream,
};
use seer::build::debug_flag::{seer_toml_contents, seer_toml_path};
use seer::build::project::{is_anchor_package, is_program, select_programs, PackageInfo};
use seer::build::results::{
    anchor_idl_dir, build_command_args, build_failure_message, build_result, print_build_summary,
    BuildStatus, FailedDebugInfo,
};
use seer::build::project::SolanaProgram;
use seer::build::BuildArgs;
use seer::install::{local_bin_dir, owner_writable, unix_install_target_dir, windows_install_target_dir};
use seer::run::artifacts::{
    classify_artifact, group_targets, keep_valid_targets, operator_keypair_path, process_artifact,
    pubkey_file_path, ArtifactKind, FileMap, PubkeyPathError,
};
use seer::run::artifacts_dir::{detect_artifacts_dir, ArtifactsDirError, ArtifactsProbe};
use seer::run::auth::{api_key_path, load_api_key, run_api_key, stored_api_key, ApiKeyError};
use seer::run::blobs::make_blob;
use seer::run::consent::{parse_answer, sort_paths, Answer};
use seer::run::idl::{
    check_idl_candidate, collect_idl_files, discover_idl_files, idl_candidates, idl_format_from,
    idl_program_name, idl_question, validate_idl, IdlAbort, IdlError, IdlFile, IdlFormat, IdlProbe,
    IdlQuestion, IdlRejection,
};
use seer::run::source_paths::{resolve_include_dir, source_path};
use seer::run::upload::is_mock_upload;
use seer::run::utils::normalize_sha;
use seer::run::{artifacts_dir_choice, missing_uploads, rel_path, source_action, ArtifactsChoice, SourceAction};

fn pkg(name: &str, dir: &str, deps: &[&str], kinds: &[&[&str]]) -> PackageInfo {
    PackageInfo {
        name: name.to_string(),
        manifest_path: format!("{}/Cargo.toml", dir),
        manifest_dir: dir.to_string(),
        dependency_names: deps.iter().map(|s| s.to_string()).collect(),
        target_crate_types: kinds.iter().map(|k| k.iter().map(|s| s.to_string()).collect()).collect(),
    }
}

#[test]
fn program_detection() {
    let native = pkg("native", "/w/programs/native", &["solana-program"], &[&["cdylib", "lib"]]);
    let anchor = pkg("anc", "/w/programs/anc", &["anchor-lang", "serde"], &[&["lib"], &["cdylib"]]);
    let pino = pkg("pino", "/w/pino", &["pinocchio"], &[&["cdylib"]]);
    let lib = pkg("util", "/w/util", &["solana-program"], &[&["lib"]]);
    let outside = pkg("far", "/elsewhere/far", &["solana-program"], &[&["cdylib"]]);
    assert!(is_program(&native));
    assert!(is_program(&anchor));
    assert!(is_program(&pino));
    assert!(!is_program(&lib));
    assert!(is_anchor_package(&anchor));
    assert!(!is_anchor_package(&native));
    let all = vec![native, lib, outside, anchor, pino];
    let progs = select_programs(&all, "/w/programs");
    let names: Vec<&str> = progs.iter().map(|p| p.name.as_str()).collect();
    assert_eq!(names, vec!["native", "anc"]);
    assert!(progs[1].is_anchor);
    assert_eq!(progs[0].manifest_path, "/w/programs/native/Cargo.toml");
    assert_eq!(select_programs(&all, "/w").len(), 3);
    let args = BuildArgs { cleanup_seer: true, silent: false };
    assert!(args.cleanup_seer && !args.silent);
}

#[test]
fn seer_toml_beside_the_manifest() {
    assert_eq!(seer_toml_path("/w/p/Cargo.toml"), "/w/p/seer.toml");
    assert_eq!(seer_toml_path("Cargo.toml"), "seer.toml");
    assert_eq!(seer_toml_path("/"), "./seer.toml");
    let t = seer_toml_contents();
    assert!(t.contains("[profile.release]"));
    assert!(t.contains("debug = true"));
}

#[test]
fn debug_files_and_roots() {
    assert_eq!(debug_file_name("my-prog"), "my_prog.debug");
    assert_eq!(ancestors("/a/b"), vec!["/a/b", "/a", "/"]);
    assert_eq!(ancestors("a/b"), vec!["a/b", "a", ""]);
    assert_eq!(deploy_dir_probes("/a/b"), vec!["/a/b/target/deploy", "/a/target/deploy", "/target/deploy"]);
    assert_eq!(workspace_root("/a/b", &vec![false, true, false]), "/a");
    assert_eq!(workspace_root("/a/b", &vec![false, false, false]), "/a");
    assert_eq!(workspace_root("/a/b", &vec![true]), "/a/b");
    assert_eq!(debug_path("/w/programs/p", &vec![false, false, true], "my-prog"), "/w/target/deploy/my_prog.debug");
    match check_debug_file(b"not an object file") {
        Err(DebugCheckError::Unreadable(m)) => assert!(!m.is_empty()),
        other => panic!("unexpected {:?}", other),
    }
}

#[test]
fn failed_debug_messages() {
    let raw = vec![("a".to_string(), "/t/a.debug".to_string()), ("b".to_string(), "/t/b.debug".to_string())];
    let infos = collect_failed_debug_infos(&raw, &vec![false, true]);
    assert_eq!(infos[0].error, ".debug file not found: /t/a.debug");
    assert_eq!(infos[1].error, "debug check failed: /t/b.debug");
    assert_eq!(infos[1].name, "b");
    assert_eq!(infos[1].path, "/t/b.debug");
}

#[test]
fn debug_report() {
    let entries = vec![
        DebugEntry { name: "a".into(), path: "/t/a.debug".into(), outcome: DebugOutcome::Valid },
        DebugEntry { name: "b".into(), path: "/t/b.debug".into(), outcome: DebugOutcome::NoDwarf },
        DebugEntry { name: "c".into(), path: "/t/c.debug".into(), outcome: DebugOutcome::Missing },
        DebugEntry { name: "d".into(), path: "/t/d.debug".into(), outcome: DebugOutcome::Unreadable("bad".into()) },
    ];
    let r = check_all_debug_files(&entries, false);
    assert_eq!(r.valid, vec!["/t/a.debug"]);
    assert_eq!(r.failed.len(), 3);
    let lines: Vec<(Stream, &str)> = r.lines.iter().map(|(s, l)| (*s, l.as_str())).collect();
    assert_eq!(
        lines,
        vec![
            (Stream::Out, "[OK] /t/a.debug"),
            (Stream::Error, "[FAIL] /t/b.debug: insufficient DWARF info"),
            (Stream::Error, "[ERROR] .debug file not found: /t/c.debug"),
            (Stream::Error, "[ERROR] /t/d.debug: bad"),
            (Stream::Out, "\nSummary of .debug files for Seer:"),
            (Stream::Out, "Ready for Seer:"),
            (Stream::Out, "- /t/a.debug"),
            (Stream::Out, "\nNot ready for Seer:"),
            (Stream::Out, "- b: /t/b.debug"),
            (Stream::Out, "- c: /t/c.debug"),
            (Stream::Out, "- d: /t/d.debug"),
        ]
    );
    let quiet = check_all_debug_files(&entries, true);
    assert_eq!(quiet.lines.len(), 3);
    let none = check_all_debug_files(&vec![], false);
    assert_eq!(none.lines.iter().map(|(_, l)| l.as_str()).collect::<Vec<_>>(), vec!["\nSummary of .debug files for Seer:", "No valid .debug files found."]);
}

#[test]
fn build_results_and_summary() {
    let p = SolanaProgram { name: "p".into(), manifest_path: "/w/p/Cargo.toml".into(), is_anchor: true };
    let q = SolanaProgram { name: "q".into(), manifest_path: "/w/q/Cargo.toml".into(), is_anchor: false };
    let r = SolanaProgram { name: "r".into(), manifest_path: "/w/r/Cargo.toml".into(), is_anchor: false };
    let rp = build_result(&p, &Ok(()));
    let rq = build_result(&q, &Err("boom".into()));
    let rr = build_result(&r, &Ok(()));
    assert_eq!(rp.status, BuildStatus::Success);
    assert_eq!(rq.error.as_deref(), Some("boom"));
    assert_eq!(anchor_idl_dir(&p).as_deref(), Some("/w/p"));
    assert_eq!(anchor_idl_dir(&q), None);
    let failed = vec![FailedDebugInfo { name: "r".into(), path: "/t/r.debug".into(), error: "no dwarf".into() }];
    let lines = print_build_summary(&vec![rp, rq, rr], &failed);
    assert_eq!(
        lines,
        vec!["\nBuild summary:", "- p: SUCCESS", "- q: FAILED (boom)", "- r: FAILED (no dwarf)", "seer build complete."]
    );
    assert_eq!(
        build_command_args("/w/p/Cargo.toml", "/w/p/seer.toml"),
        vec!["--manifest-path", "/w/p/Cargo.toml", "--debug", "--", "--config", "/w/p/seer.toml"]
    );
    assert_eq!(build_failure_message("/m", "err"), "Build failed for /m\nCargo error output:\nerr");
}

#[test]
fn artifact_grouping() {
    assert_eq!(classify_artifact("/t/p.so"), Some((ArtifactKind::So, "p".into())));
    assert_eq!(classify_artifact("/t/p.debug"), Some((ArtifactKind::Debug, "p".into())));
    assert_eq!(classify_artifact("/t/p-keypair.json"), Some((ArtifactKind::Keypair, "p".into())));
    assert_eq!(classify_artifact("/t/p.json"), None);
    assert_eq!(classify_artifact("/t/readme"), None);
    let files: Vec<String> = ["/t/b.so", "/t/a.so", "/t/a.debug", "/t/a-keypair.json", "/t/b.debug", "/t/c-keypair.json", "/t/x.txt"]
        .iter()
        .map(|s| s.to_string())
        .collect();
    let (cands, warnings) = group_targets(&files);
    assert_eq!(cands.len(), 1);
    assert_eq!(cands[0].name, "a");
    assert_eq!(cands[0].target.so_path, "/t/a.so");
    assert_eq!(cands[0].target.debug_path, "/t/a.debug");
    assert_eq!(cands[0].target.json_path, "/t/a-keypair.json");
    assert_eq!(
        warnings,
        vec![
            "[seer][warn] Skipping program 'b' due to missing b-keypair.json file.",
            "[seer][warn] Skipping program 'c' due to missing c.so file.",
        ]
    );
    let (kept, w) = keep_valid_targets(&cands, &vec![false]);
    assert!(kept.is_empty());
    assert_eq!(w, vec!["[seer][warn] Skipping program 'a' due to invalid keypair file."]);
    let (kept, w) = keep_valid_targets(&cands, &vec![true]);
    assert_eq!(kept.len(), 1);
    assert!(w.is_empty());
}

#[test]
fn artifacts_and_uploads() {
    let mut files = Vec::new();
    let mut arts = Vec::new();
    let mut map = FileMap::new();
    process_artifact("./target/deploy/a.so", "h1", 10, &mut files, &mut arts, &mut map);
    process_artifact("./target/deploy/a.debug", "h2", 20, &mut files, &mut arts, &mut map);
    process_artifact("./src/copy.rs", "h2", 20, &mut files, &mut arts, &mut map);
    assert_eq!(files, vec!["./target/deploy/a.so", "./target/deploy/a.debug", "./src/copy.rs"]);
    assert_eq!(arts[1].file_hash, "h2");
    assert_eq!(map.get("h1"), Some(("./target/deploy/a.so".to_string(), 10)));
    assert_eq!(map.get("h2"), Some(("./src/copy.rs".to_string(), 20)));
    assert_eq!(map.get("h3"), None);
    let requested = vec!["./target/deploy/a.debug".to_string(), "./nope".to_string(), "./target/deploy/a.so".to_string()];
    let missing = missing_uploads(&requested, &arts, &map);
    assert_eq!(missing, vec![(0, "./src/copy.rs".to_string()), (2, "./target/deploy/a.so".to_string())]);
    assert!(is_mock_upload("http://fake-upload.local/x"));
    assert!(!is_mock_upload("https://s3.amazonaws.com/x"));
}

#[test]
fn relative_paths_for_seer() {
    assert_eq!(rel_path("/w/p/target/deploy/a.so", "/w/p"), "./target/deploy/a.so");
    assert_eq!(rel_path("/other/a.so", "/w/p"), ".//other/a.so");
    assert_eq!(rel_path("./x.rs", "/w/p"), "./x.rs");
    assert_eq!(rel_path("../x.rs", "/w/p"), "../x.rs");
    assert_eq!(source_path("/w/p/src/lib.rs", "/w/p"), "./src/lib.rs");
    assert_eq!(source_path("/o/lib.rs", "/w/p"), "/o/lib.rs");
    assert_eq!(resolve_include_dir("/w/p", "/abs/dir"), None);
    assert_eq!(resolve_include_dir("/w/p", "src/../src/./x").as_deref(), Some("/w/p/src/x"));
    assert_eq!(source_action("./src/lib.rs", true), SourceAction::Send);
    assert_eq!(source_action("./src/lib.rs", false), SourceAction::WarnMissing);
    assert_eq!(source_action("./src/lib.c", true), SourceAction::Skip);
}

#[test]
fn artifacts_directory_choice() {
    match artifacts_dir_choice("./target/deploy", "/w/p") {
        ArtifactsChoice::Default(d) => assert_eq!(d, "/w/p/target/deploy"),
        other => panic!("{:?}", other),
    }
    match artifacts_dir_choice("./target//deploy/", "/w/p") {
        ArtifactsChoice::Default(_) => {}
        other => panic!("{:?}", other),
    }
    match artifacts_dir_choice("target/deploy", "/w/p") {
        ArtifactsChoice::Custom(d) => assert_eq!(d, "target/deploy"),
        other => panic!("{:?}", other),
    }
}

#[test]
fn artifacts_directory_detection() {
    let probe = |anchor, cargo, deploy, target| ArtifactsProbe {
        anchor_toml: anchor,
        cargo_toml: cargo,
        root_deploy: deploy,
        root_target: target,
        program_dirs: vec![("/w/programs/a".into(), false, false), ("/w/programs/b".into(), false, true)],
        root_dirs: vec![("/w/m".into(), true)],
    };
    assert_eq!(detect_artifacts_dir("/w", &probe(true, false, true, false)).unwrap(), "target/deploy");
    assert_eq!(detect_artifacts_dir("/w", &probe(false, true, false, true)).unwrap(), "target");
    assert_eq!(detect_artifacts_dir("/w", &probe(false, false, true, true)).unwrap(), "programs/b/target");
    let mut p = probe(false, false, false, false);
    p.program_dirs.clear();
    assert_eq!(detect_artifacts_dir("/w", &p).unwrap(), "m/target/deploy");
    p.root_dirs.clear();
    assert_eq!(detect_artifacts_dir("/w", &p), Err(ArtifactsDirError::NotFound));
}

#[test]
fn api_keys() {
    assert_eq!(load_api_key(Some("  env-key "), Some("file-key")), Ok("env-key".to_string()));
    assert_eq!(load_api_key(Some("   "), Some(" file-key\n")), Ok("file-key".to_string()));
    assert_eq!(load_api_key(None, None), Err(ApiKeyError::NotFound));
    assert_eq!(stored_api_key(" k \n"), "k");
    assert_eq!(run_api_key("\tk"), "k");
    assert_eq!(api_key_path("/home/u/.config/seer"), "/home/u/.config/seer/cli/api_key");
}

#[test]
fn hashes_and_answers() {
    assert_eq!(normalize_sha("0xABCdef"), "abcdef");
    assert_eq!(normalize_sha("ABC0x"), "abc0x");
    assert_eq!(make_blob(b""), "e3b0c44298fc1c149afbf4c8996fb92427ae41e4649b934ca495991b7852b855");
    assert_eq!(parse_answer(" YES "), Answer::Yes);
    assert_eq!(parse_answer("n"), Answer::No);
    assert_eq!(parse_answer("maybe"), Answer::Unclear);
}

#[test]
fn idl_handling() {
    assert_eq!(IdlFormat::Anchor.name(), "Anchor");
    assert_eq!(IdlFormat::Codama.name(), "Codama");
    assert_eq!(idl_format_from(true, true), Ok(IdlFormat::Anchor));
    assert_eq!(idl_format_from(false, true), Ok(IdlFormat::Codama));
    assert_eq!(idl_format_from(false, false), Err(IdlError::Unrecognized));
    assert_eq!(validate_idl("not json"), Err(IdlError::Unrecognized));
    let anchor = r#"{"address":"11111111111111111111111111111111","metadata":{"name":"p","version":"0.1.0","spec":"0.1.0"},"instructions":[]}"#;
    assert_eq!(validate_idl(anchor), Ok(IdlFormat::Anchor));
    let names = vec!["alpha".to_string(), "beta".to_string()];
    let cands = idl_candidates("/w", &names);
    assert_eq!(cands, vec!["/w/target/idl/alpha.json", "/w/target/types/alpha.json", "/w/target/idl/beta.json", "/w/target/types/beta.json"]);
    assert_eq!(discover_idl_files(&cands, &vec![false, true, true, true]), vec!["/w/target/types/alpha.json", "/w/target/idl/beta.json"]);
    assert_eq!(idl_program_name("/x/beta.json", &names).as_deref(), Some("beta"));
    assert_eq!(idl_program_name("/x/gamma.json", &names), None);
    let missing = IdlProbe { exists: false, content: None };
    assert_eq!(check_idl_candidate("/x/beta.json", &names, &missing).unwrap_err(), IdlRejection::Missing);
    let unknown = IdlProbe { exists: true, content: None };
    assert_eq!(check_idl_candidate("/x/gamma.json", &names, &unknown).unwrap_err(), IdlRejection::UnknownProgram);
    assert_eq!(check_idl_candidate("/x/beta.json", &names, &unknown).unwrap_err(), IdlRejection::Unreadable);
    let bad = IdlProbe { exists: true, content: Some(Ok("{}".into())) };
    assert_eq!(check_idl_candidate("/x/beta.json", &names, &bad).unwrap_err(), IdlRejection::Invalid);
    let good = IdlProbe { exists: true, content: Some(Ok(anchor.into())) };
    let f = check_idl_candidate("/x/beta.json", &names, &good).unwrap();
    assert_eq!(f.program_name, "beta");
    assert_eq!(f.format, IdlFormat::Anchor);
    assert_eq!(idl_question(1, 0), IdlQuestion::Nothing);
    assert_eq!(idl_question(0, 2), IdlQuestion::ContinueWithoutIdl);
    assert_eq!(idl_question(1, 2), IdlQuestion::ContinueWithValidOnly);
    let v = vec![IdlFile { path: "/x/beta.json".into(), program_name: "beta".into(), format: IdlFormat::Anchor }];
    assert_eq!(collect_idl_files(v, 1, false).unwrap_err(), IdlAbort::Aborted);
    assert_eq!(collect_idl_files(vec![], 1, true).unwrap().len(), 0);
}

#[test]
fn keypair_paths_and_install_dirs() {
    assert_eq!(pubkey_file_path("/t/prog-keypair.json"), Ok("/t/prog-pubkey.json".to_string()));
    assert_eq!(pubkey_file_path("/t/prog.json"), Err(PubkeyPathError::NotKeypair));
    assert_eq!(pubkey_file_path("/"), Err(PubkeyPathError::InvalidFileName));
    assert_eq!(operator_keypair_path("/home/u"), "/home/u/.config/solana/id.json");
    assert_eq!(local_bin_dir("/home/u"), "/home/u/.local/bin");
    assert_eq!(unix_install_target_dir(Some("/home/u"), true, true), "/home/u/.local/bin");
    assert_eq!(unix_install_target_dir(Some("/home/u"), false, true), "/usr/local/bin");
    assert_eq!(unix_install_target_dir(Some("/home/u"), false, false), "/home/u/.local/bin");
    assert_eq!(unix_install_target_dir(None, true, true), "/usr/local/bin");
    assert_eq!(windows_install_target_dir("C:/Users/u"), "C:/Users/u/.cargo/bin");
    assert!(owner_writable(0o644));
    assert!(!owner_writable(0o444));
}

#[test]
fn consent_lists_paths_in_order() {
    let files = vec![
        "./target/deploy/b.so".to_string(),
        "./src/lib.rs".to_string(),
        "./target/deploy/a.so".to_string(),
    ];
    assert_eq!(
        sort_paths(&files),
        vec![
            "./src/lib.rs".to_string(),
            "./target/deploy/a.so".to_string(),
            "./target/deploy/b.so".to_string(),
        ]
    );
}

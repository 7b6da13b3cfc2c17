use seer::build::debug_check::{debug_outcome, DebugOutcome};
use seer::run::idl::{judge_idl_candidates, IdlFormat, IdlProbe, IdlRejection};
use seer::run::source_paths::{include_dirs_of, pick_source_dir};
use seer::run::{upload_step, UploadStep};
use seer::update::{update_step, UpdateAction, UpdateEvent};

#[test]
fn upload_step_follows_consent() {
    assert_eq!(upload_step(false, 0, None), UploadStep::StartSession);
    assert_eq!(upload_step(true, 0, Some(false)), UploadStep::StartSession);
    assert_eq!(upload_step(true, 3, None), UploadStep::Upload);
    assert_eq!(upload_step(false, 3, None), UploadStep::AskConsent);
    assert_eq!(upload_step(false, 3, Some(true)), UploadStep::Upload);
    assert_eq!(upload_step(false, 3, Some(false)), UploadStep::Stop);
}

#[test]
fn update_step_decisions() {
    assert_eq!(update_step(false, true, UpdateEvent::TagResolved), UpdateAction::UpToDate);
    assert_eq!(update_step(true, true, UpdateEvent::TagResolved), UpdateAction::UpToDate);
    assert_eq!(update_step(true, false, UpdateEvent::TagResolved), UpdateAction::Download);
    assert_eq!(update_step(false, false, UpdateEvent::TagResolved), UpdateAction::Ask);
    assert_eq!(update_step(false, false, UpdateEvent::Answered(false)), UpdateAction::Cancel);
    assert_eq!(update_step(false, false, UpdateEvent::Answered(true)), UpdateAction::Download);
    assert_eq!(
        update_step(false, false, UpdateEvent::Downloaded { checksum_ok: Some(false) }),
        UpdateAction::Fail
    );
    assert_eq!(
        update_step(false, false, UpdateEvent::Downloaded { checksum_ok: Some(true) }),
        UpdateAction::Extract
    );
    assert_eq!(update_step(false, false, UpdateEvent::Downloaded { checksum_ok: None }), UpdateAction::Extract);
    assert_eq!(update_step(true, false, UpdateEvent::Extracted { has_binary: true }), UpdateAction::Install);
    assert_eq!(update_step(true, false, UpdateEvent::Extracted { has_binary: false }), UpdateAction::Fail);
}

#[test]
fn judging_idl_candidates_keeps_order() {
    let anchor = r#"{"address":"11111111111111111111111111111111","metadata":{"name":"p","version":"0.1.0","spec":"0.1.0"},"instructions":[]}"#;
    let names = vec!["alpha".to_string(), "beta".to_string()];
    let cands = vec![
        "/x/beta.json".to_string(),
        "/x/gamma.json".to_string(),
        "/x/alpha.json".to_string(),
        "/x/alpha.json".to_string(),
    ];
    let probes = vec![
        IdlProbe { exists: true, content: Some(Ok(anchor.to_string())) },
        IdlProbe { exists: true, content: None },
        IdlProbe { exists: false, content: None },
        IdlProbe { exists: true, content: Some(Ok(anchor.to_string())) },
    ];
    let (valid, invalid, rejections) = judge_idl_candidates(&cands, &names, &probes);
    assert_eq!(valid.len(), 2);
    assert_eq!(valid[0].path, "/x/beta.json");
    assert_eq!(valid[0].program_name, "beta");
    assert_eq!(valid[0].format, IdlFormat::Anchor);
    assert_eq!(valid[1].path, "/x/alpha.json");
    assert_eq!(valid[1].program_name, "alpha");
    assert_eq!(invalid, 2);
    assert_eq!(rejections, vec![(1, IdlRejection::UnknownProgram), (2, IdlRejection::Missing)]);
}

#[test]
fn debug_outcome_from_reads() {
    assert!(matches!(debug_outcome(None), DebugOutcome::Missing));
    match debug_outcome(Some(Err("denied".to_string()))) {
        DebugOutcome::Unreadable(m) => assert_eq!(m, "denied"),
        other => panic!("unexpected {:?}", other),
    }
    match debug_outcome(Some(Ok(b"not an object file".to_vec()))) {
        DebugOutcome::Unreadable(m) => assert!(!m.is_empty() && m != "denied"),
        other => panic!("unexpected {:?}", other),
    }
}

#[test]
fn include_dirs_of_unreadable_bytes() {
    let (dirs, stopped) = include_dirs_of(b"not an object file");
    assert!(dirs.is_empty());
    assert!(stopped);
}

#[test]
fn source_dir_is_first_relative_existing_dir() {
    let dirs = vec!["/abs/src".to_string(), "gone".to_string(), "prog/./src".to_string(), "other".to_string()];
    assert_eq!(pick_source_dir("/w", &dirs, &vec![true, false, true, true]).as_deref(), Some("/w/prog/src"));
    assert_eq!(pick_source_dir("/w", &dirs, &vec![true, false, false, false]), None);
}

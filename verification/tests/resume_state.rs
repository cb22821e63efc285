use ramz::pack_flow::{next_pack_step, PackAction, PackEvent, PackState};
use sha2::Digest;
use ramz::error::RamzError;
use ramz::resume::{resume_decision, resume_state_path, verify_source_unchanged, ResumeDecision, ResumeState};
use ramz::text::{decimal_text, hex_lower, parse_u64, trim};

fn state(total: u64, processed: u64, checksum: &str) -> ResumeState {
    ResumeState {
        source_path: "/source".to_string(),
        archive_path: "/tmp/test.age.tar.zst".to_string(),
        backend_name: "age".to_string(),
        total_bytes: total,
        processed_bytes: processed,
        checksum: checksum.to_string(),
        password_hint: None,
        created_at: "now".to_string(),
    }
}

#[test]
fn resume_test_resume_state_roundtrip() {
    let s = state(1000, 500, "abc123");
    let saved = s.to_text();
    let loaded = ResumeState::from_text(&saved).unwrap();
    assert_eq!(loaded.total_bytes, 1000);
    assert_eq!(loaded.processed_bytes, 500);
}

#[test]
fn resume_test_verify_source_unchanged() {
    let s = state(5, 5, "2cf24dba5fb0a30e26e83b2ac5b9e29e1b161e5c1fa7425e73043362938b9824");
    assert!(verify_source_unchanged(&s, "2cf24dba5fb0a30e26e83b2ac5b9e29e1b161e5c1fa7425e73043362938b9824"));
    assert!(!verify_source_unchanged(&s, "e3b0c44298fc1c149afbf4c8996fb92427ae41e4649b934ca495991b7852b855"));
    let unfinished = state(5, 0, "abc");
    assert!(!verify_source_unchanged(&unfinished, "abc"));
}

#[test]
fn resume_test_resume_does_not_falsely_report_completion() {
    let tmp = tempfile::TempDir::new().unwrap();
    let archive = tmp.path().join("test.age.tar.zst");
    let s = state(5, 5, "abc");
    let loaded = ResumeState::from_text(&s.to_text()).unwrap();
    assert!(!archive.exists());
    assert!(loaded.processed_bytes == loaded.total_bytes);
    assert_eq!(resume_decision(&loaded, "abc", archive.exists()).unwrap(), ResumeDecision::Recreate);
}

#[test]
fn main_test_resume_does_not_falsely_report_completion() {
    let interrupted = state(29, 0, "abc");
    let decision = resume_decision(&interrupted, "abc", false).unwrap();
    assert_eq!(decision, ResumeDecision::Recreate);
    let complete_but_missing = state(29, 29, "abc");
    assert_eq!(resume_decision(&complete_but_missing, "abc", false).unwrap(), ResumeDecision::Recreate);
    assert_eq!(resume_decision(&complete_but_missing, "abc", true).unwrap(), ResumeDecision::AlreadyComplete);
}

#[test]
fn resume_of_a_changed_source_is_refused() {
    let s = state(29, 29, "abc");
    match resume_decision(&s, "def", true) {
        Err(RamzError::ResumeMismatch(m)) => assert_eq!(m, "source has changed since last run; cannot resume"),
        other => panic!("unexpected {:?}", other.map(|_| ())),
    }
}

#[test]
fn state_text_layout() {
    let mut s = state(1000, 500, "abc123");
    s.password_hint = Some("hint".to_string());
    assert_eq!(s.to_text(), "/source\n/tmp/test.age.tar.zst\nage\n1000\n500\nabc123\nhint\nnow\n");
    s.password_hint = None;
    assert_eq!(s.to_text(), "/source\n/tmp/test.age.tar.zst\nage\n1000\n500\nabc123\n\nnow\n");
}

#[test]
fn state_text_reads_back() {
    let mut s = state(u64::MAX, 0, "abc");
    s.password_hint = Some("pw hint".to_string());
    let loaded = ResumeState::from_text(&s.to_text()).unwrap();
    assert_eq!(loaded.source_path, s.source_path);
    assert_eq!(loaded.archive_path, s.archive_path);
    assert_eq!(loaded.backend_name, s.backend_name);
    assert_eq!(loaded.total_bytes, u64::MAX);
    assert_eq!(loaded.processed_bytes, 0);
    assert_eq!(loaded.checksum, s.checksum);
    assert_eq!(loaded.password_hint, Some("pw hint".to_string()));
    assert_eq!(loaded.created_at, s.created_at);

    let plain = state(7, 7, "c");
    let back = ResumeState::from_text(&plain.to_text()).unwrap();
    assert_eq!(back.password_hint, Some(String::new()));
}

#[test]
fn short_or_odd_state_text() {
    match ResumeState::from_text("a\nb\nc\n1\n2") {
        Err(RamzError::ResumeMismatch(m)) => assert_eq!(m, "corrupted resume state"),
        _ => panic!("five lines must be refused"),
    }
    let s = ResumeState::from_text("  a\nb\nc\nlots\n+12\nsum  \n").unwrap();
    assert_eq!(s.source_path, "a");
    assert_eq!(s.total_bytes, 0);
    assert_eq!(s.processed_bytes, 12);
    assert_eq!(s.checksum, "sum");
    assert_eq!(s.password_hint, None);
    assert_eq!(s.created_at, "");
}

#[test]
fn resume_state_file_sits_beside_the_archive() {
    assert_eq!(resume_state_path("/out/data.age.tar.zst"), "/out/data.age.tar.resume");
    assert_eq!(resume_state_path("/out/data.7z"), "/out/data.resume");
}

#[test]
fn decimal_and_parse() {
    assert_eq!(decimal_text(0), "0");
    assert_eq!(decimal_text(1234567890), "1234567890");
    assert_eq!(decimal_text(u64::MAX), "18446744073709551615");
    assert_eq!(parse_u64("18446744073709551615"), Some(u64::MAX));
    assert_eq!(parse_u64("18446744073709551616"), None);
    assert_eq!(parse_u64("+7"), Some(7));
    assert_eq!(parse_u64("+"), None);
    assert_eq!(parse_u64(""), None);
    assert_eq!(parse_u64("-1"), None);
    assert_eq!(parse_u64("12a"), None);
    assert_eq!(parse_u64("٣"), None);
    for s in ["0", "42", "+0", "007", "99999999999999999999", " 1", "1 "] {
        assert_eq!(parse_u64(s), s.parse::<u64>().ok(), "{:?}", s);
    }
}

#[test]
fn trim_matches_std() {
    for s in ["", "  ", "\t a b \n", "\u{3000}x\u{85}", "\u{200B}x", "x\r\n", "\u{a0}\u{1680}y\u{2029}"] {
        assert_eq!(trim(s), s.trim(), "{:?}", s);
    }
}

#[test]
fn hex_of_digest() {
    assert_eq!(hex_lower(&[0x00, 0x0f, 0xa0, 0xff]), "000fa0ff");
    assert_eq!(hex_lower(&[]), "");
}

#[test]
fn checksums_of_files_and_trees() {
    assert_eq!(
        ramz::checksum::file_checksum(b"hello"),
        "2cf24dba5fb0a30e26e83b2ac5b9e29e1b161e5c1fa7425e73043362938b9824"
    );
    let entries = vec![
        (b"sub/b.txt".to_vec(), b"B".to_vec()),
        (b"a-b".to_vec(), b"X".to_vec()),
        (b"a/c".to_vec(), b"Y".to_vec()),
    ];
    let mut hasher = sha2::Sha256::new();
    hasher.update(b"a/c\0Y");
    hasher.update(b"a-b\0X");
    hasher.update(b"sub/b.txt\0B");
    let expected = hex_lower(hasher.finalize().as_slice());
    assert_eq!(ramz::checksum::tree_checksum(&entries), expected);
    let changed = vec![
        (b"sub/b.txt".to_vec(), b"B2".to_vec()),
        (b"a-b".to_vec(), b"X".to_vec()),
        (b"a/c".to_vec(), b"Y".to_vec()),
    ];
    assert_ne!(ramz::checksum::tree_checksum(&changed), expected);
    assert_eq!(
        ramz::checksum::tree_checksum(&[]),
        "e3b0c44298fc1c149afbf4c8996fb92427ae41e4649b934ca495991b7852b855"
    );
}

#[test]
fn state_text_with_empty_creation_time() {
    let mut s = state(3, 3, "sum");
    s.created_at = String::new();
    s.password_hint = Some("hint".to_string());
    let back = ResumeState::from_text(&s.to_text()).unwrap();
    assert_eq!(back.password_hint, Some("hint".to_string()));
    assert_eq!(back.created_at, "");
    s.password_hint = None;
    let back = ResumeState::from_text(&s.to_text()).unwrap();
    assert_eq!(back.password_hint, None);
    assert_eq!(back.checksum, "sum");
}

#[test]
fn pack_steps_in_order() {
    let run = |delete: bool, dry_run: bool| {
        let mut state = PackState::new(delete, true);
        let mut event = PackEvent::Begin { dry_run };
        let mut actions = Vec::new();
        loop {
            let (next, action) = next_pack_step(&state, event);
            state = next;
            actions.push(action);
            event = match action {
                PackAction::VerifyArchive => PackEvent::VerifyPassed,
                PackAction::Finish | PackAction::Stop | PackAction::ShowPreview => break,
                _ => PackEvent::Done,
            };
        }
        actions
    };
    assert_eq!(run(false, true), vec![PackAction::ShowPreview]);
    assert_eq!(
        run(true, false),
        vec![
            PackAction::SaveResumeState,
            PackAction::Pack,
            PackAction::SaveCompletion,
            PackAction::VerifyArchive,
            PackAction::DeleteSource { secure: true },
            PackAction::RemoveResumeState,
            PackAction::Finish,
        ]
    );
    assert_eq!(
        run(false, false),
        vec![
            PackAction::SaveResumeState,
            PackAction::Pack,
            PackAction::SaveCompletion,
            PackAction::RemoveResumeState,
            PackAction::Finish,
        ]
    );
    let verifying = next_pack_step(&PackState::new(true, false), PackEvent::Begin { dry_run: false }).0;
    assert_eq!(next_pack_step(&verifying, PackEvent::VerifyPassed).1, PackAction::Stop);
}

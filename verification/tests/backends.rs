use std::io::Read;

use ramz::age_backend::AgeBackend;
use ramz::archive::{Backend, PackOptions, SourceKind, Target};
use ramz::error::RamzError;
use ramz::identity::Identity;
use ramz::plan::{
    accept_password, archive_path_for, backend_for_archive, check_identity_free, check_overwrite, check_pack_flags,
    extract_dir_for, given_identity_password, identity_dir, identity_paths, pack_level, password_plan,
    public_identity_path, select_age_backend, BackendChoice, PasswordPlan,
};
use ramz::sevenz::{failure_message, find_binary, first_found, progress_for_capture, progress_from_line, SevenZBackend};

/// A tar stream holding one file.
fn tar_of(name: &str, content: &[u8]) -> Vec<u8> {
    let mut builder = tar::Builder::new(Vec::new());
    let mut header = tar::Header::new_gnu();
    header.set_size(content.len() as u64);
    header.set_mode(0o644);
    header.set_cksum();
    builder.append_data(&mut header, name, content).unwrap();
    builder.into_inner().unwrap()
}

/// The name and content of the first entry of a tar stream.
fn first_entry(tar_bytes: &[u8]) -> (String, Vec<u8>) {
    let mut archive = tar::Archive::new(tar_bytes);
    let mut entry = archive.entries().unwrap().next().unwrap().unwrap();
    let name = entry.path().unwrap().to_string_lossy().into_owned();
    let mut content = Vec::new();
    entry.read_to_end(&mut content).unwrap();
    (name, content)
}

fn options(password: Option<&str>, level: u8) -> PackOptions {
    PackOptions {
        password: password.map(|p| p.to_string()),
        compression_level: level,
        delete_source: false,
        output_dir: None,
        force_overwrite: true,
        argon2_memory_kib: 65536,
        argon2_iterations: 3,
        argon2_parallelism: 4,
        secure_delete: false,
    }
}

#[test]
fn test_sevenz_backend_name() {
    let backend = SevenZBackend;
    assert_eq!(backend.name(), "7z");
    assert_eq!(backend.extension(), "7z");
    assert!(backend.requires_external_binary());
}

#[test]
fn test_sevenz_backend_name_and_extension() {
    let backend = SevenZBackend;
    assert_eq!(backend.name(), "7z");
    assert_eq!(backend.extension(), "7z");
    assert!(backend.requires_external_binary());
}

#[test]
fn age_backend_describes_itself() {
    let backend = AgeBackend::new();
    assert_eq!(backend.name(), "age");
    assert_eq!(backend.extension(), "age.tar.zst");
    assert!(!backend.requires_external_binary());
}

#[test]
fn sevenz_arguments() {
    assert_eq!(
        SevenZBackend::pack_args("/out/a.7z", "/src/data", 12, Some("s3cret")),
        vec!["a", "-t7z", "-mx=9", "-bsp1", "-mhe=on", "-ps3cret", "/out/a.7z", "/src/data"]
    );
    assert_eq!(
        SevenZBackend::pack_args("a.7z", "data", 5, None),
        vec!["a", "-t7z", "-mx=5", "-bsp1", "a.7z", "data"]
    );
    assert_eq!(SevenZBackend::verify_args("a.7z", Some("pw")), vec!["t", "a.7z", "-ppw"]);
    assert_eq!(SevenZBackend::verify_args("a.7z", None), vec!["t", "a.7z"]);
}

#[test]
fn sevenz_progress_lines() {
    assert_eq!(progress_from_line(" 45% 3 + file.txt", 1000), Some(450));
    assert_eq!(progress_from_line("12 files, 100%", 200), Some(200));
    assert_eq!(progress_from_line("no percentage here", 1000), None);
    assert_eq!(progress_from_line("x 99999999999999999999999% y", 1000), None);
    assert_eq!(progress_from_line("50%", u64::MAX), Some(u64::MAX / 100));
    assert_eq!(progress_for_capture(Some("7"), 100), Some(7));
    assert_eq!(progress_for_capture(None, 100), None);
}

#[test]
fn sevenz_failure_text() {
    let lines = vec!["".to_string(), "ERROR: disk full".to_string(), "   ".to_string(), "Cannot open".to_string()];
    match failure_message("7z", "exit status: 2", &lines) {
        RamzError::Backend(m) => assert_eq!(m, "7z exited with status exit status: 2: ERROR: disk full; Cannot open"),
        _ => panic!("expected a backend error"),
    }
    match failure_message("7zz", "exit status: 1", &["  ".to_string()]) {
        RamzError::Backend(m) => assert_eq!(m, "7zz exited with status exit status: 1"),
        _ => panic!("expected a backend error"),
    }
}

#[test]
fn first_found_takes_the_earliest_answer() {
    assert_eq!(first_found(&[false, true, true]), Some(1));
    assert_eq!(first_found(&[true, false, true]), Some(0));
    assert_eq!(first_found(&[false, false, true]), Some(2));
    assert_eq!(first_found(&[false, false, false]), None);
    assert_eq!(first_found(&[]), None);
}

#[test]
fn sevenz_binary_lookup() {
    match find_binary() {
        Ok(b) => assert!(["7z", "7zz", "7za"].contains(&b.as_str())),
        Err(RamzError::Backend(m)) => {
            assert_eq!(m, "no 7z binary found (tried 7z, 7zz, 7za) — install p7zip/7zip package")
        }
        Err(_) => panic!("unexpected error kind"),
    }
}

#[test]
fn lib_test_age_backend_file_roundtrip() {
    let tar = tar_of("secret.txt", b"hello world from age");
    let backend = AgeBackend::new();
    let opts = options(Some("test-password-123"), 3);
    let archive = backend.encrypt_archive(&tar, 3, &opts).unwrap();
    assert!(archive.starts_with(b"age-encryption.org/v1"));
    let back = backend.decrypt_archive(&archive, Some("test-password-123"), None).unwrap();
    assert_eq!(first_entry(&back), ("secret.txt".to_string(), b"hello world from age".to_vec()));
    backend.verify_archive(&archive, Some("test-password-123"), None).unwrap();
}

#[test]
fn test_age_backend_wrong_password_fails() {
    let tar = tar_of("secret.txt", b"top secret");
    let backend = AgeBackend::new();
    let opts = options(Some("correct-password"), 3);
    let archive = backend.encrypt_archive(&tar, 3, &opts).unwrap();
    let result = backend.verify_archive(&archive, Some("wrong-password"), None);
    assert!(result.is_err());
}

#[test]
fn age_format_needs_a_password() {
    let tar = tar_of("a.txt", b"a");
    let backend = AgeBackend::new();
    match backend.encrypt_archive(&tar, 3, &options(None, 3)) {
        Err(RamzError::Backend(m)) => assert_eq!(m, "age requires a password"),
        _ => panic!("expected a refusal"),
    }
    match backend.decrypt_archive(b"definitely not an archive", Some("pw"), None) {
        Err(RamzError::Backend(m)) => assert!(m.starts_with("age decrypt init: ")),
        _ => panic!("expected a refusal"),
    }
}

#[test]
fn argon2id_archive_roundtrip_and_wrong_password() {
    let tar = tar_of("argon2.txt", b"argon2id roundtrip");
    let backend = AgeBackend::new_with_argon2id();
    let mut opts = options(Some("argon2-pw"), 9);
    opts.argon2_memory_kib = 1024;
    opts.argon2_iterations = 1;
    opts.argon2_parallelism = 1;
    let archive = backend.encrypt_archive(&tar, 9, &opts).unwrap();
    assert_eq!(&archive[0..5], &[b'R', b'M', b'Z', b'1', 0x01]);
    assert_eq!(u32::from_le_bytes(archive[5..9].try_into().unwrap()), 1024);
    let back = backend.decrypt_archive(&archive, Some("argon2-pw"), None).unwrap();
    assert_eq!(back, tar);
    match backend.verify_archive(&archive, Some("wrong"), None) {
        Err(RamzError::Backend(m)) => assert_eq!(m, "wrong password or corrupted archive"),
        _ => panic!("expected a refusal"),
    }
}

#[test]
fn mlkem_archive_roundtrip() {
    let tar = tar_of("pq.txt", b"post-quantum hybrid");
    let backend = AgeBackend::new_with_mlkem();
    let mut opts = options(Some("pq-pw"), 9);
    opts.argon2_memory_kib = 1024;
    opts.argon2_iterations = 1;
    opts.argon2_parallelism = 1;
    let archive = backend.encrypt_archive(&tar, 9, &opts).unwrap();
    assert_eq!(archive[4], 0x03);
    backend.verify_archive(&archive, Some("pq-pw"), None).unwrap();
    assert!(backend.verify_archive(&archive, Some("other"), None).is_err());
}

#[test]
fn lib_test_age_backend_recipient_roundtrip() {
    let identity = Identity::generate();
    let tar = tar_of("recipient.txt", b"recipient-based encryption");
    let backend = AgeBackend::new_with_recipient(identity.encapsulation_key.clone());
    let archive = backend.encrypt_archive(&tar, 9, &options(None, 9)).unwrap();
    let reader = AgeBackend::new();
    let back = reader.decrypt_archive(&archive, None, Some(&identity)).unwrap();
    assert_eq!(first_entry(&back).1, b"recipient-based encryption".to_vec());
}

#[test]
fn lib_test_age_backend_recipient_verify_with_identity() {
    let identity = Identity::generate();
    let tar = tar_of("verify.txt", b"verify with identity");
    let backend = AgeBackend::new_with_recipient(identity.encapsulation_key.clone());
    let archive = backend.encrypt_archive(&tar, 9, &options(None, 9)).unwrap();
    AgeBackend::new().verify_archive(&archive, None, Some(&identity)).unwrap();
}

#[test]
fn lib_test_age_backend_recipient_without_identity_fails() {
    let identity = Identity::generate();
    let tar = tar_of("noid.txt", b"no identity");
    let backend = AgeBackend::new_with_recipient(identity.encapsulation_key.clone());
    let archive = backend.encrypt_archive(&tar, 9, &options(None, 9)).unwrap();
    match AgeBackend::new().verify_archive(&archive, Some("whatever"), None) {
        Err(RamzError::Backend(m)) => assert_eq!(m, "recipient archive requires --identity to decrypt"),
        _ => panic!("expected a refusal"),
    }
}

#[test]
fn compression_level_for_targets() {
    let opts = options(Some("pw"), 15);
    let file = Target { path: "/data/photo.png".to_string(), kind: SourceKind::File, total_bytes: 3 };
    let text = Target { path: "/data/notes.txt".to_string(), kind: SourceKind::File, total_bytes: 3 };
    let dir = Target { path: "/data/dir".to_string(), kind: SourceKind::Directory, total_bytes: 3 };
    assert_eq!(AgeBackend::compression_level_for(&file, &opts), 1);
    assert_eq!(AgeBackend::compression_level_for(&text, &opts), 15);
    assert_eq!(AgeBackend::compression_level_for(&dir, &opts), 15);
}

#[test]
fn test_mlkem_rejected_for_7z_backend() {
    let result = check_pack_flags(BackendChoice::SevenZ, false, true, false);
    assert!(result.is_err());
}

#[test]
fn test_recipient_rejected_for_7z_backend() {
    let result = check_pack_flags(BackendChoice::SevenZ, false, false, true);
    assert!(result.is_err());
}

#[test]
fn test_password_rejected_with_recipient() {
    assert!(check_pack_flags(BackendChoice::Age, false, false, true).is_ok());
    let result = password_plan(Some("password".to_string()), true, false);
    assert!(result.is_err());
}

#[test]
fn flag_and_password_decisions() {
    match check_pack_flags(BackendChoice::SevenZ, true, false, true) {
        Err(RamzError::IncompatibleFlag(m)) => assert_eq!(m, "--argon2id/--mlkem only supported with --backend age"),
        _ => panic!("expected a refusal"),
    }
    assert!(check_pack_flags(BackendChoice::SevenZ, false, false, false).is_ok());
    assert!(matches!(password_plan(None, true, false), Ok(PasswordPlan::NoPassword)));
    assert!(matches!(password_plan(None, false, true), Ok(PasswordPlan::Prompt { confirm: true })));
    assert!(matches!(password_plan(Some(String::new()), false, false), Err(RamzError::EmptyPassword)));
    assert!(matches!(password_plan(Some("p".to_string()), false, true), Ok(PasswordPlan::ConfirmGiven(p)) if p == "p"));
    assert!(matches!(password_plan(Some("p".to_string()), false, false), Ok(PasswordPlan::Given(p)) if p == "p"));
    assert!(matches!(accept_password(String::new()), Err(RamzError::EmptyPassword)));
    assert_eq!(accept_password("x".to_string()).unwrap(), "x");
}

#[test]
fn pack_paths_and_levels() {
    assert_eq!(pack_level(None, BackendChoice::Age), 9);
    assert_eq!(pack_level(None, BackendChoice::SevenZ), 5);
    assert_eq!(pack_level(Some(2), BackendChoice::SevenZ), 2);
    assert_eq!(BackendChoice::Age.name(), "age");
    assert_eq!(BackendChoice::SevenZ.extension(), "7z");
    assert_eq!(archive_path_for("/home/u/report.txt", "/home/u", "age.tar.zst"), "/home/u/report.age.tar.zst");
    assert_eq!(archive_path_for("/home/u/photos", "out", "7z"), "out/photos.7z");
    assert!(matches!(check_overwrite("/a.7z", true, false, false), Err(RamzError::ArchiveExists(p)) if p == "/a.7z"));
    assert!(check_overwrite("/a.7z", true, true, false).is_ok());
    assert!(check_overwrite("/a.7z", true, false, true).is_ok());
    assert!(check_overwrite("/a.7z", false, false, false).is_ok());
    assert_eq!(backend_for_archive("/x/data.7z"), BackendChoice::SevenZ);
    assert_eq!(backend_for_archive("/x/data.age.tar.zst"), BackendChoice::Age);
    assert_eq!(extract_dir_for("/x/data.7z", None), "data");
    assert_eq!(extract_dir_for("/x/data.7z", Some("out")), "out");
}

#[test]
fn age_backend_selection() {
    let b = select_age_backend(None, true, true);
    let tar = tar_of("m.txt", b"m");
    let mut opts = options(Some("pw"), 1);
    opts.argon2_memory_kib = 64;
    opts.argon2_iterations = 1;
    opts.argon2_parallelism = 1;
    assert_eq!(b.encrypt_archive(&tar, 1, &opts).unwrap()[4], 0x03);
    let b = select_age_backend(None, false, true);
    assert_eq!(b.encrypt_archive(&tar, 1, &opts).unwrap()[4], 0x01);
}

#[test]
fn identity_locations() {
    assert_eq!(identity_dir(Some("/keys"), Some("/home/u")), "/keys");
    assert_eq!(identity_dir(None, Some("/home/u")), "/home/u/.config/ramz");
    assert_eq!(identity_dir(None, None), ".");
    assert_eq!(identity_paths("/keys"), ("/keys/identity.pub".to_string(), "/keys/identity".to_string()));
    assert_eq!(public_identity_path("/keys/identity"), "/keys/identity.pub");
    assert!(check_identity_free(false, false).is_ok());
    assert!(matches!(check_identity_free(true, false), Err(RamzError::ArchiveExists(_))));
    assert_eq!(given_identity_password(Some("pw")), Some("pw".to_string()));
    assert_eq!(given_identity_password(Some("")), None);
    assert_eq!(given_identity_password(None), None);
}

#[test]
fn zstd_payloads() {
    let data = vec![b'z'; 4096];
    let compressed = ramz::compression::compress_payload(&data, 3).unwrap();
    assert_eq!(&compressed[0..4], &[0x28, 0xB5, 0x2F, 0xFD]);
    assert!(compressed.len() < data.len());
    assert_eq!(ramz::compression::decompress_zstd(&compressed).unwrap(), data);
    match ramz::compression::decompress_zstd(b"not zstd at all") {
        Err(RamzError::Backend(m)) => assert!(m.starts_with("zstd ")),
        _ => panic!("expected a refusal"),
    }
}

#[test]
fn verify_refuses_a_payload_that_is_not_tar() {
    let junk = vec![0x41u8; 1024];
    let backend = AgeBackend::new_with_argon2id();
    let mut opts = options(Some("pw"), 3);
    opts.argon2_memory_kib = 64;
    opts.argon2_iterations = 1;
    opts.argon2_parallelism = 1;
    let archive = backend.encrypt_archive(&junk, 3, &opts).unwrap();
    assert_eq!(backend.decrypt_archive(&archive, Some("pw"), None).unwrap(), junk);
    assert!(matches!(backend.verify_archive(&archive, Some("pw"), None), Err(RamzError::Backend(_))));
}

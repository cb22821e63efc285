use ramz::archive::{PackOptions, SourceKind, Target};
use ramz::compression::{effective_compression_level, is_already_compressed};
use ramz::dry_run::{
    dry_run_output_path, encryption_overhead, format_size, split_by_compression, tar_overhead, total_size,
};
use ramz::error::RamzError;
use ramz::{read_and_confirm_password, safe_output_dir};

#[test]
fn test_is_already_compressed_png() {
    assert!(is_already_compressed("image.png"));
}

#[test]
fn test_is_already_compressed_txt() {
    assert!(!is_already_compressed("file.txt"));
}

#[test]
fn test_effective_compression_level_for_compressed() {
    let level = effective_compression_level("image.png", 9);
    assert_eq!(level, 1);
}

#[test]
fn test_effective_compression_level_for_text() {
    let level = effective_compression_level("file.txt", 9);
    assert_eq!(level, 9);
}

#[test]
fn compressed_extension_is_case_insensitive() {
    assert!(is_already_compressed("/photos/HOLIDAY.JPG"));
    assert!(is_already_compressed("report.PDF"));
    assert!(!is_already_compressed("archive"));
    assert!(!is_already_compressed(".png"));
}

#[test]
fn compression_level_is_clamped_for_compressible_files() {
    assert_eq!(effective_compression_level("notes.txt", 0), 1);
    assert_eq!(effective_compression_level("notes.txt", 30), 22);
    assert_eq!(effective_compression_level("notes.txt", 22), 22);
    assert_eq!(effective_compression_level("clip.mp4", 22), 1);
}

#[test]
fn test_format_size() {
    assert_eq!(format_size(0), "0 B");
    assert_eq!(format_size(1024), "1.00 KB");
    assert_eq!(format_size(1024 * 1024), "1.00 MB");
    assert_eq!(format_size(1024 * 1024 * 1024), "1.00 GB");
}

/// The size text as floating-point arithmetic and formatting produce it.
fn float_size_text(bytes: u64) -> String {
    let units = ["B", "KB", "MB", "GB", "TB"];
    if bytes == 0 {
        return "0 B".to_string();
    }
    let exp = (bytes as f64).log(1024.0).min(units.len() as f64 - 1.0) as usize;
    let size = bytes as f64 / 1024f64.powi(exp as i32);
    format!("{:.2} {}", size, units[exp])
}

#[test]
fn format_size_matches_float_formatting() {
    let mut samples: Vec<u64> = vec![
        1,
        5,
        999,
        1023,
        1025,
        1152,
        1536,
        1200,
        10_000,
        123_456_789,
        1_048_575,
        1_048_577,
        (1u64 << 30) - 1,
        (1u64 << 40) - 1,
        1u64 << 40,
        (1u64 << 40) + 1,
        1u64 << 50,
        (1u64 << 53) - 1,
        1u64 << 53,
        (1u64 << 53) + 1,
        (1u64 << 53) + 3,
        (1u64 << 60) + 12345,
        u64::MAX - 1,
        u64::MAX,
    ];
    let mut x: u64 = 0x9E37_79B9_7F4A_7C15;
    for _ in 0..2000 {
        x ^= x << 13;
        x ^= x >> 7;
        x ^= x << 17;
        samples.push(x >> (x % 64));
    }
    for k in 0..64u32 {
        let p = 1u64 << k;
        samples.push(p);
        samples.push(p.wrapping_sub(1));
        samples.push(p.wrapping_add(1));
    }
    for b in samples {
        assert_eq!(format_size(b), float_size_text(b), "bytes = {}", b);
    }
}

#[test]
fn format_size_rounds_to_hundredths() {
    assert_eq!(format_size(5), "5.00 B");
    assert_eq!(format_size(1536), "1.50 KB");
    assert_eq!(format_size(1_048_575), "1024.00 KB");
    assert_eq!(format_size(1u64 << 50), "1024.00 TB");
}

#[test]
fn test_read_and_confirm_password_match() {
    let result = read_and_confirm_password(|| Ok("password".to_string()), || Ok("password".to_string()));
    assert_eq!(result.unwrap(), "password");
}

#[test]
fn test_read_and_confirm_password_mismatch() {
    let result = read_and_confirm_password(|| Ok("password1".to_string()), || Ok("password2".to_string()));
    assert!(matches!(result, Err(RamzError::PasswordMismatch)));
}

#[test]
fn test_read_and_confirm_password_empty() {
    let result = read_and_confirm_password(|| Ok("".to_string()), || Ok("".to_string()));
    assert!(matches!(result, Err(RamzError::EmptyPassword)));
}

#[test]
fn read_and_confirm_password_passes_io_errors_on() {
    let result = read_and_confirm_password(
        || Err(std::io::Error::new(std::io::ErrorKind::Other, "no terminal")),
        || Ok("never read".to_string()),
    );
    assert!(matches!(result, Err(RamzError::Io(_))));
}

#[test]
fn test_safe_output_dir_with_explicit() {
    let tmp = tempfile::TempDir::new().unwrap();
    let out = tmp.path().join("output");
    let out_text = out.to_string_lossy().into_owned();
    let result = safe_output_dir("/some/file.txt", Some(out_text.as_str()));
    assert_eq!(result, out_text);
}

#[test]
fn test_safe_output_dir_from_file() {
    let result = safe_output_dir("/some/file.txt", None);
    assert_eq!(result, "/some");
}

#[test]
fn test_safe_output_dir_from_root() {
    let result = safe_output_dir("/file.txt", None);
    assert_eq!(result, ".");
}

#[test]
fn safe_output_dir_of_a_bare_name_is_the_current_directory() {
    assert_eq!(safe_output_dir("file.txt", None), ".");
    assert_eq!(safe_output_dir("dir/file.txt", None), "dir");
}

#[test]
fn test_target_detect_nonexistent() {
    let tmp = tempfile::TempDir::new().unwrap();
    let path = tmp.path().join("nonexistent");
    let text = path.to_string_lossy().into_owned();
    let result = Target::check_source(text.as_str(), path.exists(), path.is_dir(), false);
    assert!(matches!(result, Err(RamzError::PathNotFound(_))));
}

#[test]
fn check_source_classifies_paths() {
    assert!(matches!(Target::check_source("d", true, true, false), Err(RamzError::EmptySource(p)) if p == "d"));
    assert!(matches!(Target::check_source("d", true, true, true), Ok(SourceKind::Directory)));
    assert!(matches!(Target::check_source("f", true, false, false), Ok(SourceKind::File)));
}

#[test]
fn pack_options_defaults() {
    let o = PackOptions::default();
    assert!(o.password.is_none());
    assert_eq!(o.compression_level, 9);
    assert_eq!((o.argon2_memory_kib, o.argon2_iterations, o.argon2_parallelism), (65536, 3, 4));
    assert!(!o.delete_source && !o.force_overwrite && !o.secure_delete);
    assert!(o.output_dir.is_none());
}

#[test]
fn error_messages_match_their_display_texts() {
    assert_eq!(RamzError::PathNotFound("/x".to_string()).message(), "path not found: /x");
    assert_eq!(RamzError::PasswordMismatch.message(), "passwords do not match");
    assert_eq!(RamzError::EmptyPassword.message(), "empty password not allowed");
    assert_eq!(RamzError::Backend("boom".to_string()).message(), "backend engine error: boom");
    assert_eq!(
        RamzError::IncompatibleFlag("x".to_string()).message(),
        "incompatible backend flag: x"
    );
    assert_eq!(RamzError::DryRunAborted.message(), "dry run aborted");
}

#[test]
fn dry_run_overheads() {
    assert_eq!(encryption_overhead("age"), 1024);
    assert_eq!(encryption_overhead("7z"), 512);
    assert_eq!(tar_overhead(SourceKind::Directory, 3), 1536);
    assert_eq!(tar_overhead(SourceKind::File, 3), 512);
}

#[test]
fn dry_run_output_paths() {
    assert_eq!(dry_run_output_path("/data/report.txt", None, "age"), "/data/report.age.tar.zst");
    assert_eq!(dry_run_output_path("/data/report.txt", None, "7z"), "/data/report.7z");
    assert_eq!(dry_run_output_path("/data/report.txt", Some("/out"), "age"), "/out/report.age.tar.zst");
}

#[test]
fn dry_run_splits_files_by_compression() {
    let paths = vec!["mixed/text.txt".to_string(), "mixed/photo.jpg".to_string(), "mixed/b.gz".to_string()];
    let split = split_by_compression(&paths, &[1000, 5000, 7]);
    assert_eq!(split.already_compressed, vec!["mixed/photo.jpg".to_string(), "mixed/b.gz".to_string()]);
    assert_eq!(split.compressible, vec!["mixed/text.txt".to_string()]);
    assert_eq!(split.already_compressed_bytes, 5007);
    assert_eq!(total_size(&[1000, 5000, 7]), 6007);
    assert_eq!(total_size(&[]), 0);
}

#[test]
fn io_errors_convert_into_ramz_errors() {
    let e: RamzError = std::io::Error::new(std::io::ErrorKind::NotFound, "gone").into();
    assert!(matches!(e, RamzError::Io(_)));
    assert_eq!(e.message(), "gone");
}

//! The vocabulary shared by every backend: what is packed, with which
//! options, how progress is reported, and how passwords are confirmed.

use vstd::prelude::*;
use crate::error::RamzError;

verus! {

/// Whether a source is a single file or a directory tree.
#[derive(Debug, Clone, Copy, PartialEq, Eq, Structural)]
pub enum SourceKind {
    File,
    Directory,
}

/// A source to pack: its path, kind, and total size of its files in bytes.
#[derive(Debug, Clone)]
pub struct Target {
    pub path: String,
    pub kind: SourceKind,
    pub total_bytes: u64,
}

impl Target {
    /// Decides what a path is from what the file system says of it: a path
    /// that does not exist and an empty directory are refused.
    pub fn check_source(path: &str, exists: bool, is_dir: bool, has_entries: bool) -> (r: Result<SourceKind, RamzError>)
        ensures
            !exists ==> (r matches Err(RamzError::PathNotFound(p)) && p@ == path@),
            exists && is_dir && !has_entries ==> (r matches Err(RamzError::EmptySource(p)) && p@ == path@),
            exists && is_dir && has_entries ==> r == Ok::<SourceKind, RamzError>(SourceKind::Directory),
            exists && !is_dir ==> r == Ok::<SourceKind, RamzError>(SourceKind::File),
    {
        if !exists {
            return Err(RamzError::PathNotFound(path.to_owned()));
        }
        if is_dir {
            if !has_entries {
                return Err(RamzError::EmptySource(path.to_owned()));
            }
            Ok(SourceKind::Directory)
        } else {
            Ok(SourceKind::File)
        }
    }
}

/// Receives progress while an archive is written.
pub trait ProgressReporter {
    fn set_total(&mut self, total_bytes: u64);

    fn on_progress(&mut self, processed_bytes: u64);

    fn finish(&mut self, message: &str);
}

/// A progress reporter that ignores everything.
pub struct NullProgress;

impl ProgressReporter for NullProgress {
    fn set_total(&mut self, _total_bytes: u64) {
    }

    fn on_progress(&mut self, _processed_bytes: u64) {
    }

    fn finish(&mut self, _message: &str) {
    }
}

/// How to pack a source.
#[derive(Debug, Clone)]
pub struct PackOptions {
    pub password: Option<String>,
    pub compression_level: u8,
    pub delete_source: bool,
    pub output_dir: Option<String>,
    pub force_overwrite: bool,
    pub argon2_memory_kib: u32,
    pub argon2_iterations: u32,
    pub argon2_parallelism: u32,
    pub secure_delete: bool,
}

impl Default for PackOptions {
    fn default() -> (o: Self)
        ensures
            o.password is None,
            o.compression_level == 9,
            !o.delete_source,
            o.output_dir is None,
            !o.force_overwrite,
            o.argon2_memory_kib == 65536,
            o.argon2_iterations == 3,
            o.argon2_parallelism == 4,
            !o.secure_delete,
    {
        PackOptions {
            password: None,
            compression_level: 9,
            delete_source: false,
            output_dir: None,
            force_overwrite: false,
            argon2_memory_kib: 65536,
            argon2_iterations: 3,
            argon2_parallelism: 4,
            secure_delete: false,
        }
    }
}

/// What every backend tells about itself.
pub trait Backend {
    fn name(&self) -> &'static str;

    fn extension(&self) -> &'static str;

    fn requires_external_binary(&self) -> bool;
}

/// Accepts a password typed twice: the two must match and must not be empty.
pub fn confirm_passwords(p1: String, p2: String) -> (r: Result<String, RamzError>)
    ensures
        p1@ != p2@ ==> (r matches Err(RamzError::PasswordMismatch)),
        p1@ == p2@ && p1@.len() == 0 ==> (r matches Err(RamzError::EmptyPassword)),
        p1@ == p2@ && p1@.len() > 0 ==> (r matches Ok(p) && p@ == p1@),
{
    if !(p1 == p2) {
        return Err(RamzError::PasswordMismatch);
    }
    if p1.as_str().is_empty() {
        return Err(RamzError::EmptyPassword);
    }
    Ok(p1)
}

/// The outcome [`confirm_passwords`] gives for two typed passwords.
pub open spec fn confirmed_as(p1: String, p2: String, r: Result<String, RamzError>) -> bool {
    &&& (p1@ != p2@ ==> (r matches Err(RamzError::PasswordMismatch)))
    &&& (p1@ == p2@ && p1@.len() == 0 ==> (r matches Err(RamzError::EmptyPassword)))
    &&& (p1@ == p2@ && p1@.len() > 0 ==> (r matches Ok(p) && p@ == p1@))
}

/// Reads a password twice with the two readers and confirms it; a reader's
/// I/O error is returned as is, and the second reader is not called when the
/// first fails.
pub fn read_and_confirm_password<F1, F2>(read1: F1, read2: F2) -> (r: Result<String, RamzError>) where
    F1: FnOnce() -> std::io::Result<String>,
    F2: FnOnce() -> std::io::Result<String>,

    requires
        read1.requires(()),
        read2.requires(()),
    ensures
        exists|r1: std::io::Result<String>| #[trigger] read1.ensures((), r1) && match r1 {
            Err(e) => r == Err::<String, RamzError>(RamzError::Io(e)),
            Ok(p1) => exists|r2: std::io::Result<String>| #[trigger] read2.ensures((), r2) && match r2 {
                Err(e) => r == Err::<String, RamzError>(RamzError::Io(e)),
                Ok(p2) => confirmed_as(p1, p2, r),
            },
        },
{
    let r1 = read1();
    let p1 = match r1 {
        Ok(p) => p,
        Err(e) => {
            assert(read1.ensures((), Err::<String, std::io::Error>(e)));
            return Err(RamzError::Io(e));
        },
    };
    let r2 = read2();
    let p2 = match r2 {
        Ok(p) => p,
        Err(e) => {
            assert(read2.ensures((), Err::<String, std::io::Error>(e)));
            return Err(RamzError::Io(e));
        },
    };
    let ghost g1 = p1;
    let ghost g2 = p2;
    let r = confirm_passwords(p1, p2);
    assert(read2.ensures((), Ok::<String, std::io::Error>(g2)));
    assert(read1.ensures((), Ok::<String, std::io::Error>(g1)));
    r
}

} // verus!

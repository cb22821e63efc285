//! The default backend: zstd-compressed tar archives encrypted either in the
//! standard age passphrase format or in the `RMZ1` container.

use vstd::prelude::*;
use crate::archive::{Backend, PackOptions, SourceKind, Target};
use crate::compression::{compress_payload, decompress_zstd, effective_compression_level, effective_level};
use crate::container::magic;
use crate::container_open::{open_container, open_outcome, opt_chars, opt_text, reports};
use crate::container_seal::{
    ContainerMode, kem_correct_for, law_hybrid_container_opens, law_password_container_opens,
    law_recipient_container_opens, needs_password, seal_container, seal_owed, sealed_as, wrapped_seed,
};
use crate::error::{RamzError, backend_error, backend_message, is_backend_error, is_backend_error_with_prefix};
use crate::identity::Identity;
use crate::primitives::{age_passphrase_plaintext, age_v1_magic, AgeOpenFailure, AgeSealFailure, age_header_kind, age_header_passphrase, age_passphrase_decrypt, age_passphrase_encrypt, tar_check_entries, tar_entries_readable, zstd_decoded, zstd_encoded, mlkem768_encapsulation_key};

verus! {

/// The age backend, in one of its four modes.
pub struct AgeBackend {
    container: Option<ContainerMode>,
}

impl AgeBackend {
    /// The `RMZ1` mode of this backend, or `None` for the standard age format.
    pub closed spec fn mode(&self) -> Option<ContainerMode> {
        self.container
    }

    /// The backend writing the standard age passphrase format.
    pub fn new() -> (b: Self)
        ensures
            b.mode() is None,
    {
        AgeBackend { container: None }
    }

    /// The backend writing `RMZ1` containers keyed with Argon2id.
    pub fn new_with_argon2id() -> (b: Self)
        ensures
            b.mode() == Some(ContainerMode::Argon2id),
    {
        AgeBackend { container: Some(ContainerMode::Argon2id) }
    }

    /// The backend writing `RMZ1` containers with the ML-KEM hybrid layer.
    pub fn new_with_mlkem() -> (b: Self)
        ensures
            b.mode() == Some(ContainerMode::MlKemHybrid),
    {
        AgeBackend { container: Some(ContainerMode::MlKemHybrid) }
    }

    /// The backend writing `RMZ1` containers sealed to a recipient's public
    /// (encapsulation) key.
    pub fn new_with_recipient(recipient_pub_key: Vec<u8>) -> (b: Self)
        ensures
            b.mode() == Some(ContainerMode::Recipient(recipient_pub_key)),
    {
        AgeBackend { container: Some(ContainerMode::Recipient(recipient_pub_key)) }
    }
}

impl Default for AgeBackend {
    fn default() -> (b: Self)
        ensures
            b.mode() is None,
    {
        AgeBackend::new()
    }
}

impl Backend for AgeBackend {
    fn name(&self) -> (n: &'static str)
        ensures
            n@ == "age"@,
    {
        "age"
    }

    fn extension(&self) -> (e: &'static str)
        ensures
            e@ == "age.tar.zst"@,
    {
        "age.tar.zst"
    }

    fn requires_external_binary(&self) -> (b: bool)
        ensures
            !b,
    {
        false
    }
}

/// Whether `raw` begins with the `RMZ1` magic.
pub open spec fn is_container(raw: Seq<u8>) -> bool {
    raw.len() >= 4 && raw.subrange(0, 4) == magic()
}

/// The archive contents (the tar stream) that an `RMZ1` container holds for
/// the given secrets, when opening and decompressing both succeed.
pub open spec fn container_contents(raw: Seq<u8>, password: Option<Seq<char>>, identity_secret: Option<Seq<u8>>) -> Option<Seq<u8>> {
    match open_outcome(raw, password, identity_secret) {
        Ok(c) => zstd_decoded(c),
        Err(_) => None,
    }
}

/// The secret key of an optional identity.
pub open spec fn identity_secret(identity: Option<&Identity>) -> Option<Seq<u8>> {
    match identity {
        Some(id) => Some(id.decapsulation_key@),
        None => None,
    }
}

/// `bytes` is a standard age file (not an `RMZ1` container) with a
/// passphrase header, which decrypts with `password` to `plaintext`.
pub open spec fn standard_age_file(bytes: Seq<u8>, password: Seq<char>, plaintext: Seq<u8>) -> bool {
    &&& !is_container(bytes)
    &&& bytes.len() >= 21
    &&& bytes.subrange(0, 21) == age_v1_magic()
    &&& age_header_passphrase(bytes) == Some(true)
    &&& age_passphrase_plaintext(bytes, password) == plaintext
}

/// What the standard age path reports before any decryption is attempted.
pub open spec fn age_refusal<T>(raw: Seq<u8>, password: Option<Seq<char>>, r: Result<T, RamzError>) -> bool {
    match age_header_passphrase(raw) {
        None => is_backend_error_with_prefix(r, "age decrypt init: "@),
        Some(false) => is_backend_error(r, "age archive requires passphrase decryption"@),
        Some(true) => password is None ==> is_backend_error(r, "age requires a password"@),
    }
}

fn starts_with_container_magic(raw: &[u8]) -> (b: bool)
    ensures
        b == is_container(raw@),
{
    if raw.len() < 4 {
        return false;
    }
    let b = raw[0] == 0x52u8 && raw[1] == 0x4du8 && raw[2] == 0x5au8 && raw[3] == 0x31u8;
    assert(b == (raw@.subrange(0, 4) =~= magic()));
    b
}

impl AgeBackend {
    /// The zstd level used for a target: the content-aware level for a single
    /// file, the requested level for a directory.
    pub fn compression_level_for(target: &Target, opts: &PackOptions) -> (level: u8)
        ensures
            target.kind == SourceKind::File ==> level == effective_level(target.path@, opts.compression_level),
            target.kind == SourceKind::Directory ==> level == opts.compression_level,
    {
        match target.kind {
            SourceKind::File => effective_compression_level(target.path.as_str(), opts.compression_level),
            SourceKind::Directory => opts.compression_level,
        }
    }

    /// Compresses a tar stream and encrypts it in this backend's format,
    /// returning the archive's bytes.
    pub fn encrypt_archive(&self, tar: &[u8], level: u8, opts: &PackOptions) -> (r: Result<Vec<u8>, RamzError>)
        ensures
            self.mode() is Some && r is Ok ==> sealed_as(
                self.mode().unwrap(),
                r.unwrap()@,
                opt_text(opts.password),
                opts.argon2_memory_kib,
                opts.argon2_iterations,
                opts.argon2_parallelism,
                zstd_encoded(tar@, level as i32),
            ) && zstd_decoded(zstd_encoded(tar@, level as i32)) == Some(tar@),
            self.mode() is Some && seal_owed(
                self.mode().unwrap(),
                zstd_encoded(tar@, level as i32),
                opt_text(opts.password),
                opts.argon2_memory_kib,
                opts.argon2_iterations,
                opts.argon2_parallelism,
            ) ==> r is Ok,
            self.mode() is Some && needs_password(self.mode().unwrap()) && opts.password is None ==> (r matches Err(
                e,
            ) && e is Backend),
            self.mode() is None && opts.password is None ==> (r matches Err(e) && e is Backend),
            self.mode() is None && opts.password is Some ==> r is Ok,
            self.mode() is None && r is Ok ==> opts.password is Some && standard_age_file(
                r.unwrap()@,
                opts.password.unwrap()@,
                zstd_encoded(tar@, level as i32),
            ) && zstd_decoded(zstd_encoded(tar@, level as i32)) == Some(tar@),
    {
        let compressed = match compress_payload(tar, level) {
            Ok(c) => c,
            Err(e) => return Err(e),
        };
        let password = match &opts.password {
            Some(p) => Some(p.as_str()),
            None => None,
        };
        match &self.container {
            Some(mode) => {
                let r = seal_container(
                    mode,
                    compressed.as_slice(),
                    password,
                    opts.argon2_memory_kib,
                    opts.argon2_iterations,
                    opts.argon2_parallelism,
                );
                proof {
                    assert(opt_chars(password) == opt_text(opts.password));
                }
                r
            },
            None => {
                proof {
                    reveal_strlit("age requires a password");
                }
                let pw = match password {
                    Some(p) => p,
                    None => return Err(backend_message("age requires a password")),
                };
                match age_passphrase_encrypt(compressed.as_slice(), pw) {
                    Ok(bytes) => {
                        proof {
                            assert(bytes@[0] == age_v1_magic()[0]);
                            assert(bytes@.subrange(0, 4)[0] != magic()[0]);
                        }
                        Ok(bytes)
                    },
                    Err(AgeSealFailure::Init(m)) => Err(backend_error("age encrypt init: ", m.as_str())),
                    Err(AgeSealFailure::Write(m)) => Err(RamzError::Backend(m)),
                    Err(AgeSealFailure::Finish(m)) => Err(backend_error("age encrypt finish: ", m.as_str())),
                }
            },
        }
    }

    /// Decrypts an archive in the standard age passphrase format, returning
    /// the decrypted (still compressed) stream.
    pub fn decrypt_age(&self, raw: &[u8], password: Option<&str>) -> (r: Result<Vec<u8>, RamzError>)
        ensures
            age_refusal(raw@, opt_chars(password), r),
            r matches Ok(v) ==> password is Some && v@ == age_passphrase_plaintext(raw@, password.unwrap()@),
    {
        proof {
            reveal_strlit("age decrypt init: ");
            reveal_strlit("age archive requires passphrase decryption");
            reveal_strlit("age requires a password");
        }
        match age_header_kind(raw) {
            Err(m) => {
                let err = backend_error("age decrypt init: ", m.as_str());
                proof {
                    if let RamzError::Backend(t) = &err {
                        assert(t@.take(18) =~= "age decrypt init: "@);
                    }
                }
                Err(err)
            },
            Ok(false) => Err(backend_message("age archive requires passphrase decryption")),
            Ok(true) => {
                let pw = match password {
                    Some(p) => p,
                    None => return Err(backend_message("age requires a password")),
                };
                match age_passphrase_decrypt(raw, pw) {
                    Ok(v) => Ok(v),
                    Err(AgeOpenFailure::Init(m)) => Err(backend_error("age decrypt init: ", m.as_str())),
                    Err(AgeOpenFailure::NotPassphrase) => Err(backend_message("age archive requires passphrase decryption")),
                    Err(AgeOpenFailure::Decrypt(m)) => Err(backend_error("age decrypt: ", m.as_str())),
                    Err(AgeOpenFailure::Read(e)) => Err(RamzError::Io(e)),
                }
            },
        }
    }

    /// Decrypts and decompresses an archive of any supported format,
    /// returning its tar stream. `RMZ1` containers are recognised by their
    /// magic; anything else is read as a standard age file.
    pub fn decrypt_archive(&self, raw: &[u8], password: Option<&str>, identity: Option<&Identity>) -> (r: Result<Vec<u8>, RamzError>)
        ensures
            is_container(raw@) ==> match open_outcome(raw@, opt_chars(password), identity_secret(identity)) {
                Ok(c) => match zstd_decoded(c) {
                    Some(t) => r matches Ok(v) && v@ == t,
                    None => r matches Err(e) && e is Backend,
                },
                Err(f) => reports(r, f),
            },
            !is_container(raw@) ==> age_refusal(raw@, opt_chars(password), r),
            !is_container(raw@) && r is Ok ==> password is Some && zstd_decoded(
                age_passphrase_plaintext(raw@, password.unwrap()@),
            ) == Some(r.unwrap()@),
    {
        if starts_with_container_magic(raw) {
            let secret = match identity {
                Some(id) => Some(id.decapsulation_key.as_slice()),
                None => None,
            };
            let compressed = match open_container(raw, password, secret) {
                Ok(c) => c,
                Err(e) => return Err(e),
            };
            decompress_zstd(compressed.as_slice())
        } else {
            let decrypted = match self.decrypt_age(raw, password) {
                Ok(d) => d,
                Err(e) => return Err(e),
            };
            decompress_zstd(decrypted.as_slice())
        }
    }

    /// Checks an archive: it must decrypt and decompress, and every entry of
    /// the tar stream inside must read cleanly.
    pub fn verify_archive(&self, raw: &[u8], password: Option<&str>, identity: Option<&Identity>) -> (r: Result<(), RamzError>)
        ensures
            is_container(raw@) ==> match open_outcome(raw@, opt_chars(password), identity_secret(identity)) {
                Ok(c) => match zstd_decoded(c) {
                    Some(t) => (r is Ok <==> tar_entries_readable(t)) && (r matches Err(e) ==> e is Backend),
                    None => r matches Err(e) && e is Backend,
                },
                Err(f) => reports(r, f),
            },
            !is_container(raw@) ==> age_refusal(raw@, opt_chars(password), r),
            !is_container(raw@) && r is Ok ==> password is Some && (zstd_decoded(
                age_passphrase_plaintext(raw@, password.unwrap()@),
            ) matches Some(t) && tar_entries_readable(t)),
    {
        let tar = match self.decrypt_archive(raw, password, identity) {
            Ok(t) => t,
            Err(e) => return Err(e),
        };
        match tar_check_entries(tar.as_slice()) {
            Ok(()) => Ok(()),
            Err(m) => Err(RamzError::Backend(m)),
        }
    }
}

/// An archive written in the Argon2id container mode reads back, with the
/// password it was written with, as the tar stream it was written from.
pub proof fn law_archive_roundtrip(
    bytes: Seq<u8>,
    tar: Seq<u8>,
    level: u8,
    password: Option<Seq<char>>,
    memory_kib: u32,
    iterations: u32,
    parallelism: u32,
    identity_secret: Option<Seq<u8>>,
)
    requires
        sealed_as(
            ContainerMode::Argon2id,
            bytes,
            password,
            memory_kib,
            iterations,
            parallelism,
            zstd_encoded(tar, level as i32),
        ),
        zstd_decoded(zstd_encoded(tar, level as i32)) == Some(tar),
    ensures
        is_container(bytes),
        container_contents(bytes, password, identity_secret) == Some(tar),
{
    law_password_container_opens(
        bytes,
        password,
        memory_kib,
        iterations,
        parallelism,
        zstd_encoded(tar, level as i32),
        identity_secret,
    );
}

/// An archive written in the hybrid container mode reads back, with the
/// password it was written with, as the tar stream it was written from,
/// given ML-KEM's correctness for the key pair whose seed it wraps.
pub proof fn law_hybrid_archive_roundtrip(
    bytes: Seq<u8>,
    tar: Seq<u8>,
    level: u8,
    password: Option<Seq<char>>,
    memory_kib: u32,
    iterations: u32,
    parallelism: u32,
    identity_secret: Option<Seq<u8>>,
)
    requires
        sealed_as(
            ContainerMode::MlKemHybrid,
            bytes,
            password,
            memory_kib,
            iterations,
            parallelism,
            zstd_encoded(tar, level as i32),
        ),
        zstd_decoded(zstd_encoded(tar, level as i32)) == Some(tar),
        kem_correct_for(wrapped_seed(bytes, password, memory_kib, iterations, parallelism)),
    ensures
        is_container(bytes),
        container_contents(bytes, password, identity_secret) == Some(tar),
{
    law_hybrid_container_opens(
        bytes,
        password,
        memory_kib,
        iterations,
        parallelism,
        zstd_encoded(tar, level as i32),
        identity_secret,
    );
    reveal(sealed_as);
}

/// An archive written for a recipient reads back, whatever password is
/// given, as the tar stream it was written from, with the recipient's
/// identity (a seed whose encapsulation key is the recipient key), given
/// ML-KEM's correctness for that key pair.
pub proof fn law_recipient_archive_roundtrip(
    bytes: Seq<u8>,
    tar: Seq<u8>,
    level: u8,
    recipient_key: Vec<u8>,
    password: Option<Seq<char>>,
    memory_kib: u32,
    iterations: u32,
    parallelism: u32,
    seed: Seq<u8>,
    any_password: Option<Seq<char>>,
)
    requires
        sealed_as(
            ContainerMode::Recipient(recipient_key),
            bytes,
            password,
            memory_kib,
            iterations,
            parallelism,
            zstd_encoded(tar, level as i32),
        ),
        zstd_decoded(zstd_encoded(tar, level as i32)) == Some(tar),
        seed.len() == 64,
        mlkem768_encapsulation_key(seed) == recipient_key@,
        kem_correct_for(seed),
    ensures
        is_container(bytes),
        container_contents(bytes, any_password, Some(seed)) == Some(tar),
{
    law_recipient_container_opens(
        bytes,
        recipient_key,
        password,
        memory_kib,
        iterations,
        parallelism,
        zstd_encoded(tar, level as i32),
        seed,
        any_password,
    );
    reveal(sealed_as);
}

/// An archive written in the standard age format holds, for the password it
/// was written with, the compressed tar stream it was written from: when
/// decrypting it succeeds, it reads back as that tar stream.
pub proof fn law_age_archive_roundtrip(bytes: Seq<u8>, tar: Seq<u8>, level: u8, password: Seq<char>)
    requires
        standard_age_file(bytes, password, zstd_encoded(tar, level as i32)),
        zstd_decoded(zstd_encoded(tar, level as i32)) == Some(tar),
    ensures
        !is_container(bytes),
        zstd_decoded(age_passphrase_plaintext(bytes, password)) == Some(tar),
{
}

} // verus!

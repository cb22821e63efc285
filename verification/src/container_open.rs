//! Opening an `RMZ1` container: the order in which its fields are read and
//! its keys are derived, and what each failure reports.

use vstd::prelude::*;
use crate::argon2_kdf::{derive_key, derived_key};
use crate::bytes::{le_u32_at, read_u32};
use crate::container::{FIXED_HEADER_LEN, KeyMaterialView, NONCE_LEN, mlkem_flag, parse_key_material, parse_length_prefixed, recipient_flag, FLAG_MLKEM, FLAG_RECIPIENT};
use crate::error::{RamzError, backend_error, backend_message, is_backend_error, is_backend_error_with_prefix};
use crate::mlkem_hybrid::{combine_secrets, combined_secret, decapsulate, decapsulation};
use crate::primitives::{chacha20poly1305_decrypt, chacha20poly1305_opened};

verus! {

/// The view of an optional string.
pub open spec fn opt_chars(o: Option<&str>) -> Option<Seq<char>> {
    match o {
        Some(s) => Some(s@),
        None => None,
    }
}

/// The view of an optional owned string.
pub open spec fn opt_text(o: Option<String>) -> Option<Seq<char>> {
    match o {
        Some(s) => Some(s@),
        None => None,
    }
}

/// The view of an optional byte string.
pub open spec fn opt_bytes(o: Option<&[u8]>) -> Option<Seq<u8>> {
    match o {
        Some(s) => Some(s@),
        None => None,
    }
}

/// Why opening a container failed.
pub enum OpenFailure {
    /// The bytes end before a field the header announces.
    Truncated,
    /// A recipient container was opened without an identity.
    MissingIdentity,
    /// A password container was opened without a password.
    MissingPassword,
    /// Argon2id refused the password, salt or costs.
    KeyDerivation,
    /// ML-KEM decapsulation refused its inputs, with the message it gave.
    Decapsulation(Seq<char>),
    /// Authentication of the wrapped key or of the payload failed.
    WrongSecret,
}

/// The error that [`open_container`] reports for each failure.
pub open spec fn reports<T>(r: Result<T, RamzError>, f: OpenFailure) -> bool {
    match f {
        OpenFailure::Truncated => is_backend_error(r, "truncated archive header"@),
        OpenFailure::MissingIdentity => is_backend_error(
            r,
            "recipient archive requires --identity to decrypt"@,
        ),
        OpenFailure::MissingPassword => is_backend_error(r, "age requires a password"@),
        OpenFailure::KeyDerivation => is_backend_error_with_prefix(r, "argon2 derive: "@),
        OpenFailure::Decapsulation(m) => is_backend_error(r, "mlkem decapsulate: "@ + m),
        OpenFailure::WrongSecret => is_backend_error(r, "wrong password or corrupted archive"@),
    }
}

/// The payload sealed at offset `at` under `key`: a 12-byte nonce, then the
/// ciphertext up to the end.
pub open spec fn payload_outcome(raw: Seq<u8>, at: int, key: Seq<u8>) -> Result<Seq<u8>, OpenFailure> {
    if at + NONCE_LEN > raw.len() {
        Err(OpenFailure::Truncated)
    } else {
        match chacha20poly1305_opened(
            key,
            raw.subrange(at, at + NONCE_LEN),
            raw.subrange(at + NONCE_LEN, raw.len() as int),
        ) {
            Some(p) => Ok(p),
            None => Err(OpenFailure::WrongSecret),
        }
    }
}

/// The Argon2id key for `password` under the costs and salt of the header.
pub open spec fn header_argon2_key(raw: Seq<u8>, password: Seq<char>) -> Option<Seq<u8>> {
    derived_key(
        password,
        raw.subrange(17, 33),
        le_u32_at(raw, 5),
        le_u32_at(raw, 9),
        le_u32_at(raw, 13),
    )
}

/// The payload key of a recipient container and the offset of its payload.
pub open spec fn recipient_key_schedule(raw: Seq<u8>, identity_secret: Option<Seq<u8>>) -> Result<
    (Seq<u8>, int),
    OpenFailure,
> {
    match identity_secret {
        None => Err(OpenFailure::MissingIdentity),
        Some(seed) => match parse_length_prefixed(raw, 33) {
            None => Err(OpenFailure::Truncated),
            Some((ct, next)) => match decapsulation(seed, ct) {
                Err(m) => Err(OpenFailure::Decapsulation(m)),
                Ok(ss) => Ok((ss, next)),
            },
        },
    }
}

/// The payload key of a hybrid container and the offset of its payload: the
/// Argon2id key is derived before the ML-KEM fields are read.
pub open spec fn hybrid_key_schedule(raw: Seq<u8>, password: Option<Seq<char>>) -> Result<
    (Seq<u8>, int),
    OpenFailure,
> {
    match password {
        None => Err(OpenFailure::MissingPassword),
        Some(pw) => match header_argon2_key(raw, pw) {
            None => Err(OpenFailure::KeyDerivation),
            Some(k) => match parse_key_material(raw[4], raw, 33) {
                Some((KeyMaterialView::Hybrid { mlkem_ct, dk_nonce, dk_encrypted }, next)) =>
                    match chacha20poly1305_opened(k, dk_nonce, dk_encrypted) {
                    None => Err(OpenFailure::WrongSecret),
                    Some(dk) => match decapsulation(dk, mlkem_ct) {
                        Err(m) => Err(OpenFailure::Decapsulation(m)),
                        Ok(ss) => Ok((combined_secret(k, ss), next)),
                    },
                },
                _ => Err(OpenFailure::Truncated),
            },
        },
    }
}

/// The payload key of an Argon2id-only container and the offset of its payload.
pub open spec fn password_key_schedule(raw: Seq<u8>, password: Option<Seq<char>>) -> Result<
    (Seq<u8>, int),
    OpenFailure,
> {
    match password {
        None => Err(OpenFailure::MissingPassword),
        Some(pw) => match header_argon2_key(raw, pw) {
            None => Err(OpenFailure::KeyDerivation),
            Some(k) => Ok((k, 33int)),
        },
    }
}

/// The payload key of the container `raw` and the offset of its payload; the
/// recipient bit takes priority over the hybrid bit.
pub open spec fn key_schedule(
    raw: Seq<u8>,
    password: Option<Seq<char>>,
    identity_secret: Option<Seq<u8>>,
) -> Result<(Seq<u8>, int), OpenFailure> {
    if raw.len() < FIXED_HEADER_LEN {
        Err(OpenFailure::Truncated)
    } else if recipient_flag(raw[4]) {
        recipient_key_schedule(raw, identity_secret)
    } else if mlkem_flag(raw[4]) {
        hybrid_key_schedule(raw, password)
    } else {
        password_key_schedule(raw, password)
    }
}

/// What opening the container `raw` gives with an optional password and an
/// optional identity secret key: the fixed header is read, the payload key is
/// computed as [`key_schedule`] describes, and the payload is decrypted.
pub open spec fn open_outcome(
    raw: Seq<u8>,
    password: Option<Seq<char>>,
    identity_secret: Option<Seq<u8>>,
) -> Result<Seq<u8>, OpenFailure> {
    match key_schedule(raw, password, identity_secret) {
        Err(f) => Err(f),
        Ok((k, at)) => payload_outcome(raw, at, k),
    }
}

/// `r` is the key and offset that [`key_schedule`] describes.
pub open spec fn scheduled_as(r: Result<(Vec<u8>, usize), RamzError>, o: Result<(Seq<u8>, int), OpenFailure>) -> bool {
    match o {
        Ok((k, at)) => r matches Ok((key, pos)) && key@ == k && pos == at,
        Err(f) => match r {
            Ok(_) => false,
            Err(e) => reports(Err::<Vec<u8>, RamzError>(e), f),
        },
    }
}

/// `r` is what [`open_outcome`] describes.
pub open spec fn opened_as(r: Result<Vec<u8>, RamzError>, o: Result<Seq<u8>, OpenFailure>) -> bool {
    match o {
        Ok(p) => r matches Ok(v) && v@ == p,
        Err(f) => reports(r, f),
    }
}

/// Reads the length-prefixed field at `*pos` and moves `*pos` past it.
fn read_length_prefixed(raw: &[u8], pos: &mut usize) -> (r: Result<Vec<u8>, RamzError>)
    requires
        *old(pos) <= raw@.len(),
    ensures
        match parse_length_prefixed(raw@, *old(pos) as int) {
            Some((data, next)) => r matches Ok(v) && v@ == data && *final(pos) == next,
            None => is_backend_error(r, "truncated archive header"@),
        },
        *final(pos) <= raw@.len(),
{
    proof {
        reveal_strlit("truncated archive header");
    }
    let len = raw.len();
    if len - *pos < 4 {
        return Err(backend_message("truncated archive header"));
    }
    let n = match read_u32(raw, pos) {
        Ok(n) => n,
        Err(e) => return Err(e),
    };
    let start = *pos;
    let end = match start.checked_add(n as usize) {
        Some(e) => e,
        None => {
            proof {
                reveal_strlit("truncated archive header");
            }
            return Err(backend_message("truncated archive header"));
        },
    };
    if end > raw.len() {
        proof {
            reveal_strlit("truncated archive header");
        }
        *pos = start;
        return Err(backend_message("truncated archive header"));
    }
    *pos = end;
    Ok(crate::bytes::copy_range(raw, start, n as usize))
}

/// The Argon2id key of a password container, with the error text used when
/// derivation fails.
pub(crate) fn container_password_key(
    password: &str,
    salt: &[u8],
    memory_kib: u32,
    iterations: u32,
    parallelism: u32,
) -> (r: Result<Vec<u8>, RamzError>)
    ensures
        match derived_key(password@, salt@, memory_kib, iterations, parallelism) {
            Some(k) => r matches Ok(v) && v@ == k && v@.len() == 32,
            None => is_backend_error_with_prefix(r, "argon2 derive: "@),
        },
{
    match derive_key(password, salt, memory_kib, iterations, parallelism) {
        Ok(k) => Ok(k),
        Err(e) => {
            let m = e.message();
            proof {
                reveal_strlit("argon2 derive: ");
            }
            let err = backend_error("argon2 derive: ", m.as_str());
            proof {
                if let RamzError::Backend(t) = &err {
                    assert(t@.take(15) =~= "argon2 derive: "@);
                }
            }
            Err(err)
        },
    }
}

/// Decrypts the payload sealed at `pos` under `key`.
fn open_payload(raw: &[u8], pos: usize, key: &[u8]) -> (r: Result<Vec<u8>, RamzError>)
    requires
        pos <= raw@.len(),
        key@.len() == 32,
    ensures
        opened_as(r, payload_outcome(raw@, pos as int, key@)),
{
    proof {
        reveal_strlit("truncated archive header");
        reveal_strlit("wrong password or corrupted archive");
    }
    if raw.len() - pos < NONCE_LEN {
        return Err(backend_message("truncated archive header"));
    }
    let nonce = &raw[pos..pos + NONCE_LEN];
    let ciphertext = &raw[pos + NONCE_LEN..raw.len()];
    match chacha20poly1305_decrypt(key, nonce, ciphertext) {
        Some(p) => Ok(p),
        None => Err(backend_message("wrong password or corrupted archive")),
    }
}

fn recipient_key(raw: &[u8], identity_secret: Option<&[u8]>) -> (r: Result<(Vec<u8>, usize), RamzError>)
    requires
        raw@.len() >= FIXED_HEADER_LEN,
    ensures
        scheduled_as(r, recipient_key_schedule(raw@, opt_bytes(identity_secret))),
        r matches Ok((k, at)) ==> k@.len() == 32 && at <= raw@.len(),
{
    proof {
        reveal_strlit("recipient archive requires --identity to decrypt");
        reveal_strlit("mlkem decapsulate: ");
    }
    let seed = match identity_secret {
        None => return Err(backend_message("recipient archive requires --identity to decrypt")),
        Some(s) => s,
    };
    let mut pos: usize = 33;
    let ct = match read_length_prefixed(raw, &mut pos) {
        Ok(v) => v,
        Err(e) => return Err(e),
    };
    match decapsulate(seed, ct.as_slice()) {
        Ok(ss) => Ok((ss, pos)),
        Err(m) => Err(backend_error("mlkem decapsulate: ", m.as_str())),
    }
}

fn hybrid_key(raw: &[u8], password: Option<&str>) -> (r: Result<(Vec<u8>, usize), RamzError>)
    requires
        raw@.len() >= FIXED_HEADER_LEN,
        !recipient_flag(raw@[4]),
        mlkem_flag(raw@[4]),
    ensures
        scheduled_as(r, hybrid_key_schedule(raw@, opt_chars(password))),
        r matches Ok((k, at)) ==> k@.len() == 32 && at <= raw@.len(),
{
    proof {
        reveal_strlit("truncated archive header");
        reveal_strlit("age requires a password");
        reveal_strlit("mlkem decapsulate: ");
        reveal_strlit("wrong password or corrupted archive");
    }
    let pw = match password {
        None => return Err(backend_message("age requires a password")),
        Some(p) => p,
    };
    let memory_kib = header_u32(raw, 5);
    let iterations = header_u32(raw, 9);
    let parallelism = header_u32(raw, 13);
    let salt = &raw[17..33];
    let k = match container_password_key(pw, salt, memory_kib, iterations, parallelism) {
        Ok(k) => k,
        Err(e) => return Err(e),
    };
    let mut pos: usize = 33;
    let ct = match read_length_prefixed(raw, &mut pos) {
        Ok(v) => v,
        Err(e) => return Err(e),
    };
    if raw.len() - pos < NONCE_LEN {
        return Err(backend_message("truncated archive header"));
    }
    let dk_nonce = &raw[pos..pos + NONCE_LEN];
    let ghost after_ct = pos as int;
    pos = pos + NONCE_LEN;
    let dk_encrypted = match read_length_prefixed(raw, &mut pos) {
        Ok(v) => v,
        Err(e) => return Err(e),
    };
    assert(parse_length_prefixed(raw@, 33) == Some((ct@, after_ct)));
    assert(dk_nonce@ == raw@.subrange(after_ct, after_ct + NONCE_LEN));
    assert(parse_key_material(raw@[4], raw@, 33) == Some(
        (
            KeyMaterialView::Hybrid { mlkem_ct: ct@, dk_nonce: dk_nonce@, dk_encrypted: dk_encrypted@ },
            pos as int,
        ),
    ));
    let dk = match chacha20poly1305_decrypt(k.as_slice(), dk_nonce, dk_encrypted.as_slice()) {
        Some(dk) => dk,
        None => return Err(backend_message("wrong password or corrupted archive")),
    };
    let ss = match decapsulate(dk.as_slice(), ct.as_slice()) {
        Ok(ss) => ss,
        Err(m) => return Err(backend_error("mlkem decapsulate: ", m.as_str())),
    };
    let combined = combine_secrets(k.as_slice(), ss.as_slice());
    let key = crate::bytes::copy_range(combined.as_slice(), 0, 32);
    assert(key@ =~= combined@);
    Ok((key, pos))
}

fn password_key(raw: &[u8], password: Option<&str>) -> (r: Result<(Vec<u8>, usize), RamzError>)
    requires
        raw@.len() >= FIXED_HEADER_LEN,
    ensures
        scheduled_as(r, password_key_schedule(raw@, opt_chars(password))),
        r matches Ok((k, at)) ==> k@.len() == 32 && at <= raw@.len(),
{
    proof {
        reveal_strlit("age requires a password");
    }
    let pw = match password {
        None => return Err(backend_message("age requires a password")),
        Some(p) => p,
    };
    let memory_kib = header_u32(raw, 5);
    let iterations = header_u32(raw, 9);
    let parallelism = header_u32(raw, 13);
    let salt = &raw[17..33];
    match container_password_key(pw, salt, memory_kib, iterations, parallelism) {
        Ok(k) => Ok((k, 33)),
        Err(e) => Err(e),
    }
}

/// The little-endian `u32` at `at` of a header known to be long enough.
fn header_u32(raw: &[u8], at: usize) -> (v: u32)
    requires
        at + 4 <= raw@.len(),
    ensures
        v == le_u32_at(raw@, at as int),
{
    (raw[at] as u32) | ((raw[at + 1] as u32) << 8u32) | ((raw[at + 2] as u32) << 16u32) | ((
    raw[at + 3] as u32) << 24u32)
}

/// Opens an `RMZ1` container (whose magic the caller has already matched)
/// and returns the decrypted, still compressed, payload.
pub fn open_container(raw: &[u8], password: Option<&str>, identity_secret: Option<&[u8]>) -> (r: Result<
    Vec<u8>,
    RamzError,
>)
    ensures
        opened_as(r, open_outcome(raw@, opt_chars(password), opt_bytes(identity_secret))),
{
    proof {
        reveal_strlit("truncated archive header");
    }
    if raw.len() < FIXED_HEADER_LEN {
        return Err(backend_message("truncated archive header"));
    }
    let flags = raw[4];
    let scheduled = if flags & FLAG_RECIPIENT != 0 {
        recipient_key(raw, identity_secret)
    } else if flags & FLAG_MLKEM != 0 {
        hybrid_key(raw, password)
    } else {
        password_key(raw, password)
    };
    match scheduled {
        Ok((key, pos)) => open_payload(raw, pos, key.as_slice()),
        Err(e) => Err(e),
    }
}

/// A recipient container opened without an identity is refused for the
/// missing identity, whatever password is given.
pub proof fn law_recipient_needs_identity(raw: Seq<u8>, password: Option<Seq<char>>)
    requires
        raw.len() >= FIXED_HEADER_LEN,
        recipient_flag(raw[4]),
    ensures
        open_outcome(raw, password, None) == Err::<Seq<u8>, OpenFailure>(OpenFailure::MissingIdentity),
{
}

/// A password container (hybrid or Argon2id only) opened without a password
/// is refused for the missing password, whatever identity is given.
pub proof fn law_password_needed(raw: Seq<u8>, identity_secret: Option<Seq<u8>>)
    requires
        raw.len() >= FIXED_HEADER_LEN,
        !recipient_flag(raw[4]),
    ensures
        open_outcome(raw, None, identity_secret) == Err::<Seq<u8>, OpenFailure>(OpenFailure::MissingPassword),
{
}

/// However a container fails to open, the failure is reported as a backend
/// error, never as a crash or as another kind of error.
pub proof fn law_open_failures_are_backend_errors<T>(r: Result<T, RamzError>, f: OpenFailure)
    requires
        reports(r, f),
    ensures
        r matches Err(e) && e is Backend,
{
}

} // verus!

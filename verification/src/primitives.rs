//! The cryptographic and compression primitives the library builds on.
//!
//! Each function here is a thin call into an audited outside crate. Verus
//! does not read their bodies: their contracts are what the rest of the
//! library relies on, and each doc comment says what is claimed.

use vstd::prelude::*;
use vstd::string::StringSliceAdditionalSpecFns;
use rand::RngCore;
use chacha20poly1305::aead::Aead;
use chacha20poly1305::KeyInit;
use ml_kem::{Decapsulate, Encapsulate, Kem, KeyExport};
use sha2::Digest;

verus! {

/// Argon2id (version 0x13, 32-byte output) of `password` under `salt` with the
/// given memory (KiB), iteration and parallelism costs; `None` where the
/// `argon2` crate refuses the inputs.
pub uninterp spec fn argon2id_output(
    password: Seq<char>,
    salt: Seq<u8>,
    memory_kib: u32,
    iterations: u32,
    parallelism: u32,
) -> Option<Seq<u8>>;

/// Argon2id parameters that `argon2::Params::new` accepts: at least 8 KiB of
/// memory and 8 KiB per lane, at least one pass, and between 1 and
/// `0xFF_FFFF` lanes.
pub open spec fn argon2_params_valid(memory_kib: u32, iterations: u32, parallelism: u32) -> bool {
    &&& 8 <= memory_kib
    &&& 8 * parallelism <= memory_kib
    &&& 1 <= iterations
    &&& 1 <= parallelism <= 0xFF_FFFF
}

/// ChaCha20-Poly1305 encryption (ciphertext followed by the 16-byte tag) of
/// `plaintext` under `key` and `nonce`, with empty associated data.
pub uninterp spec fn chacha20poly1305_sealed(key: Seq<u8>, nonce: Seq<u8>, plaintext: Seq<u8>) -> Seq<u8>;

/// ChaCha20-Poly1305 decryption of `ciphertext` under `key` and `nonce`, with
/// empty associated data; `None` when authentication fails.
pub uninterp spec fn chacha20poly1305_opened(key: Seq<u8>, nonce: Seq<u8>, ciphertext: Seq<u8>) -> Option<
    Seq<u8>,
>;

/// The ML-KEM-768 encapsulation key derived from a 64-byte decapsulation seed.
pub uninterp spec fn mlkem768_encapsulation_key(seed: Seq<u8>) -> Seq<u8>;

/// Whether `ek` passes the ML-KEM-768 encapsulation-key check (FIPS 203 §7.2).
pub uninterp spec fn mlkem768_key_accepted(ek: Seq<u8>) -> bool;

/// The ML-KEM-768 shared secret that the key with seed `seed` decapsulates
/// from `ciphertext`.
pub uninterp spec fn mlkem768_decapsulated(seed: Seq<u8>, ciphertext: Seq<u8>) -> Seq<u8>;

/// Whether `ct` is an ML-KEM-768 encapsulation, to the encapsulation key `ek`,
/// of the shared secret `ss`.
pub uninterp spec fn encapsulated_to(ek: Seq<u8>, ct: Seq<u8>, ss: Seq<u8>) -> bool;

/// The SHA-256 digest of `data`.
pub uninterp spec fn sha256_digest(data: Seq<u8>) -> Seq<u8>;

/// The zstd frame that `zstd::stream::encode_all` produces for `data` at `level`.
pub uninterp spec fn zstd_encoded(data: Seq<u8>, level: i32) -> Seq<u8>;

/// The bytes a zstd stream decoder produces from `data`; `None` when decoding fails.
pub uninterp spec fn zstd_decoded(data: Seq<u8>) -> Option<Seq<u8>>;

/// Whether `data` opens as an age file (`Some`), and if so whether its header
/// is a passphrase (scrypt) header (`Some(true)`) or a recipients header.
pub uninterp spec fn age_header_passphrase(data: Seq<u8>) -> Option<bool>;

/// The plaintext that decrypting the age file `data` with the passphrase
/// `password` yields, when decryption succeeds.
pub uninterp spec fn age_passphrase_plaintext(data: Seq<u8>, password: Seq<char>) -> Seq<u8>;

/// The first line of every age v1 file, `age-encryption.org/v1`.
pub open spec fn age_v1_magic() -> Seq<u8> {
    seq![
        0x61u8, 0x67, 0x65, 0x2d, 0x65, 0x6e, 0x63, 0x72, 0x79, 0x70, 0x74, 0x69, 0x6f, 0x6e, 0x2e,
        0x6f, 0x72, 0x67, 0x2f, 0x76, 0x31,
    ]
}

/// Whether every entry header of the tar archive `data` reads cleanly.
pub uninterp spec fn tar_entries_readable(data: Seq<u8>) -> bool;

/// Why the Argon2id derivation was refused, with the `argon2` crate's message.
pub enum Argon2Failure {
    Params(String),
    Salt(String),
    Hash(String),
    NoHash,
}

/// Why zstd decompression failed, with the `zstd` crate's message.
pub enum ZstdFailure {
    Decoder(String),
    Decompress(String),
}

/// Why age passphrase decryption failed.
pub enum AgeOpenFailure {
    Init(String),
    NotPassphrase,
    Decrypt(String),
    Read(std::io::Error),
}

/// Why age passphrase encryption failed, with the `age` crate's message.
pub enum AgeSealFailure {
    Init(String),
    Write(String),
    Finish(String),
}

/// `N` bytes from the operating system's random source
/// (`rand::rngs::OsRng::fill_bytes`). Nothing is claimed of their values.
#[verifier::external_body]
pub fn os_random_bytes<const N: usize>() -> [u8; N] {
    let mut out = [0u8; N];
    rand::rngs::OsRng.fill_bytes(&mut out);
    out
}

/// Argon2id v0x13 with a 32-byte output, through `argon2::Params::new`,
/// `argon2::Argon2::new`, `SaltString::encode_b64` and
/// `PasswordHasher::hash_password`. Claims: the key is the named output and
/// has 32 bytes, and a failure happens exactly when the named output is
/// `None`, and it succeeds for parameters that `Params::new` accepts with a
/// 16-byte salt and a password of at most `u32::MAX` bytes in UTF-8 (the
/// crate's `MAX_PWD_LEN`). Leaves out parallelism costs of 2^29 and more, for
/// which `Params::new` overflows `8 * p_cost`.
#[verifier::external_body]
pub fn argon2id_hash(password: &str, salt: &[u8], memory_kib: u32, iterations: u32, parallelism: u32) -> (r:
    Result<Vec<u8>, Argon2Failure>)
    requires
        parallelism <= 0x1FFF_FFFF,
    ensures
        argon2_params_valid(memory_kib, iterations, parallelism) && salt@.len() == 16
            && password.spec_bytes().len() <= 0xFFFF_FFFF ==> r is Ok,
        match r {
            Ok(k) => argon2id_output(password@, salt@, memory_kib, iterations, parallelism) == Some(
                k@,
            ) && k@.len() == 32,
            Err(_) => argon2id_output(password@, salt@, memory_kib, iterations, parallelism) is None,
        },
{
    let params = match argon2::Params::new(memory_kib, iterations, parallelism, Some(32)) {
        Ok(p) => p,
        Err(e) => return Err(Argon2Failure::Params(e.to_string())),
    };
    let hasher = argon2::Argon2::new(argon2::Algorithm::Argon2id, argon2::Version::V0x13, params);
    let salt_string = match argon2::password_hash::SaltString::encode_b64(salt) {
        Ok(s) => s,
        Err(e) => return Err(Argon2Failure::Salt(e.to_string())),
    };
    match argon2::PasswordHasher::hash_password(&hasher, password.as_bytes(), &salt_string) {
        Ok(h) => h.hash.map(|o| o.as_bytes().to_vec()).ok_or(Argon2Failure::NoHash),
        Err(e) => Err(Argon2Failure::Hash(e.to_string())),
    }
}

/// ChaCha20-Poly1305 encryption (`Aead::encrypt` of `chacha20poly1305`) with
/// empty associated data. Claims: it fails exactly when the plaintext spans
/// `u32::MAX` 64-byte blocks or more; the result is the named ciphertext, is
/// 16 bytes longer than the plaintext, and decrypts to the plaintext under the
/// same key and nonce.
#[verifier::external_body]
pub fn chacha20poly1305_encrypt(key: &[u8], nonce: &[u8], plaintext: &[u8]) -> (r: Result<
    Vec<u8>,
    String,
>)
    requires
        key@.len() == 32,
        nonce@.len() == 12,
    ensures
        r is Ok <==> plaintext@.len() / 64 < 0xFFFF_FFFF,
        r matches Ok(c) ==> c@ == chacha20poly1305_sealed(key@, nonce@, plaintext@) && c@.len()
            == plaintext@.len() + 16 && chacha20poly1305_opened(key@, nonce@, c@) == Some(
            plaintext@,
        ),
{
    let cipher = chacha20poly1305::ChaCha20Poly1305::new(chacha20poly1305::Key::from_slice(key));
    match cipher.encrypt(chacha20poly1305::Nonce::from_slice(nonce), plaintext) {
        Ok(c) => Ok(c),
        Err(e) => Err(e.to_string()),
    }
}

/// ChaCha20-Poly1305 decryption (`Aead::decrypt` of `chacha20poly1305`) with
/// empty associated data. Claims: the result is the named decryption.
#[verifier::external_body]
pub fn chacha20poly1305_decrypt(key: &[u8], nonce: &[u8], ciphertext: &[u8]) -> (r: Option<Vec<u8>>)
    requires
        key@.len() == 32,
        nonce@.len() == 12,
    ensures
        match r {
            Some(p) => chacha20poly1305_opened(key@, nonce@, ciphertext@) == Some(p@),
            None => chacha20poly1305_opened(key@, nonce@, ciphertext@) is None,
        },
{
    let cipher = chacha20poly1305::ChaCha20Poly1305::new(chacha20poly1305::Key::from_slice(key));
    cipher.decrypt(chacha20poly1305::Nonce::from_slice(nonce), ciphertext).ok()
}

/// A fresh ML-KEM-768 key pair (`Kem::generate_keypair` of `ml-kem`, seeded
/// from the system's random source), as (64-byte decapsulation seed, 1184-byte
/// encapsulation key). Claims: the sizes, that the encapsulation key is the
/// one the seed derives, and that it passes the encapsulation-key check.
#[verifier::external_body]
pub fn mlkem768_generate() -> (r: (Vec<u8>, Vec<u8>))
    ensures
        r.0@.len() == 64,
        r.1@.len() == 1184,
        mlkem768_encapsulation_key(r.0@) == r.1@,
        mlkem768_key_accepted(r.1@),
{
    let (dk, ek) = ml_kem::MlKem768::generate_keypair();
    (dk.to_bytes().to_vec(), ek.to_bytes().to_vec())
}

/// ML-KEM-768 encapsulation to `ek` (`EncapsulationKey::new`, then
/// `Encapsulate::encapsulate` with the system's random source), as
/// (ciphertext, shared secret). Claims: it fails exactly when `ek` fails the
/// encapsulation-key check, the sizes (1088 and 32 bytes), and that the
/// ciphertext is an encapsulation of the secret to `ek`. The values depend
/// on fresh randomness, and whether decapsulation recovers the secret (true
/// except with negligible probability) is left unsaid.
#[verifier::external_body]
pub fn mlkem768_encapsulate(ek: &[u8]) -> (r: Option<(Vec<u8>, Vec<u8>)>)
    requires
        ek@.len() == 1184,
    ensures
        r is Some <==> mlkem768_key_accepted(ek@),
        r matches Some((ct, ss)) ==> ct@.len() == 1088 && ss@.len() == 32 && encapsulated_to(ek@, ct@, ss@),
{
    let key = match ml_kem::EncapsulationKey::<ml_kem::MlKem768>::new(&ek.try_into().unwrap()) {
        Ok(k) => k,
        Err(_) => return None,
    };
    let (ct, ss): (ml_kem::Ciphertext<ml_kem::MlKem768>, _) = key.encapsulate();
    Some((AsRef::<[u8]>::as_ref(&ct).to_vec(), ss.to_vec()))
}

/// ML-KEM-768 decapsulation (`DecapsulationKey::from_seed`, then
/// `Decapsulate::decapsulate`). Claims: the result is the named shared secret
/// and has 32 bytes.
#[verifier::external_body]
pub fn mlkem768_decapsulate(seed: &[u8], ciphertext: &[u8]) -> (ss: Vec<u8>)
    requires
        seed@.len() == 64,
        ciphertext@.len() == 1088,
    ensures
        ss@ == mlkem768_decapsulated(seed@, ciphertext@),
        ss@.len() == 32,
{
    let dk = ml_kem::DecapsulationKey::<ml_kem::MlKem768>::from_seed(seed.try_into().unwrap());
    let ct: ml_kem::Ciphertext<ml_kem::MlKem768> = ciphertext.try_into().unwrap();
    dk.decapsulate(&ct).to_vec()
}

/// SHA-256 of `data` (`sha2::Sha256::digest`). Claims: the result is the
/// named digest.
#[verifier::external_body]
pub fn sha256(data: &[u8]) -> (d: [u8; 32])
    ensures
        d@ == sha256_digest(data@),
{
    sha2::Sha256::digest(data).into()
}

/// One-shot zstd compression (`zstd::stream::encode_all`). Claims: it
/// succeeds (it reads from memory into a growing `Vec`, and zstd clamps the
/// level into its range), the frame is the named encoding, and decoding it
/// gives `data` back.
#[verifier::external_body]
pub fn zstd_encode(data: &[u8], level: i32) -> (r: Result<Vec<u8>, String>)
    ensures
        r is Ok,
        r matches Ok(c) ==> c@ == zstd_encoded(data@, level) && zstd_decoded(c@) == Some(data@),
{
    match zstd::stream::encode_all(data, level) {
        Ok(c) => Ok(c),
        Err(e) => Err(e.to_string()),
    }
}

/// zstd decompression (`zstd::stream::Decoder::new` over the bytes, drained
/// with `std::io::copy`). Claims: the output is the named decoding, and a
/// failure happens exactly when that is `None`.
#[verifier::external_body]
pub fn zstd_decode(data: &[u8]) -> (r: Result<Vec<u8>, ZstdFailure>)
    ensures
        match r {
            Ok(v) => zstd_decoded(data@) == Some(v@),
            Err(_) => zstd_decoded(data@) is None,
        },
{
    let mut decoder = match zstd::stream::Decoder::new(data) {
        Ok(d) => d,
        Err(e) => return Err(ZstdFailure::Decoder(e.to_string())),
    };
    let mut out = Vec::new();
    match std::io::copy(&mut decoder, &mut out) {
        Ok(_) => Ok(out),
        Err(e) => Err(ZstdFailure::Decompress(e.to_string())),
    }
}

/// Parses the header of an age file (`age::Decryptor::new`). Claims: the
/// outcome is the named one.
#[verifier::external_body]
pub fn age_header_kind(data: &[u8]) -> (r: Result<bool, String>)
    ensures
        match r {
            Ok(b) => age_header_passphrase(data@) == Some(b),
            Err(_) => age_header_passphrase(data@) is None,
        },
{
    match age::Decryptor::new(data) {
        Ok(age::Decryptor::Passphrase(_)) => Ok(true),
        Ok(_) => Ok(false),
        Err(e) => Err(e.to_string()),
    }
}

/// Decrypts a passphrase-protected age file and reads the whole plaintext
/// (`age::Decryptor::new`, `PassphraseDecryptor::decrypt` with the default
/// work-factor limit, then `Read::read_to_end`). Claims: what a successful
/// decryption reads is the named plaintext. Whether it succeeds is left
/// unsaid: the accepted scrypt work factor is tuned to the speed of the
/// running machine.
#[verifier::external_body]
pub fn age_passphrase_decrypt(data: &[u8], password: &str) -> (r: Result<Vec<u8>, AgeOpenFailure>)
    ensures
        r matches Ok(v) ==> v@ == age_passphrase_plaintext(data@, password@),
{
    let secret = age::secrecy::SecretString::new(password.to_string());
    match age::Decryptor::new(data) {
        Ok(age::Decryptor::Passphrase(d)) => match d.decrypt(&secret, None) {
            Ok(mut reader) => {
                let mut out = Vec::new();
                match std::io::Read::read_to_end(&mut reader, &mut out) {
                    Ok(_) => Ok(out),
                    Err(e) => Err(AgeOpenFailure::Read(e)),
                }
            },
            Err(e) => Err(AgeOpenFailure::Decrypt(e.to_string())),
        },
        Ok(_) => Err(AgeOpenFailure::NotPassphrase),
        Err(e) => Err(AgeOpenFailure::Init(e.to_string())),
    }
}

/// Encrypts `plaintext` as an age file under a passphrase
/// (`age::Encryptor::with_user_passphrase`, `wrap_output`, `write_all`,
/// `finish`). Claims: it succeeds (preparing a passphrase header cannot
/// fail, and the output is written into memory); the file starts with the
/// `age-encryption.org/v1` line, its header is a passphrase (scrypt) header,
/// and decrypting it with the same passphrase yields the plaintext. The file
/// key, salt and work factor are chosen afresh on each call, so the bytes
/// themselves are left unsaid.
#[verifier::external_body]
pub fn age_passphrase_encrypt(plaintext: &[u8], password: &str) -> (r: Result<Vec<u8>, AgeSealFailure>)
    ensures
        r is Ok,
        r matches Ok(b) ==> b@.len() >= 21 && b@.subrange(0, 21) == age_v1_magic() && age_header_passphrase(b@)
            == Some(true) && age_passphrase_plaintext(b@, password@) == plaintext@,
{
    let secret = age::secrecy::SecretString::new(password.to_string());
    let mut out = Vec::new();
    let mut writer = match age::Encryptor::with_user_passphrase(secret).wrap_output(&mut out) {
        Ok(w) => w,
        Err(e) => return Err(AgeSealFailure::Init(e.to_string())),
    };
    if let Err(e) = std::io::Write::write_all(&mut writer, plaintext) {
        return Err(AgeSealFailure::Write(e.to_string()));
    }
    match writer.finish() {
        Ok(_) => Ok(out),
        Err(e) => Err(AgeSealFailure::Finish(e.to_string())),
    }
}

/// Walks the entries of an in-memory tar archive (`tar::Archive::entries`)
/// and reports the first error, with the `tar` crate's message. Claims: it
/// succeeds exactly when the named check holds.
#[verifier::external_body]
pub fn tar_check_entries(data: &[u8]) -> (r: Result<(), String>)
    ensures
        r is Ok <==> tar_entries_readable(data@),
{
    let mut archive = tar::Archive::new(data);
    let entries = match archive.entries() {
        Ok(e) => e,
        Err(e) => return Err(e.to_string()),
    };
    for entry in entries {
        if let Err(e) = entry {
            return Err(e.to_string());
        }
    }
    Ok(())
}

} // verus!

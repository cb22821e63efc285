//! `RIM1` recipient identities: an ML-KEM-768 key pair, its public file and
//! its secret file, optionally protected by a password.
//!
//! Public file: `RIM1PUB`, the key length (little-endian `u32`), the key.
//! Secret file: `RIM1SEC`, a protection byte, then either the key length and
//! the key (no password), or a 16-byte Argon2id salt, a 12-byte nonce, the
//! ciphertext length and the ChaCha20-Poly1305 ciphertext of the key.

use vstd::prelude::*;
use vstd::string::StringSliceAdditionalSpecFns;
use crate::argon2_kdf::{derive_key, derived_key, generate_salt};
use crate::bytes::{copy_range, le_u32_at, le_u32_bytes, le_value, lemma_le_u32_roundtrip, lemma_le_value_at, push_bytes, push_u32_le};
use crate::error::{RamzError, backend_error, backend_message, is_backend_error, is_backend_error_with_prefix};
use crate::mlkem_hybrid::{generate_keypair, PUBLIC_KEY_LEN, SECRET_KEY_LEN};
use crate::primitives::{argon2_params_valid, argon2id_output, chacha20poly1305_decrypt, chacha20poly1305_encrypt, chacha20poly1305_opened, chacha20poly1305_sealed, mlkem768_encapsulation_key, mlkem768_key_accepted, os_random_bytes};

verus! {

/// The secret key is stored as is.
pub const PROTECTION_NONE: u8 = 0;

/// The secret key is encrypted under a password.
pub const PROTECTION_PASSWORD: u8 = 1;

/// Argon2id memory cost (KiB) used to protect identity files.
pub const IDENTITY_MEMORY_KIB: u32 = 65536;

/// Argon2id iteration cost used to protect identity files.
pub const IDENTITY_ITERATIONS: u32 = 3;

/// Argon2id parallelism used to protect identity files.
pub const IDENTITY_PARALLELISM: u32 = 4;

/// `RIM1PUB`.
pub open spec fn public_magic() -> Seq<u8> {
    seq![0x52u8, 0x49u8, 0x4du8, 0x31u8, 0x50u8, 0x55u8, 0x42u8]
}

/// `RIM1SEC`.
pub open spec fn secret_magic() -> Seq<u8> {
    seq![0x52u8, 0x49u8, 0x4du8, 0x31u8, 0x53u8, 0x45u8, 0x43u8]
}

/// A byte string preceded by its length, truncated to a `u32`.
pub open spec fn with_length(data: Seq<u8>) -> Seq<u8> {
    le_u32_bytes(data.len() as u32) + data
}

/// The public file of an encapsulation key.
pub open spec fn public_file(ek: Seq<u8>) -> Seq<u8> {
    public_magic() + with_length(ek)
}

/// The secret file of a decapsulation key stored without a password.
pub open spec fn secret_file_plain(dk: Seq<u8>) -> Seq<u8> {
    secret_magic() + seq![PROTECTION_NONE] + with_length(dk)
}

/// The secret file of a key encrypted under a password.
pub open spec fn secret_file_protected(salt: Seq<u8>, nonce: Seq<u8>, encrypted: Seq<u8>) -> Seq<u8> {
    secret_magic() + seq![PROTECTION_PASSWORD] + salt + nonce + with_length(encrypted)
}

/// The Argon2id key that protects identity files.
pub open spec fn identity_key(password: Seq<char>, salt: Seq<u8>) -> Option<Seq<u8>> {
    derived_key(password, salt, IDENTITY_MEMORY_KIB, IDENTITY_ITERATIONS, IDENTITY_PARALLELISM)
}

/// The key that protects an identity file is Argon2id with 65536 KiB of
/// memory, 3 iterations and parallelism 4, over the password and the
/// file's salt.
pub proof fn law_identity_key_parameters(password: Seq<char>, salt: Seq<u8>)
    ensures
        identity_key(password, salt) == derived_key(password, salt, 65536, 3, 4),
        identity_key(password, salt) == argon2id_output(password, salt, 65536, 3, 4),
{
}

/// The identity files, offset by offset. The public file is `RIM1PUB`, the
/// encapsulation key's length as a little-endian `u32` at 7 and the key from
/// 11. The secret file is `RIM1SEC` and a protection byte at 7: without a
/// password `0x00`, the key's length at 8 and the key from 12; with a
/// password `0x01`, the 16-byte salt at 8, the 12-byte nonce at 24, the
/// encrypted key's length at 36 and the encrypted key from 40.
#[verifier::spinoff_prover]
pub proof fn law_identity_file_layout(ek: Seq<u8>, dk: Seq<u8>, salt: Seq<u8>, nonce: Seq<u8>, encrypted: Seq<u8>)
    requires
        ek.len() <= u32::MAX,
        dk.len() <= u32::MAX,
        encrypted.len() <= u32::MAX,
        salt.len() == 16,
        nonce.len() == 12,
    ensures
        ({
            let p = public_file(ek);
            &&& p.len() == 11 + ek.len()
            &&& p.subrange(0, 7) == seq![0x52u8, 0x49u8, 0x4du8, 0x31u8, 0x50u8, 0x55u8, 0x42u8]
            &&& le_value(p, 7) == ek.len() as int
            &&& p.subrange(11, p.len() as int) == ek
        }),
        ({
            let s = secret_file_plain(dk);
            &&& s.len() == 12 + dk.len()
            &&& s.subrange(0, 7) == seq![0x52u8, 0x49u8, 0x4du8, 0x31u8, 0x53u8, 0x45u8, 0x43u8]
            &&& s[7] == 0x00u8
            &&& le_value(s, 8) == dk.len() as int
            &&& s.subrange(12, s.len() as int) == dk
        }),
        ({
            let s = secret_file_protected(salt, nonce, encrypted);
            &&& s.len() == 40 + encrypted.len()
            &&& s.subrange(0, 7) == seq![0x52u8, 0x49u8, 0x4du8, 0x31u8, 0x53u8, 0x45u8, 0x43u8]
            &&& s[7] == 0x01u8
            &&& s.subrange(8, 24) == salt
            &&& s.subrange(24, 36) == nonce
            &&& le_value(s, 36) == encrypted.len() as int
            &&& s.subrange(40, s.len() as int) == encrypted
        }),
{
    let p = public_file(ek);
    assert(p.subrange(0, 7) =~= public_magic());
    assert(p.subrange(7, 11) =~= le_u32_bytes(ek.len() as u32));
    lemma_le_value_at(p, 7, ek.len() as u32);
    assert(p.subrange(11, p.len() as int) =~= ek);
    let s1 = secret_file_plain(dk);
    assert(s1.subrange(0, 7) =~= secret_magic());
    assert(s1[7] == PROTECTION_NONE);
    assert(s1.subrange(8, 12) =~= le_u32_bytes(dk.len() as u32));
    lemma_le_value_at(s1, 8, dk.len() as u32);
    assert(s1.subrange(12, s1.len() as int) =~= dk);
    let s2 = secret_file_protected(salt, nonce, encrypted);
    assert(s2.subrange(0, 7) =~= secret_magic());
    assert(s2[7] == PROTECTION_PASSWORD);
    assert(s2.subrange(8, 24) =~= salt);
    assert(s2.subrange(24, 36) =~= nonce);
    assert(s2.subrange(36, 40) =~= le_u32_bytes(encrypted.len() as u32));
    lemma_le_value_at(s2, 36, encrypted.len() as u32);
    assert(s2.subrange(40, s2.len() as int) =~= encrypted);
}

/// The length-prefixed field at `at`, with the offset past it.
pub open spec fn length_field(raw: Seq<u8>, at: int) -> Option<(Seq<u8>, int)> {
    if at + 4 > raw.len() {
        None
    } else {
        let n = le_u32_at(raw, at) as int;
        if at + 4 + n > raw.len() {
            None
        } else {
            Some((raw.subrange(at + 4, at + 4 + n), at + 4 + n))
        }
    }
}

/// Why loading an identity failed.
pub enum LoadFailure {
    InvalidPublic,
    InvalidSecret,
    Truncated,
    UnknownProtection,
    KeyDerivation,
    WrongPassword,
}

/// The error each load failure reports.
pub open spec fn load_reports<T>(r: Result<T, RamzError>, f: LoadFailure) -> bool {
    match f {
        LoadFailure::InvalidPublic => is_backend_error(r, "invalid public identity file"@),
        LoadFailure::InvalidSecret => is_backend_error(r, "invalid secret identity file"@),
        LoadFailure::Truncated => is_backend_error(r, "truncated identity file"@),
        LoadFailure::UnknownProtection => is_backend_error(r, "unknown identity protection mode"@),
        LoadFailure::KeyDerivation => is_backend_error_with_prefix(r, "identity key derivation: "@),
        LoadFailure::WrongPassword => is_backend_error(r, "wrong identity password"@),
    }
}

/// The encapsulation key a public file holds.
pub open spec fn parse_public_file(raw: Seq<u8>) -> Result<Seq<u8>, LoadFailure> {
    if raw.len() < 7 || raw.subrange(0, 7) != public_magic() {
        Err(LoadFailure::InvalidPublic)
    } else {
        match length_field(raw, 7) {
            Some((ek, _)) => Ok(ek),
            None => Err(LoadFailure::Truncated),
        }
    }
}

/// The decapsulation key a secret file holds, decrypted with `password` when
/// the file is protected.
pub open spec fn parse_secret_file(raw: Seq<u8>, password: Seq<char>) -> Result<Seq<u8>, LoadFailure> {
    if raw.len() < 7 || raw.subrange(0, 7) != secret_magic() {
        Err(LoadFailure::InvalidSecret)
    } else if raw.len() < 8 {
        Err(LoadFailure::Truncated)
    } else if raw[7] == PROTECTION_NONE {
        match length_field(raw, 8) {
            Some((dk, _)) => Ok(dk),
            None => Err(LoadFailure::Truncated),
        }
    } else if raw[7] == PROTECTION_PASSWORD {
        if raw.len() < 36 {
            Err(LoadFailure::Truncated)
        } else {
            match length_field(raw, 36) {
                None => Err(LoadFailure::Truncated),
                Some((enc, _)) => match identity_key(password, raw.subrange(8, 24)) {
                    None => Err(LoadFailure::KeyDerivation),
                    Some(k) => match chacha20poly1305_opened(k, raw.subrange(24, 36), enc) {
                        None => Err(LoadFailure::WrongPassword),
                        Some(dk) => Ok(dk),
                    },
                },
            }
        }
    } else {
        Err(LoadFailure::UnknownProtection)
    }
}

/// The identity that a public and a secret file hold; the public file is
/// read first.
pub open spec fn load_outcome(pub_raw: Seq<u8>, sec_raw: Seq<u8>, password: Seq<char>) -> Result<
    (Seq<u8>, Seq<u8>),
    LoadFailure,
> {
    match parse_public_file(pub_raw) {
        Err(f) => Err(f),
        Ok(ek) => match parse_secret_file(sec_raw, password) {
            Err(f) => Err(f),
            Ok(dk) => Ok((ek, dk)),
        },
    }
}

proof fn lemma_length_field_of(prefix: Seq<u8>, data: Seq<u8>)
    requires
        data.len() <= u32::MAX,
    ensures
        length_field(prefix + with_length(data), prefix.len() as int) == Some(
            (data, prefix.len() + 4 + data.len() as int),
        ),
{
    let raw = prefix + with_length(data);
    let at = prefix.len() as int;
    lemma_le_u32_roundtrip(data.len() as u32);
    let lb = le_u32_bytes(data.len() as u32);
    assert(raw[at] == lb[0] && raw[at + 1] == lb[1] && raw[at + 2] == lb[2] && raw[at + 3] == lb[3]);
    assert(le_u32_at(raw, at) == le_u32_at(lb, 0));
    assert(raw.subrange(at + 4, at + 4 + data.len()) =~= data);
}

proof fn lemma_public_file_parses(ek: Seq<u8>)
    requires
        ek.len() <= u32::MAX,
    ensures
        parse_public_file(public_file(ek)) == Ok::<Seq<u8>, LoadFailure>(ek),
{
    lemma_length_field_of(public_magic(), ek);
    let raw = public_file(ek);
    assert(raw.len() >= 7);
    assert forall|i: int| 0 <= i < 7 implies #[trigger] raw.subrange(0, 7)[i] == public_magic()[i] by {
        assert(raw[i] == public_magic()[i]);
    }
    assert(raw.subrange(0, 7) =~= public_magic());
}

#[verifier::spinoff_prover]
#[verifier::rlimit(30)]
proof fn lemma_plain_secret_file_parses(dk: Seq<u8>, password: Seq<char>)
    requires
        dk.len() <= u32::MAX,
    ensures
        parse_secret_file(secret_file_plain(dk), password) == Ok::<Seq<u8>, LoadFailure>(dk),
{
    let prefix = secret_magic() + seq![PROTECTION_NONE];
    lemma_length_field_of(prefix, dk);
    let raw = secret_file_plain(dk);
    assert(raw =~= prefix + with_length(dk));
    assert(raw.subrange(0, 7) =~= secret_magic());
    assert(raw[7] == PROTECTION_NONE);
}

/// Loading the files written for a key pair without a password gives the key
/// pair back, whatever password is offered.
pub proof fn law_plain_identity_roundtrip(ek: Seq<u8>, dk: Seq<u8>, password: Seq<char>)
    requires
        ek.len() <= u32::MAX,
        dk.len() <= u32::MAX,
    ensures
        load_outcome(public_file(ek), secret_file_plain(dk), password) == Ok::<(Seq<u8>, Seq<u8>), LoadFailure>((ek, dk)),
{
    lemma_public_file_parses(ek);
    lemma_plain_secret_file_parses(dk, password);
}

/// Loading the files written for a key pair under a password, with that
/// password, gives the key pair back.
pub proof fn law_protected_identity_roundtrip(
    ek: Seq<u8>,
    dk: Seq<u8>,
    password: Seq<char>,
    salt: Seq<u8>,
    nonce: Seq<u8>,
)
    requires
        ek.len() <= u32::MAX,
        salt.len() == 16,
        nonce.len() == 12,
        identity_key(password, salt) is Some,
        chacha20poly1305_sealed(identity_key(password, salt).unwrap(), nonce, dk).len() <= u32::MAX,
        chacha20poly1305_opened(
            identity_key(password, salt).unwrap(),
            nonce,
            chacha20poly1305_sealed(identity_key(password, salt).unwrap(), nonce, dk),
        ) == Some(dk),
    ensures
        load_outcome(
            public_file(ek),
            secret_file_protected(salt, nonce, chacha20poly1305_sealed(identity_key(password, salt).unwrap(), nonce, dk)),
            password,
        ) == Ok::<(Seq<u8>, Seq<u8>), LoadFailure>((ek, dk)),
{
    lemma_public_file_parses(ek);
    let enc = chacha20poly1305_sealed(identity_key(password, salt).unwrap(), nonce, dk);
    let prefix = secret_magic() + seq![PROTECTION_PASSWORD] + salt + nonce;
    assert(prefix.len() == 36);
    lemma_length_field_of(prefix, enc);
    let raw = secret_file_protected(salt, nonce, enc);
    assert(raw =~= prefix + with_length(enc));
    assert(raw.subrange(0, 7) =~= secret_magic());
    assert(raw[7] == PROTECTION_PASSWORD);
    assert(raw.subrange(8, 24) =~= salt);
    assert(raw.subrange(24, 36) =~= nonce);
}

/// An ML-KEM-768 identity for recipient-based encryption.
pub struct Identity {
    pub encapsulation_key: Vec<u8>,
    pub decapsulation_key: Vec<u8>,
}

/// Checks `raw` starts with the 7-byte `magic`.
fn starts_with_magic(raw: &[u8], magic: &[u8; 7]) -> (b: bool)
    ensures
        b == (raw@.len() >= 7 && raw@.subrange(0, 7) == magic@),
{
    if raw.len() < 7 {
        return false;
    }
    let mut i: usize = 0;
    while i < 7
        invariant
            i <= 7,
            raw@.len() >= 7,
            raw@.subrange(0, i as int) == magic@.subrange(0, i as int),
        decreases 7 - i,
    {
        if raw[i] != magic[i] {
            assert(raw@.subrange(0, 7)[i as int] != magic@[i as int]);
            return false;
        }
        i = i + 1;
        assert(raw@.subrange(0, i as int) =~= magic@.subrange(0, i as int));
    }
    assert(magic@.subrange(0, 7) =~= magic@);
    true
}

/// Reads the length-prefixed field at `at`.
fn read_length_field(raw: &[u8], at: usize) -> (r: Option<(Vec<u8>, usize)>)
    requires
        at <= raw@.len(),
    ensures
        match length_field(raw@, at as int) {
            Some((data, next)) => r matches Some((v, n)) && v@ == data && n == next,
            None => r is None,
        },
{
    if raw.len() - at < 4 {
        return None;
    }
    let n = (raw[at] as u32) | ((raw[at + 1] as u32) << 8u32) | ((raw[at + 2] as u32) << 16u32)
        | ((raw[at + 3] as u32) << 24u32);
    let n = n as usize;
    if raw.len() - at - 4 < n {
        return None;
    }
    Some((copy_range(raw, at + 4, n), at + 4 + n))
}

fn public_magic_bytes() -> (m: [u8; 7])
    ensures
        m@ == public_magic(),
{
    let m: [u8; 7] = [0x52u8, 0x49u8, 0x4du8, 0x31u8, 0x50u8, 0x55u8, 0x42u8];
    assert(m@ =~= public_magic());
    m
}

fn secret_magic_bytes() -> (m: [u8; 7])
    ensures
        m@ == secret_magic(),
{
    let m: [u8; 7] = [0x52u8, 0x49u8, 0x4du8, 0x31u8, 0x53u8, 0x45u8, 0x43u8];
    assert(m@ =~= secret_magic());
    m
}

/// Appends `data` preceded by its length truncated to a `u32`.
fn push_with_length(out: &mut Vec<u8>, data: &[u8])
    ensures
        final(out)@ == old(out)@ + with_length(data@),
{
    let n = data.len();
    let n32 = n as u32;
    push_u32_le(out, n32);
    push_bytes(out, data);
    assert(final(out)@ =~= old(out)@ + with_length(data@));
}

/// Reads the encapsulation key of a recipient's public file.
pub fn parse_recipient_file(raw: &[u8]) -> (r: Result<Vec<u8>, RamzError>)
    ensures
        match parse_public_file(raw@) {
            Ok(ek) => r matches Ok(v) && v@ == ek,
            Err(LoadFailure::InvalidPublic) => is_backend_error(
                r,
                "invalid recipient file (expected RIM1PUB identity)"@,
            ),
            Err(_) => is_backend_error(r, "truncated identity file"@),
        },
{
    proof {
        reveal_strlit("invalid recipient file (expected RIM1PUB identity)");
        reveal_strlit("truncated identity file");
    }
    let magic = public_magic_bytes();
    if !starts_with_magic(raw, &magic) {
        return Err(backend_message("invalid recipient file (expected RIM1PUB identity)"));
    }
    match read_length_field(raw, 7) {
        Some((ek, _)) => Ok(ek),
        None => Err(backend_message("truncated identity file")),
    }
}

impl Identity {
    /// Generates a new ML-KEM-768 identity.
    pub fn generate() -> (id: Identity)
        ensures
            id.encapsulation_key@.len() == PUBLIC_KEY_LEN,
            id.decapsulation_key@.len() == SECRET_KEY_LEN,
            id.encapsulation_key@ == mlkem768_encapsulation_key(id.decapsulation_key@),
            mlkem768_key_accepted(id.encapsulation_key@),
    {
        let kp = generate_keypair();
        Identity { encapsulation_key: kp.public_key, decapsulation_key: kp.secret_key }
    }

    /// The contents of the public file (`identity.pub`), which may be shared.
    pub fn public_file_bytes(&self) -> (out: Vec<u8>)
        ensures
            out@ == public_file(self.encapsulation_key@),
    {
        let magic = public_magic_bytes();
        let mut out: Vec<u8> = Vec::new();
        push_bytes(&mut out, magic.as_slice());
        push_with_length(&mut out, self.encapsulation_key.as_slice());
        assert(out@ =~= public_file(self.encapsulation_key@));
        out
    }

    /// The contents of the secret file (`identity`): the key as is without a
    /// password, or encrypted under an Argon2id key derived from the password
    /// with a fresh salt and nonce.
    pub fn secret_file_bytes(&self, password: Option<&str>) -> (r: Result<Vec<u8>, RamzError>)
        ensures
            password is None ==> (r matches Ok(out) && out@ == secret_file_plain(self.decapsulation_key@)),
            password matches Some(pw) ==> match r {
                Ok(out) => exists|salt: Seq<u8>, nonce: Seq<u8>|
                    salt.len() == 16 && nonce.len() == 12 && identity_key(pw@, salt) is Some
                    && chacha20poly1305_sealed(identity_key(pw@, salt).unwrap(), nonce, self.decapsulation_key@).len()
                    == self.decapsulation_key@.len() + 16
                    && out@ == #[trigger] secret_file_protected(
                        salt,
                        nonce,
                        chacha20poly1305_sealed(identity_key(pw@, salt).unwrap(), nonce, self.decapsulation_key@),
                    ) && chacha20poly1305_opened(
                        identity_key(pw@, salt).unwrap(),
                        nonce,
                        chacha20poly1305_sealed(identity_key(pw@, salt).unwrap(), nonce, self.decapsulation_key@),
                    ) == Some(self.decapsulation_key@),
                Err(e) => is_backend_error_with_prefix(Err::<Vec<u8>, RamzError>(e), "identity key derivation: "@)
                    || is_backend_error_with_prefix(Err::<Vec<u8>, RamzError>(e), "identity encrypt: "@),
            },
            password matches Some(pw) && pw.spec_bytes().len() <= 0xFFFF_FFFF && self.decapsulation_key@.len() / 64
                < 0xFFFF_FFFF ==> r is Ok,
    {
        let magic = secret_magic_bytes();
        let mut out: Vec<u8> = Vec::new();
        push_bytes(&mut out, magic.as_slice());
        match password {
            None => {
                out.push(PROTECTION_NONE);
                push_with_length(&mut out, self.decapsulation_key.as_slice());
                assert(out@ =~= secret_file_plain(self.decapsulation_key@));
                Ok(out)
            },
            Some(pw) => {
                out.push(PROTECTION_PASSWORD);
                let salt = generate_salt();
                assert(argon2_params_valid(IDENTITY_MEMORY_KIB, IDENTITY_ITERATIONS, IDENTITY_PARALLELISM));
                let k = match derive_key(pw, salt.as_slice(), IDENTITY_MEMORY_KIB, IDENTITY_ITERATIONS, IDENTITY_PARALLELISM) {
                    Ok(k) => k,
                    Err(e) => {
                        let m = e.message();
                        let err = backend_error("identity key derivation: ", m.as_str());
                        proof {
                            reveal_strlit("identity key derivation: ");
                            if let RamzError::Backend(t) = &err {
                                assert(t@.take(25) =~= "identity key derivation: "@);
                            }
                        }
                        return Err(err);
                    },
                };
                let nonce: [u8; 12] = os_random_bytes::<12>();
                let encrypted = match chacha20poly1305_encrypt(k.as_slice(), nonce.as_slice(), self.decapsulation_key.as_slice()) {
                    Ok(c) => c,
                    Err(m) => {
                        let err = backend_error("identity encrypt: ", m.as_str());
                        proof {
                            reveal_strlit("identity encrypt: ");
                            if let RamzError::Backend(t) = &err {
                                assert(t@.take(18) =~= "identity encrypt: "@);
                            }
                        }
                        return Err(err);
                    },
                };
                push_bytes(&mut out, salt.as_slice());
                push_bytes(&mut out, nonce.as_slice());
                push_with_length(&mut out, encrypted.as_slice());
                assert(out@ =~= secret_file_protected(salt@, nonce@, encrypted@));
                assert(identity_key(pw@, salt@) == Some(k@));
                assert(salt@.len() == 16 && nonce@.len() == 12);
                assert(encrypted@ == chacha20poly1305_sealed(identity_key(pw@, salt@).unwrap(), nonce@, self.decapsulation_key@));
                assert(out@ == secret_file_protected(salt@, nonce@, chacha20poly1305_sealed(identity_key(pw@, salt@).unwrap(), nonce@, self.decapsulation_key@)));
                Ok(out)
            },
        }
    }

    /// Loads an identity from the contents of its public and secret files.
    /// An empty password opens a file stored without one; a protected file
    /// needs its password.
    pub fn load_with_password(pub_raw: &[u8], sec_raw: &[u8], password: &str) -> (r: Result<Identity, RamzError>)
        ensures
            match load_outcome(pub_raw@, sec_raw@, password@) {
                Ok((ek, dk)) => r matches Ok(id) && id.encapsulation_key@ == ek && id.decapsulation_key@ == dk,
                Err(f) => load_reports(r, f),
            },
    {
        proof {
            reveal_strlit("invalid public identity file");
            reveal_strlit("invalid secret identity file");
            reveal_strlit("truncated identity file");
            reveal_strlit("unknown identity protection mode");
            reveal_strlit("identity key derivation: ");
            reveal_strlit("wrong identity password");
        }
        let pmagic = public_magic_bytes();
        if !starts_with_magic(pub_raw, &pmagic) {
            return Err(backend_message("invalid public identity file"));
        }
        let ek = match read_length_field(pub_raw, 7) {
            Some((ek, _)) => ek,
            None => return Err(backend_message("truncated identity file")),
        };
        let smagic = secret_magic_bytes();
        if !starts_with_magic(sec_raw, &smagic) {
            return Err(backend_message("invalid secret identity file"));
        }
        if sec_raw.len() < 8 {
            return Err(backend_message("truncated identity file"));
        }
        let flag = sec_raw[7];
        let dk = if flag == PROTECTION_NONE {
            match read_length_field(sec_raw, 8) {
                Some((dk, _)) => dk,
                None => return Err(backend_message("truncated identity file")),
            }
        } else if flag == PROTECTION_PASSWORD {
            if sec_raw.len() < 36 {
                return Err(backend_message("truncated identity file"));
            }
            let encrypted = match read_length_field(sec_raw, 36) {
                Some((enc, _)) => enc,
                None => return Err(backend_message("truncated identity file")),
            };
            let salt = &sec_raw[8..24];
            let nonce = &sec_raw[24..36];
            let k = match derive_key(password, salt, IDENTITY_MEMORY_KIB, IDENTITY_ITERATIONS, IDENTITY_PARALLELISM) {
                Ok(k) => k,
                Err(e) => {
                    let m = e.message();
                    let err = backend_error("identity key derivation: ", m.as_str());
                    proof {
                        if let RamzError::Backend(t) = &err {
                            assert(t@.take(25) =~= "identity key derivation: "@);
                        }
                    }
                    return Err(err);
                },
            };
            match chacha20poly1305_decrypt(k.as_slice(), nonce, encrypted.as_slice()) {
                Some(dk) => dk,
                None => return Err(backend_message("wrong identity password")),
            }
        } else {
            return Err(backend_message("unknown identity protection mode"));
        };
        Ok(Identity { encapsulation_key: ek, decapsulation_key: dk })
    }
}

/// However an identity fails to load, the failure is reported as a backend
/// error.
pub proof fn law_load_failures_are_backend_errors<T>(r: Result<T, RamzError>, f: LoadFailure)
    requires
        load_reports(r, f),
    ensures
        r matches Err(e) && e is Backend,
{
}

} // verus!

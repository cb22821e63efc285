//! The `RMZ1` archive container: its byte layout, the parser and the
//! serializer, and the laws that tie them together.
//!
//! Layout: magic `RMZ1`, a flags byte, the Argon2 memory, iteration and
//! parallelism costs (little-endian `u32`s), a 16-byte salt, mode-specific key
//! material, a 12-byte payload nonce, and the ChaCha20-Poly1305 ciphertext of
//! the compressed payload, which runs to the end.

use vstd::prelude::*;
use crate::bytes::{le_u32_at, le_u32_bytes, le_value, lemma_le_value_at, lemma_le_u32_bytes_of_value, lemma_le_u32_roundtrip, push_bytes, push_u32_le};

verus! {

/// The flag set on every container written: Argon2id parameters are present.
pub const FLAG_ARGON2ID: u8 = 0x01;

/// The container carries an ML-KEM hybrid layer.
pub const FLAG_MLKEM: u8 = 0x02;

/// The container is sealed to a recipient identity.
pub const FLAG_RECIPIENT: u8 = 0x04;

/// Length of the fixed part of the header: magic, flags, three costs, salt.
pub const FIXED_HEADER_LEN: usize = 33;

/// Length of the Argon2 salt.
pub const SALT_LEN: usize = 16;

/// Length of a ChaCha20-Poly1305 nonce.
pub const NONCE_LEN: usize = 12;

/// The magic bytes `RMZ1`.
pub open spec fn magic() -> Seq<u8> {
    seq![0x52u8, 0x4du8, 0x5au8, 0x31u8]
}

/// Whether the recipient bit is set (it takes priority over every other bit).
pub open spec fn recipient_flag(flags: u8) -> bool {
    flags & FLAG_RECIPIENT != 0
}

/// Whether the hybrid bit is set.
pub open spec fn mlkem_flag(flags: u8) -> bool {
    flags & FLAG_MLKEM != 0
}

/// The mode-specific key material of a container.
pub enum KeyMaterial {
    /// The payload key is the Argon2id key itself.
    Password,
    /// The payload key combines the Argon2id key with an ML-KEM secret whose
    /// decapsulation key travels encrypted under the Argon2id key.
    Hybrid { mlkem_ct: Vec<u8>, dk_nonce: Vec<u8>, dk_encrypted: Vec<u8> },
    /// The payload key is an ML-KEM secret encapsulated to a recipient.
    Recipient { mlkem_ct: Vec<u8> },
}

/// The mathematical value of [`KeyMaterial`].
pub enum KeyMaterialView {
    Password,
    Hybrid { mlkem_ct: Seq<u8>, dk_nonce: Seq<u8>, dk_encrypted: Seq<u8> },
    Recipient { mlkem_ct: Seq<u8> },
}

impl View for KeyMaterial {
    type V = KeyMaterialView;

    open spec fn view(&self) -> KeyMaterialView {
        match self {
            KeyMaterial::Password => KeyMaterialView::Password,
            KeyMaterial::Hybrid { mlkem_ct, dk_nonce, dk_encrypted } => KeyMaterialView::Hybrid {
                mlkem_ct: mlkem_ct@,
                dk_nonce: dk_nonce@,
                dk_encrypted: dk_encrypted@,
            },
            KeyMaterial::Recipient { mlkem_ct } => KeyMaterialView::Recipient { mlkem_ct: mlkem_ct@ },
        }
    }
}

/// A parsed `RMZ1` container.
pub struct Container {
    pub flags: u8,
    pub memory_kib: u32,
    pub iterations: u32,
    pub parallelism: u32,
    pub salt: Vec<u8>,
    pub key_material: KeyMaterial,
    pub payload_nonce: Vec<u8>,
    pub ciphertext: Vec<u8>,
}

/// The mathematical value of a [`Container`].
pub struct ContainerView {
    pub flags: u8,
    pub memory_kib: u32,
    pub iterations: u32,
    pub parallelism: u32,
    pub salt: Seq<u8>,
    pub key_material: KeyMaterialView,
    pub payload_nonce: Seq<u8>,
    pub ciphertext: Seq<u8>,
}

impl View for Container {
    type V = ContainerView;

    open spec fn view(&self) -> ContainerView {
        ContainerView {
            flags: self.flags,
            memory_kib: self.memory_kib,
            iterations: self.iterations,
            parallelism: self.parallelism,
            salt: self.salt@,
            key_material: self.key_material@,
            payload_nonce: self.payload_nonce@,
            ciphertext: self.ciphertext@,
        }
    }
}

/// Whether `n` fits the `u32` length fields of the format.
pub open spec fn fits_u32(n: nat) -> bool {
    n <= u32::MAX
}

impl ContainerView {
    /// The field sizes are those of the format, the length fields can hold
    /// the lengths, and the key material is the one the flags select.
    pub open spec fn wf(self) -> bool {
        &&& self.salt.len() == SALT_LEN
        &&& self.payload_nonce.len() == NONCE_LEN
        &&& match self.key_material {
            KeyMaterialView::Password => !recipient_flag(self.flags) && !mlkem_flag(self.flags),
            KeyMaterialView::Hybrid { mlkem_ct, dk_nonce, dk_encrypted } => {
                &&& !recipient_flag(self.flags)
                &&& mlkem_flag(self.flags)
                &&& fits_u32(mlkem_ct.len())
                &&& dk_nonce.len() == NONCE_LEN
                &&& fits_u32(dk_encrypted.len())
            },
            KeyMaterialView::Recipient { mlkem_ct } => recipient_flag(self.flags) && fits_u32(
                mlkem_ct.len(),
            ),
        }
    }
}

/// A byte string preceded by its little-endian `u32` length.
pub open spec fn length_prefixed(data: Seq<u8>) -> Seq<u8> {
    le_u32_bytes(data.len() as u32) + data
}

/// The bytes of the key material.
pub open spec fn key_material_bytes(km: KeyMaterialView) -> Seq<u8> {
    match km {
        KeyMaterialView::Password => Seq::empty(),
        KeyMaterialView::Hybrid { mlkem_ct, dk_nonce, dk_encrypted } => length_prefixed(mlkem_ct)
            + dk_nonce + length_prefixed(dk_encrypted),
        KeyMaterialView::Recipient { mlkem_ct } => length_prefixed(mlkem_ct),
    }
}

/// The fixed header: magic, flags, costs and salt.
pub open spec fn fixed_header_bytes(v: ContainerView) -> Seq<u8> {
    magic() + seq![v.flags] + le_u32_bytes(v.memory_kib) + le_u32_bytes(v.iterations)
        + le_u32_bytes(v.parallelism) + v.salt
}

/// The serialized container.
pub open spec fn container_bytes(v: ContainerView) -> Seq<u8> {
    fixed_header_bytes(v) + key_material_bytes(v.key_material) + v.payload_nonce + v.ciphertext
}

/// The bytes of a container, offset by offset: `R` `M` `Z` `1`; the flags
/// byte at 4; the Argon2 memory, iteration and parallelism costs as
/// little-endian `u32`s at 5, 9 and 13; the 16-byte salt at 17. From 33 a
/// recipient container has the ML-KEM ciphertext's length (little-endian
/// `u32`) and then the ciphertext; a hybrid container has the ML-KEM
/// ciphertext's length and bytes, the 12-byte key nonce, and the encrypted
/// key's length and bytes; a password container has nothing. Then come the
/// 12-byte payload nonce and the payload ciphertext, which runs to the end.
#[verifier::spinoff_prover]
pub proof fn law_container_layout(v: ContainerView)
    requires
        v.wf(),
    ensures
        ({
            let b = container_bytes(v);
            let k: int = match v.key_material {
                KeyMaterialView::Password => 0,
                KeyMaterialView::Recipient { mlkem_ct } => 4 + mlkem_ct.len() as int,
                KeyMaterialView::Hybrid { mlkem_ct, dk_nonce, dk_encrypted } => 4 + mlkem_ct.len() as int + 12
                    + 4 + dk_encrypted.len() as int,
            };
            &&& b.len() == 45 + k + v.ciphertext.len()
            &&& b[0] == 0x52u8 && b[1] == 0x4du8 && b[2] == 0x5au8 && b[3] == 0x31u8
            &&& b[4] == v.flags
            &&& le_value(b, 5) == v.memory_kib as int
            &&& le_value(b, 9) == v.iterations as int
            &&& le_value(b, 13) == v.parallelism as int
            &&& b.subrange(17, 33) == v.salt
            &&& (v.key_material matches KeyMaterialView::Recipient { mlkem_ct } ==> le_value(b, 33)
                == mlkem_ct.len() as int && b.subrange(37, 37 + mlkem_ct.len() as int) == mlkem_ct)
            &&& (v.key_material matches KeyMaterialView::Hybrid { mlkem_ct, dk_nonce, dk_encrypted } ==> {
                let n = mlkem_ct.len() as int;
                &&& le_value(b, 33) == n
                &&& b.subrange(37, 37 + n) == mlkem_ct
                &&& b.subrange(37 + n, 49 + n) == dk_nonce
                &&& le_value(b, 49 + n) == dk_encrypted.len() as int
                &&& b.subrange(53 + n, 53 + n + dk_encrypted.len() as int) == dk_encrypted
            })
            &&& b.subrange(33 + k, 45 + k) == v.payload_nonce
            &&& b.subrange(45 + k, b.len() as int) == v.ciphertext
        }),
{
    let b = container_bytes(v);
    let km = key_material_bytes(v.key_material);
    let h = fixed_header_bytes(v);
    assert(h.len() == 33);
    assert(b == h + km + v.payload_nonce + v.ciphertext);
    let k = km.len() as int;
    assert(b.subrange(0, 4) =~= magic());
    assert(b[0] == b.subrange(0, 4)[0] && b[1] == b.subrange(0, 4)[1] && b[2] == b.subrange(0, 4)[2]
        && b[3] == b.subrange(0, 4)[3]);
    assert(b[4] == v.flags);
    assert(b.subrange(5, 9) =~= le_u32_bytes(v.memory_kib));
    lemma_le_value_at(b, 5, v.memory_kib);
    assert(b.subrange(9, 13) =~= le_u32_bytes(v.iterations));
    lemma_le_value_at(b, 9, v.iterations);
    assert(b.subrange(13, 17) =~= le_u32_bytes(v.parallelism));
    lemma_le_value_at(b, 13, v.parallelism);
    assert(b.subrange(17, 33) =~= v.salt);
    assert(b.subrange(33, 33 + k) =~= km);
    match v.key_material {
        KeyMaterialView::Password => {},
        KeyMaterialView::Recipient { mlkem_ct } => {
            assert(b.subrange(33, 37) =~= le_u32_bytes(mlkem_ct.len() as u32));
            lemma_le_value_at(b, 33, mlkem_ct.len() as u32);
            assert(b.subrange(37, 37 + mlkem_ct.len() as int) =~= mlkem_ct);
        },
        KeyMaterialView::Hybrid { mlkem_ct, dk_nonce, dk_encrypted } => {
            let n = mlkem_ct.len() as int;
            assert(b.subrange(33, 37) =~= le_u32_bytes(mlkem_ct.len() as u32));
            lemma_le_value_at(b, 33, mlkem_ct.len() as u32);
            assert(b.subrange(37, 37 + n) =~= mlkem_ct);
            assert(b.subrange(37 + n, 49 + n) =~= dk_nonce);
            assert(b.subrange(49 + n, 53 + n) =~= le_u32_bytes(dk_encrypted.len() as u32));
            lemma_le_value_at(b, 49 + n, dk_encrypted.len() as u32);
            assert(b.subrange(53 + n, 53 + n + dk_encrypted.len() as int) =~= dk_encrypted);
        },
    }
    assert(b.subrange(33 + k, 45 + k) =~= v.payload_nonce);
    assert(b.subrange(45 + k, b.len() as int) =~= v.ciphertext);
}

/// The length-prefixed byte string at `at`, with the offset just past it.
pub open spec fn parse_length_prefixed(raw: Seq<u8>, at: int) -> Option<(Seq<u8>, int)> {
    if at < 0 || at + 4 > raw.len() {
        None
    } else {
        let n = le_u32_at(raw, at) as int;
        if at + 4 + n > raw.len() {
            None
        } else {
            Some((raw.subrange(at + 4, at + 4 + n), at + 4 + n))
        }
    }
}

/// The key material the flags select, read at `at`, with the offset past it.
pub open spec fn parse_key_material(flags: u8, raw: Seq<u8>, at: int) -> Option<(KeyMaterialView, int)> {
    if recipient_flag(flags) {
        match parse_length_prefixed(raw, at) {
            Some((ct, next)) => Some((KeyMaterialView::Recipient { mlkem_ct: ct }, next)),
            None => None,
        }
    } else if mlkem_flag(flags) {
        match parse_length_prefixed(raw, at) {
            Some((ct, next)) => if next + NONCE_LEN > raw.len() {
                None
            } else {
                match parse_length_prefixed(raw, next + NONCE_LEN) {
                    Some((enc, end)) => Some(
                        (
                            KeyMaterialView::Hybrid {
                                mlkem_ct: ct,
                                dk_nonce: raw.subrange(next, next + NONCE_LEN),
                                dk_encrypted: enc,
                            },
                            end,
                        ),
                    ),
                    None => None,
                }
            },
            None => None,
        }
    } else {
        Some((KeyMaterialView::Password, at))
    }
}

/// The container that `raw` holds, if it is a complete `RMZ1` container.
pub open spec fn parse_container(raw: Seq<u8>) -> Option<ContainerView> {
    if raw.len() < FIXED_HEADER_LEN || raw.subrange(0, 4) != magic() {
        None
    } else {
        let flags = raw[4];
        match parse_key_material(flags, raw, FIXED_HEADER_LEN as int) {
            Some((km, at)) => if at + NONCE_LEN > raw.len() {
                None
            } else {
                Some(
                    ContainerView {
                        flags,
                        memory_kib: le_u32_at(raw, 5),
                        iterations: le_u32_at(raw, 9),
                        parallelism: le_u32_at(raw, 13),
                        salt: raw.subrange(17, 33),
                        key_material: km,
                        payload_nonce: raw.subrange(at, at + NONCE_LEN),
                        ciphertext: raw.subrange(at + NONCE_LEN, raw.len() as int),
                    },
                )
            },
            None => None,
        }
    }
}

proof fn lemma_parse_length_prefixed_of(prefix: Seq<u8>, data: Seq<u8>, rest: Seq<u8>)
    requires
        fits_u32(data.len()),
    ensures
        parse_length_prefixed(prefix + length_prefixed(data) + rest, prefix.len() as int) == Some(
            (data, prefix.len() + 4 + data.len() as int),
        ),
{
    let raw = prefix + length_prefixed(data) + rest;
    let at = prefix.len() as int;
    lemma_le_u32_roundtrip(data.len() as u32);
    let lb = le_u32_bytes(data.len() as u32);
    assert(raw.subrange(at, at + 4) =~= lb);
    assert(le_u32_at(raw, at) == le_u32_at(lb, 0)) by {
        assert(raw[at] == lb[0]);
        assert(raw[at + 1] == lb[1]);
        assert(raw[at + 2] == lb[2]);
        assert(raw[at + 3] == lb[3]);
    }
    assert(raw.subrange(at + 4, at + 4 + data.len()) =~= data);
}

/// Parsing the bytes of a well-formed container gives that container back.
#[verifier::rlimit(60)]
pub proof fn law_parse_of_serialize(v: ContainerView)
    requires
        v.wf(),
    ensures
        parse_container(container_bytes(v)) == Some(v),
{
    let raw = container_bytes(v);
    let fixed = fixed_header_bytes(v);
    let kmb = key_material_bytes(v.key_material);
    let tail = v.payload_nonce + v.ciphertext;
    assert(raw =~= fixed + kmb + tail);
    assert(fixed.len() == 33);
    assert(raw.subrange(0, 4) =~= magic());
    assert(raw[4] == v.flags);
    lemma_le_u32_roundtrip(v.memory_kib);
    lemma_le_u32_roundtrip(v.iterations);
    lemma_le_u32_roundtrip(v.parallelism);
    let m = le_u32_bytes(v.memory_kib);
    let t = le_u32_bytes(v.iterations);
    let p = le_u32_bytes(v.parallelism);
    assert(raw[5] == m[0] && raw[6] == m[1] && raw[7] == m[2] && raw[8] == m[3]);
    assert(raw[9] == t[0] && raw[10] == t[1] && raw[11] == t[2] && raw[12] == t[3]);
    assert(raw[13] == p[0] && raw[14] == p[1] && raw[15] == p[2] && raw[16] == p[3]);
    assert(raw.subrange(17, 33) =~= v.salt);
    let at: int = 33 + kmb.len() as int;
    match v.key_material {
        KeyMaterialView::Password => {
            assert(parse_key_material(v.flags, raw, 33) == Some((KeyMaterialView::Password, 33int)));
        },
        KeyMaterialView::Recipient { mlkem_ct } => {
            assert(raw =~= fixed + length_prefixed(mlkem_ct) + tail);
            lemma_parse_length_prefixed_of(fixed, mlkem_ct, tail);
        },
        KeyMaterialView::Hybrid { mlkem_ct, dk_nonce, dk_encrypted } => {
            assert(raw =~= fixed + length_prefixed(mlkem_ct) + (dk_nonce + length_prefixed(
                dk_encrypted,
            ) + tail));
            lemma_parse_length_prefixed_of(
                fixed,
                mlkem_ct,
                dk_nonce + length_prefixed(dk_encrypted) + tail,
            );
            let next: int = 37 + mlkem_ct.len() as int;
            let before = fixed + length_prefixed(mlkem_ct) + dk_nonce;
            assert(before.len() == next + 12);
            assert(raw =~= before + length_prefixed(dk_encrypted) + tail);
            lemma_parse_length_prefixed_of(before, dk_encrypted, tail);
            assert(raw.subrange(next, next + 12) =~= dk_nonce);
        },
    }
    assert(raw.subrange(at, at + 12) =~= v.payload_nonce);
    assert(raw.subrange(at + 12, raw.len() as int) =~= v.ciphertext);
}

/// A successful parse reads a well-formed container whose bytes are exactly
/// the parsed input: nothing is dropped or invented.
#[verifier::rlimit(60)]
pub proof fn law_serialize_of_parse(raw: Seq<u8>)
    requires
        parse_container(raw) is Some,
    ensures
        parse_container(raw).unwrap().wf(),
        container_bytes(parse_container(raw).unwrap()) == raw,
{
    let v = parse_container(raw).unwrap();
    lemma_le_u32_bytes_of_value(raw, 5);
    lemma_le_u32_bytes_of_value(raw, 9);
    lemma_le_u32_bytes_of_value(raw, 13);
    assert(fixed_header_bytes(v) =~= raw.subrange(0, 33));
    let at = match parse_key_material(raw[4], raw, 33) {
        Some((_, a)) => a,
        None => 0,
    };
    match v.key_material {
        KeyMaterialView::Password => {
            assert(at == 33);
        },
        KeyMaterialView::Recipient { mlkem_ct } => {
            lemma_le_u32_bytes_of_value(raw, 33);
            assert(length_prefixed(mlkem_ct) =~= raw.subrange(33, at));
        },
        KeyMaterialView::Hybrid { mlkem_ct, dk_nonce, dk_encrypted } => {
            lemma_le_u32_bytes_of_value(raw, 33);
            let next: int = 37 + mlkem_ct.len() as int;
            lemma_le_u32_bytes_of_value(raw, next + 12);
            assert(length_prefixed(mlkem_ct) =~= raw.subrange(33, next));
            assert(length_prefixed(dk_encrypted) =~= raw.subrange(next + 12, at));
            assert(key_material_bytes(v.key_material) =~= raw.subrange(33, at));
        },
    }
    assert(key_material_bytes(v.key_material) =~= raw.subrange(33, at));
    assert(container_bytes(v) =~= raw);
}

impl Container {
    /// The container's bytes.
    pub fn to_bytes(&self) -> (out: Vec<u8>)
        requires
            self@.wf(),
        ensures
            out@ == container_bytes(self@),
    {
        let mut out: Vec<u8> = Vec::new();
        out.push(0x52u8);
        out.push(0x4du8);
        out.push(0x5au8);
        out.push(0x31u8);
        out.push(self.flags);
        push_u32_le(&mut out, self.memory_kib);
        push_u32_le(&mut out, self.iterations);
        push_u32_le(&mut out, self.parallelism);
        push_bytes(&mut out, self.salt.as_slice());
        assert(out@ =~= fixed_header_bytes(self@));
        let ghost fixed = out@;
        match &self.key_material {
            KeyMaterial::Password => {},
            KeyMaterial::Hybrid { mlkem_ct, dk_nonce, dk_encrypted } => {
                push_u32_le(&mut out, mlkem_ct.len() as u32);
                push_bytes(&mut out, mlkem_ct.as_slice());
                push_bytes(&mut out, dk_nonce.as_slice());
                push_u32_le(&mut out, dk_encrypted.len() as u32);
                push_bytes(&mut out, dk_encrypted.as_slice());
            },
            KeyMaterial::Recipient { mlkem_ct } => {
                push_u32_le(&mut out, mlkem_ct.len() as u32);
                push_bytes(&mut out, mlkem_ct.as_slice());
            },
        }
        assert(out@ =~= fixed + key_material_bytes(self.key_material@));
        push_bytes(&mut out, self.payload_nonce.as_slice());
        push_bytes(&mut out, self.ciphertext.as_slice());
        assert(out@ =~= container_bytes(self@));
        out
    }
}

} // verus!

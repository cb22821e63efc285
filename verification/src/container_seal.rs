//! Sealing a payload into a new `RMZ1` container.

use vstd::prelude::*;
use crate::argon2_kdf::{derived_key, generate_salt};
use crate::bytes::le_value;
use crate::container::{Container, ContainerView, KeyMaterial, KeyMaterialView, NONCE_LEN, SALT_LEN, FIXED_HEADER_LEN, container_bytes, law_container_layout, law_parse_of_serialize, law_serialize_of_parse, mlkem_flag, parse_container, parse_key_material, parse_length_prefixed, recipient_flag};
use crate::container_open::{OpenFailure, container_password_key, header_argon2_key, open_outcome, opt_chars, payload_outcome};
use crate::error::{RamzError, backend_error, backend_message, is_backend_error};
use crate::mlkem_hybrid::{combine_secrets, combined_secret, encapsulate, generate_keypair, PUBLIC_KEY_LEN};
use crate::primitives::{chacha20poly1305_encrypt, chacha20poly1305_opened, chacha20poly1305_sealed, encapsulated_to, mlkem768_decapsulated, mlkem768_encapsulation_key, mlkem768_key_accepted, os_random_bytes};

verus! {

/// How a container protects its payload key.
pub enum ContainerMode {
    /// A password through Argon2id.
    Argon2id,
    /// A password through Argon2id, combined with a per-archive ML-KEM secret.
    MlKemHybrid,
    /// An ML-KEM secret encapsulated to the recipient's public key.
    Recipient(Vec<u8>),
}

/// The flags byte written for each mode.
pub open spec fn mode_flags(mode: ContainerMode) -> u8 {
    match mode {
        ContainerMode::Argon2id => 0x01u8,
        ContainerMode::MlKemHybrid => 0x03u8,
        ContainerMode::Recipient(_) => 0x05u8,
    }
}

/// Whether the mode takes its key from a password.
pub open spec fn needs_password(mode: ContainerMode) -> bool {
    !(mode is Recipient)
}

/// The flag bits of the three flags bytes the library writes.
pub proof fn lemma_mode_flag_bits()
    ensures
        !recipient_flag(0x01u8) && !mlkem_flag(0x01u8),
        !recipient_flag(0x03u8) && mlkem_flag(0x03u8),
        recipient_flag(0x05u8),
{
    assert(0x01u8 & 0x04u8 == 0u8 && 0x01u8 & 0x02u8 == 0u8) by (bit_vector);
    assert(0x03u8 & 0x04u8 == 0u8 && 0x03u8 & 0x02u8 != 0u8) by (bit_vector);
    assert(0x05u8 & 0x04u8 != 0u8) by (bit_vector);
}

/// The ML-KEM ciphertext a container stores; empty for a container without
/// one.
pub open spec fn stored_kem_ciphertext(bytes: Seq<u8>) -> Seq<u8> {
    match parse_container(bytes) {
        Some(v) => match v.key_material {
            KeyMaterialView::Hybrid { mlkem_ct, .. } => mlkem_ct,
            KeyMaterialView::Recipient { mlkem_ct } => mlkem_ct,
            KeyMaterialView::Password => Seq::empty(),
        },
        None => Seq::empty(),
    }
}

/// The Argon2id key of the container `bytes` for `password` and the costs.
pub open spec fn container_argon2_key(
    bytes: Seq<u8>,
    password: Option<Seq<char>>,
    memory_kib: u32,
    iterations: u32,
    parallelism: u32,
) -> Seq<u8> {
    derived_key(password.unwrap(), parse_container(bytes).unwrap().salt, memory_kib, iterations, parallelism).unwrap()
}

/// The ML-KEM decapsulation seed a hybrid container keeps wrapped under its
/// Argon2id key.
pub open spec fn wrapped_seed(
    bytes: Seq<u8>,
    password: Option<Seq<char>>,
    memory_kib: u32,
    iterations: u32,
    parallelism: u32,
) -> Seq<u8> {
    match parse_container(bytes).unwrap().key_material {
        KeyMaterialView::Hybrid { dk_nonce, dk_encrypted, .. } => chacha20poly1305_opened(
            container_argon2_key(bytes, password, memory_kib, iterations, parallelism),
            dk_nonce,
            dk_encrypted,
        ).unwrap(),
        _ => Seq::empty(),
    }
}

/// `ss` fits as the ML-KEM secret that the container `bytes`, sealed in an
/// ML-KEM `mode` around `payload`, was sealed under: the stored ML-KEM
/// ciphertext encapsulates `ss` to the recipient's key (recipient mode) or to
/// the key of the wrapped seed (hybrid mode), the stored ciphertext seals the
/// payload under the key that `ss` gives (combined with the Argon2id key in
/// the hybrid mode), and a decapsulation that recovers `ss` opens the
/// container to the payload.
pub open spec fn kem_secret_fits(
    mode: ContainerMode,
    bytes: Seq<u8>,
    password: Option<Seq<char>>,
    memory_kib: u32,
    iterations: u32,
    parallelism: u32,
    payload: Seq<u8>,
    ss: Seq<u8>,
) -> bool {
    let v = parse_container(bytes).unwrap();
    &&& ss.len() == 32
    &&& match mode {
        ContainerMode::MlKemHybrid => {
            let seed = wrapped_seed(bytes, password, memory_kib, iterations, parallelism);
            &&& encapsulated_to(mlkem768_encapsulation_key(seed), stored_kem_ciphertext(bytes), ss)
            &&& v.ciphertext == chacha20poly1305_sealed(
                combined_secret(container_argon2_key(bytes, password, memory_kib, iterations, parallelism), ss),
                v.payload_nonce,
                payload,
            )
            &&& (mlkem768_decapsulated(seed, stored_kem_ciphertext(bytes)) == ss ==> forall|id: Option<Seq<u8>>|
                open_outcome(bytes, password, id) == Ok::<Seq<u8>, OpenFailure>(payload))
        },
        ContainerMode::Recipient(rk) => {
            &&& encapsulated_to(rk@, stored_kem_ciphertext(bytes), ss)
            &&& v.ciphertext == chacha20poly1305_sealed(ss, v.payload_nonce, payload)
            &&& forall|seed: Seq<u8>, pw: Option<Seq<char>>| seed.len() == 64 && mlkem768_decapsulated(
                seed,
                stored_kem_ciphertext(bytes),
            ) == ss ==> open_outcome(bytes, pw, Some(seed)) == Ok::<Seq<u8>, OpenFailure>(payload)
        },
        ContainerMode::Argon2id => false,
    }
}

/// ML-KEM's correctness for the key pair with decapsulation seed `seed`:
/// every encapsulation to its encapsulation key decapsulates, with the seed,
/// to the encapsulated secret. ML-KEM guarantees this except with negligible
/// probability.
pub open spec fn kem_correct_for(seed: Seq<u8>) -> bool {
    forall|ct: Seq<u8>, ss: Seq<u8>| #[trigger] encapsulated_to(mlkem768_encapsulation_key(seed), ct, ss)
        ==> mlkem768_decapsulated(seed, ct) == ss
}

/// What a container sealed in `mode` adds to its payload: the fixed header,
/// the key material, the payload nonce and the 16-byte tag.
pub open spec fn sealed_overhead(mode: ContainerMode) -> nat {
    match mode {
        ContainerMode::Argon2id => 61,
        ContainerMode::MlKemHybrid => 1249,
        ContainerMode::Recipient(_) => 1153,
    }
}

/// `bytes` is a container sealed in `mode` around `payload`: it parses, its
/// header records the mode and costs, and opening it with the same secret
/// gives the payload back. In the ML-KEM modes the stored ML-KEM ciphertext
/// is an encapsulation to the recipient's key, or to the key of the seed
/// wrapped under the password, and the round trip holds whenever
/// decapsulation recovers the encapsulated secret, which ML-KEM guarantees
/// except with negligible probability.
#[verifier::opaque]
pub open spec fn sealed_as(
    mode: ContainerMode,
    bytes: Seq<u8>,
    password: Option<Seq<char>>,
    memory_kib: u32,
    iterations: u32,
    parallelism: u32,
    payload: Seq<u8>,
) -> bool {
    match parse_container(bytes) {
        None => false,
        Some(v) => {
            &&& v.flags == mode_flags(mode)
            &&& bytes.len() == payload.len() + sealed_overhead(mode)
            &&& v.ciphertext.len() == payload.len() + 16
            &&& v.memory_kib == memory_kib
            &&& v.iterations == iterations
            &&& v.parallelism == parallelism
            &&& match mode {
                ContainerMode::Argon2id => {
                    &&& v.key_material is Password
                    &&& password is Some
                    &&& derived_key(password.unwrap(), v.salt, memory_kib, iterations, parallelism) is Some
                    &&& v.ciphertext == chacha20poly1305_sealed(
                        derived_key(password.unwrap(), v.salt, memory_kib, iterations, parallelism).unwrap(),
                        v.payload_nonce,
                        payload,
                    )
                    &&& forall|id: Option<Seq<u8>>| open_outcome(bytes, password, id) == Ok::<Seq<u8>, OpenFailure>(payload)
                },
                ContainerMode::MlKemHybrid => {
                    let k = derived_key(password.unwrap(), v.salt, memory_kib, iterations, parallelism).unwrap();
                    &&& password is Some
                    &&& derived_key(password.unwrap(), v.salt, memory_kib, iterations, parallelism) is Some
                    &&& v.key_material matches KeyMaterialView::Hybrid { mlkem_ct, dk_nonce, dk_encrypted }
                    &&& chacha20poly1305_opened(k, dk_nonce, dk_encrypted) matches Some(seed)
                    &&& seed.len() == 64
                    &&& mlkem_ct.len() == 1088
                    &&& exists|ss: Seq<u8>| #[trigger] kem_secret_fits(
                        mode,
                        bytes,
                        password,
                        memory_kib,
                        iterations,
                        parallelism,
                        payload,
                        ss,
                    )
                },
                ContainerMode::Recipient(_) => {
                    &&& v.key_material matches KeyMaterialView::Recipient { mlkem_ct }
                    &&& mlkem_ct.len() == 1088
                    &&& exists|ss: Seq<u8>| #[trigger] kem_secret_fits(
                        mode,
                        bytes,
                        password,
                        memory_kib,
                        iterations,
                        parallelism,
                        payload,
                        ss,
                    )
                },
            }
        },
    }
}

/// A sealed container starts with `R` `M` `Z` `1`, then the flags byte of its
/// mode (0x01 for a password, 0x03 for the ML-KEM hybrid, 0x05 for a
/// recipient), then the memory, iteration and parallelism costs it was sealed
/// with as little-endian `u32`s; it is 61, 1249 or 1153 bytes longer than the
/// payload.
#[verifier::spinoff_prover]
pub proof fn law_sealed_header(
    mode: ContainerMode,
    bytes: Seq<u8>,
    password: Option<Seq<char>>,
    memory_kib: u32,
    iterations: u32,
    parallelism: u32,
    payload: Seq<u8>,
)
    requires
        sealed_as(mode, bytes, password, memory_kib, iterations, parallelism, payload),
    ensures
        bytes[0] == 0x52u8 && bytes[1] == 0x4du8 && bytes[2] == 0x5au8 && bytes[3] == 0x31u8,
        bytes[4] == match mode {
            ContainerMode::Argon2id => 0x01u8,
            ContainerMode::MlKemHybrid => 0x03u8,
            ContainerMode::Recipient(_) => 0x05u8,
        },
        le_value(bytes, 5) == memory_kib as int,
        le_value(bytes, 9) == iterations as int,
        le_value(bytes, 13) == parallelism as int,
        bytes.len() == payload.len() + match mode {
            ContainerMode::Argon2id => 61int,
            ContainerMode::MlKemHybrid => 1249int,
            ContainerMode::Recipient(_) => 1153int,
        },
{
    reveal(sealed_as);
    let v = parse_container(bytes).unwrap();
    law_serialize_of_parse(bytes);
    law_container_layout(v);
}

/// The inputs on which sealing cannot fail, whatever salt is drawn.
pub open spec fn seal_owed(
    mode: ContainerMode,
    payload: Seq<u8>,
    password: Option<Seq<char>>,
    memory_kib: u32,
    iterations: u32,
    parallelism: u32,
) -> bool {
    &&& payload.len() / 64 < 0xFFFF_FFFF
    &&& match mode {
        ContainerMode::Recipient(rk) => rk@.len() == PUBLIC_KEY_LEN && mlkem768_key_accepted(rk@),
        _ => password is Some && forall|salt: Seq<u8>| salt.len() == SALT_LEN ==> #[trigger] derived_key(
            password.unwrap(),
            salt,
            memory_kib,
            iterations,
            parallelism,
        ) is Some,
    }
}

/// The reasons sealing can fail: a missing password, a rejected recipient
/// key, a payload too long for one ChaCha20-Poly1305 message, or Argon2id
/// refusing the password and costs for the salt that was drawn.
pub open spec fn seal_refused(
    mode: ContainerMode,
    payload: Seq<u8>,
    password: Option<Seq<char>>,
    memory_kib: u32,
    iterations: u32,
    parallelism: u32,
) -> bool {
    ||| needs_password(mode) && password is None
    ||| (mode matches ContainerMode::Recipient(rk) && !(rk@.len() == PUBLIC_KEY_LEN && mlkem768_key_accepted(rk@)))
    ||| payload.len() / 64 >= 0xFFFF_FFFF
    ||| needs_password(mode) && password is Some && exists|salt: Seq<u8>| salt.len() == SALT_LEN
        && #[trigger] derived_key(password.unwrap(), salt, memory_kib, iterations, parallelism) is None
}

/// Seals `payload` into a new container in `mode`, drawing a fresh salt and
/// nonces (and, for the hybrid mode, a fresh ML-KEM key pair).
pub fn seal_container(
    mode: &ContainerMode,
    payload: &[u8],
    password: Option<&str>,
    memory_kib: u32,
    iterations: u32,
    parallelism: u32,
) -> (r: Result<Vec<u8>, RamzError>)
    ensures
        r matches Ok(bytes) ==> sealed_as(*mode, bytes@, opt_chars(password), memory_kib, iterations, parallelism, payload@),
        r matches Ok(bytes) ==> bytes@.len() == payload@.len() + sealed_overhead(*mode),
        needs_password(*mode) && password is None ==> is_backend_error(r, "age requires a password"@),
        mode matches ContainerMode::Recipient(rk) && rk@.len() != PUBLIC_KEY_LEN ==> is_backend_error(
            r,
            "mlkem encapsulate: invalid public key length"@,
        ),
        mode matches ContainerMode::Recipient(rk) && rk@.len() == PUBLIC_KEY_LEN && !mlkem768_key_accepted(rk@)
            ==> is_backend_error(r, "mlkem encapsulate: invalid public key"@),
        seal_owed(*mode, payload@, opt_chars(password), memory_kib, iterations, parallelism) ==> r is Ok,
        r is Err ==> seal_refused(*mode, payload@, opt_chars(password), memory_kib, iterations, parallelism),
{
    proof {
        reveal_strlit("age requires a password");
        reveal_strlit("mlkem encapsulate: ");
        reveal_strlit("mlkem key wrap: ");
        reveal_strlit("payload encrypt: ");
        reveal_strlit("invalid public key length");
        reveal_strlit("invalid public key");
        reveal_strlit("mlkem encapsulate: invalid public key length");
        reveal_strlit("mlkem encapsulate: invalid public key");
        lemma_mode_flag_bits();
    }
    let salt_arr = generate_salt();
    let salt = salt_arr.as_slice();
    let flags: u8;
    let key_material: KeyMaterial;
    let final_key: Vec<u8>;
    let ghost mut kem_secret: Seq<u8> = Seq::empty();
    let ghost mut kem_seed: Seq<u8> = Seq::empty();
    let ghost mut argon_key: Seq<u8> = Seq::empty();
    match mode {
        ContainerMode::Recipient(rk) => {
            let (ct, ss) = match encapsulate(rk.as_slice()) {
                Ok(pair) => pair,
                Err(m) => {
                    assert("mlkem encapsulate: "@ + "invalid public key length"@
                        =~= "mlkem encapsulate: invalid public key length"@);
                    assert("mlkem encapsulate: "@ + "invalid public key"@
                        =~= "mlkem encapsulate: invalid public key"@);
                    return Err(backend_error("mlkem encapsulate: ", m.as_str()));
                },
            };
            proof { kem_secret = ss@; }
            flags = 0x05;
            key_material = KeyMaterial::Recipient { mlkem_ct: ct };
            final_key = ss;
        },
        ContainerMode::MlKemHybrid => {
            let pw = match password {
                None => return Err(backend_message("age requires a password")),
                Some(p) => p,
            };
            let k = match container_password_key(pw, salt, memory_kib, iterations, parallelism) {
                Ok(k) => k,
                Err(e) => return Err(e),
            };
            let keypair = generate_keypair();
            let (ct, ss) = match encapsulate(keypair.public_key.as_slice()) {
                Ok(pair) => pair,
                Err(m) => return Err(backend_error("mlkem encapsulate: ", m.as_str())),
            };
            let dk_nonce_arr: [u8; 12] = os_random_bytes::<12>();
            let dk_nonce = crate::bytes::copy_range(dk_nonce_arr.as_slice(), 0, NONCE_LEN);
            assert(dk_nonce@ =~= dk_nonce_arr@);
            let dk_encrypted = match chacha20poly1305_encrypt(
                k.as_slice(),
                dk_nonce.as_slice(),
                keypair.secret_key.as_slice(),
            ) {
                Ok(c) => c,
                Err(m) => return Err(backend_error("mlkem key wrap: ", m.as_str())),
            };
            proof {
                kem_secret = ss@;
                kem_seed = keypair.secret_key@;
                argon_key = k@;
            }
            let combined = combine_secrets(k.as_slice(), ss.as_slice());
            flags = 0x03;
            key_material = KeyMaterial::Hybrid { mlkem_ct: ct, dk_nonce, dk_encrypted };
            final_key = crate::bytes::copy_range(combined.as_slice(), 0, 32);
            assert(final_key@ =~= combined@);
        },
        ContainerMode::Argon2id => {
            let pw = match password {
                None => return Err(backend_message("age requires a password")),
                Some(p) => p,
            };
            final_key = match container_password_key(pw, salt, memory_kib, iterations, parallelism) {
                Ok(k) => k,
                Err(e) => return Err(e),
            };
            flags = 0x01;
            key_material = KeyMaterial::Password;
        },
    }
    let nonce_arr: [u8; 12] = os_random_bytes::<12>();
    let payload_nonce = crate::bytes::copy_range(nonce_arr.as_slice(), 0, NONCE_LEN);
    assert(payload_nonce@ =~= nonce_arr@);
    let ciphertext = match chacha20poly1305_encrypt(final_key.as_slice(), payload_nonce.as_slice(), payload) {
        Ok(c) => c,
        Err(m) => return Err(backend_error("payload encrypt: ", m.as_str())),
    };
    let container = Container {
        flags,
        memory_kib,
        iterations,
        parallelism,
        salt: crate::bytes::copy_range(salt, 0, SALT_LEN),
        key_material,
        payload_nonce,
        ciphertext,
    };
    assert(container.salt@ =~= salt@);
    let bytes = container.to_bytes();
    proof {
        match mode {
            ContainerMode::Argon2id => lemma_sealed_argon2(container@, password.unwrap()@, final_key@, payload@),
            ContainerMode::MlKemHybrid => lemma_sealed_hybrid(container@, password.unwrap()@, argon_key, kem_seed, kem_secret, payload@),
            ContainerMode::Recipient(rk) => lemma_sealed_recipient(container@, *rk, kem_secret, payload@),
        }
    }
    Ok(bytes)
}

/// What opening the bytes of a well-formed container reads back.
proof fn lemma_reads_back(v: ContainerView)
    requires
        v.wf(),
    ensures
        parse_container(container_bytes(v)) == Some(v),
        container_bytes(v).len() >= FIXED_HEADER_LEN,
        container_bytes(v)[4] == v.flags,
        forall|pw: Seq<char>| #[trigger] header_argon2_key(container_bytes(v), pw) == derived_key(
            pw,
            v.salt,
            v.memory_kib,
            v.iterations,
            v.parallelism,
        ),
        parse_key_material(v.flags, container_bytes(v), 33) matches Some((km, at)) && km
            == v.key_material && payload_outcome_is(container_bytes(v), at, v),
        v.key_material matches KeyMaterialView::Recipient { mlkem_ct } ==> parse_length_prefixed(
            container_bytes(v),
            33,
        ) matches Some((ct, next)) && ct == mlkem_ct && payload_outcome_is(container_bytes(v), next, v),
{
    law_parse_of_serialize(v);
}

proof fn lemma_sealed_argon2(v: ContainerView, pw: Seq<char>, k: Seq<u8>, payload: Seq<u8>)
    requires
        v.wf(),
        v.flags == 0x01u8,
        v.key_material is Password,
        derived_key(pw, v.salt, v.memory_kib, v.iterations, v.parallelism) == Some(k),
        v.ciphertext == chacha20poly1305_sealed(k, v.payload_nonce, payload),
        chacha20poly1305_opened(k, v.payload_nonce, v.ciphertext) == Some(payload),
        v.ciphertext.len() == payload.len() + 16,
    ensures
        sealed_as(ContainerMode::Argon2id, container_bytes(v), Some(pw), v.memory_kib, v.iterations, v.parallelism, payload),
{
    reveal(sealed_as);
    lemma_reads_back(v);
    lemma_mode_flag_bits();
    let bytes = container_bytes(v);
    assert(header_argon2_key(bytes, pw) == Some(k));
    assert forall|id: Option<Seq<u8>>| open_outcome(bytes, Some(pw), id) == Ok::<Seq<u8>, OpenFailure>(payload) by {
        assert(payload_outcome(bytes, 33, k) == Ok::<Seq<u8>, OpenFailure>(payload));
    }
}

proof fn lemma_sealed_hybrid(v: ContainerView, pw: Seq<char>, k: Seq<u8>, seed: Seq<u8>, ss: Seq<u8>, payload: Seq<u8>)
    requires
        v.wf(),
        v.flags == 0x03u8,
        v.key_material matches KeyMaterialView::Hybrid { mlkem_ct, dk_nonce, dk_encrypted }
            && mlkem_ct.len() == 1088 && chacha20poly1305_opened(k, dk_nonce, dk_encrypted) == Some(seed)
            && dk_encrypted.len() == 80 && encapsulated_to(mlkem768_encapsulation_key(seed), mlkem_ct, ss),
        v.ciphertext.len() == payload.len() + 16,
        seed.len() == 64,
        ss.len() == 32,
        k.len() == 32,
        derived_key(pw, v.salt, v.memory_kib, v.iterations, v.parallelism) == Some(k),
        v.ciphertext == chacha20poly1305_sealed(combined_secret(k, ss), v.payload_nonce, payload),
        chacha20poly1305_opened(combined_secret(k, ss), v.payload_nonce, v.ciphertext) == Some(payload),
    ensures
        sealed_as(ContainerMode::MlKemHybrid, container_bytes(v), Some(pw), v.memory_kib, v.iterations, v.parallelism, payload),
{
    reveal(sealed_as);
    lemma_reads_back(v);
    lemma_mode_flag_bits();
    let bytes = container_bytes(v);
    assert(header_argon2_key(bytes, pw) == Some(k));
    if let KeyMaterialView::Hybrid { mlkem_ct, dk_nonce, dk_encrypted } = v.key_material {
        if mlkem768_decapsulated(seed, mlkem_ct) == ss {
            assert forall|id: Option<Seq<u8>>| open_outcome(bytes, Some(pw), id) == Ok::<Seq<u8>, OpenFailure>(payload) by {
                let at = parse_key_material(v.flags, bytes, 33).unwrap().1;
                assert(payload_outcome(bytes, at, combined_secret(k, ss)) == Ok::<Seq<u8>, OpenFailure>(payload));
            }
        }
        assert(container_argon2_key(bytes, Some(pw), v.memory_kib, v.iterations, v.parallelism) == k);
        assert(wrapped_seed(bytes, Some(pw), v.memory_kib, v.iterations, v.parallelism) == seed);
        assert(stored_kem_ciphertext(bytes) == mlkem_ct);
        assert(kem_secret_fits(
            ContainerMode::MlKemHybrid,
            bytes,
            Some(pw),
            v.memory_kib,
            v.iterations,
            v.parallelism,
            payload,
            ss,
        ));
    }
}

proof fn lemma_sealed_recipient(v: ContainerView, rk: Vec<u8>, ss: Seq<u8>, payload: Seq<u8>)
    requires
        v.wf(),
        v.flags == 0x05u8,
        v.key_material matches KeyMaterialView::Recipient { mlkem_ct } && mlkem_ct.len() == 1088
            && encapsulated_to(rk@, mlkem_ct, ss),
        v.ciphertext.len() == payload.len() + 16,
        ss.len() == 32,
        v.ciphertext == chacha20poly1305_sealed(ss, v.payload_nonce, payload),
        chacha20poly1305_opened(ss, v.payload_nonce, v.ciphertext) == Some(payload),
    ensures
        sealed_as(ContainerMode::Recipient(rk), container_bytes(v), None, v.memory_kib, v.iterations, v.parallelism, payload),
        forall|pw: Option<Seq<char>>| sealed_as(ContainerMode::Recipient(rk), container_bytes(v), pw, v.memory_kib, v.iterations, v.parallelism, payload),
{
    reveal(sealed_as);
    lemma_reads_back(v);
    lemma_mode_flag_bits();
    let bytes = container_bytes(v);
    if let KeyMaterialView::Recipient { mlkem_ct } = v.key_material {
        assert forall|seed: Seq<u8>, pw: Option<Seq<char>>| seed.len() == 64
            && mlkem768_decapsulated(seed, mlkem_ct) == ss implies open_outcome(bytes, pw, Some(seed))
            == Ok::<Seq<u8>, OpenFailure>(payload) by {
            let next = parse_length_prefixed(bytes, 33).unwrap().1;
            assert(payload_outcome(bytes, next, ss) == Ok::<Seq<u8>, OpenFailure>(payload));
        }
        assert(chacha20poly1305_sealed(ss, v.payload_nonce, payload) == v.ciphertext);
        assert(stored_kem_ciphertext(bytes) == mlkem_ct);
        assert forall|pw: Option<Seq<char>>| sealed_as(
            ContainerMode::Recipient(rk),
            bytes,
            pw,
            v.memory_kib,
            v.iterations,
            v.parallelism,
            payload,
        ) by {
            assert(kem_secret_fits(
                ContainerMode::Recipient(rk),
                bytes,
                pw,
                v.memory_kib,
                v.iterations,
                v.parallelism,
                payload,
                ss,
            ));
        }
        assert(sealed_as(
            ContainerMode::Recipient(rk),
            bytes,
            None,
            v.memory_kib,
            v.iterations,
            v.parallelism,
            payload,
        ));
    }
}

/// The payload field at `at` is that of `v`.
pub open spec fn payload_outcome_is(bytes: Seq<u8>, at: int, v: ContainerView) -> bool {
    &&& at + NONCE_LEN <= bytes.len()
    &&& bytes.subrange(at, at + NONCE_LEN) == v.payload_nonce
    &&& bytes.subrange(at + NONCE_LEN, bytes.len() as int) == v.ciphertext
}


/// A container sealed with a password in the Argon2id mode opens to its
/// payload with that password, with or without an identity.
pub proof fn law_password_container_opens(
    bytes: Seq<u8>,
    password: Option<Seq<char>>,
    memory_kib: u32,
    iterations: u32,
    parallelism: u32,
    payload: Seq<u8>,
    identity_secret: Option<Seq<u8>>,
)
    requires
        sealed_as(ContainerMode::Argon2id, bytes, password, memory_kib, iterations, parallelism, payload),
    ensures
        open_outcome(bytes, password, identity_secret) == Ok::<Seq<u8>, OpenFailure>(payload),
        parse_container(bytes) is Some,
{
    reveal(sealed_as);
}

/// A hybrid container opens to its payload with the password it was sealed
/// with, given ML-KEM's correctness for the key pair whose seed it wraps.
pub proof fn law_hybrid_container_opens(
    bytes: Seq<u8>,
    password: Option<Seq<char>>,
    memory_kib: u32,
    iterations: u32,
    parallelism: u32,
    payload: Seq<u8>,
    identity_secret: Option<Seq<u8>>,
)
    requires
        sealed_as(ContainerMode::MlKemHybrid, bytes, password, memory_kib, iterations, parallelism, payload),
        kem_correct_for(wrapped_seed(bytes, password, memory_kib, iterations, parallelism)),
    ensures
        open_outcome(bytes, password, identity_secret) == Ok::<Seq<u8>, OpenFailure>(payload),
{
    reveal(sealed_as);
    let mode = ContainerMode::MlKemHybrid;
    let ss = choose|ss: Seq<u8>| kem_secret_fits(mode, bytes, password, memory_kib, iterations, parallelism, payload, ss);
    assert(kem_secret_fits(mode, bytes, password, memory_kib, iterations, parallelism, payload, ss));
    let seed = wrapped_seed(bytes, password, memory_kib, iterations, parallelism);
    assert(encapsulated_to(mlkem768_encapsulation_key(seed), stored_kem_ciphertext(bytes), ss));
}

/// A recipient container opens to its payload, whatever password is given,
/// with the identity of the recipient it was sealed to: a seed whose
/// encapsulation key is the recipient key, given ML-KEM's correctness for
/// that key pair.
pub proof fn law_recipient_container_opens(
    bytes: Seq<u8>,
    recipient_key: Vec<u8>,
    password: Option<Seq<char>>,
    memory_kib: u32,
    iterations: u32,
    parallelism: u32,
    payload: Seq<u8>,
    seed: Seq<u8>,
    any_password: Option<Seq<char>>,
)
    requires
        sealed_as(
            ContainerMode::Recipient(recipient_key),
            bytes,
            password,
            memory_kib,
            iterations,
            parallelism,
            payload,
        ),
        seed.len() == 64,
        mlkem768_encapsulation_key(seed) == recipient_key@,
        kem_correct_for(seed),
    ensures
        open_outcome(bytes, any_password, Some(seed)) == Ok::<Seq<u8>, OpenFailure>(payload),
{
    reveal(sealed_as);
    let mode = ContainerMode::Recipient(recipient_key);
    let ss = choose|ss: Seq<u8>| kem_secret_fits(mode, bytes, password, memory_kib, iterations, parallelism, payload, ss);
    assert(kem_secret_fits(mode, bytes, password, memory_kib, iterations, parallelism, payload, ss));
    assert(encapsulated_to(mlkem768_encapsulation_key(seed), stored_kem_ciphertext(bytes), ss));
}

} // verus!

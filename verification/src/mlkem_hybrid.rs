//! ML-KEM-768 key encapsulation and the secret combiner of the hybrid mode.

use vstd::prelude::*;
use crate::primitives::{
    encapsulated_to, mlkem768_decapsulate, mlkem768_decapsulated, mlkem768_encapsulate, mlkem768_encapsulation_key,
    mlkem768_generate, mlkem768_key_accepted, sha256, sha256_digest,
};

verus! {

/// Size of an ML-KEM-768 encapsulation (public) key.
pub const PUBLIC_KEY_LEN: usize = 1184;

/// Size of the decapsulation seed that stands for an ML-KEM-768 secret key.
pub const SECRET_KEY_LEN: usize = 64;

/// Size of an ML-KEM-768 ciphertext.
pub const CIPHERTEXT_LEN: usize = 1088;

/// An ML-KEM-768 key pair as raw bytes.
pub struct MlKemKeyPair {
    pub public_key: Vec<u8>,
    pub secret_key: Vec<u8>,
}

/// A fresh ML-KEM-768 key pair from the system's random source.
pub fn generate_keypair() -> (kp: MlKemKeyPair)
    ensures
        kp.public_key@.len() == PUBLIC_KEY_LEN,
        kp.secret_key@.len() == SECRET_KEY_LEN,
        kp.public_key@ == mlkem768_encapsulation_key(kp.secret_key@),
        mlkem768_key_accepted(kp.public_key@),
{
    let (dk, ek) = mlkem768_generate();
    MlKemKeyPair { public_key: ek, secret_key: dk }
}

/// Encapsulates a fresh shared secret to `public_key_bytes`, returning
/// (ciphertext, shared secret).
pub fn encapsulate(public_key_bytes: &[u8]) -> (r: Result<(Vec<u8>, Vec<u8>), String>)
    ensures
        public_key_bytes@.len() != PUBLIC_KEY_LEN ==> (r matches Err(m) && m@
            == "invalid public key length"@),
        public_key_bytes@.len() == PUBLIC_KEY_LEN && !mlkem768_key_accepted(public_key_bytes@)
            ==> (r matches Err(m) && m@ == "invalid public key"@),
        r is Ok <==> public_key_bytes@.len() == PUBLIC_KEY_LEN && mlkem768_key_accepted(
            public_key_bytes@,
        ),
        r matches Ok((ct, ss)) ==> ct@.len() == CIPHERTEXT_LEN && ss@.len() == 32 && encapsulated_to(
            public_key_bytes@,
            ct@,
            ss@,
        ),
{
    if public_key_bytes.len() != PUBLIC_KEY_LEN {
        proof {
            reveal_strlit("invalid public key length");
        }
        return Err("invalid public key length".to_owned());
    }
    match mlkem768_encapsulate(public_key_bytes) {
        Some(pair) => Ok(pair),
        None => {
            proof {
                reveal_strlit("invalid public key");
            }
            Err("invalid public key".to_owned())
        },
    }
}

/// The shared secret that `decapsulate` recovers, or the message it fails with.
pub open spec fn decapsulation(secret_key: Seq<u8>, ciphertext: Seq<u8>) -> Result<Seq<u8>, Seq<char>> {
    if secret_key.len() != SECRET_KEY_LEN {
        Err("invalid secret key length"@)
    } else if ciphertext.len() != CIPHERTEXT_LEN {
        Err("invalid ciphertext length"@)
    } else {
        Ok(mlkem768_decapsulated(secret_key, ciphertext))
    }
}

/// Decapsulates the shared secret from `ciphertext_bytes` with the secret key
/// (decapsulation seed) `secret_key_bytes`.
pub fn decapsulate(secret_key_bytes: &[u8], ciphertext_bytes: &[u8]) -> (r: Result<Vec<u8>, String>)
    ensures
        match (r, decapsulation(secret_key_bytes@, ciphertext_bytes@)) {
            (Ok(ss), Ok(expected)) => ss@ == expected,
            (Err(m), Err(expected)) => m@ == expected,
            _ => false,
        },
        r matches Ok(ss) ==> ss@.len() == 32,
{
    proof {
        reveal_strlit("invalid secret key length");
        reveal_strlit("invalid ciphertext length");
    }
    if secret_key_bytes.len() != SECRET_KEY_LEN {
        return Err("invalid secret key length".to_owned());
    }
    if ciphertext_bytes.len() != CIPHERTEXT_LEN {
        return Err("invalid ciphertext length".to_owned());
    }
    Ok(mlkem768_decapsulate(secret_key_bytes, ciphertext_bytes))
}

/// The key of the hybrid mode: SHA-256 of `secret_a` followed by `secret_b`.
pub open spec fn combined_secret(secret_a: Seq<u8>, secret_b: Seq<u8>) -> Seq<u8> {
    sha256_digest(secret_a + secret_b)
}

/// The hybrid key is the SHA-256 digest of the first secret (the Argon2id
/// key) followed by the second (the ML-KEM shared secret), in that order.
pub proof fn law_combined_secret_is_digest_of_concatenation(secret_a: Seq<u8>, secret_b: Seq<u8>)
    ensures
        combined_secret(secret_a, secret_b) == sha256_digest(secret_a + secret_b),
{
}

/// Combines two secrets into one 32-byte key: SHA-256 over their concatenation.
pub fn combine_secrets(secret_a: &[u8], secret_b: &[u8]) -> (c: [u8; 32])
    ensures
        c@ == combined_secret(secret_a@, secret_b@),
{
    let mut msg: Vec<u8> = Vec::new();
    msg.extend_from_slice(secret_a);
    msg.extend_from_slice(secret_b);
    assert(msg@ =~= secret_a@ + secret_b@);
    sha256(msg.as_slice())
}

} // verus!

//! Password-based key derivation with Argon2id.

use vstd::prelude::*;
use vstd::string::StringSliceAdditionalSpecFns;
use crate::error::{RamzError, backend_error, backend_message, is_backend_error};
use crate::primitives::{argon2_params_valid, Argon2Failure, argon2id_hash, argon2id_output, os_random_bytes};

verus! {

/// Parallelism costs from here on would overflow the `argon2` crate's
/// `8 * p_cost` memory check; they always ask for more memory than a `u32`
/// cost can hold.
pub const MAX_SAFE_PARALLELISM: u32 = 0x1FFF_FFFF;

/// The key [`derive_key`] produces for these inputs, or `None` when it fails.
pub open spec fn derived_key(
    password: Seq<char>,
    salt: Seq<u8>,
    memory_kib: u32,
    iterations: u32,
    parallelism: u32,
) -> Option<Seq<u8>> {
    if parallelism > MAX_SAFE_PARALLELISM {
        None
    } else {
        argon2id_output(password, salt, memory_kib, iterations, parallelism)
    }
}

/// A fresh random 16-byte salt from the operating system's random source.
pub fn generate_salt() -> (salt: [u8; 16]) {
    os_random_bytes::<16>()
}

/// Derives a 32-byte key from `password` and `salt` with Argon2id.
pub fn derive_key(
    password: &str,
    salt: &[u8],
    memory_kib: u32,
    iterations: u32,
    parallelism: u32,
) -> (r: Result<Vec<u8>, RamzError>)
    ensures
        match r {
            Ok(k) => derived_key(password@, salt@, memory_kib, iterations, parallelism) == Some(k@)
                && k@.len() == 32,
            Err(e) => derived_key(password@, salt@, memory_kib, iterations, parallelism) is None
                && e is Backend,
        },
        argon2_params_valid(memory_kib, iterations, parallelism) && salt@.len() == 16
            && password.spec_bytes().len() <= 0xFFFF_FFFF ==> r is Ok,
        parallelism > MAX_SAFE_PARALLELISM ==> is_backend_error(
            r,
            "argon2 params: memory cost is too small"@,
        ),
{
    if parallelism > MAX_SAFE_PARALLELISM {
        proof {
            reveal_strlit("argon2 params: memory cost is too small");
        }
        return Err(backend_message("argon2 params: memory cost is too small"));
    }
    match argon2id_hash(password, salt, memory_kib, iterations, parallelism) {
        Ok(k) => Ok(k),
        Err(Argon2Failure::Params(e)) => Err(backend_error("argon2 params: ", e.as_str())),
        Err(Argon2Failure::Salt(e)) => Err(backend_error("salt encode: ", e.as_str())),
        Err(Argon2Failure::Hash(e)) => Err(backend_error("argon2 hash: ", e.as_str())),
        Err(Argon2Failure::NoHash) => Err(backend_message("argon2 produced no hash")),
    }
}

} // verus!

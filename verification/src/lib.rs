//! Compress-and-encrypt archiving: the `RMZ1` container and `RIM1` identity
//! formats, the key schedules that protect them, the age and 7z backends, and
//! the rules that decide how a source is packed, previewed and resumed.

pub mod error;
pub mod bytes;
pub mod text;
pub mod paths;
pub mod primitives;
pub mod argon2_kdf;
pub mod mlkem_hybrid;
pub mod container;
pub mod container_open;
pub mod container_seal;
pub mod identity;
pub mod compression;
pub mod archive;
pub mod age_backend;
pub mod sevenz;
pub mod resume;
pub mod checksum;
pub mod dry_run;
pub mod plan;
pub mod pack_flow;

pub use archive::{
    Backend, NullProgress, PackOptions, ProgressReporter, SourceKind, Target, confirm_passwords,
    read_and_confirm_password,
};
pub use compression::{effective_compression_level, is_already_compressed};
pub use error::RamzError;
pub use paths::safe_output_dir;

//! The decisions of the command line: which flags go together, where the
//! password comes from, which backend and level are used, where archives
//! and identities are written, and when an existing file stops a run.

use vstd::prelude::*;
use crate::age_backend::AgeBackend;
use crate::container_seal::ContainerMode;
use crate::error::RamzError;
use crate::paths::{
    no_separator,
    path_extension, path_file_stem, path_join, path_with_extension, std_path_extension,
    std_path_file_stem, std_path_join, std_path_with_extension, text_eq,
};

verus! {

/// The backend chosen on the command line.
#[derive(Debug, Clone, Copy, PartialEq, Eq, Structural)]
pub enum BackendChoice {
    Age,
    SevenZ,
}

impl BackendChoice {
    /// The backend's name, as recorded in resume state and the preview.
    pub fn name(self) -> (n: &'static str)
        ensures
            n@ == (if self == BackendChoice::Age {
                "age"@
            } else {
                "7z"@
            }),
    {
        match self {
            BackendChoice::Age => "age",
            BackendChoice::SevenZ => "7z",
        }
    }

    /// The extension of the archives the backend writes.
    pub fn extension(self) -> (e: &'static str)
        ensures
            e@ == (if self == BackendChoice::Age {
                "age.tar.zst"@
            } else {
                "7z"@
            }),
    {
        match self {
            BackendChoice::Age => "age.tar.zst",
            BackendChoice::SevenZ => "7z",
        }
    }

    /// The compression level used when none is asked for: 9 for age, 5 for 7z.
    pub fn default_level(self) -> (l: u8)
        ensures
            l == (if self == BackendChoice::Age {
                9u8
            } else {
                5u8
            }),
    {
        match self {
            BackendChoice::Age => 9,
            BackendChoice::SevenZ => 5,
        }
    }
}

/// Refuses the flags that only the age backend understands when the 7z
/// backend is chosen.
pub fn check_pack_flags(backend: BackendChoice, argon2id: bool, mlkem: bool, has_recipient: bool) -> (r: Result<
    (),
    RamzError,
>)
    ensures
        backend == BackendChoice::SevenZ && (argon2id || mlkem) ==> (r matches Err(RamzError::IncompatibleFlag(m))
            && m@ == "--argon2id/--mlkem only supported with --backend age"@),
        backend == BackendChoice::SevenZ && !(argon2id || mlkem) && has_recipient ==> (r matches Err(
            RamzError::IncompatibleFlag(m),
        ) && m@ == "--recipient only supported with --backend age"@),
        backend == BackendChoice::Age || (!argon2id && !mlkem && !has_recipient) ==> r is Ok,
{
    if backend == BackendChoice::SevenZ && (argon2id || mlkem) {
        return Err(RamzError::IncompatibleFlag("--argon2id/--mlkem only supported with --backend age".to_owned()));
    }
    if backend == BackendChoice::SevenZ && has_recipient {
        return Err(RamzError::IncompatibleFlag("--recipient only supported with --backend age".to_owned()));
    }
    Ok(())
}

/// Where the password of a pack comes from.
#[derive(Debug)]
pub enum PasswordPlan {
    /// The password given on the command line, used as it is.
    Given(String),
    /// The password given on the command line, to be confirmed by typing it
    /// again.
    ConfirmGiven(String),
    /// No password was given: it is read from the terminal, twice when
    /// confirmation is asked for.
    Prompt { confirm: bool },
    /// Archives for a recipient use no password.
    NoPassword,
}

/// Decides where the password comes from. A password is refused together
/// with a recipient, and an empty password given on the command line is
/// refused unless it is to be confirmed.
pub fn password_plan(password: Option<String>, has_recipient: bool, confirm: bool) -> (r: Result<
    PasswordPlan,
    RamzError,
>)
    ensures
        password is Some && has_recipient ==> (r matches Err(RamzError::IncompatibleFlag(m)) && m@
            == "--password cannot be used with --recipient (recipient archives use identity-based decryption, not passwords)"@),
        password is None && has_recipient ==> (r matches Ok(PasswordPlan::NoPassword)),
        password is None && !has_recipient ==> (r matches Ok(PasswordPlan::Prompt { confirm: c }) && c == confirm),
        password is Some && !has_recipient && confirm ==> (r matches Ok(PasswordPlan::ConfirmGiven(q)) && q@
            == password.unwrap()@),
        password is Some && !has_recipient && !confirm && password.unwrap()@.len() == 0 ==> (r matches Err(
            RamzError::EmptyPassword,
        )),
        password is Some && !has_recipient && !confirm && password.unwrap()@.len() > 0 ==> (r matches Ok(
            PasswordPlan::Given(q),
        ) && q@ == password.unwrap()@),
{
    match password {
        Some(p) => {
            if has_recipient {
                Err(
                    RamzError::IncompatibleFlag(
                        "--password cannot be used with --recipient (recipient archives use identity-based decryption, not passwords)".to_owned(),
                    ),
                )
            } else if confirm {
                Ok(PasswordPlan::ConfirmGiven(p))
            } else if p.as_str().is_empty() {
                Err(RamzError::EmptyPassword)
            } else {
                Ok(PasswordPlan::Given(p))
            }
        },
        None => {
            if has_recipient {
                Ok(PasswordPlan::NoPassword)
            } else {
                Ok(PasswordPlan::Prompt { confirm })
            }
        },
    }
}

/// Accepts a password typed once at the prompt: it must not be empty.
pub fn accept_password(password: String) -> (r: Result<String, RamzError>)
    ensures
        password@.len() == 0 ==> (r matches Err(RamzError::EmptyPassword)),
        password@.len() > 0 ==> (r matches Ok(p) && p@ == password@),
{
    if password.as_str().is_empty() {
        Err(RamzError::EmptyPassword)
    } else {
        Ok(password)
    }
}

/// The compression level of a pack: the one asked for, or the backend's
/// default.
pub fn pack_level(requested: Option<u8>, backend: BackendChoice) -> (l: u8)
    ensures
        l == match requested {
            Some(v) => v,
            None => if backend == BackendChoice::Age {
                9u8
            } else {
                5u8
            },
        },
{
    match requested {
        Some(v) => v,
        None => backend.default_level(),
    }
}

/// The stem of a path's file name, or the empty text.
pub open spec fn stem_or_empty(path: Seq<char>) -> Seq<char> {
    match std_path_file_stem(path) {
        Some(s) => s,
        None => Seq::empty(),
    }
}

/// The path of the archive made from `source`: in `output_dir`, named by the
/// source's stem and the backend's extension.
pub fn archive_path_for(source: &str, output_dir: &str, extension: &str) -> (p: String)
    ensures
        p@ == std_path_join(output_dir@, stem_or_empty(source@) + "."@ + extension@),
{
    let mut name = match path_file_stem(source) {
        Some(stem) => stem,
        None => String::new(),
    };
    name.append(".");
    name.append(extension);
    path_join(output_dir, name.as_str())
}

/// Refuses to write over an existing archive unless overwriting is forced
/// or a resumed run is to make it again.
pub fn check_overwrite(archive_path: &str, exists: bool, force: bool, resume: bool) -> (r: Result<(), RamzError>)
    ensures
        exists && !force && !resume ==> (r matches Err(RamzError::ArchiveExists(p)) && p@ == archive_path@),
        !(exists && !force && !resume) ==> r is Ok,
{
    if exists && !force && !resume {
        Err(RamzError::ArchiveExists(archive_path.to_owned()))
    } else {
        Ok(())
    }
}

/// The age backend a pack uses: a recipient's key wins over the ML-KEM
/// hybrid, which wins over Argon2id; with none of them, the standard age
/// format.
pub fn select_age_backend(recipient_key: Option<Vec<u8>>, mlkem: bool, argon2id: bool) -> (b: AgeBackend)
    ensures
        b.mode() == match recipient_key {
            Some(k) => Some(ContainerMode::Recipient(k)),
            None => if mlkem {
                Some(ContainerMode::MlKemHybrid)
            } else if argon2id {
                Some(ContainerMode::Argon2id)
            } else {
                None
            },
        },
{
    match recipient_key {
        Some(k) => AgeBackend::new_with_recipient(k),
        None => {
            if mlkem {
                AgeBackend::new_with_mlkem()
            } else if argon2id {
                AgeBackend::new_with_argon2id()
            } else {
                AgeBackend::new()
            }
        },
    }
}

/// The backend that reads an existing archive: 7z for a `.7z` file, age
/// otherwise.
pub fn backend_for_archive(archive_path: &str) -> (b: BackendChoice)
    ensures
        b == (if std_path_extension(archive_path@) == Some("7z"@) {
            BackendChoice::SevenZ
        } else {
            BackendChoice::Age
        }),
{
    match path_extension(archive_path) {
        Some(e) => {
            if text_eq(e.as_str(), "7z") {
                BackendChoice::SevenZ
            } else {
                BackendChoice::Age
            }
        },
        None => BackendChoice::Age,
    }
}

/// The directory an archive is extracted into: the one given, or the
/// archive's stem in the current directory.
pub fn extract_dir_for(archive_path: &str, output: Option<&str>) -> (d: String)
    ensures
        d@ == match output {
            Some(o) => o@,
            None => stem_or_empty(archive_path@),
        },
{
    match output {
        Some(o) => o.to_owned(),
        None => match path_file_stem(archive_path) {
            Some(stem) => stem,
            None => String::new(),
        },
    }
}

/// The password used to open an identity: the one given when it is not
/// empty; otherwise `None`, and the identity password is to be asked for.
pub fn given_identity_password(password: Option<&str>) -> (r: Option<String>)
    ensures
        match password {
            Some(p) => if p@.len() > 0 {
                r matches Some(q) && q@ == p@
            } else {
                r is None
            },
            None => r is None,
        },
{
    match password {
        Some(p) => {
            if p.is_empty() {
                None
            } else {
                Some(p.to_owned())
            }
        },
        None => None,
    }
}

/// Where identities are written: the directory given, else
/// `.config/ramz` under the home directory, else the current directory.
pub fn identity_dir(output: Option<&str>, home: Option<&str>) -> (d: String)
    ensures
        d@ == match output {
            Some(o) => o@,
            None => match home {
                Some(h) => std_path_join(std_path_join(h@, ".config"@), "ramz"@),
                None => "."@,
            },
        },
{
    match output {
        Some(o) => o.to_owned(),
        None => match home {
            Some(h) => {
                let config = path_join(h, ".config");
                path_join(config.as_str(), "ramz")
            },
            None => ".".to_owned(),
        },
    }
}

/// The public and secret identity files kept in a directory.
pub fn identity_paths(dir: &str) -> (paths: (String, String))
    ensures
        paths.0@ == std_path_join(dir@, "identity.pub"@),
        paths.1@ == std_path_join(dir@, "identity"@),
{
    (path_join(dir, "identity.pub"), path_join(dir, "identity"))
}

/// Refuses to generate an identity over existing identity files.
pub fn check_identity_free(pub_exists: bool, sec_exists: bool) -> (r: Result<(), RamzError>)
    ensures
        (pub_exists || sec_exists) ==> (r matches Err(RamzError::ArchiveExists(m)) && m@
            == "identity files already exist; use --output to specify a different directory"@),
        !(pub_exists || sec_exists) ==> r is Ok,
{
    if pub_exists || sec_exists {
        Err(
            RamzError::ArchiveExists(
                "identity files already exist; use --output to specify a different directory".to_owned(),
            ),
        )
    } else {
        Ok(())
    }
}

/// The public file that belongs to a secret identity file: the same path
/// with the extension `pub`.
pub fn public_identity_path(secret_path: &str) -> (p: String)
    ensures
        p@ == std_path_with_extension(secret_path@, "pub"@),
{
    proof {
        reveal_strlit("pub");
        assert(no_separator("pub"@));
    }
    path_with_extension(secret_path, "pub")
}

} // verus!

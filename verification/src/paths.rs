//! Path manipulation. Paths travel through the library as text; the
//! decomposition of a path into components is `std::path`'s, called here.

use vstd::prelude::*;

verus! {

/// `Path::parent` of the path `p`, as text.
pub uninterp spec fn std_path_parent(p: Seq<char>) -> Option<Seq<char>>;

/// `Path::extension` of the path `p`, as text.
pub uninterp spec fn std_path_extension(p: Seq<char>) -> Option<Seq<char>>;

/// `Path::file_stem` of the path `p`, as text.
pub uninterp spec fn std_path_file_stem(p: Seq<char>) -> Option<Seq<char>>;

/// `Path::with_extension` of the path `p` and the extension `ext`, as text.
pub uninterp spec fn std_path_with_extension(p: Seq<char>, ext: Seq<char>) -> Seq<char>;

/// `Path::join` of `base` and `rest`, as text.
pub uninterp spec fn std_path_join(base: Seq<char>, rest: Seq<char>) -> Seq<char>;

/// `str::to_lowercase` of `s`.
pub uninterp spec fn std_lowercase(s: Seq<char>) -> Seq<char>;

/// The parent of a path (`std::path::Path::parent`). Claims: the result is
/// the named parent.
#[verifier::external_body]
pub fn path_parent(p: &str) -> (r: Option<String>)
    ensures
        match r {
            Some(q) => std_path_parent(p@) == Some(q@),
            None => std_path_parent(p@) is None,
        },
{
    std::path::Path::new(p).parent().map(|q| q.to_string_lossy().into_owned())
}

/// The extension of a path's file name (`std::path::Path::extension`).
/// Claims: the result is the named extension.
#[verifier::external_body]
pub fn path_extension(p: &str) -> (r: Option<String>)
    ensures
        match r {
            Some(e) => std_path_extension(p@) == Some(e@),
            None => std_path_extension(p@) is None,
        },
{
    std::path::Path::new(p).extension().map(|e| e.to_string_lossy().into_owned())
}

/// The file name of a path without its extension
/// (`std::path::Path::file_stem`). Claims: the result is the named stem.
#[verifier::external_body]
pub fn path_file_stem(p: &str) -> (r: Option<String>)
    ensures
        match r {
            Some(e) => std_path_file_stem(p@) == Some(e@),
            None => std_path_file_stem(p@) is None,
        },
{
    std::path::Path::new(p).file_stem().map(|e| e.to_string_lossy().into_owned())
}

/// Whether `s` holds no path separator (neither `/` nor `\\`).
pub open spec fn no_separator(s: Seq<char>) -> bool {
    forall|i: int| 0 <= i < s.len() ==> #[trigger] s[i] != '/' && s[i] != '\\'
}

/// A path with its extension replaced (`std::path::Path::with_extension`).
/// Claims: the result is the named path. `PathBuf::set_extension` panics on
/// an extension that holds a path separator, so those are left out.
#[verifier::external_body]
pub fn path_with_extension(p: &str, ext: &str) -> (r: String)
    requires
        no_separator(ext@),
    ensures
        r@ == std_path_with_extension(p@, ext@),
{
    std::path::Path::new(p).with_extension(ext).to_string_lossy().into_owned()
}

/// Two paths joined (`std::path::Path::join`). Claims: the result is the
/// named path.
#[verifier::external_body]
pub fn path_join(base: &str, rest: &str) -> (r: String)
    ensures
        r@ == std_path_join(base@, rest@),
{
    std::path::Path::new(base).join(rest).to_string_lossy().into_owned()
}

/// The lowercase form of a string (`str::to_lowercase`). Claims: the result
/// is the named lowercase form.
#[verifier::external_body]
pub fn lowercase(s: &str) -> (r: String)
    ensures
        r@ == std_lowercase(s@),
{
    s.to_lowercase()
}

/// Whether two strings are equal.
pub fn text_eq(a: &str, b: &str) -> (r: bool)
    ensures
        r == (a@ == b@),
{
    let x = a.to_owned();
    let y = b.to_owned();
    x == y
}

/// The directory an archive is written to: the explicit output directory
/// when one is given, else the source's parent directory, or `.` when that
/// parent is empty or the root.
pub open spec fn output_dir_for(path: Seq<char>, explicit_output: Option<Seq<char>>) -> Seq<char> {
    match explicit_output {
        Some(out) => out,
        None => match std_path_parent(path) {
            Some(q) => if q.len() > 0 && q != "/"@ {
                q
            } else {
                "."@
            },
            None => "."@,
        },
    }
}

/// The directory an archive of `path` is written to.
pub fn safe_output_dir(path: &str, explicit_output: Option<&str>) -> (r: String)
    ensures
        r@ == output_dir_for(path@, match explicit_output {
            Some(o) => Some(o@),
            None => None,
        }),
{
    if let Some(out) = explicit_output {
        return out.to_owned();
    }
    proof {
        reveal_strlit(".");
        reveal_strlit("/");
    }
    match path_parent(path) {
        Some(q) => {
            if q.as_str().is_empty() || text_eq(q.as_str(), "/") {
                ".".to_owned()
            } else {
                q
            }
        },
        None => ".".to_owned(),
    }
}

} // verus!

//! Choosing the compression level from the kind of content, and zstd
//! compression of payloads.

use vstd::prelude::*;
use crate::error::{RamzError, backend_error};
use crate::paths::{lowercase, path_extension, std_lowercase, std_path_extension, text_eq};
use crate::primitives::{ZstdFailure, zstd_decode, zstd_decoded, zstd_encode, zstd_encoded};

verus! {

/// The extensions of formats that are already compressed, so that
/// compressing them again gains nothing.
pub open spec fn compressed_extensions() -> Seq<Seq<char>> {
    seq![
        "zip"@, "gz"@, "bz2"@, "xz"@, "7z"@, "rar"@, "png"@, "jpg"@, "jpeg"@, "gif"@, "webp"@,
        "mp3"@, "mp4"@, "ogg"@, "webm"@, "pdf"@, "docx"@, "xlsx"@, "pptx"@,
    ]
}

/// Whether a lowercase extension names an already compressed format.
pub fn is_compressed_extension(ext: &str) -> (b: bool)
    ensures
        b == compressed_extensions().contains(ext@),
{
    let names: [&str; 19] = [
        "zip", "gz", "bz2", "xz", "7z", "rar", "png", "jpg", "jpeg", "gif", "webp", "mp3", "mp4",
        "ogg", "webm", "pdf", "docx", "xlsx", "pptx",
    ];
    proof {
        reveal_strlit("zip");
        reveal_strlit("gz");
        reveal_strlit("bz2");
        reveal_strlit("xz");
        reveal_strlit("7z");
        reveal_strlit("rar");
        reveal_strlit("png");
        reveal_strlit("jpg");
        reveal_strlit("jpeg");
        reveal_strlit("gif");
        reveal_strlit("webp");
        reveal_strlit("mp3");
        reveal_strlit("mp4");
        reveal_strlit("ogg");
        reveal_strlit("webm");
        reveal_strlit("pdf");
        reveal_strlit("docx");
        reveal_strlit("xlsx");
        reveal_strlit("pptx");
    }
    let ghost listed = compressed_extensions();
    assert forall|i: int| 0 <= i < 19 implies names@[i]@ == #[trigger] listed[i] by {}
    let mut i: usize = 0;
    while i < 19
        invariant
            i <= 19,
            forall|j: int| 0 <= j < 19 ==> names@[j]@ == #[trigger] listed[j],
            listed == compressed_extensions(),
            forall|j: int| 0 <= j < i ==> listed[j] != ext@,
        decreases 19 - i,
    {
        if text_eq(names[i], ext) {
            assert(listed[i as int] == ext@);
            return true;
        }
        i = i + 1;
    }
    assert(!listed.contains(ext@)) by {
        if listed.contains(ext@) {
            let j = choose|j: int| 0 <= j < listed.len() && listed[j] == ext@;
            assert(listed.len() == 19);
        }
    }
    false
}

/// Whether the file at `path` holds already compressed content, judged by
/// its lowercased extension (a path without extension counts as `""`).
pub open spec fn already_compressed(path: Seq<char>) -> bool {
    compressed_extensions().contains(
        match std_path_extension(path) {
            Some(e) => std_lowercase(e),
            None => Seq::empty(),
        },
    )
}

/// Checks if a file is already compressed (stored, not recompressed).
pub fn is_already_compressed(path: &str) -> (b: bool)
    ensures
        b == already_compressed(path@),
{
    let ext = match path_extension(path) {
        Some(e) => lowercase(e.as_str()),
        None => String::new(),
    };
    is_compressed_extension(ext.as_str())
}

/// The zstd level used for a file: 1 for content that is already
/// compressed, otherwise the requested level brought into `1..=22`.
pub open spec fn effective_level(path: Seq<char>, requested: u8) -> u8 {
    if already_compressed(path) {
        1
    } else if requested < 1 {
        1
    } else if requested > 22 {
        22
    } else {
        requested
    }
}

/// Determines the effective compression level from the content type.
pub fn effective_compression_level(path: &str, requested: u8) -> (level: u8)
    ensures
        level == effective_level(path@, requested),
        1 <= level <= 22,
{
    if is_already_compressed(path) {
        1
    } else if requested < 1 {
        1
    } else if requested > 22 {
        22
    } else {
        requested
    }
}

/// Files in the already compressed formats (zip, gz, bz2, xz, 7z, rar, png,
/// jpg, jpeg, gif, webp, mp3, mp4, ogg, webm, pdf, docx, xlsx, pptx, the
/// extension compared in lowercase) are stored at level 1 whatever level was
/// asked for; files with any other extension, or none, are compressed at the
/// requested level brought into `1..=22`.
pub proof fn law_compressed_formats_are_stored(path: Seq<char>, requested: u8)
    ensures
        ({
            let e = match std_path_extension(path) {
                Some(x) => std_lowercase(x),
                None => Seq::empty(),
            };
            already_compressed(path) <==> (e == "zip"@ || e == "gz"@ || e == "bz2"@ || e == "xz"@
                || e == "7z"@ || e == "rar"@ || e == "png"@ || e == "jpg"@ || e == "jpeg"@ || e
                == "gif"@ || e == "webp"@ || e == "mp3"@ || e == "mp4"@ || e == "ogg"@ || e
                == "webm"@ || e == "pdf"@ || e == "docx"@ || e == "xlsx"@ || e == "pptx"@)
        }),
        already_compressed(path) ==> effective_level(path, requested) == 1,
        !already_compressed(path) ==> effective_level(path, requested) == if requested == 0 {
            1
        } else if requested > 22 {
            22
        } else {
            requested
        },
{
    let e = match std_path_extension(path) {
        Some(x) => std_lowercase(x),
        None => Seq::empty(),
    };
    let l = compressed_extensions();
    assert(l.len() == 19);
    assert(l[0] == "zip"@ && l[1] == "gz"@ && l[2] == "bz2"@ && l[3] == "xz"@ && l[4] == "7z"@
        && l[5] == "rar"@ && l[6] == "png"@ && l[7] == "jpg"@ && l[8] == "jpeg"@ && l[9] == "gif"@
        && l[10] == "webp"@ && l[11] == "mp3"@ && l[12] == "mp4"@ && l[13] == "ogg"@ && l[14]
        == "webm"@ && l[15] == "pdf"@ && l[16] == "docx"@ && l[17] == "xlsx"@ && l[18] == "pptx"@);
    if l.contains(e) {
        let j = choose|j: int| 0 <= j < l.len() && l[j] == e;
        assert(0 <= j < 19);
    }
}

/// Compresses a payload with zstd at `level`.
pub fn compress_payload(data: &[u8], level: u8) -> (r: Result<Vec<u8>, RamzError>)
    ensures
        r matches Ok(c) ==> c@ == zstd_encoded(data@, level as i32) && zstd_decoded(c@) == Some(data@),
        r is Ok,
{
    match zstd_encode(data, level as i32) {
        Ok(c) => Ok(c),
        Err(m) => Err(backend_error("zstd encoder: ", m.as_str())),
    }
}

/// Decompresses a zstd payload.
pub fn decompress_zstd(compressed: &[u8]) -> (r: Result<Vec<u8>, RamzError>)
    ensures
        match zstd_decoded(compressed@) {
            Some(v) => r matches Ok(d) && d@ == v,
            None => r matches Err(e) && e is Backend,
        },
{
    match zstd_decode(compressed) {
        Ok(v) => Ok(v),
        Err(ZstdFailure::Decoder(m)) => Err(backend_error("zstd decoder: ", m.as_str())),
        Err(ZstdFailure::Decompress(m)) => Err(backend_error("zstd decompress: ", m.as_str())),
    }
}

} // verus!

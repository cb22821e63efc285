//! The dry-run preview: human-readable sizes, and the parts of the size
//! estimate that are exact: which files are stored as they are, the
//! container and tar overheads, and where the archive would be written.

use vstd::prelude::*;
use crate::archive::SourceKind;
use crate::compression::{already_compressed, is_already_compressed};
use crate::paths::{no_separator, path_file_stem, path_join, path_with_extension, std_path_file_stem, std_path_join, std_path_with_extension, text_eq};
use crate::text::{decimal, decimal_text};

verus! {

/// The unit a power of 1024 is shown in.
pub open spec fn unit_name(e: nat) -> Seq<char> {
    if e == 0 {
        "B"@
    } else if e == 1 {
        "KB"@
    } else if e == 2 {
        "MB"@
    } else if e == 3 {
        "GB"@
    } else {
        "TB"@
    }
}

/// `1024` to the power `e`.
pub open spec fn pow1024(e: nat) -> nat
    decreases e,
{
    if e == 0 {
        1
    } else {
        1024 * pow1024((e - 1) as nat)
    }
}

/// The largest power of 1024 not above `v` (with `v >= 1`), capped at
/// 1024^4: the unit `v` bytes are shown in.
pub open spec fn unit_exponent(v: nat) -> nat {
    if v < 1024 {
        0
    } else if v < 1024 * 1024 {
        1
    } else if v < 1024 * 1024 * 1024 {
        2
    } else if v < 1024 * 1024 * 1024 * 1024 {
        3
    } else {
        4
    }
}

/// The spacing of 64-bit floating-point numbers around `n`: 1 below 2^53,
/// doubling with each further binary digit.
pub open spec fn float_spacing(n: nat) -> nat
    decreases n,
{
    if n < 0x20_0000_0000_0000 {
        1
    } else {
        2 * float_spacing(n / 2)
    }
}

/// The 64-bit floating-point number nearest to `n`, ties going to the one
/// with an even last digit: the value of `n as f64`.
pub open spec fn nearest_float(n: nat) -> nat {
    let p = float_spacing(n);
    let q = n / p;
    let r = n % p;
    if 2 * r > p || (2 * r == p && q % 2 == 1) {
        (q + 1) * p
    } else {
        q * p
    }
}

/// `x / d` rounded to the nearest integer, ties going to the even one.
pub open spec fn rounded_quotient(x: nat, d: nat) -> nat {
    let q = x / d;
    let r = x % d;
    if 2 * r > d || (2 * r == d && q % 2 == 1) {
        q + 1
    } else {
        q
    }
}

/// Two decimal digits, with a leading zero below ten.
pub open spec fn two_digits(n: nat) -> Seq<char> {
    if n < 10 {
        "0"@ + decimal(n)
    } else {
        decimal(n)
    }
}

/// A size shown with two decimals in the largest unit up to TB that it
/// reaches: the number of bytes is first taken as a 64-bit float, then divided
/// by the unit and rounded to hundredths.
pub open spec fn size_text(bytes: u64) -> Seq<char> {
    if bytes == 0 {
        "0 B"@
    } else {
        let v = nearest_float(bytes as nat);
        let e = unit_exponent(v);
        let h = rounded_quotient(v * 100, pow1024(e));
        decimal(h / 100) + "."@ + two_digits(h % 100) + " "@ + unit_name(e)
    }
}

proof fn lemma_spacing_positive(n: nat)
    ensures
        float_spacing(n) >= 1,
    decreases n,
{
    if n >= 0x20_0000_0000_0000 {
        lemma_spacing_positive(n / 2);
    }
}

/// Sizes below 1024 bytes are shown as the byte count with two zero
/// decimals and `B`; whole kilobytes below 1024 KiB as the count of
/// kilobytes with two zero decimals and `KB`; nothing is shown as `0 B`.
pub proof fn law_size_text_whole_units(n: u64)
    ensures
        size_text(0) == "0 B"@,
        1 <= n < 1024 ==> size_text(n) == decimal(n as nat) + ".00 B"@,
        1 <= n < 1024 ==> size_text((n * 1024) as u64) == decimal(n as nat) + ".00 KB"@,
{
    reveal_strlit(".00 B");
    reveal_strlit(".00 KB");
    reveal_strlit(".");
    reveal_strlit("0");
    reveal_strlit(" ");
    reveal_strlit("B");
    reveal_strlit("KB");
    assert(decimal(0) == seq!['0']);
    assert(two_digits(0) =~= seq!['0', '0']);
    if 1 <= n < 1024 {
        let x = n as nat;
        assert(float_spacing(x) == 1);
        assert(nearest_float(x) == x);
        assert(unit_exponent(x) == 0);
        assert(pow1024(0) == 1);
        assert(rounded_quotient(x * 100, 1) == x * 100);
        assert(size_text(n) =~= decimal(x) + ".00 B"@);
        let y: nat = x * 1024;
        assert(float_spacing(y) == 1);
        assert(nearest_float(y) == y);
        assert(unit_exponent(y) == 1);
        assert(pow1024(1) == 1024) by {
            reveal_with_fuel(pow1024, 2);
        }
        assert((y * 100) / 1024 == x * 100 && (y * 100) % 1024 == 0) by (nonlinear_arith)
            requires
                y == x * 1024,
        ;
        assert(rounded_quotient(y * 100, 1024) == x * 100);
        assert(((n * 1024) as u64) as nat == y);
        assert(size_text((n * 1024) as u64) =~= decimal(x) + ".00 KB"@);
    }
}

/// The value of `bytes as f64`, as an integer.
fn nearest_float_value(bytes: u64) -> (v: u128)
    ensures
        v == nearest_float(bytes as nat),
        v <= 0x2_0000_0000_0000_0000,
        bytes > 0 ==> v >= 1,
{
    let mut m: u64 = bytes;
    let mut p: u128 = 1;
    while m >= 0x20_0000_0000_0000
        invariant
            1 <= p <= 0x1000,
            m as int == (bytes as int) / (p as int),
            float_spacing(bytes as nat) == p * float_spacing(m as nat),
            (m as int) * (p as int) <= bytes as int,
            p == 1 || m >= 0x10_0000_0000_0000,
        decreases m,
    {
        proof {
            let mi = m as int;
            let pi = p as int;
            let bi = bytes as int;
            vstd::arithmetic::div_mod::lemma_div_denominator(bi, pi, 2);
            assert(float_spacing(m as nat) == 2 * float_spacing((m / 2) as nat));
            let f = float_spacing((m / 2) as nat) as int;
            assert(pi * (2 * f) == (2 * pi) * f) by (nonlinear_arith);
            assert((mi / 2) * (2 * pi) <= mi * pi) by (nonlinear_arith)
                requires
                    pi >= 1,
                    mi >= 0,
            ;
            assert(pi < 0x800) by (nonlinear_arith)
                requires
                    mi * pi <= bi,
                    bi <= 0xFFFF_FFFF_FFFF_FFFF,
                    mi >= 0x20_0000_0000_0000,
                    pi >= 1,
            ;
        }
        m = m / 2;
        p = p * 2;
    }
    assert(float_spacing(m as nat) == 1);
    assert(float_spacing(bytes as nat) == p) by {
        let f = float_spacing(m as nat);
        assert(p * f == p) by (nonlinear_arith)
            requires
                f == 1,
        ;
    }
    let mm: u128 = m as u128;
    proof {
        assert((mm as int) * (p as int) <= 0x20_0000_0000_0000 * 0x1000) by (nonlinear_arith)
            requires
                mm < 0x20_0000_0000_0000,
                p <= 0x1000,
        ;
        assert((mm as int + 1) * (p as int) <= 0x20_0000_0000_0000 * 0x1000) by (nonlinear_arith)
            requires
                mm < 0x20_0000_0000_0000,
                p <= 0x1000,
        ;
    }
    let r: u128 = bytes as u128 - mm * p;
    proof {
        lemma_spacing_positive(bytes as nat);
        vstd::arithmetic::div_mod::lemma_fundamental_div_mod(bytes as int, p as int);
        assert((p as int) * (mm as int) == (mm as int) * (p as int)) by (nonlinear_arith);
        assert(r as nat == (bytes as nat) % (p as nat));
    }
    let v = if 2 * r > p || (2 * r == p && m % 2 == 1) {
        (mm + 1) * p
    } else {
        mm * p
    };
    proof {
        let bn = bytes as nat;
        assert(float_spacing(bn) == p);
        assert(bn / float_spacing(bn) == mm);
        assert(bn % float_spacing(bn) == r);
        if bytes > 0 {
            assert(mm >= 1);
            assert(v >= 1) by (nonlinear_arith)
                requires
                    v == (mm + 1) * p || v == mm * p,
                    p >= 1,
                    mm >= 1,
            ;
        }
    }
    v
}

/// The name of the unit with exponent `e`.
fn unit_text(e: u8) -> (t: &'static str)
    requires
        e <= 4,
    ensures
        t@ == unit_name(e as nat),
{
    if e == 0 {
        "B"
    } else if e == 1 {
        "KB"
    } else if e == 2 {
        "MB"
    } else if e == 3 {
        "GB"
    } else {
        "TB"
    }
}

/// Formats a byte count with two decimals in B, KB, MB, GB or TB.
pub fn format_size(bytes: u64) -> (s: String)
    ensures
        s@ == size_text(bytes),
{
    if bytes == 0 {
        return "0 B".to_owned();
    }
    let v = nearest_float_value(bytes);
    let e: u8;
    let d: u128;
    if v < 1024 {
        e = 0;
        d = 1;
    } else if v < 1024 * 1024 {
        e = 1;
        d = 1024;
    } else if v < 1024 * 1024 * 1024 {
        e = 2;
        d = 1024 * 1024;
    } else if v < 1024 * 1024 * 1024 * 1024 {
        e = 3;
        d = 1024 * 1024 * 1024;
    } else {
        e = 4;
        d = 1024 * 1024 * 1024 * 1024;
    }
    proof {
        reveal_with_fuel(pow1024, 5);
        assert(e as nat == unit_exponent(v as nat));
        assert(d as nat == pow1024(e as nat));
    }
    let x: u128 = v * 100;
    let q = x / d;
    let r = x % d;
    let h: u128 = if 2 * r > d || (2 * r == d && q % 2 == 1) {
        q + 1
    } else {
        q
    };
    assert(h as nat == rounded_quotient(v as nat * 100, pow1024(e as nat)));
    proof {
        if e < 4 {
            assert(q <= x) by (nonlinear_arith)
                requires
                    q == x / d,
                    d >= 1,
            ;
        } else {
            vstd::arithmetic::div_mod::lemma_div_is_ordered(x as int, 0x2_0000_0000_0000_0000int * 100, d as int);
            assert(0x2_0000_0000_0000_0000int * 100 / 0x100_0000_0000int <= 0x1_0000_0000);
        }
    }
    let whole: u64 = (h / 100) as u64;
    let frac: u64 = (h % 100) as u64;
    proof {
        reveal_strlit("0");
    }
    let mut s = decimal_text(whole);
    s.append(".");
    if frac < 10 {
        s.append("0");
    }
    let f = decimal_text(frac);
    s.append(f.as_str());
    s.append(" ");
    s.append(unit_text(e));
    assert(s@ =~= size_text(bytes));
    s
}

/// The archive extension a backend writes.
pub open spec fn extension_for(backend_name: Seq<char>) -> Seq<char> {
    if backend_name == "age"@ {
        "age.tar.zst"@
    } else {
        "7z"@
    }
}

/// Where the preview says the archive would be written: in the output
/// directory under the source's stem and the backend's extension, or beside
/// the source with its extension replaced.
pub open spec fn preview_output_path(source: Seq<char>, output_dir: Option<Seq<char>>, backend_name: Seq<char>) -> Seq<char> {
    match output_dir {
        Some(out) => std_path_join(
            out,
            match std_path_file_stem(source) {
                Some(stem) => stem,
                None => Seq::empty(),
            } + "."@ + extension_for(backend_name),
        ),
        None => std_path_with_extension(source, extension_for(backend_name)),
    }
}

fn backend_extension(backend_name: &str) -> (e: &'static str)
    ensures
        e@ == extension_for(backend_name@),
        no_separator(e@),
{
    proof {
        reveal_strlit("age.tar.zst");
        reveal_strlit("7z");
        assert(no_separator("age.tar.zst"@));
        assert(no_separator("7z"@));
    }
    if text_eq(backend_name, "age") {
        "age.tar.zst"
    } else {
        "7z"
    }
}

/// The path the preview reports for the archive.
pub fn dry_run_output_path(source: &str, output_dir: Option<&str>, backend_name: &str) -> (p: String)
    ensures
        p@ == preview_output_path(
            source@,
            match output_dir {
                Some(o) => Some(o@),
                None => None,
            },
            backend_name@,
        ),
{
    let ext = backend_extension(backend_name);
    match output_dir {
        Some(out) => {
            let mut name = match path_file_stem(source) {
                Some(stem) => stem,
                None => String::new(),
            };
            name.append(".");
            name.append(ext);
            path_join(out, name.as_str())
        },
        None => path_with_extension(source, ext),
    }
}

/// What the container adds to the compressed data: 1024 bytes for the age
/// backend, 512 for the others.
pub fn encryption_overhead(backend_name: &str) -> (n: u64)
    ensures
        n == (if backend_name@ == "age"@ {
            1024u64
        } else {
            512u64
        }),
{
    if text_eq(backend_name, "age") {
        1024
    } else {
        512
    }
}

/// What the tar format adds: a 512-byte header for each file of a
/// directory, or one header for a single file.
pub fn tar_overhead(kind: SourceKind, file_count: u64) -> (n: u64)
    requires
        kind == SourceKind::Directory ==> file_count * 512 <= u64::MAX,
    ensures
        n == (if kind == SourceKind::Directory {
            file_count * 512
        } else {
            512
        }),
{
    match kind {
        SourceKind::Directory => file_count * 512,
        SourceKind::File => 512,
    }
}

/// The sum of a sequence of sizes.
pub open spec fn sum_sizes(sizes: Seq<u64>) -> nat
    decreases sizes.len(),
{
    if sizes.len() == 0 {
        0
    } else {
        sum_sizes(sizes.drop_last()) + sizes.last() as nat
    }
}

/// The files of a source, split into those stored as they are (already
/// compressed) and those that compress.
pub struct FileSplit {
    pub already_compressed: Vec<String>,
    pub compressible: Vec<String>,
    pub already_compressed_bytes: u64,
}

/// The paths among `paths` that are (`stored`) or are not already
/// compressed, in their order.
pub open spec fn paths_where(paths: Seq<Seq<char>>, stored: bool) -> Seq<Seq<char>>
    decreases paths.len(),
{
    if paths.len() == 0 {
        Seq::empty()
    } else {
        let k = paths_where(paths.drop_last(), stored);
        if already_compressed(paths.last()) == stored {
            k.push(paths.last())
        } else {
            k
        }
    }
}

/// The total size of the files among the first `n` that are already
/// compressed.
pub open spec fn stored_bytes(paths: Seq<Seq<char>>, sizes: Seq<u64>, n: int) -> nat
    decreases n,
{
    if n <= 0 {
        0
    } else {
        stored_bytes(paths, sizes, n - 1) + if already_compressed(paths[n - 1]) {
            sizes[n - 1] as nat
        } else {
            0
        }
    }
}

proof fn lemma_stored_bounded(paths: Seq<Seq<char>>, sizes: Seq<u64>, n: int)
    requires
        0 <= n <= sizes.len(),
    ensures
        stored_bytes(paths, sizes, n) <= sum_sizes(sizes.take(n)),
    decreases n,
{
    if n > 0 {
        lemma_stored_bounded(paths, sizes, n - 1);
        assert(sizes.take(n).drop_last() =~= sizes.take(n - 1));
    }
}

proof fn lemma_sum_prefix(sizes: Seq<u64>, n: int)
    requires
        0 <= n <= sizes.len(),
    ensures
        sum_sizes(sizes.take(n)) <= sum_sizes(sizes),
    decreases sizes.len() - n,
{
    if n < sizes.len() {
        lemma_sum_prefix(sizes, n + 1);
        assert(sizes.take(n + 1).drop_last() =~= sizes.take(n));
    } else {
        assert(sizes.take(n) =~= sizes);
    }
}

/// The split is a partition: the stored list holds exactly the already
/// compressed paths and the other list exactly the rest, each in the order
/// of the input, and together they hold as many paths as the input.
pub proof fn law_split_is_partition(paths: Seq<Seq<char>>)
    ensures
        paths_where(paths, true).len() + paths_where(paths, false).len() == paths.len(),
        forall|i: int|
            0 <= i < paths_where(paths, true).len() ==> already_compressed(#[trigger] paths_where(paths, true)[i]),
        forall|i: int|
            0 <= i < paths_where(paths, false).len() ==> !already_compressed(
                #[trigger] paths_where(paths, false)[i],
            ),
        forall|p: Seq<char>| #[trigger] paths.contains(p) ==> (if already_compressed(p) {
            paths_where(paths, true).contains(p)
        } else {
            paths_where(paths, false).contains(p)
        }),
    decreases paths.len(),
{
    if paths.len() > 0 {
        let init = paths.drop_last();
        let last = paths.last();
        law_split_is_partition(init);
        let t = paths_where(init, true);
        let f = paths_where(init, false);
        assert forall|p: Seq<char>| #[trigger] paths.contains(p) implies (if already_compressed(p) {
            paths_where(paths, true).contains(p)
        } else {
            paths_where(paths, false).contains(p)
        }) by {
            let j = choose|j: int| 0 <= j < paths.len() && paths[j] == p;
            if j < init.len() {
                assert(init[j] == p);
                assert(init.contains(p));
                if already_compressed(p) {
                    let k = choose|k: int| 0 <= k < t.len() && t[k] == p;
                    if already_compressed(last) {
                        assert(t.push(last)[k] == p);
                    }
                } else {
                    let k = choose|k: int| 0 <= k < f.len() && f[k] == p;
                    if !already_compressed(last) {
                        assert(f.push(last)[k] == p);
                    }
                }
            } else {
                assert(p == last);
                if already_compressed(p) {
                    assert(t.push(last)[t.len() as int] == p);
                } else {
                    assert(f.push(last)[f.len() as int] == p);
                }
            }
        }
        assert forall|i: int| 0 <= i < paths_where(paths, true).len() implies already_compressed(
            #[trigger] paths_where(paths, true)[i],
        ) by {
            if already_compressed(last) && i == t.len() {
            } else {
                assert(paths_where(paths, true)[i] == t[i]);
            }
        }
        assert forall|i: int| 0 <= i < paths_where(paths, false).len() implies !already_compressed(
            #[trigger] paths_where(paths, false)[i],
        ) by {
            if !already_compressed(last) && i == f.len() {
            } else {
                assert(paths_where(paths, false)[i] == f[i]);
            }
        }
    }
}

/// The bytes counted as stored are at most all the bytes; they are all of
/// them when every file is already compressed, and none when no file is.
pub proof fn law_stored_bytes_bounds(paths: Seq<Seq<char>>, sizes: Seq<u64>)
    requires
        paths.len() == sizes.len(),
    ensures
        stored_bytes(paths, sizes, paths.len() as int) <= sum_sizes(sizes),
        (forall|i: int| 0 <= i < paths.len() ==> already_compressed(#[trigger] paths[i])) ==> stored_bytes(
            paths,
            sizes,
            paths.len() as int,
        ) == sum_sizes(sizes),
        (forall|i: int| 0 <= i < paths.len() ==> !already_compressed(#[trigger] paths[i])) ==> stored_bytes(
            paths,
            sizes,
            paths.len() as int,
        ) == 0,
{
    lemma_stored_prefix(paths, sizes, paths.len() as int);
    assert(sizes.take(sizes.len() as int) =~= sizes);
}

/// The same facts for the first `n` files.
proof fn lemma_stored_prefix(paths: Seq<Seq<char>>, sizes: Seq<u64>, n: int)
    requires
        0 <= n <= paths.len(),
        paths.len() == sizes.len(),
    ensures
        stored_bytes(paths, sizes, n) <= sum_sizes(sizes.take(n)),
        (forall|i: int| 0 <= i < n ==> already_compressed(#[trigger] paths[i])) ==> stored_bytes(paths, sizes, n)
            == sum_sizes(sizes.take(n)),
        (forall|i: int| 0 <= i < n ==> !already_compressed(#[trigger] paths[i])) ==> stored_bytes(paths, sizes, n)
            == 0,
    decreases n,
{
    if n > 0 {
        lemma_stored_prefix(paths, sizes, n - 1);
        assert(sizes.take(n).drop_last() =~= sizes.take(n - 1));
        assert(sizes.take(n).last() == sizes[n - 1]);
    }
}

/// Splits the files of a source by whether they are already compressed, and
/// adds up the sizes of those that are.
pub fn split_by_compression(paths: &[String], sizes: &[u64]) -> (s: FileSplit)
    requires
        paths@.len() == sizes@.len(),
        sum_sizes(sizes@) <= u64::MAX,
    ensures
        s.already_compressed@.map_values(|x: String| x@) == paths_where(
            paths@.map_values(|x: String| x@),
            true,
        ),
        s.compressible@.map_values(|x: String| x@) == paths_where(paths@.map_values(|x: String| x@), false),
        s.already_compressed_bytes == stored_bytes(paths@.map_values(|x: String| x@), sizes@, paths@.len() as int),
{
    let ghost all = paths@.map_values(|x: String| x@);
    let mut stored: Vec<String> = Vec::new();
    let mut compressible: Vec<String> = Vec::new();
    let mut total: u64 = 0;
    let mut i: usize = 0;
    while i < paths.len()
        invariant
            i <= paths@.len(),
            paths@.len() == sizes@.len(),
            all == paths@.map_values(|x: String| x@),
            sum_sizes(sizes@) <= u64::MAX,
            stored@.map_values(|x: String| x@) == paths_where(all.take(i as int), true),
            compressible@.map_values(|x: String| x@) == paths_where(all.take(i as int), false),
            total == stored_bytes(all, sizes@, i as int),
        decreases paths.len() - i,
    {
        let p = &paths[i];
        assert(all.take(i + 1).drop_last() =~= all.take(i as int));
        assert(all.take(i + 1).last() == p@);
        if is_already_compressed(p.as_str()) {
            proof {
                lemma_stored_bounded(all, sizes@, i + 1);
                lemma_sum_prefix(sizes@, i + 1);
            }
            total = total + sizes[i];
            stored.push(p.clone());
            assert(stored@.map_values(|x: String| x@) =~= paths_where(all.take(i + 1), true));
            assert(compressible@.map_values(|x: String| x@) =~= paths_where(all.take(i + 1), false));
        } else {
            compressible.push(p.clone());
            assert(stored@.map_values(|x: String| x@) =~= paths_where(all.take(i + 1), true));
            assert(compressible@.map_values(|x: String| x@) =~= paths_where(all.take(i + 1), false));
        }
        i = i + 1;
    }
    assert(all.take(paths@.len() as int) =~= all);
    FileSplit { already_compressed: stored, compressible, already_compressed_bytes: total }
}

/// The total size of a source's files.
pub fn total_size(sizes: &[u64]) -> (total: u64)
    requires
        sum_sizes(sizes@) <= u64::MAX,
    ensures
        total == sum_sizes(sizes@),
{
    let mut total: u64 = 0;
    let mut i: usize = 0;
    while i < sizes.len()
        invariant
            i <= sizes@.len(),
            sum_sizes(sizes@) <= u64::MAX,
            total == sum_sizes(sizes@.take(i as int)),
        decreases sizes.len() - i,
    {
        assert(sizes@.take(i + 1).drop_last() =~= sizes@.take(i as int));
        proof {
            lemma_sum_prefix(sizes@, i + 1);
        }
        total = total + sizes[i];
        i = i + 1;
    }
    assert(sizes@.take(sizes@.len() as int) =~= sizes@);
    total
}

} // verus!

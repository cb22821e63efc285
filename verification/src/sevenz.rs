//! The 7z backend: archives written by an external `7z` executable. The
//! library decides which executable to run, with which arguments, how its
//! progress output is read and how its failure is reported.

use vstd::prelude::*;
use crate::archive::Backend;
use crate::error::{RamzError, is_backend_error};
use crate::text::{decimal, decimal_text, digit_char, joined, parse_u64, parsed_u64, trim, trimmed};

verus! {

/// The 7z backend.
pub struct SevenZBackend;

impl Backend for SevenZBackend {
    fn name(&self) -> (n: &'static str)
        ensures
            n@ == "7z"@,
    {
        "7z"
    }

    fn extension(&self) -> (e: &'static str)
        ensures
            e@ == "7z"@,
    {
        "7z"
    }

    fn requires_external_binary(&self) -> (b: bool)
        ensures
            b,
    {
        true
    }
}

/// The texts of a sequence of strings.
pub open spec fn texts(v: Seq<String>) -> Seq<Seq<char>> {
    v.map_values(|s: String| s@)
}

/// The executables tried, in order.
pub open spec fn binary_candidates() -> Seq<Seq<char>> {
    seq!["7z"@, "7zz"@, "7za"@]
}

/// The first capture group of the leftmost match of the regular expression
/// `pattern` in `text`, as the `regex` crate finds it.
pub uninterp spec fn regex_first_group(pattern: Seq<char>, text: Seq<char>) -> Option<Seq<char>>;

/// Whether `pattern` compiles as a regular expression of the `regex` crate.
pub uninterp spec fn regex_compiles(pattern: Seq<char>) -> bool;

/// The pattern that finds a percentage in a progress line of `7z`.
pub open spec fn percent_pattern() -> Seq<char> {
    "(\\d+)%"@
}

/// Whether an executable of this name can be found on the search path
/// (`which::which`). Nothing is claimed: the answer depends on the
/// environment and on what is installed.
#[verifier::external_body]
fn binary_on_path(name: &str) -> bool {
    which::which(name).is_ok()
}

/// The first capture group of the leftmost match of `pattern` in `text`
/// (`regex::Regex::new`, then `Regex::captures`). Claims: it fails exactly
/// when the pattern does not compile, the percentage pattern `(\d+)%` (a
/// capture group of one or more digits, then `%`) compiles, and otherwise it
/// gives the named capture.
#[verifier::external_body]
fn regex_capture(pattern: &str, text: &str) -> (r: Result<Option<String>, String>)
    ensures
        r is Ok <==> regex_compiles(pattern@),
        pattern@ == "(\\d+)%"@ ==> r is Ok,
        r matches Ok(c) ==> match c {
            Some(g) => regex_first_group(pattern@, text@) == Some(g@),
            None => regex_first_group(pattern@, text@) is None,
        },
{
    match regex::Regex::new(pattern) {
        Ok(re) => Ok(re.captures(text).and_then(|c| c.get(1)).map(|m| m.as_str().to_owned())),
        Err(e) => Err(e.to_string()),
    }
}

/// The position of the first `true` in `found`, if there is one.
pub open spec fn first_true(found: Seq<bool>) -> Option<int> {
    if exists|i: int| 0 <= i < found.len() && found[i] {
        Some(choose|i: int| 0 <= i < found.len() && found[i] && forall|j: int| 0 <= j < i ==> !found[j])
    } else {
        None
    }
}

/// The position of the first `true` in `found`, or `None` when there is none.
pub fn first_found(found: &[bool]) -> (r: Option<usize>)
    ensures
        match r {
            Some(i) => i < found@.len() && found@[i as int] && forall|j: int| 0 <= j < i ==> !found@[j],
            None => forall|j: int| 0 <= j < found@.len() ==> !found@[j],
        },
        r matches Some(i) ==> first_true(found@) == Some(i as int),
        r is None <==> first_true(found@) is None,
{
    let mut i: usize = 0;
    while i < found.len()
        invariant
            i <= found@.len(),
            forall|j: int| 0 <= j < i ==> !found@[j],
        decreases found@.len() - i,
    {
        if found[i] {
            proof {
                let k = choose|k: int| 0 <= k < found@.len() && found@[k] && forall|j: int| 0 <= j < k ==> !found@[j];
                assert(0 <= k < found@.len() && found@[k] && forall|j: int| 0 <= j < k ==> !found@[j]) by {
                    assert(0 <= i < found@.len() && found@[i as int] && forall|j: int| 0 <= j < i ==> !found@[j]);
                }
                if k < i {
                    assert(!found@[k]);
                } else if k > i {
                    assert(!found@[i as int]);
                }
            }
            return Some(i);
        }
        i = i + 1;
    }
    None
}

/// The executable that is chosen when the search path gives the answers
/// `found` for `7z`, `7zz` and `7za`: the first of them that is there.
pub open spec fn chosen_binary(found: Seq<bool>) -> Option<Seq<char>> {
    match first_true(found) {
        Some(i) => Some(binary_candidates()[i]),
        None => None,
    }
}

/// The message given when no executable is found.
pub open spec fn no_binary_message() -> Seq<char> {
    "no 7z binary found (tried 7z, 7zz, 7za) — install p7zip/7zip package"@
}

/// The executable to run: each of `7z`, `7zz` and `7za` is looked up on the
/// search path, and the first of them that is found is chosen. Whatever the
/// lookups answer, the result is what `chosen_binary` gives for those
/// answers.
pub fn find_binary() -> (r: Result<String, RamzError>)
    ensures
        exists|found: Seq<bool>|
            #![trigger chosen_binary(found)]
            found.len() == 3 && match chosen_binary(found) {
                Some(b) => r matches Ok(s) && s@ == b,
                None => is_backend_error(r, no_binary_message()),
            },
        r matches Ok(b) ==> binary_candidates().contains(b@),
        r is Err ==> is_backend_error(r, no_binary_message()),
{
    proof {
        reveal_strlit("7z");
        reveal_strlit("7zz");
        reveal_strlit("7za");
    }
    let candidates = ["7z", "7zz", "7za"];
    let mut found: Vec<bool> = Vec::new();
    let mut i: usize = 0;
    while i < 3
        invariant
            i <= 3,
            found@.len() == i,
            candidates@.len() == 3,
            forall|j: int| 0 <= j < 3 ==> (#[trigger] candidates@[j])@ == binary_candidates()[j],
        decreases 3 - i,
    {
        let present = binary_on_path(candidates[i]);
        found.push(present);
        i = i + 1;
    }
    let ghost answers = found@;
    match first_found(found.as_slice()) {
        Some(k) => {
            let chosen = candidates[k].to_owned();
            assert(chosen_binary(answers) == Some(chosen@));
            assert(binary_candidates()[k as int] == chosen@);
            Ok(chosen)
        },
        None => {
            let r = Err(RamzError::Backend(
                "no 7z binary found (tried 7z, 7zz, 7za) — install p7zip/7zip package".to_owned(),
            ));
            assert(chosen_binary(answers) is None);
            r
        },
    }
}

/// The arguments of `7z` that create an archive: add, in the 7z format, at
/// the compression level brought into `0..=9`, reporting progress; with a
/// password, the headers are encrypted too.
pub open spec fn pack_arguments(archive: Seq<char>, source: Seq<char>, level: u8, password: Option<Seq<char>>) -> Seq<
    Seq<char>,
> {
    let clamped: nat = if level > 9 {
        9
    } else {
        level as nat
    };
    seq!["a"@, "-t7z"@, "-mx="@ + decimal(clamped), "-bsp1"@] + match password {
        Some(p) => seq!["-mhe=on"@, "-p"@ + p],
        None => Seq::empty(),
    } + seq![archive, source]
}

/// The arguments that create an archive: `a`, `-t7z`, then `-mx=` with the
/// requested level as one decimal digit when it is at most 9 and `9` above
/// that, then `-bsp1`; with a password `-mhe=on` and `-p` followed by the
/// password; and last the archive and the source.
pub proof fn law_pack_arguments_layout(
    archive: Seq<char>,
    source: Seq<char>,
    level: u8,
    password: Option<Seq<char>>,
)
    ensures
        ({
            let args = pack_arguments(archive, source, level, password);
            let n = args.len();
            &&& n == if password is Some { 8int } else { 6int }
            &&& args[0] == "a"@
            &&& args[1] == "-t7z"@
            &&& level <= 9 ==> args[2] == "-mx="@ + seq![(level + 48) as char]
            &&& level > 9 ==> args[2] == "-mx="@ + seq!['9']
            &&& args[3] == "-bsp1"@
            &&& password matches Some(p) ==> args[4] == "-mhe=on"@ && args[5] == "-p"@ + p
            &&& args[n - 2] == archive
            &&& args[n - 1] == source
        }),
{
    let clamped: nat = if level > 9 {
        9
    } else {
        level as nat
    };
    assert(decimal(clamped) == seq![digit_char(clamped)]);
}

/// The arguments of `7z` that test an archive.
pub open spec fn verify_arguments(archive: Seq<char>, password: Option<Seq<char>>) -> Seq<Seq<char>> {
    seq!["t"@, archive] + match password {
        Some(p) => seq!["-p"@ + p],
        None => Seq::empty(),
    }
}

/// The arguments that test an archive: `t`, the archive, and with a
/// password `-p` followed by the password.
pub proof fn law_verify_arguments_layout(archive: Seq<char>, password: Option<Seq<char>>)
    ensures
        ({
            let args = verify_arguments(archive, password);
            &&& args.len() == if password is Some { 3int } else { 2int }
            &&& args[0] == "t"@
            &&& args[1] == archive
            &&& password matches Some(p) ==> args[2] == "-p"@ + p
        }),
{
}

fn concat(a: &str, b: &str) -> (s: String)
    ensures
        s@ == a@ + b@,
{
    let mut s = a.to_owned();
    s.append(b);
    s
}

impl SevenZBackend {
    /// The arguments that pack `source` into `archive`.
    pub fn pack_args(archive: &str, source: &str, level: u8, password: Option<&str>) -> (args: Vec<String>)
        ensures
            texts(args@) == pack_arguments(
                archive@,
                source@,
                level,
                match password {
                    Some(p) => Some(p@),
                    None => None,
                },
            ),
    {
        let clamped: u8 = if level > 9 {
            9
        } else {
            level
        };
        let mut args: Vec<String> = Vec::new();
        args.push("a".to_owned());
        args.push("-t7z".to_owned());
        let digits = decimal_text(clamped as u64);
        args.push(concat("-mx=", digits.as_str()));
        args.push("-bsp1".to_owned());
        match password {
            Some(p) => {
                args.push("-mhe=on".to_owned());
                args.push(concat("-p", p));
            },
            None => {},
        }
        args.push(archive.to_owned());
        args.push(source.to_owned());
        assert(texts(args@) =~= pack_arguments(
            archive@,
            source@,
            level,
            match password {
                Some(p) => Some(p@),
                None => None,
            },
        ));
        args
    }

    /// The arguments that test `archive`.
    pub fn verify_args(archive: &str, password: Option<&str>) -> (args: Vec<String>)
        ensures
            texts(args@) == verify_arguments(
                archive@,
                match password {
                    Some(p) => Some(p@),
                    None => None,
                },
            ),
    {
        let mut args: Vec<String> = Vec::new();
        args.push("t".to_owned());
        args.push(archive.to_owned());
        match password {
            Some(p) => {
                args.push(concat("-p", p));
            },
            None => {},
        }
        assert(texts(args@) =~= verify_arguments(
            archive@,
            match password {
                Some(p) => Some(p@),
                None => None,
            },
        ));
        args
    }
}

/// `a * b`, or `u64::MAX` when the product does not fit.
pub open spec fn saturating_product(a: u64, b: u64) -> u64 {
    if a * b > u64::MAX {
        u64::MAX
    } else {
        (a * b) as u64
    }
}

/// The bytes processed that a percentage stands for: `total * pct / 100`,
/// the product saturating at `u64::MAX`.
pub open spec fn processed_for(capture: Option<Seq<char>>, total: u64) -> Option<u64> {
    match capture {
        Some(c) => match parsed_u64(c) {
            Some(pct) => Some((saturating_product(total, pct) / 100) as u64),
            None => None,
        },
        None => None,
    }
}

/// A captured percentage `pct` of a total stands for `total * pct / 100`
/// bytes, rounded down, the product saturating at `u64::MAX`; so 100% of a
/// total whose hundredfold fits is the total itself. A capture that is not a
/// number stands for nothing.
pub proof fn law_progress_value(c: Seq<char>, total: u64)
    ensures
        parsed_u64(c) is None ==> processed_for(Some(c), total) is None,
        parsed_u64(c) matches Some(pct) ==> processed_for(Some(c), total) matches Some(x) && x as int == (
        if total * pct <= u64::MAX {
            total * pct
        } else {
            u64::MAX as int
        }) / 100,
        parsed_u64(c) == Some(100u64) && total as int * 100 <= u64::MAX ==> processed_for(Some(c), total)
            == Some(total),
        processed_for(None, total) is None,
{
}

/// The bytes processed that the percentage captured from a progress line
/// stands for; `None` when nothing was captured or the capture is not a
/// 64-bit number.
pub fn progress_for_capture(capture: Option<&str>, total: u64) -> (r: Option<u64>)
    ensures
        r == processed_for(
            match capture {
                Some(c) => Some(c@),
                None => None,
            },
            total,
        ),
{
    match capture {
        Some(c) => match parse_u64(c) {
            Some(pct) => {
                let product = match total.checked_mul(pct) {
                    Some(v) => v,
                    None => u64::MAX,
                };
                Some(product / 100)
            },
            None => None,
        },
        None => None,
    }
}

/// The bytes processed that a line of `7z` progress output reports, if it
/// reports any: the first run of digits followed by `%` is read as a
/// percentage of `total`.
pub fn progress_from_line(line: &str, total: u64) -> (r: Option<u64>)
    ensures
        r == processed_for(regex_first_group(percent_pattern(), line@), total),
{
    proof {
        reveal_strlit("(\\d+)%");
    }
    match regex_capture("(\\d+)%", line) {
        Ok(Some(c)) => progress_for_capture(Some(c.as_str()), total),
        _ => None,
    }
}

/// The lines of error output worth reporting: those that are not blank.
pub open spec fn kept_lines(lines: Seq<Seq<char>>) -> Seq<Seq<char>>
    decreases lines.len(),
{
    if lines.len() == 0 {
        Seq::empty()
    } else {
        let k = kept_lines(lines.drop_last());
        if trimmed(lines.last()).len() > 0 {
            k.push(lines.last())
        } else {
            k
        }
    }
}

/// The message of a failed `7z` run: the executable, its exit status and,
/// when there are any, its non-blank error lines joined with `; `.
pub open spec fn failure_text(binary: Seq<char>, status: Seq<char>, stderr_lines: Seq<Seq<char>>) -> Seq<char> {
    let kept = kept_lines(stderr_lines);
    if kept.len() == 0 {
        binary + " exited with status "@ + status
    } else {
        binary + " exited with status "@ + status + ": "@ + joined(kept, "; "@)
    }
}

/// The message of a failed run names the executable and its exit status;
/// a blank error line adds nothing to it, and a non-blank one is appended,
/// after `: ` when it is the first and after `; ` otherwise.
pub proof fn law_failure_text_lines(binary: Seq<char>, status: Seq<char>, lines: Seq<Seq<char>>, line: Seq<char>)
    ensures
        failure_text(binary, status, Seq::empty()) == binary + " exited with status "@ + status,
        trimmed(line).len() == 0 ==> failure_text(binary, status, lines.push(line)) == failure_text(
            binary,
            status,
            lines,
        ),
        trimmed(line).len() > 0 ==> failure_text(binary, status, lines.push(line)) == failure_text(
            binary,
            status,
            lines,
        ) + (if kept_lines(lines).len() == 0 {
            ": "@
        } else {
            "; "@
        }) + line,
{
    let k = kept_lines(lines);
    assert(lines.push(line).drop_last() =~= lines);
    assert(lines.push(line).last() == line);
    assert(kept_lines(Seq::<Seq<char>>::empty()).len() == 0);
    if trimmed(line).len() > 0 {
        assert(kept_lines(lines.push(line)) == k.push(line));
        assert(k.push(line).drop_last() =~= k);
        assert(k.push(line).last() == line);
        if k.len() == 0 {
            assert(k.push(line) =~= seq![line]);
            assert(joined(seq![line], "; "@) == line);
        } else {
            assert(joined(k.push(line), "; "@) == joined(k, "; "@) + "; "@ + line);
        }
    }
}

/// The error reported when `7z` exits unsuccessfully.
pub fn failure_message(binary: &str, status: &str, stderr_lines: &[String]) -> (e: RamzError)
    ensures
        e matches RamzError::Backend(m) && m@ == failure_text(binary@, status@, texts(stderr_lines@)),
{
    let ghost all = texts(stderr_lines@);
    let mut joined_text = String::new();
    let mut count: usize = 0;
    let mut i: usize = 0;
    while i < stderr_lines.len()
        invariant
            i <= stderr_lines@.len(),
            all == texts(stderr_lines@),
            count == kept_lines(all.take(i as int)).len(),
            count <= i,
            joined_text@ == joined(kept_lines(all.take(i as int)), "; "@),
        decreases stderr_lines.len() - i,
    {
        let line = stderr_lines[i].as_str();
        assert(all.take(i + 1).drop_last() =~= all.take(i as int));
        assert(all.take(i + 1).last() == line@);
        let ghost k = kept_lines(all.take(i as int));
        assert(k.push(line@).drop_last() =~= k);
        if !trim(line).is_empty() {
            if count > 0 {
                joined_text.append("; ");
            }
            joined_text.append(line);
            count = count + 1;
        }
        i = i + 1;
    }
    assert(all.take(stderr_lines@.len() as int) =~= all);
    let mut m = concat(binary, " exited with status ");
    m.append(status);
    if count > 0 {
        m.append(": ");
        m.append(joined_text.as_str());
    }
    RamzError::Backend(m)
}

} // verus!

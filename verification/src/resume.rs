//! Resuming an interrupted pack: the state saved beside the archive, its
//! text format, and the decision taken when a pack is started again.

use vstd::prelude::*;
use crate::error::RamzError;
use crate::paths::{no_separator, path_with_extension, std_path_with_extension};
use crate::text::{
    decimal, decimal_text, is_white_space, joined, lemma_joined_first, lemma_parse_decimal,
    lemma_split_joined, no_newline, parse_u64, parsed_u64, split_lines, trim, trim_end, trim_start,
    trimmed,
};

verus! {

/// What is saved about a pack while it runs.
#[derive(Debug, Clone)]
pub struct ResumeState {
    pub source_path: String,
    pub archive_path: String,
    pub backend_name: String,
    pub total_bytes: u64,
    pub processed_bytes: u64,
    pub checksum: String,
    pub password_hint: Option<String>,
    pub created_at: String,
}

/// The contents of a [`ResumeState`].
pub struct ResumeView {
    pub source_path: Seq<char>,
    pub archive_path: Seq<char>,
    pub backend_name: Seq<char>,
    pub total_bytes: u64,
    pub processed_bytes: u64,
    pub checksum: Seq<char>,
    pub password_hint: Option<Seq<char>>,
    pub created_at: Seq<char>,
}

impl View for ResumeState {
    type V = ResumeView;

    open spec fn view(&self) -> ResumeView {
        ResumeView {
            source_path: self.source_path@,
            archive_path: self.archive_path@,
            backend_name: self.backend_name@,
            total_bytes: self.total_bytes,
            processed_bytes: self.processed_bytes,
            checksum: self.checksum@,
            password_hint: match self.password_hint {
                Some(h) => Some(h@),
                None => None,
            },
            created_at: self.created_at@,
        }
    }
}

/// The eight lines of a saved state, in order; an absent password hint is
/// written as an empty line.
pub open spec fn state_lines(v: ResumeView) -> Seq<Seq<char>> {
    seq![
        v.source_path,
        v.archive_path,
        v.backend_name,
        decimal(v.total_bytes as nat),
        decimal(v.processed_bytes as nat),
        v.checksum,
        match v.password_hint {
            Some(h) => h,
            None => Seq::empty(),
        },
        v.created_at,
    ]
}

/// The text of a saved state: each line followed by a line feed.
pub open spec fn state_text(v: ResumeView) -> Seq<char> {
    joined(state_lines(v), seq!['\n']).push('\n')
}

/// The saved text is, each followed by a line feed: the source path, the
/// archive path, the backend name, the total and processed byte counts in
/// decimal, the checksum, the password hint (empty when there is none) and
/// the creation time.
pub proof fn law_state_text_layout(v: ResumeView)
    ensures
        ({
            let nl = seq!['\n'];
            let hint = match v.password_hint {
                Some(h) => h,
                None => Seq::<char>::empty(),
            };
            state_text(v) == v.source_path + nl + v.archive_path + nl + v.backend_name + nl + decimal(
                v.total_bytes as nat,
            ) + nl + decimal(v.processed_bytes as nat) + nl + v.checksum + nl + hint + nl + v.created_at
                + nl
        }),
{
    let nl = seq!['\n'];
    let l = state_lines(v);
    assert(l.len() == 8);
    assert(l.take(1).len() == 1 && l.take(1)[0] == l[0]);
    assert(joined(l.take(1), nl) == l[0]);
    assert forall|k: int| 2 <= k <= 8 implies joined(#[trigger] l.take(k), nl) == joined(l.take(k - 1), nl) + nl + l[k
        - 1] by {
        assert(l.take(k).drop_last() =~= l.take(k - 1));
        assert(l.take(k).last() == l[k - 1]);
    }
    assert(joined(l.take(2), nl) == l[0] + nl + l[1]);
    assert(joined(l.take(3), nl) == l[0] + nl + l[1] + nl + l[2]);
    assert(joined(l.take(4), nl) == l[0] + nl + l[1] + nl + l[2] + nl + l[3]);
    assert(joined(l.take(5), nl) == l[0] + nl + l[1] + nl + l[2] + nl + l[3] + nl + l[4]);
    assert(joined(l.take(6), nl) == l[0] + nl + l[1] + nl + l[2] + nl + l[3] + nl + l[4] + nl + l[5]);
    assert(joined(l.take(7), nl) == l[0] + nl + l[1] + nl + l[2] + nl + l[3] + nl + l[4] + nl + l[5] + nl
        + l[6]);
    assert(joined(l.take(8), nl) == l[0] + nl + l[1] + nl + l[2] + nl + l[3] + nl + l[4] + nl + l[5] + nl
        + l[6] + nl + l[7]);
    assert(l.take(8) =~= l);
    assert(state_text(v) == joined(l, nl).push('\n'));
    assert(joined(l, nl).push('\n') =~= joined(l, nl) + nl);
}

/// The line at `i`, or the empty text past the end.
pub open spec fn line_or_empty(lines: Seq<Seq<char>>, i: int) -> Seq<char> {
    if i < lines.len() {
        lines[i]
    } else {
        Seq::empty()
    }
}

/// The number on a line, or 0 when the line is not a 64-bit number.
pub open spec fn number_or_zero(line: Seq<char>) -> u64 {
    match parsed_u64(line) {
        Some(n) => n,
        None => 0,
    }
}

/// The state that saved text describes: the text is trimmed and split into
/// lines, of which there must be at least six; the numbers read as 0 when
/// they are not numbers, and the hint is present exactly when a seventh
/// line is.
pub open spec fn parse_state(content: Seq<char>) -> Option<ResumeView> {
    let lines = split_lines(trimmed(content));
    if lines.len() < 6 {
        None
    } else {
        Some(
            ResumeView {
                source_path: lines[0],
                archive_path: lines[1],
                backend_name: lines[2],
                total_bytes: number_or_zero(lines[3]),
                processed_bytes: number_or_zero(lines[4]),
                checksum: lines[5],
                password_hint: if lines.len() > 6 {
                    Some(lines[6])
                } else {
                    None
                },
                created_at: line_or_empty(lines, 7),
            },
        )
    }
}

/// The pieces of `s` between line feeds.
fn split_text(s: &str) -> (pieces: Vec<String>)
    ensures
        pieces@.len() == split_lines(s@).len(),
        forall|i: int| 0 <= i < pieces@.len() ==> (#[trigger] pieces@[i])@ == split_lines(s@)[i],
{
    let n = s.unicode_len();
    let mut pieces: Vec<String> = Vec::new();
    let mut p: usize = 0;
    let mut i: usize = 0;
    assert(s@.subrange(0, n as int) =~= s@);
    assert(pieces@.map_values(|x: String| x@) =~= Seq::<Seq<char>>::empty());
    while i < n
        invariant
            n == s@.len(),
            p <= i <= n,
            no_newline(s@.subrange(p as int, i as int)),
            split_lines(s@) =~= pieces@.map_values(|x: String| x@) + split_lines(s@.subrange(p as int, n as int)),
        decreases n - i,
    {
        let c = s.get_char(i);
        if c == '\n' {
            let ghost a = s@.subrange(p as int, i as int);
            let ghost b = s@.subrange(i + 1, n as int);
            proof {
                crate::text::lemma_split_line(a, b);
                assert(s@.subrange(p as int, n as int) =~= a + seq!['\n'] + b);
            }
            let piece = s.substring_char(p, i).to_owned();
            pieces.push(piece);
            p = i + 1;
            assert(s@.subrange(p as int, p as int) =~= Seq::<char>::empty());
        } else {
            assert forall|k: int| 0 <= k < s@.subrange(p as int, i + 1).len() implies #[trigger] s@.subrange(
                p as int,
                i + 1,
            )[k] != '\n' by {
                if k < i - p {
                    assert(s@.subrange(p as int, i + 1)[k] == s@.subrange(p as int, i as int)[k]);
                }
            }
        }
        i = i + 1;
    }
    proof {
        crate::text::lemma_split_single(s@.subrange(p as int, n as int));
    }
    let last = s.substring_char(p, n).to_owned();
    pieces.push(last);
    assert(split_lines(s@) =~= pieces@.map_values(|x: String| x@));
    pieces
}

impl ResumeState {
    /// The text this state is saved as.
    pub fn to_text(&self) -> (t: String)
        ensures
            t@ == state_text(self@),
    {
        proof {
            reveal_strlit("\n");
            reveal_with_fuel(joined, 9);
        }
        let mut t = self.source_path.clone();
        t.append("\n");
        t.append(self.archive_path.as_str());
        t.append("\n");
        t.append(self.backend_name.as_str());
        t.append("\n");
        let total = decimal_text(self.total_bytes);
        t.append(total.as_str());
        t.append("\n");
        let processed = decimal_text(self.processed_bytes);
        t.append(processed.as_str());
        t.append("\n");
        t.append(self.checksum.as_str());
        t.append("\n");
        match &self.password_hint {
            Some(h) => t.append(h.as_str()),
            None => {},
        }
        t.append("\n");
        t.append(self.created_at.as_str());
        t.append("\n");
        let ghost lines = state_lines(self@);
        assert(lines.drop_last().drop_last().drop_last().drop_last().drop_last().drop_last().drop_last()
            =~= seq![lines[0]]);
        assert(t@ =~= state_text(self@));
        t
    }

    /// Reads saved state back from its text; text with fewer than six lines
    /// is refused as corrupted.
    pub fn from_text(content: &str) -> (r: Result<ResumeState, RamzError>)
        ensures
            match parse_state(content@) {
                Some(v) => r matches Ok(s) && s@ == v,
                None => r matches Err(RamzError::ResumeMismatch(m)) && m@ == "corrupted resume state"@,
            },
    {
        proof {
            reveal_strlit("corrupted resume state");
        }
        let t = trim(content);
        let lines = split_text(t);
        if lines.len() < 6 {
            return Err(RamzError::ResumeMismatch("corrupted resume state".to_owned()));
        }
        let total_bytes = match parse_u64(lines[3].as_str()) {
            Some(n) => n,
            None => 0,
        };
        let processed_bytes = match parse_u64(lines[4].as_str()) {
            Some(n) => n,
            None => 0,
        };
        let password_hint = if lines.len() > 6 {
            Some(lines[6].clone())
        } else {
            None
        };
        let created_at = if lines.len() > 7 {
            lines[7].clone()
        } else {
            String::new()
        };
        let s = ResumeState {
            source_path: lines[0].clone(),
            archive_path: lines[1].clone(),
            backend_name: lines[2].clone(),
            total_bytes,
            processed_bytes,
            checksum: lines[5].clone(),
            password_hint,
            created_at,
        };
        assert(s@.created_at =~= line_or_empty(split_lines(trimmed(content@)), 7));
        Ok(s)
    }
}

/// The text of the password hint line.
pub open spec fn hint_text(v: ResumeView) -> Seq<char> {
    match v.password_hint {
        Some(h) => h,
        None => Seq::empty(),
    }
}

/// The state that saved state reads back as: the text is trimmed, so with an
/// empty creation time the trailing empty lines go, and with them the hint
/// line when it is empty too.
pub open spec fn read_back(v: ResumeView) -> ResumeView {
    if v.created_at.len() > 0 {
        ResumeView { password_hint: Some(hint_text(v)), ..v }
    } else if hint_text(v).len() > 0 {
        ResumeView { password_hint: Some(hint_text(v)), created_at: Seq::empty(), ..v }
    } else {
        ResumeView { password_hint: None, created_at: Seq::empty(), ..v }
    }
}

/// A joined text whose last piece is empty ends with a bare separator.
proof fn lemma_joined_empty_last(parts: Seq<Seq<char>>)
    requires
        parts.len() >= 2,
        parts.last().len() == 0,
    ensures
        joined(parts, seq!['\n']) == joined(parts.drop_last(), seq!['\n']).push('\n'),
{
    assert(joined(parts, seq!['\n']) =~= joined(parts.drop_last(), seq!['\n']).push('\n'));
}

/// The last character of a joined text is that of its last piece.
proof fn lemma_joined_last(parts: Seq<Seq<char>>)
    requires
        parts.len() >= 1,
        parts.last().len() >= 1,
    ensures
        joined(parts, seq!['\n']).len() >= 1,
        joined(parts, seq!['\n']).last() == parts.last().last(),
{
    if parts.len() == 1 {
        assert(parts.last() == parts[0]);
    }
}

/// Trimming the end drops a final line feed.
proof fn lemma_trim_end_newline(x: Seq<char>)
    ensures
        trim_end(x.push('\n')) == trim_end(x),
{
    assert(('\n' as u32) == 10);
    assert(x.push('\n').drop_last() =~= x);
}

/// Trimming the end keeps a text that ends with a character that is not
/// white space.
proof fn lemma_trim_end_keeps(x: Seq<char>)
    requires
        x.len() >= 1,
        !is_white_space(x.last()),
    ensures
        trim_end(x) == x,
{
}

/// Saved state read back gives the state that was saved, as [`read_back`]
/// describes it, whenever no field holds a line feed, the source path starts
/// with a character that is not white space, and the last line that trimming
/// keeps (the creation time, else the hint, else the checksum) ends with one.
pub proof fn law_state_text_roundtrip(v: ResumeView)
    requires
        no_newline(v.source_path),
        no_newline(v.archive_path),
        no_newline(v.backend_name),
        no_newline(v.checksum),
        v.password_hint matches Some(h) ==> no_newline(h),
        no_newline(v.created_at),
        v.source_path.len() >= 1,
        !is_white_space(v.source_path[0]),
        v.created_at.len() >= 1 ==> !is_white_space(v.created_at.last()),
        v.created_at.len() == 0 && hint_text(v).len() >= 1 ==> !is_white_space(hint_text(v).last()),
        v.created_at.len() == 0 && hint_text(v).len() == 0 ==> v.checksum.len() >= 1 && !is_white_space(
            v.checksum.last(),
        ),
    ensures
        parse_state(state_text(v)) == Some(read_back(v)),
{
    let lines = state_lines(v);
    let body = joined(lines, seq!['\n']);
    lemma_parse_decimal(v.total_bytes);
    lemma_parse_decimal(v.processed_bytes);
    crate::text::lemma_decimal_digits(v.total_bytes as nat);
    crate::text::lemma_decimal_digits(v.processed_bytes as nat);
    assert forall|i: int| 0 <= i < lines.len() implies no_newline(#[trigger] lines[i]) by {
        if i == 3 || i == 4 {
            let d = lines[i];
            assert forall|k: int| 0 <= k < d.len() implies #[trigger] d[k] != '\n' by {
                assert(crate::text::is_ascii_digit(d[k]));
            }
        }
    }
    let text = body.push('\n');
    lemma_joined_first(lines, seq!['\n']);
    assert(trim_start(text) == text) by {
        assert(text[0] == body[0]);
    }
    lemma_trim_end_newline(body);
    assert(lines.len() == 8);
    let kept = if v.created_at.len() > 0 {
        lines
    } else if hint_text(v).len() > 0 {
        lines.drop_last()
    } else {
        lines.drop_last().drop_last()
    };
    if v.created_at.len() > 0 {
        lemma_joined_last(lines);
        lemma_trim_end_keeps(body);
    } else {
        let l7 = lines.drop_last();
        lemma_joined_empty_last(lines);
        lemma_trim_end_newline(joined(l7, seq!['\n']));
        assert(l7.last() == hint_text(v));
        if hint_text(v).len() > 0 {
            lemma_joined_last(l7);
            lemma_trim_end_keeps(joined(l7, seq!['\n']));
        } else {
            let l6 = l7.drop_last();
            lemma_joined_empty_last(l7);
            lemma_trim_end_newline(joined(l6, seq!['\n']));
            assert(l6.last() == v.checksum);
            lemma_joined_last(l6);
            lemma_trim_end_keeps(joined(l6, seq!['\n']));
        }
    }
    assert(trimmed(text) == joined(kept, seq!['\n']));
    assert forall|i: int| 0 <= i < kept.len() implies no_newline(#[trigger] kept[i]) by {
        assert(kept[i] == lines[i]);
    }
    lemma_split_joined(kept);
    assert(parse_state(state_text(v)) =~= Some(read_back(v)));
}

/// Whether the source is unchanged since the state was saved and the saved
/// pack had run to its end: the current checksum matches the saved one and
/// every byte was processed.
pub fn verify_source_unchanged(state: &ResumeState, current_checksum: &str) -> (r: bool)
    ensures
        r == (current_checksum@ == state.checksum@ && state.processed_bytes == state.total_bytes),
{
    let same = crate::paths::text_eq(current_checksum, state.checksum.as_str());
    same && state.processed_bytes == state.total_bytes
}

/// The path of the state file kept beside an archive: the archive's path
/// with its extension replaced by `resume`.
pub fn resume_state_path(archive_path: &str) -> (p: String)
    ensures
        p@ == std_path_with_extension(archive_path@, "resume"@),
{
    proof {
        reveal_strlit("resume");
        assert(no_separator("resume"@));
    }
    path_with_extension(archive_path, "resume")
}

/// What to do when a pack is started again with resuming asked for.
#[derive(Debug, Clone, Copy, PartialEq, Eq, Structural)]
pub enum ResumeDecision {
    /// The archive from the earlier run is complete; nothing is to be done.
    AlreadyComplete,
    /// The earlier run did not finish; the archive is made again.
    Recreate,
}

/// Decides how to resume from saved state: a source whose checksum changed
/// cannot be resumed; an earlier run is complete only when it processed
/// every byte and its archive exists.
pub fn resume_decision(state: &ResumeState, current_checksum: &str, archive_exists: bool) -> (r: Result<
    ResumeDecision,
    RamzError,
>)
    ensures
        current_checksum@ != state.checksum@ ==> (r matches Err(RamzError::ResumeMismatch(m)) && m@
            == "source has changed since last run; cannot resume"@),
        current_checksum@ == state.checksum@ ==> r == Ok::<ResumeDecision, RamzError>(
            if state.processed_bytes == state.total_bytes && archive_exists {
                ResumeDecision::AlreadyComplete
            } else {
                ResumeDecision::Recreate
            },
        ),
{
    if !crate::paths::text_eq(current_checksum, state.checksum.as_str()) {
        return Err(RamzError::ResumeMismatch("source has changed since last run; cannot resume".to_owned()));
    }
    if state.processed_bytes == state.total_bytes && archive_exists {
        Ok(ResumeDecision::AlreadyComplete)
    } else {
        Ok(ResumeDecision::Recreate)
    }
}

} // verus!

//! Text handling shared by the state file, the progress parser and the size
//! report: white space, trimming, decimal numbers and line splitting.

use vstd::prelude::*;

verus! {

/// The Unicode `White_Space` property, the set of characters that
/// `char::is_whitespace` accepts and `str::trim` removes.
pub open spec fn is_white_space(c: char) -> bool {
    let n = c as u32;
    ||| 0x09 <= n <= 0x0D
    ||| n == 0x20
    ||| n == 0x85
    ||| n == 0xA0
    ||| n == 0x1680
    ||| 0x2000 <= n <= 0x200A
    ||| n == 0x2028
    ||| n == 0x2029
    ||| n == 0x202F
    ||| n == 0x205F
    ||| n == 0x3000
}

/// `s` without its leading white space.
pub open spec fn trim_start(s: Seq<char>) -> Seq<char>
    decreases s.len(),
{
    if s.len() > 0 && is_white_space(s[0]) {
        trim_start(s.drop_first())
    } else {
        s
    }
}

/// `s` without its trailing white space.
pub open spec fn trim_end(s: Seq<char>) -> Seq<char>
    decreases s.len(),
{
    if s.len() > 0 && is_white_space(s.last()) {
        trim_end(s.drop_last())
    } else {
        s
    }
}

/// `s` without leading and trailing white space, as `str::trim` gives it.
pub open spec fn trimmed(s: Seq<char>) -> Seq<char> {
    trim_end(trim_start(s))
}

/// Space, tab, line feed and carriage return are white space; no visible
/// ASCII character is.
pub proof fn law_white_space_ascii(c: char)
    ensures
        is_white_space(' ') && is_white_space('\t') && is_white_space('\n') && is_white_space('\r'),
        '!' <= c <= '~' ==> !is_white_space(c),
{
}

/// What trimming leaves of `s` from position `a` on.
proof fn lemma_trim_start_shape(s: Seq<char>) -> (a: int)
    ensures
        0 <= a <= s.len(),
        trim_start(s) == s.subrange(a, s.len() as int),
        forall|i: int| 0 <= i < a ==> is_white_space(#[trigger] s[i]),
        a < s.len() ==> !is_white_space(s[a]),
    decreases s.len(),
{
    if s.len() > 0 && is_white_space(s[0]) {
        let t = s.drop_first();
        let b = lemma_trim_start_shape(t);
        assert(t.subrange(b, t.len() as int) =~= s.subrange(b + 1, s.len() as int));
        assert forall|i: int| 0 <= i < b + 1 implies is_white_space(#[trigger] s[i]) by {
            if i > 0 {
                assert(s[i] == t[i - 1]);
            }
        }
        b + 1
    } else {
        assert(s.subrange(0, s.len() as int) =~= s);
        0
    }
}

/// What trimming leaves of `s` up to position `b`.
proof fn lemma_trim_end_shape(s: Seq<char>) -> (b: int)
    ensures
        0 <= b <= s.len(),
        trim_end(s) == s.subrange(0, b),
        forall|i: int| b <= i < s.len() ==> is_white_space(#[trigger] s[i]),
        b > 0 ==> !is_white_space(s[b - 1]),
    decreases s.len(),
{
    if s.len() > 0 && is_white_space(s.last()) {
        let t = s.drop_last();
        let b = lemma_trim_end_shape(t);
        assert(t.subrange(0, b) =~= s.subrange(0, b));
        assert forall|i: int| b <= i < s.len() implies is_white_space(#[trigger] s[i]) by {
            if i < s.len() - 1 {
                assert(s[i] == t[i]);
            }
        }
        b
    } else {
        assert(s.subrange(0, s.len() as int) =~= s);
        s.len() as int
    }
}

/// Trimming keeps a contiguous part of the text: everything before and
/// after it is white space, and the part neither starts nor ends with white
/// space.
pub proof fn law_trimmed_shape(s: Seq<char>)
    ensures
        exists|a: int, b: int|
            #![trigger s.subrange(a, b)]
            0 <= a <= b <= s.len() && trimmed(s) == s.subrange(a, b) && (forall|i: int|
                0 <= i < a ==> is_white_space(#[trigger] s[i])) && (forall|i: int|
                b <= i < s.len() ==> is_white_space(#[trigger] s[i])) && (a < b ==> !is_white_space(s[a])
                && !is_white_space(s[b - 1])),
{
    let a = lemma_trim_start_shape(s);
    let rest = s.subrange(a, s.len() as int);
    let c = lemma_trim_end_shape(rest);
    let b = a + c;
    assert(rest.subrange(0, c) =~= s.subrange(a, b));
    assert forall|i: int| b <= i < s.len() implies is_white_space(#[trigger] s[i]) by {
        assert(s[i] == rest[i - a]);
    }
    if a < b {
        assert(s[b - 1] == rest[c - 1]);
    }
    assert(trimmed(s) == s.subrange(a, b));
}

/// The character of the decimal digit `d`.
pub open spec fn digit_char(d: nat) -> char {
    (d + 48) as char
}

/// Whether `c` is one of the ASCII digits `0` to `9`.
pub open spec fn is_ascii_digit(c: char) -> bool {
    '0' <= c <= '9'
}

/// The decimal notation of `n`, without sign or leading zeros.
pub open spec fn decimal(n: nat) -> Seq<char>
    decreases n,
{
    if n < 10 {
        seq![digit_char(n)]
    } else {
        decimal(n / 10).push(digit_char(n % 10))
    }
}

/// The number that a string of ASCII digits denotes.
pub open spec fn digits_value(s: Seq<char>) -> nat
    decreases s.len(),
{
    if s.len() == 0 {
        0
    } else {
        digits_value(s.drop_last()) * 10 + (s.last() as nat - 48) as nat
    }
}

/// Whether every character of `s` is an ASCII digit.
pub open spec fn all_digits(s: Seq<char>) -> bool {
    forall|i: int| 0 <= i < s.len() ==> is_ascii_digit(#[trigger] s[i])
}

/// `s` without one leading `+`, if it has one.
pub open spec fn sign_stripped(s: Seq<char>) -> Seq<char> {
    if s.len() > 0 && s[0] == '+' {
        s.drop_first()
    } else {
        s
    }
}

/// What `u64::from_str` accepts: an optional `+` followed by one or more
/// ASCII digits whose value fits in 64 bits.
pub open spec fn parsed_u64(s: Seq<char>) -> Option<u64> {
    let d = sign_stripped(s);
    if d.len() > 0 && all_digits(d) && digits_value(d) <= u64::MAX {
        Some(digits_value(d) as u64)
    } else {
        None
    }
}

/// The pieces of `s` between line feeds, as `str::split('\n')` gives them:
/// always at least one piece, and one more than there are line feeds.
pub open spec fn split_lines(s: Seq<char>) -> Seq<Seq<char>>
    decreases s.len(),
{
    if s.len() == 0 {
        seq![Seq::<char>::empty()]
    } else {
        let rest = split_lines(s.drop_first());
        if s[0] == '\n' {
            seq![Seq::<char>::empty()] + rest
        } else {
            rest.update(0, seq![s[0]] + rest[0])
        }
    }
}

/// `parts` joined with `sep` between consecutive parts.
pub open spec fn joined(parts: Seq<Seq<char>>, sep: Seq<char>) -> Seq<char>
    decreases parts.len(),
{
    if parts.len() == 0 {
        Seq::empty()
    } else if parts.len() == 1 {
        parts[0]
    } else {
        joined(parts.drop_last(), sep) + sep + parts.last()
    }
}

/// Whether `s` holds no line feed.
pub open spec fn no_newline(s: Seq<char>) -> bool {
    forall|i: int| 0 <= i < s.len() ==> #[trigger] s[i] != '\n'
}

/// The pieces of a split are never absent.
pub proof fn lemma_split_nonempty(s: Seq<char>)
    ensures
        split_lines(s).len() >= 1,
    decreases s.len(),
{
    if s.len() > 0 {
        lemma_split_nonempty(s.drop_first());
    }
}

/// A string without line feeds is a single piece.
pub proof fn lemma_split_single(s: Seq<char>)
    requires
        no_newline(s),
    ensures
        split_lines(s) == seq![s],
    decreases s.len(),
{
    if s.len() > 0 {
        let t = s.drop_first();
        assert(no_newline(t)) by {
            assert forall|i: int| 0 <= i < t.len() implies #[trigger] t[i] != '\n' by {
                assert(t[i] == s[i + 1]);
            }
        }
        lemma_split_single(t);
        assert(s[0] != '\n');
        assert(s.drop_first() == t);
        assert(split_lines(t) == seq![t]);
        assert(seq![s[0]] + t =~= s);
        assert(split_lines(s) =~= seq![s]);
    } else {
        assert(s =~= Seq::<char>::empty());
    }
}

/// A line without line feeds, a line feed, then the rest: the line is the
/// first piece and the pieces of the rest follow.
pub proof fn lemma_split_line(a: Seq<char>, b: Seq<char>)
    requires
        no_newline(a),
    ensures
        split_lines(a + seq!['\n'] + b) == seq![a] + split_lines(b),
    decreases a.len(),
{
    let s = a + seq!['\n'] + b;
    if a.len() == 0 {
        assert(s.drop_first() =~= b);
        assert(s[0] == '\n');
        assert(a =~= Seq::<char>::empty());
        assert(split_lines(s) == seq![Seq::<char>::empty()] + split_lines(b));
    } else {
        let t = a.drop_first();
        assert(no_newline(t)) by {
            assert forall|i: int| 0 <= i < t.len() implies #[trigger] t[i] != '\n' by {
                assert(t[i] == a[i + 1]);
            }
        }
        lemma_split_line(t, b);
        assert(s.drop_first() =~= t + seq!['\n'] + b);
        assert(split_lines(s.drop_first()) == seq![t] + split_lines(b));
        assert(s[0] == a[0]);
        assert(a[0] != '\n');
        assert(seq![a[0]] + t =~= a);
        assert(split_lines(s) =~= seq![a] + split_lines(b));
    }
}

/// The pieces of text before a last line feed, then the text after it.
pub proof fn lemma_split_last(a: Seq<char>, b: Seq<char>)
    requires
        no_newline(b),
    ensures
        split_lines(a + seq!['\n'] + b) == split_lines(a).push(b),
    decreases a.len(),
{
    let s = a + seq!['\n'] + b;
    if a.len() == 0 {
        assert(s.drop_first() =~= b);
        assert(s[0] == '\n');
        lemma_split_single(b);
        assert(split_lines(a) == seq![Seq::<char>::empty()]);
        assert(split_lines(s) =~= split_lines(a).push(b));
    } else {
        let t = a.drop_first();
        lemma_split_last(t, b);
        lemma_split_nonempty(t);
        assert(s.drop_first() =~= t + seq!['\n'] + b);
        assert(s[0] == a[0]);
        let rest = split_lines(s.drop_first());
        assert(rest == split_lines(t).push(b));
        if a[0] == '\n' {
            assert(split_lines(s) =~= split_lines(a).push(b));
        } else {
            assert(rest[0] == split_lines(t)[0]);
            assert(split_lines(s) =~= split_lines(a).push(b));
        }
    }
}

/// Splitting pieces joined with line feeds gives the pieces back, when none
/// of them holds a line feed.
pub proof fn lemma_split_joined(parts: Seq<Seq<char>>)
    requires
        parts.len() >= 1,
        forall|i: int| 0 <= i < parts.len() ==> no_newline(#[trigger] parts[i]),
    ensures
        split_lines(joined(parts, seq!['\n'])) == parts,
    decreases parts.len(),
{
    if parts.len() == 1 {
        lemma_split_single(parts[0]);
        assert(seq![parts[0]] =~= parts);
    } else {
        let init = parts.drop_last();
        assert forall|i: int| 0 <= i < init.len() implies no_newline(#[trigger] init[i]) by {
            assert(init[i] == parts[i]);
        }
        lemma_split_joined(init);
        assert(no_newline(parts[parts.len() - 1]));
        lemma_split_last(joined(init, seq!['\n']), parts.last());
        assert(init.push(parts.last()) =~= parts);
    }
}

/// Joining a piece put in front of others puts it and a separator in front
/// of their join.
proof fn lemma_joined_cons(a: Seq<char>, rest: Seq<Seq<char>>, sep: Seq<char>)
    requires
        rest.len() >= 1,
    ensures
        joined(seq![a] + rest, sep) == a + sep + joined(rest, sep),
    decreases rest.len(),
{
    let all = seq![a] + rest;
    if rest.len() == 1 {
        assert(all.drop_last() =~= seq![a]);
        assert(joined(seq![a], sep) == a);
    } else {
        lemma_joined_cons(a, rest.drop_last(), sep);
        assert(all.drop_last() =~= seq![a] + rest.drop_last());
        assert(all.last() == rest.last());
    }
}

/// Joining after lengthening the first piece at its front lengthens the join
/// at its front.
proof fn lemma_joined_prepend(c: char, rest: Seq<Seq<char>>, sep: Seq<char>)
    requires
        rest.len() >= 1,
    ensures
        joined(rest.update(0, seq![c] + rest[0]), sep) == seq![c] + joined(rest, sep),
    decreases rest.len(),
{
    let u = rest.update(0, seq![c] + rest[0]);
    if rest.len() > 1 {
        lemma_joined_prepend(c, rest.drop_last(), sep);
        assert(u.drop_last() =~= rest.drop_last().update(0, seq![c] + rest.drop_last()[0]));
        assert(u.last() == rest.last());
    }
}

/// The pieces of a split hold no line feed, and joined with line feeds they
/// give the text back.
pub proof fn law_split_lines_pieces(s: Seq<char>)
    ensures
        joined(split_lines(s), seq!['\n']) == s,
        forall|i: int| 0 <= i < split_lines(s).len() ==> no_newline(#[trigger] split_lines(s)[i]),
    decreases s.len(),
{
    let nl = seq!['\n'];
    if s.len() == 0 {
        assert(joined(seq![Seq::<char>::empty()], nl) == Seq::<char>::empty());
    } else {
        let t = s.drop_first();
        law_split_lines_pieces(t);
        lemma_split_nonempty(t);
        let rest = split_lines(t);
        if s[0] == '\n' {
            lemma_joined_cons(Seq::<char>::empty(), rest, nl);
            assert(Seq::<char>::empty() + nl + joined(rest, nl) =~= s);
            assert forall|i: int| 0 <= i < split_lines(s).len() implies no_newline(#[trigger] split_lines(s)[i]) by {
                if i > 0 {
                    assert(split_lines(s)[i] == rest[i - 1]);
                }
            }
        } else {
            lemma_joined_prepend(s[0], rest, nl);
            assert(seq![s[0]] + t =~= s);
            assert forall|i: int| 0 <= i < split_lines(s).len() implies no_newline(#[trigger] split_lines(s)[i]) by {
                if i == 0 {
                    assert forall|j: int| 0 <= j < split_lines(s)[0].len() implies #[trigger] split_lines(s)[0][j]
                        != '\n' by {
                        if j > 0 {
                            assert(split_lines(s)[0][j] == rest[0][j - 1]);
                        }
                    }
                } else {
                    assert(split_lines(s)[i] == rest[i]);
                }
            }
        }
    }
}

/// Joined text begins with the first piece when that piece is not empty.
pub proof fn lemma_joined_first(parts: Seq<Seq<char>>, sep: Seq<char>)
    requires
        parts.len() >= 1,
        parts[0].len() >= 1,
    ensures
        joined(parts, sep).len() >= 1,
        joined(parts, sep)[0] == parts[0][0],
    decreases parts.len(),
{
    if parts.len() > 1 {
        let init = parts.drop_last();
        assert(init[0] == parts[0]);
        lemma_joined_first(init, sep);
    }
}

/// The decimal notation of a number is made of ASCII digits, is not empty,
/// and denotes the number.
pub proof fn lemma_decimal_digits(n: nat)
    ensures
        decimal(n).len() >= 1,
        all_digits(decimal(n)),
        digits_value(decimal(n)) == n,
    decreases n,
{
    if n < 10 {
        let d = decimal(n);
        assert(d.drop_last() =~= Seq::<char>::empty());
        assert(digits_value(d.drop_last()) == 0);
        assert(d.last() as nat == n + 48);
    } else {
        lemma_decimal_digits(n / 10);
        let d = decimal(n);
        assert(d.drop_last() =~= decimal(n / 10));
        assert(d.last() as nat == n % 10 + 48);
        assert(digits_value(d) == digits_value(decimal(n / 10)) * 10 + n % 10);
        assert((n / 10) * 10 + n % 10 == n);
        assert(all_digits(d)) by {
            assert forall|i: int| 0 <= i < d.len() implies is_ascii_digit(#[trigger] d[i]) by {
                if i < d.len() - 1 {
                    assert(d[i] == decimal(n / 10)[i]);
                }
            }
        }
    }
}

/// Reading back the decimal notation of a 64-bit number gives the number.
pub proof fn lemma_parse_decimal(n: u64)
    ensures
        parsed_u64(decimal(n as nat)) == Some(n),
{
    lemma_decimal_digits(n as nat);
    let d = decimal(n as nat);
    assert(is_ascii_digit(d[0]));
}

/// A longer prefix of a digit string never denotes a smaller number.
proof fn lemma_digits_prefix_grows(s: Seq<char>, j: int, k: int)
    requires
        all_digits(s),
        0 <= j <= k <= s.len(),
    ensures
        digits_value(s.take(j)) <= digits_value(s.take(k)),
    decreases k - j,
{
    if j < k {
        lemma_digits_prefix_grows(s, j, k - 1);
        assert(s.take(k).drop_last() =~= s.take(k - 1));
        assert(is_ascii_digit(s[k - 1]));
    }
}

/// Whether `c` is white space.
pub fn char_is_white_space(c: char) -> (b: bool)
    ensures
        b == is_white_space(c),
{
    let n = c as u32;
    (0x09 <= n && n <= 0x0D) || n == 0x20 || n == 0x85 || n == 0xA0 || n == 0x1680 || (0x2000 <= n
        && n <= 0x200A) || n == 0x2028 || n == 0x2029 || n == 0x202F || n == 0x205F || n == 0x3000
}

/// `s` without leading and trailing white space.
pub fn trim(s: &str) -> (t: &str)
    ensures
        t@ == trimmed(s@),
{
    let n = s.unicode_len();
    let mut i: usize = 0;
    assert(s@.subrange(0, n as int) =~= s@);
    while i < n && char_is_white_space(s.get_char(i))
        invariant
            n == s@.len(),
            i <= n,
            trim_start(s@) == trim_start(s@.subrange(i as int, n as int)),
        decreases n - i,
    {
        assert(s@.subrange(i as int, n as int).drop_first() =~= s@.subrange(i + 1, n as int));
        i = i + 1;
    }
    assert(trim_start(s@) == s@.subrange(i as int, n as int)) by {
        let r = s@.subrange(i as int, n as int);
        if r.len() > 0 {
            assert(r[0] == s@[i as int]);
        }
    }
    let mut j: usize = n;
    while j > i && char_is_white_space(s.get_char(j - 1))
        invariant
            n == s@.len(),
            i <= j <= n,
            trim_end(s@.subrange(i as int, n as int)) == trim_end(s@.subrange(i as int, j as int)),
        decreases j - i,
    {
        assert(s@.subrange(i as int, j as int).drop_last() =~= s@.subrange(i as int, j - 1));
        j = j - 1;
    }
    assert(trim_end(s@.subrange(i as int, j as int)) == s@.subrange(i as int, j as int)) by {
        let r = s@.subrange(i as int, j as int);
        if r.len() > 0 {
            assert(r.last() == s@[j - 1]);
        }
    }
    s.substring_char(i, j)
}

/// The one-character text of the decimal digit `d`.
fn digit_text(d: u64) -> (t: &'static str)
    requires
        d < 10,
    ensures
        t@ == seq![digit_char(d as nat)],
{
    proof {
        reveal_strlit("0");
        reveal_strlit("1");
        reveal_strlit("2");
        reveal_strlit("3");
        reveal_strlit("4");
        reveal_strlit("5");
        reveal_strlit("6");
        reveal_strlit("7");
        reveal_strlit("8");
        reveal_strlit("9");
    }
    let t = if d == 0 {
        "0"
    } else if d == 1 {
        "1"
    } else if d == 2 {
        "2"
    } else if d == 3 {
        "3"
    } else if d == 4 {
        "4"
    } else if d == 5 {
        "5"
    } else if d == 6 {
        "6"
    } else if d == 7 {
        "7"
    } else if d == 8 {
        "8"
    } else {
        "9"
    };
    assert(t@ =~= seq![digit_char(d as nat)]);
    t
}

/// The decimal notation of `n`.
pub fn decimal_text(n: u64) -> (s: String)
    ensures
        s@ == decimal(n as nat),
    decreases n,
{
    if n < 10 {
        digit_text(n).to_owned()
    } else {
        let mut s = decimal_text(n / 10);
        s.append(digit_text(n % 10));
        s
    }
}

/// Parses a decimal number as `u64::from_str` does.
pub fn parse_u64(s: &str) -> (r: Option<u64>)
    ensures
        r == parsed_u64(s@),
{
    let n = s.unicode_len();
    let start: usize = if n > 0 && s.get_char(0) == '+' {
        1
    } else {
        0
    };
    let ghost d = sign_stripped(s@);
    assert(d =~= s@.subrange(start as int, n as int));
    if start == n {
        return None;
    }
    let mut value: u64 = 0;
    let mut k: usize = start;
    while k < n
        invariant
            n == s@.len(),
            start <= k <= n,
            d == s@.subrange(start as int, n as int),
            d == sign_stripped(s@),
            all_digits(d.take(k - start)),
            value == digits_value(d.take(k - start)),
        decreases n - k,
    {
        let c = s.get_char(k);
        let ghost m: int = k - start;
        assert(d[m] == c);
        assert(d.take(m + 1).drop_last() =~= d.take(m));
        if !('0' <= c && c <= '9') {
            assert(!all_digits(d)) by {
                assert(!is_ascii_digit(d[m]));
            }
            return None;
        }
        let digit = (c as u32 - 48) as u64;
        assert(d.take(m + 1).last() == c);
        assert(digits_value(d.take(m + 1)) == digits_value(d.take(m)) * 10 + digit);
        assert(all_digits(d.take(m + 1))) by {
            assert forall|i: int| 0 <= i < m + 1 implies is_ascii_digit(#[trigger] d.take(m + 1)[i]) by {
                if i < m {
                    assert(d.take(m + 1)[i] == d.take(m)[i]);
                }
            }
        }
        let next = match value.checked_mul(10) {
            Some(v) => v.checked_add(digit),
            None => None,
        };
        match next {
            Some(v) => {
                value = v;
            },
            None => {
                proof {
                    if all_digits(d) {
                        lemma_digits_prefix_grows(d, m + 1, d.len() as int);
                        assert(d.take(d.len() as int) =~= d);
                    }
                }
                return None;
            },
        }
        k = k + 1;
    }
    assert(d.take(n - start) =~= d);
    Some(value)
}

/// The lowercase hexadecimal digit of `d` (below 16).
pub open spec fn hex_digit(d: nat) -> char {
    if d < 10 {
        (d + 48) as char
    } else {
        (d + 87) as char
    }
}

/// Bytes written in lowercase hexadecimal, two digits per byte.
pub open spec fn hex_text(bytes: Seq<u8>) -> Seq<char>
    decreases bytes.len(),
{
    if bytes.len() == 0 {
        Seq::empty()
    } else {
        hex_text(bytes.drop_last()) + seq![hex_digit(bytes.last() as nat / 16), hex_digit(bytes.last() as nat % 16)]
    }
}

/// Whether `c` is one of `0`-`9` and `a`-`f`.
pub open spec fn is_lower_hex(c: char) -> bool {
    ('0' <= c && c <= '9') || ('a' <= c && c <= 'f')
}

/// The value of a lowercase hexadecimal digit.
pub open spec fn hex_value(c: char) -> int {
    if '0' <= c && c <= '9' {
        c as int - '0' as int
    } else {
        c as int - 'a' as int + 10
    }
}

/// Whether the two characters at `2 * i` in `t` are lowercase hexadecimal
/// digits that spell `b`, the high digit first.
pub open spec fn spells_byte(t: Seq<char>, i: int, b: u8) -> bool {
    &&& is_lower_hex(t[2 * i])
    &&& is_lower_hex(t[2 * i + 1])
    &&& hex_value(t[2 * i]) * 16 + hex_value(t[2 * i + 1]) == b as int
}

/// Each byte is written as two lowercase hexadecimal digits, the high one
/// first, in the order of the bytes.
pub proof fn law_hex_text_digits(bytes: Seq<u8>)
    ensures
        hex_text(bytes).len() == 2 * bytes.len(),
        forall|i: int| 0 <= i < bytes.len() ==> #[trigger] spells_byte(hex_text(bytes), i, bytes[i]),
    decreases bytes.len(),
{
    if bytes.len() == 0 {
        assert(hex_text(bytes) =~= Seq::<char>::empty());
    } else {
        let init = bytes.drop_last();
        law_hex_text_digits(init);
        let b = bytes.last() as nat;
        let hi = b / 16;
        let lo = b % 16;
        let t = hex_text(bytes);
        assert(t == hex_text(init) + seq![hex_digit(hi), hex_digit(lo)]);
        assert forall|d: nat| d < 16 implies is_lower_hex(#[trigger] hex_digit(d)) && hex_value(hex_digit(d))
            == d by {
            if d < 10 {
                assert(hex_digit(d) as int == d + 48);
            } else {
                assert(hex_digit(d) as int == d + 87);
            }
        }
        assert forall|i: int| 0 <= i < bytes.len() implies #[trigger] spells_byte(t, i, bytes[i]) by {
            if i < init.len() {
                assert(init[i] == bytes[i]);
                assert(spells_byte(hex_text(init), i, init[i]));
                assert(t[2 * i] == hex_text(init)[2 * i]);
                assert(t[2 * i + 1] == hex_text(init)[2 * i + 1]);
            } else {
                assert(t[2 * i] == hex_digit(hi));
                assert(t[2 * i + 1] == hex_digit(lo));
                assert(is_lower_hex(hex_digit(hi)) && hex_value(hex_digit(hi)) == hi);
                assert(is_lower_hex(hex_digit(lo)) && hex_value(hex_digit(lo)) == lo);
            }
        }
    }
}

fn hex_digit_text(d: u8) -> (t: &'static str)
    requires
        d < 16,
    ensures
        t@ == seq![hex_digit(d as nat)],
{
    proof {
        reveal_strlit("0");
        reveal_strlit("1");
        reveal_strlit("2");
        reveal_strlit("3");
        reveal_strlit("4");
        reveal_strlit("5");
        reveal_strlit("6");
        reveal_strlit("7");
        reveal_strlit("8");
        reveal_strlit("9");
        reveal_strlit("a");
        reveal_strlit("b");
        reveal_strlit("c");
        reveal_strlit("d");
        reveal_strlit("e");
        reveal_strlit("f");
    }
    let t = if d < 10 {
        digit_text(d as u64)
    } else if d == 10 {
        "a"
    } else if d == 11 {
        "b"
    } else if d == 12 {
        "c"
    } else if d == 13 {
        "d"
    } else if d == 14 {
        "e"
    } else {
        "f"
    };
    assert(t@ =~= seq![hex_digit(d as nat)]);
    t
}

/// Writes bytes in lowercase hexadecimal, as a digest is shown.
pub fn hex_lower(bytes: &[u8]) -> (s: String)
    ensures
        s@ == hex_text(bytes@),
{
    let mut s = String::new();
    let mut i: usize = 0;
    while i < bytes.len()
        invariant
            i <= bytes@.len(),
            s@ == hex_text(bytes@.take(i as int)),
        decreases bytes.len() - i,
    {
        let b = bytes[i];
        assert(bytes@.take(i + 1).drop_last() =~= bytes@.take(i as int));
        s.append(hex_digit_text(b / 16));
        s.append(hex_digit_text(b % 16));
        assert(s@ =~= hex_text(bytes@.take(i + 1)));
        i = i + 1;
    }
    assert(bytes@.take(bytes@.len() as int) =~= bytes@);
    s
}

} // verus!

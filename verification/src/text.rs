//! Verified text primitives: character classes, trimming, line and token
//! splitting, and decimal `u64` parsing.
//!
//! Every executable function here is specified against a small recursive
//! specification over the string's character sequence; the parsers build
//! their own contracts on top of these.

use vstd::prelude::*;

verus! {

// ---------------------------------------------------------------------------
// Character classes
// ---------------------------------------------------------------------------

/// ASCII whitespace, the only whitespace the kernel statistics files use.
pub open spec fn is_space(c: char) -> bool {
    c == ' ' || c == '\t' || c == '\n' || c == '\r' || c == '\u{b}' || c == '\u{c}'
}

/// Executable test for [`is_space`].
pub fn space_char(c: char) -> (r: bool)
    ensures
        r == is_space(c),
{
    c == ' ' || c == '\t' || c == '\n' || c == '\r' || c == '\u{b}' || c == '\u{c}'
}

/// An ASCII decimal digit.
pub open spec fn is_digit(c: char) -> bool {
    48 <= c as u32 && c as u32 <= 57
}

/// Executable test for [`is_digit`].
pub fn digit_char(c: char) -> (r: bool)
    ensures
        r == is_digit(c),
{
    let u = c as u32;
    48 <= u && u <= 57
}

/// The numeric value of a digit character.
pub open spec fn digit_value(c: char) -> int {
    c as u32 - 48
}

// ---------------------------------------------------------------------------
// Finding a character
// ---------------------------------------------------------------------------

/// Index of the first occurrence of `c` in `s`, or `s.len()` if absent.
pub open spec fn find_char(s: Seq<char>, c: char) -> int
    decreases s.len(),
{
    if s.len() == 0 {
        0
    } else if s[0] == c {
        0
    } else {
        1 + find_char(s.drop_first(), c)
    }
}

/// `find_char` points at the first occurrence of `c`, or past the end.
proof fn lemma_find_char(s: Seq<char>, c: char)
    ensures
        0 <= find_char(s, c) <= s.len(),
        find_char(s, c) < s.len() ==> s[find_char(s, c)] == c,
        forall|i: int| 0 <= i < find_char(s, c) ==> s[i] != c,
    decreases s.len(),
{
    if s.len() > 0 && s[0] != c {
        lemma_find_char(s.drop_first(), c);
        assert forall|i: int| 0 <= i < find_char(s, c) implies s[i] != c by {
            if i > 0 {
                assert(s[i] == s.drop_first()[i - 1]);
            }
        }
    }
}

/// Whether `c` occurs anywhere in `s`.
pub open spec fn contains_char(s: Seq<char>, c: char) -> bool {
    find_char(s, c) < s.len()
}

/// Executable search for the first occurrence of `c`.
pub fn find_char_at(s: &str, c: char) -> (r: usize)
    ensures
        r == find_char(s@, c),
        r <= s@.len(),
{
    proof {
        lemma_find_char(s@, c);
    }
    let n: usize = s.unicode_len();
    let mut i: usize = 0;
    while i < n && s.get_char(i) != c
        invariant
            0 <= i <= n,
            n == s@.len(),
            forall|j: int| 0 <= j < i ==> s@[j] != c,
        decreases n - i,
    {
        i = i + 1;
    }
    proof {
        lemma_find_char_from_witness(s@, c, i as int);
    }
    i
}

/// If all characters before `k` differ from `c` and `k` is either the end or
/// an occurrence of `c`, then `k` is exactly `find_char`.
proof fn lemma_find_char_from_witness(s: Seq<char>, c: char, k: int)
    requires
        0 <= k <= s.len(),
        forall|j: int| 0 <= j < k ==> s[j] != c,
        k < s.len() ==> s[k] == c,
    ensures
        find_char(s, c) == k,
    decreases s.len(),
{
    if s.len() > 0 && s[0] != c {
        lemma_find_char_from_witness(s.drop_first(), c, k - 1);
    }
}

// ---------------------------------------------------------------------------
// Trimming
// ---------------------------------------------------------------------------

/// `s` without its leading whitespace.
pub open spec fn spec_trim_start(s: Seq<char>) -> Seq<char>
    decreases s.len(),
{
    if s.len() > 0 && is_space(s[0]) {
        spec_trim_start(s.drop_first())
    } else {
        s
    }
}

/// `s` without its trailing whitespace.
pub open spec fn spec_trim_end(s: Seq<char>) -> Seq<char>
    decreases s.len(),
{
    if s.len() > 0 && is_space(s.last()) {
        spec_trim_end(s.drop_last())
    } else {
        s
    }
}

/// `s` without leading and trailing whitespace.
pub open spec fn spec_trim(s: Seq<char>) -> Seq<char> {
    spec_trim_end(spec_trim_start(s))
}

proof fn lemma_trim_start_skip(s: Seq<char>, a: int)
    requires
        0 <= a <= s.len(),
        forall|i: int| 0 <= i < a ==> is_space(s[i]),
        a < s.len() ==> !is_space(s[a]),
    ensures
        spec_trim_start(s) =~= s.skip(a),
    decreases a,
{
    if a == 0 {
        assert(s.skip(0) =~= s);
    } else {
        assert(is_space(s[0]));
        lemma_trim_start_skip(s.drop_first(), a - 1);
        assert(s.drop_first().skip(a - 1) =~= s.skip(a));
    }
}

proof fn lemma_trim_end_take(s: Seq<char>, b: int)
    requires
        0 <= b <= s.len(),
        forall|i: int| b <= i < s.len() ==> is_space(s[i]),
        b > 0 ==> !is_space(s[b - 1]),
    ensures
        spec_trim_end(s) =~= s.take(b),
    decreases s.len() - b,
{
    if b == s.len() {
        if s.len() > 0 && is_space(s.last()) {
            assert(!is_space(s[b - 1]));
            assert(false);
        }
        assert(s.take(b) =~= s);
    } else {
        assert(is_space(s.last()));
        lemma_trim_end_take(s.drop_last(), b);
        assert(s.drop_last().take(b) =~= s.take(b));
    }
}

/// Both ends at once: characters outside `[a, b)` are whitespace and the
/// boundary characters are not, so trimming yields exactly `s[a..b]`.
proof fn lemma_trim_subrange(s: Seq<char>, a: int, b: int)
    requires
        0 <= a <= b <= s.len(),
        forall|i: int| 0 <= i < a ==> is_space(s[i]),
        forall|i: int| b <= i < s.len() ==> is_space(s[i]),
        a < s.len() ==> !is_space(s[a]),
        b > a ==> !is_space(s[b - 1]),
    ensures
        spec_trim(s) =~= s.subrange(a, b),
{
    if a == b && a < s.len() {
        // a is not a space, yet it lies in the trailing-space region
        assert(is_space(s[a]));
        assert(false);
    }
    lemma_trim_start_skip(s, a);
    let t = s.skip(a);
    lemma_trim_end_take(t, b - a);
    assert(t.take(b - a) =~= s.subrange(a, b));
}

/// Remove leading and trailing ASCII whitespace.
pub fn trim(s: &str) -> (r: &str)
    ensures
        r@ == spec_trim(s@),
{
    let n: usize = s.unicode_len();
    let mut a: usize = 0;
    while a < n && space_char(s.get_char(a))
        invariant
            0 <= a <= n,
            n == s@.len(),
            forall|i: int| 0 <= i < a ==> is_space(s@[i]),
        decreases n - a,
    {
        a = a + 1;
    }
    let mut b: usize = n;
    while b > a && space_char(s.get_char(b - 1))
        invariant
            a <= b <= n,
            n == s@.len(),
            a < n ==> !is_space(s@[a as int]),
            forall|i: int| b <= i < n ==> is_space(s@[i]),
        decreases b,
    {
        b = b - 1;
    }
    proof {
        lemma_trim_subrange(s@, a as int, b as int);
    }
    s.substring_char(a, b)
}

// ---------------------------------------------------------------------------
// Splitting into lines
// ---------------------------------------------------------------------------

/// A line with one trailing carriage return removed, as line splitting does
/// for `\r\n` endings.
pub open spec fn strip_cr(line: Seq<char>) -> Seq<char> {
    if line.len() > 0 && line.last() == '\r' {
        line.drop_last()
    } else {
        line
    }
}

/// Lines of `cur + s`, where `cur` is the part of the current line already
/// scanned.  A `\n` ends a line (with a preceding `\r` stripped); a final
/// line without terminator is kept as written, and a final empty segment is
/// not a line.
pub open spec fn lines_from(s: Seq<char>, cur: Seq<char>) -> Seq<Seq<char>>
    decreases s.len(),
{
    if s.len() == 0 {
        if cur.len() == 0 {
            Seq::empty()
        } else {
            seq![cur]
        }
    } else if s[0] == '\n' {
        seq![strip_cr(cur)] + lines_from(s.drop_first(), Seq::empty())
    } else {
        lines_from(s.drop_first(), cur.push(s[0]))
    }
}

/// The lines of `s`, with `\n` and `\r\n` terminators removed.
pub open spec fn spec_lines(s: Seq<char>) -> Seq<Seq<char>> {
    lines_from(s, Seq::empty())
}

/// Split `s` into its lines.
pub fn split_lines(s: &str) -> (r: Vec<String>)
    ensures
        r.deep_view() == spec_lines(s@),
{
    let n: usize = s.unicode_len();
    let mut out: Vec<String> = Vec::new();
    let mut start: usize = 0;
    let mut i: usize = 0;
    proof {
        assert(s@.skip(0) =~= s@);
        assert(s@.subrange(0, 0) =~= Seq::<char>::empty());
        assert(out.deep_view() =~= Seq::<Seq<char>>::empty());
        assert(out.deep_view() + lines_from(s@, Seq::empty()) =~= lines_from(s@, Seq::empty()));
    }
    while i < n
        invariant
            0 <= start <= i <= n,
            n == s@.len(),
            spec_lines(s@) == out.deep_view() + lines_from(
                s@.skip(i as int),
                s@.subrange(start as int, i as int),
            ),
        decreases n - i,
    {
        let ghost cur = s@.subrange(start as int, i as int);
        proof {
            assert(s@.skip(i as int)[0] == s@[i as int]);
            assert(s@.skip(i as int).drop_first() =~= s@.skip(i + 1));
        }
        let c = s.get_char(i);
        if c == '\n' {
            let line_end: usize = if i > start && s.get_char(i - 1) == '\r' {
                i - 1
            } else {
                i
            };
            let piece = s.substring_char(start, line_end);
            proof {
                assert(strip_cr(cur) =~= s@.subrange(start as int, line_end as int));
            }
            let ghost pre = out.deep_view();
            out.push(piece.to_owned());
            proof {
                assert(out.deep_view() =~= pre + seq![strip_cr(cur)]);
                assert(s@.subrange(i + 1, i + 1) =~= Seq::<char>::empty());
                assert(pre + (seq![strip_cr(cur)] + lines_from(s@.skip(i + 1), Seq::empty()))
                    =~= out.deep_view() + lines_from(s@.skip(i + 1), Seq::empty()));
            }
            start = i + 1;
            i = i + 1;
        } else {
            proof {
                assert(cur.push(s@[i as int]) =~= s@.subrange(start as int, i + 1));
            }
            i = i + 1;
        }
    }
    let ghost cur = s@.subrange(start as int, n as int);
    proof {
        assert(s@.skip(n as int).len() == 0);
    }
    if start < n {
        let piece = s.substring_char(start, n);
        let ghost pre = out.deep_view();
        out.push(piece.to_owned());
        proof {
            assert(out.deep_view() =~= pre + seq![cur]);
            assert(spec_lines(s@) =~= out.deep_view());
        }
    } else {
        proof {
            assert(cur.len() == 0);
            assert(spec_lines(s@) =~= out.deep_view());
        }
    }
    out
}

// ---------------------------------------------------------------------------
// Splitting into whitespace-separated tokens
// ---------------------------------------------------------------------------

/// Tokens of `cur + s`, where `cur` is the part of the current token already
/// scanned.  Whitespace separates tokens and empty tokens do not occur.
pub open spec fn tokens_from(s: Seq<char>, cur: Seq<char>) -> Seq<Seq<char>>
    decreases s.len(),
{
    if s.len() == 0 {
        if cur.len() == 0 {
            Seq::empty()
        } else {
            seq![cur]
        }
    } else if is_space(s[0]) {
        if cur.len() == 0 {
            tokens_from(s.drop_first(), Seq::empty())
        } else {
            seq![cur] + tokens_from(s.drop_first(), Seq::empty())
        }
    } else {
        tokens_from(s.drop_first(), cur.push(s[0]))
    }
}

/// The whitespace-separated tokens of `s`.
pub open spec fn spec_tokens(s: Seq<char>) -> Seq<Seq<char>> {
    tokens_from(s, Seq::empty())
}

/// Split `s` on ASCII whitespace, dropping empty tokens.
pub fn split_tokens(s: &str) -> (r: Vec<String>)
    ensures
        r.deep_view() == spec_tokens(s@),
{
    let n: usize = s.unicode_len();
    let mut out: Vec<String> = Vec::new();
    let mut start: usize = 0;
    let mut i: usize = 0;
    proof {
        assert(s@.skip(0) =~= s@);
        assert(s@.subrange(0, 0) =~= Seq::<char>::empty());
        assert(out.deep_view() =~= Seq::<Seq<char>>::empty());
        assert(out.deep_view() + tokens_from(s@, Seq::empty()) =~= tokens_from(s@, Seq::empty()));
    }
    while i < n
        invariant
            0 <= start <= i <= n,
            n == s@.len(),
            spec_tokens(s@) == out.deep_view() + tokens_from(
                s@.skip(i as int),
                s@.subrange(start as int, i as int),
            ),
        decreases n - i,
    {
        let ghost cur = s@.subrange(start as int, i as int);
        proof {
            assert(s@.skip(i as int)[0] == s@[i as int]);
            assert(s@.skip(i as int).drop_first() =~= s@.skip(i + 1));
        }
        let c = s.get_char(i);
        if space_char(c) {
            if start < i {
                let piece = s.substring_char(start, i);
                let ghost pre = out.deep_view();
                out.push(piece.to_owned());
                proof {
                    assert(out.deep_view() =~= pre + seq![cur]);
                    assert(s@.subrange(i + 1, i + 1) =~= Seq::<char>::empty());
                    assert(pre + (seq![cur] + tokens_from(s@.skip(i + 1), Seq::empty()))
                        =~= out.deep_view() + tokens_from(s@.skip(i + 1), Seq::empty()));
                }
            } else {
                proof {
                    assert(cur.len() == 0);
                    assert(s@.subrange(i + 1, i + 1) =~= Seq::<char>::empty());
                }
            }
            start = i + 1;
            i = i + 1;
        } else {
            proof {
                assert(cur.push(s@[i as int]) =~= s@.subrange(start as int, i + 1));
            }
            i = i + 1;
        }
    }
    let ghost cur = s@.subrange(start as int, n as int);
    proof {
        assert(s@.skip(n as int).len() == 0);
    }
    if start < n {
        let piece = s.substring_char(start, n);
        let ghost pre = out.deep_view();
        out.push(piece.to_owned());
        proof {
            assert(out.deep_view() =~= pre + seq![cur]);
            assert(spec_tokens(s@) =~= out.deep_view());
        }
    } else {
        proof {
            assert(cur.len() == 0);
            assert(spec_tokens(s@) =~= out.deep_view());
        }
    }
    out
}

// ---------------------------------------------------------------------------
// Splitting at the first colon
// ---------------------------------------------------------------------------

/// `s` split at its first `:`, which is consumed; `None` if there is none.
pub open spec fn spec_split_colon(s: Seq<char>) -> Option<(Seq<char>, Seq<char>)> {
    if contains_char(s, ':') {
        Some((s.take(find_char(s, ':')), s.skip(find_char(s, ':') + 1)))
    } else {
        None
    }
}

/// Split `s` at the first `:`; the colon itself belongs to neither part.
pub fn split_once_colon(s: &str) -> (r: Option<(&str, &str)>)
    ensures
        match r {
            Some(p) => spec_split_colon(s@) == Some((p.0@, p.1@)),
            None => spec_split_colon(s@) is None,
        },
{
    let n: usize = s.unicode_len();
    let k = find_char_at(s, ':');
    if k < n {
        let head = s.substring_char(0, k);
        let tail = s.substring_char(k + 1, n);
        proof {
            assert(head@ =~= s@.take(k as int));
            assert(tail@ =~= s@.skip(k + 1));
        }
        Some((head, tail))
    } else {
        None
    }
}

// ---------------------------------------------------------------------------
// Unsigned decimal numbers
// ---------------------------------------------------------------------------

/// Every character of `s` is a decimal digit.
pub open spec fn all_digits(s: Seq<char>) -> bool {
    forall|i: int| 0 <= i < s.len() ==> is_digit(s[i])
}

/// The number denoted by a digit string, most significant digit first.
pub open spec fn digits_value(s: Seq<char>) -> int
    decreases s.len(),
{
    if s.len() == 0 {
        0
    } else {
        digits_value(s.drop_last()) * 10 + digit_value(s.last())
    }
}

/// A digit string denotes a non-negative number.
proof fn lemma_digits_value_nonneg(s: Seq<char>)
    requires
        all_digits(s),
    ensures
        digits_value(s) >= 0,
    decreases s.len(),
{
    if s.len() > 0 {
        assert(all_digits(s.drop_last()));
        lemma_digits_value_nonneg(s.drop_last());
    }
}

/// Extending a digit string can only increase its value.
proof fn lemma_digits_value_monotone(s: Seq<char>, j: int)
    requires
        all_digits(s),
        0 <= j <= s.len(),
    ensures
        digits_value(s.take(j)) <= digits_value(s),
    decreases s.len(),
{
    if j == s.len() {
        assert(s.take(j) =~= s);
    } else {
        let head = s.drop_last();
        assert(all_digits(head));
        assert(s.take(j) =~= head.take(j));
        lemma_digits_value_monotone(head, j);
        lemma_digits_value_nonneg(head);
        assert(digits_value(head) * 10 >= digits_value(head));
    }
}

/// What `str::parse::<u64>` accepts: an optional leading `+`, then one or
/// more digits whose value fits in 64 bits.
pub open spec fn spec_parse_u64(s: Seq<char>) -> Option<u64> {
    let t = if s.len() > 0 && s[0] == '+' {
        s.drop_first()
    } else {
        s
    };
    if t.len() > 0 && all_digits(t) && digits_value(t) <= u64::MAX {
        Some(digits_value(t) as u64)
    } else {
        None
    }
}

/// Parse `s` as an unsigned 64-bit decimal number.
pub fn parse_u64(s: &str) -> (r: Option<u64>)
    ensures
        r == spec_parse_u64(s@),
{
    let n: usize = s.unicode_len();
    let offset: usize = if n > 0 && s.get_char(0) == '+' {
        1
    } else {
        0
    };
    let ghost t = if s@.len() > 0 && s@[0] == '+' {
        s@.drop_first()
    } else {
        s@
    };
    proof {
        assert(t.len() == n - offset);
        assert(forall|j: int| 0 <= j < t.len() ==> t[j] == s@[j + offset]);
    }
    if offset >= n {
        return None;
    }
    let mut acc: u64 = 0;
    let mut i: usize = offset;
    proof {
        assert(t.take(0) =~= Seq::<char>::empty());
    }
    while i < n
        invariant
            offset <= i <= n,
            n == s@.len(),
            offset <= 1,
            t.len() == n - offset,
            forall|j: int| 0 <= j < t.len() ==> t[j] == s@[j + offset],
            all_digits(t.take(i - offset)),
            acc == digits_value(t.take(i - offset)),
            spec_parse_u64(s@) == (if t.len() > 0 && all_digits(t) && digits_value(t)
                <= u64::MAX {
                Some(digits_value(t) as u64)
            } else {
                None::<u64>
            }),
        decreases n - i,
    {
        let ghost k = i - offset;
        let c = s.get_char(i);
        proof {
            assert(t[k] == c);
        }
        if !digit_char(c) {
            proof {
                assert(!all_digits(t));
            }
            return None;
        }
        proof {
            assert(t.take(k + 1) =~= t.take(k).push(t[k]));
            assert(t.take(k + 1).drop_last() =~= t.take(k));
            assert(digits_value(t.take(k + 1)) == acc * 10 + digit_value(c));
            assert(all_digits(t.take(k + 1)));
        }
        let d: u64 = (c as u32 - 48) as u64;
        let stepped = match acc.checked_mul(10) {
            Some(m) => m.checked_add(d),
            None => None,
        };
        match stepped {
            Some(v) => {
                acc = v;
            },
            None => {
                proof {
                    assert(digits_value(t.take(k + 1)) > u64::MAX);
                    if all_digits(t) && digits_value(t) <= u64::MAX {
                        lemma_digits_value_monotone(t, k + 1);
                        assert(false);
                    }
                }
                return None;
            },
        }
        i = i + 1;
    }
    proof {
        assert(t.take(n - offset) =~= t);
    }
    Some(acc)
}

// ---------------------------------------------------------------------------
// String equality
// ---------------------------------------------------------------------------

/// Character-for-character equality of two string slices.
pub fn str_eq(a: &str, b: &str) -> (r: bool)
    ensures
        r == (a@ == b@),
{
    let na: usize = a.unicode_len();
    let nb: usize = b.unicode_len();
    if na != nb {
        return false;
    }
    let mut i: usize = 0;
    while i < na
        invariant
            0 <= i <= na,
            na == a@.len(),
            na == b@.len(),
            forall|j: int| 0 <= j < i ==> a@[j] == b@[j],
        decreases na - i,
    {
        if a.get_char(i) != b.get_char(i) {
            return false;
        }
        i = i + 1;
    }
    proof {
        assert(a@ =~= b@);
    }
    true
}

} // verus!

//! Character-level string helpers with specifications over `Seq<char>`.
//!
//! Configuration validation throughout the library checks prefixes,
//! suffixes, whitespace and decimal numbers. These helpers state exactly what
//! they compute so that the callers' contracts can be phrased over the views
//! of the strings involved.
use vstd::prelude::*;

verus! {

// ── whitespace ──────────────────────────────────────────────────────────────

/// Unicode `White_Space`, the set that `char::is_whitespace` tests.
pub open spec fn is_ws(c: char) -> bool {
    ||| c == '\t' || c == '\n' || c == '\u{0B}' || c == '\u{0C}' || c == '\r' || c == ' '
    ||| c == '\u{85}' || c == '\u{A0}' || c == '\u{1680}'
    ||| ('\u{2000}' <= c && c <= '\u{200A}')
    ||| c == '\u{2028}' || c == '\u{2029}' || c == '\u{202F}' || c == '\u{205F}'
    ||| c == '\u{3000}'
}

/// Whether `c` is Unicode whitespace.
pub fn is_whitespace(c: char) -> (r: bool)
    ensures
        r == is_ws(c),
{
    c == '\t' || c == '\n' || c == '\u{0B}' || c == '\u{0C}' || c == '\r' || c == ' ' || c
        == '\u{85}' || c == '\u{A0}' || c == '\u{1680}' || ('\u{2000}' <= c && c <= '\u{200A}')
        || c == '\u{2028}' || c == '\u{2029}' || c == '\u{202F}' || c == '\u{205F}' || c
        == '\u{3000}'
}

/// Index of the first non-whitespace character at or after `i` (or the
/// length when there is none).
pub open spec fn lead_from(s: Seq<char>, i: int) -> int
    decreases s.len() - i,
{
    if i >= s.len() {
        s.len() as int
    } else if is_ws(s[i]) {
        lead_from(s, i + 1)
    } else {
        i
    }
}

/// One past the last non-whitespace character at or before `j - 1` (or 0).
pub open spec fn trail_from(s: Seq<char>, j: int) -> int
    decreases j,
{
    if j <= 0 {
        0
    } else if is_ws(s[j - 1]) {
        trail_from(s, j - 1)
    } else {
        j
    }
}

/// `s` with leading and trailing whitespace removed (`str::trim`).
pub open spec fn trim_seq(s: Seq<char>) -> Seq<char> {
    let a = lead_from(s, 0);
    let b = trail_from(s, s.len() as int);
    if a >= b {
        Seq::empty()
    } else {
        s.subrange(a, b)
    }
}

/// Every character of `s` is whitespace.
pub open spec fn all_ws(s: Seq<char>) -> bool {
    forall|i: int| 0 <= i < s.len() ==> is_ws(#[trigger] s[i])
}

proof fn lemma_lead_from_bounds(s: Seq<char>, i: int)
    requires
        0 <= i <= s.len(),
    ensures
        i <= lead_from(s, i) <= s.len(),
        forall|k: int| i <= k < lead_from(s, i) ==> is_ws(#[trigger] s[k]),
        lead_from(s, i) < s.len() ==> !is_ws(s[lead_from(s, i)]),
    decreases s.len() - i,
{
    if i < s.len() && is_ws(s[i]) {
        lemma_lead_from_bounds(s, i + 1);
    }
}

proof fn lemma_trail_from_bounds(s: Seq<char>, j: int)
    requires
        0 <= j <= s.len(),
    ensures
        0 <= trail_from(s, j) <= j,
        forall|k: int| trail_from(s, j) <= k < j ==> is_ws(#[trigger] s[k]),
        trail_from(s, j) > 0 ==> !is_ws(s[trail_from(s, j) - 1]),
    decreases j,
{
    if j > 0 && is_ws(s[j - 1]) {
        lemma_trail_from_bounds(s, j - 1);
    }
}

/// The trimmed sequence is empty exactly when every character is whitespace.
pub proof fn lemma_trim_empty_iff_all_ws(s: Seq<char>)
    ensures
        (trim_seq(s).len() == 0) == all_ws(s),
{
    lemma_lead_from_bounds(s, 0);
    lemma_trail_from_bounds(s, s.len() as int);
    let a = lead_from(s, 0);
    let b = trail_from(s, s.len() as int);
    if a < b {
        assert(!is_ws(s[a]));
    } else if a < s.len() {
        assert(!is_ws(s[a]));
        // every index at or after b is whitespace, and a >= b
        assert(is_ws(s[a]));
    }
}

/// Character indices `(start, end)` of the trimmed part of `s`.
fn trim_bounds(s: &str) -> (r: (usize, usize))
    ensures
        r.0 <= r.1 <= s@.len(),
        s@.subrange(r.0 as int, r.1 as int) == trim_seq(s@),
{
    let n = s.unicode_len();
    let mut a: usize = 0;
    while a < n && is_whitespace(s.get_char(a))
        invariant
            n == s@.len(),
            a <= n,
            lead_from(s@, a as int) == lead_from(s@, 0),
        decreases n - a,
    {
        a = a + 1;
    }
    let mut b: usize = n;
    while b > a && is_whitespace(s.get_char(b - 1))
        invariant
            n == s@.len(),
            a <= b <= n,
            trail_from(s@, b as int) == trail_from(s@, n as int),
            lead_from(s@, 0) == a as int || (a == n),
            a as int == lead_from(s@, 0),
        decreases b,
    {
        b = b - 1;
    }
    proof {
        lemma_trail_from_bounds(s@, n as int);
        lemma_trail_from_bounds(s@, b as int);
        lemma_lead_from_bounds(s@, 0);
        if b > a {
            assert(trail_from(s@, b as int) == b as int);
        } else {
            // b == a: the trimmed part is empty
            let t = trail_from(s@, n as int);
            if a < t {
                // a < t <= b is impossible since b == a
                assert(t <= b);
            }
            assert(s@.subrange(a as int, b as int) =~= Seq::<char>::empty());
        }
    }
    (a, b)
}

/// `s` without leading and trailing whitespace (`str::trim`).
pub fn trim(s: &str) -> (r: &str)
    ensures
        r@ == trim_seq(s@),
{
    let (a, b) = trim_bounds(s);
    s.substring_char(a, b)
}

/// Whether `s` is empty or whitespace only (`s.trim().is_empty()`).
pub fn is_blank(s: &str) -> (r: bool)
    ensures
        r == all_ws(s@),
        r == (trim_seq(s@).len() == 0),
{
    proof {
        lemma_trim_empty_iff_all_ws(s@);
    }
    let (a, b) = trim_bounds(s);
    a == b
}

/// Number of characters of `s` (`s.chars().count()`).
pub fn char_count(s: &str) -> (r: usize)
    ensures
        r == s@.len(),
{
    s.unicode_len()
}

// ── prefixes, suffixes, containment ─────────────────────────────────────────

/// `p` is a prefix of `s`.
pub open spec fn has_prefix(s: Seq<char>, p: Seq<char>) -> bool {
    p.len() <= s.len() && s.subrange(0, p.len() as int) == p
}

/// `p` is a suffix of `s`.
pub open spec fn has_suffix(s: Seq<char>, p: Seq<char>) -> bool {
    p.len() <= s.len() && s.subrange(s.len() - p.len(), s.len() as int) == p
}

/// `c` occurs in `s`.
pub open spec fn has_char(s: Seq<char>, c: char) -> bool {
    exists|i: int| 0 <= i < s.len() && s[i] == c
}

/// `str::starts_with` for a string prefix.
pub fn starts_with(s: &str, p: &str) -> (r: bool)
    ensures
        r == has_prefix(s@, p@),
{
    let n = s.unicode_len();
    let m = p.unicode_len();
    if m > n {
        return false;
    }
    let mut i: usize = 0;
    while i < m
        invariant
            n == s@.len(),
            m == p@.len(),
            m <= n,
            i <= m,
            forall|k: int| 0 <= k < i ==> s@[k] == p@[k],
        decreases m - i,
    {
        if s.get_char(i) != p.get_char(i) {
            assert(s@.subrange(0, m as int)[i as int] != p@[i as int]);
            return false;
        }
        i = i + 1;
    }
    assert(s@.subrange(0, m as int) =~= p@);
    true
}

/// `str::ends_with` for a string suffix.
pub fn ends_with(s: &str, p: &str) -> (r: bool)
    ensures
        r == has_suffix(s@, p@),
{
    let n = s.unicode_len();
    let m = p.unicode_len();
    if m > n {
        return false;
    }
    let off = n - m;
    let mut i: usize = 0;
    while i < m
        invariant
            n == s@.len(),
            m == p@.len(),
            off == n - m,
            i <= m,
            forall|k: int| 0 <= k < i ==> s@[off + k] == p@[k],
        decreases m - i,
    {
        if s.get_char(off + i) != p.get_char(i) {
            assert(s@.subrange(off as int, n as int)[i as int] != p@[i as int]);
            return false;
        }
        i = i + 1;
    }
    assert(s@.subrange(off as int, n as int) =~= p@);
    true
}

/// `str::contains` for a single character.
pub fn contains_char(s: &str, c: char) -> (r: bool)
    ensures
        r == has_char(s@, c),
{
    let n = s.unicode_len();
    let mut i: usize = 0;
    while i < n
        invariant
            n == s@.len(),
            i <= n,
            forall|k: int| 0 <= k < i ==> s@[k] != c,
        decreases n - i,
    {
        if s.get_char(i) == c {
            return true;
        }
        i = i + 1;
    }
    false
}

/// Character-wise equality of two string slices (`==` on `&str`).
pub fn str_eq(a: &str, b: &str) -> (r: bool)
    ensures
        r == (a@ == b@),
{
    let n = a.unicode_len();
    let m = b.unicode_len();
    if n != m {
        return false;
    }
    let mut i: usize = 0;
    while i < n
        invariant
            n == a@.len(),
            m == b@.len(),
            n == m,
            i <= n,
            forall|k: int| 0 <= k < i ==> a@[k] == b@[k],
        decreases n - i,
    {
        if a.get_char(i) != b.get_char(i) {
            return false;
        }
        i = i + 1;
    }
    assert(a@ =~= b@);
    true
}

/// Remove every trailing occurrence of `c` (`str::trim_end_matches(c)`).
pub open spec fn strip_trailing(s: Seq<char>, c: char) -> Seq<char>
    decreases s.len(),
{
    if s.len() > 0 && s.last() == c {
        strip_trailing(s.drop_last(), c)
    } else {
        s
    }
}

/// `str::trim_end_matches` for a single character.
pub fn trim_end_char(s: &str, c: char) -> (r: &str)
    ensures
        r@ == strip_trailing(s@, c),
{
    let n = s.unicode_len();
    let mut b: usize = n;
    proof {
        assert(s@.subrange(0, n as int) =~= s@);
    }
    while b > 0 && s.get_char(b - 1) == c
        invariant
            n == s@.len(),
            b <= n,
            strip_trailing(s@.subrange(0, b as int), c) == strip_trailing(s@, c),
        decreases b,
    {
        proof {
            assert(s@.subrange(0, b as int).drop_last() =~= s@.subrange(0, b - 1));
        }
        b = b - 1;
    }
    proof {
        assert(s@.subrange(0, n as int) =~= s@);
    }
    s.substring_char(0, b)
}

// ── building strings ────────────────────────────────────────────────────────

/// Appends one character to a string (`String::push`).
#[verifier::external_body]
pub(crate) fn push_char(s: &mut String, c: char)
    ensures
        final(s)@ == old(s)@.push(c),
{
    s.push(c);
}

/// The lowercase form of `s` under the Unicode lowercase mapping
/// (`str::to_lowercase`).
pub uninterp spec fn unicode_lowercase(s: Seq<char>) -> Seq<char>;

/// Lowercases `s` (`str::to_lowercase`).
#[verifier::external_body]
pub(crate) fn to_lowercase(s: &str) -> (r: String)
    ensures
        r@ == unicode_lowercase(s@),
{
    s.to_lowercase()
}

/// The debug form of a string: the text in double quotes with quotes,
/// backslashes and unprintable characters escaped, as `{:?}` prints it.
pub uninterp spec fn debug_form(s: Seq<char>) -> Seq<char>;

/// The debug form of `s` (`<str as Debug>::fmt`, through `format!("{:?}")`).
#[verifier::external_body]
pub(crate) fn debug_quoted(s: &str) -> (r: String)
    ensures
        r@ == debug_form(s@),
{
    format!("{:?}", s)
}

/// Name/text pairs (such as HTTP headers) in mathematical form.
pub open spec fn pairs_view(p: Seq<(&'static str, String)>) -> Seq<(Seq<char>, Seq<char>)> {
    p.map_values(|e: (&'static str, String)| (e.0@, e.1@))
}

/// A new string holding the characters of `s`.
pub fn owned(s: &str) -> (r: String)
    ensures
        r@ == s@,
{
    String::from_str(s)
}

/// The parts joined with `sep` between neighbours (`[..].join(sep)`).
pub open spec fn join_with(parts: Seq<Seq<char>>, sep: Seq<char>) -> Seq<char>
    decreases parts.len(),
{
    if parts.len() == 0 {
        Seq::empty()
    } else if parts.len() == 1 {
        parts[0]
    } else {
        join_with(parts.drop_last(), sep) + sep + parts.last()
    }
}

/// The strings joined with `sep` between neighbours.
pub fn join(parts: &Vec<String>, sep: &str) -> (r: String)
    ensures
        r@ == join_with(parts@.map_values(|p: String| p@), sep@),
{
    let ghost all = parts@.map_values(|p: String| p@);
    let mut out = String::new();
    let n = parts.len();
    let mut i: usize = 0;
    while i < n
        invariant
            n == parts@.len(),
            all == parts@.map_values(|p: String| p@),
            i <= n,
            out@ == join_with(all.subrange(0, i as int), sep@),
        decreases n - i,
    {
        proof {
            assert(all.subrange(0, i + 1).drop_last() =~= all.subrange(0, i as int));
            assert(all.subrange(0, i + 1).last() == parts@[i as int]@);
        }
        if i > 0 {
            out.append(sep);
        } else {
            assert(out@ =~= Seq::<char>::empty());
        }
        out.append(parts[i].as_str());
        i = i + 1;
    }
    proof {
        assert(all.subrange(0, n as int) =~= all);
    }
    out
}

/// `s` cut at every `c` (`str::split(c)`): one more piece than there are
/// separators, empty pieces included.
pub open spec fn split_seq(s: Seq<char>, c: char) -> Seq<Seq<char>>
    decreases s.len(),
{
    if s.len() == 0 {
        seq![Seq::empty()]
    } else {
        let prev = split_seq(s.drop_last(), c);
        if s.last() == c {
            prev.push(Seq::empty())
        } else {
            prev.update(prev.len() - 1, prev.last().push(s.last()))
        }
    }
}

proof fn lemma_split_nonempty(s: Seq<char>, c: char)
    ensures
        split_seq(s, c).len() >= 1,
    decreases s.len(),
{
    if s.len() > 0 {
        lemma_split_nonempty(s.drop_last(), c);
    }
}

/// The pieces of `s` between occurrences of `c`.
pub fn split_char(s: &str, c: char) -> (r: Vec<String>)
    ensures
        r@.map_values(|p: String| p@) == split_seq(s@, c),
        r@.len() >= 1,
{
    let mut parts: Vec<String> = Vec::new();
    let mut cur = String::new();
    let n = s.unicode_len();
    let mut i: usize = 0;
    while i < n
        invariant
            n == s@.len(),
            i <= n,
            parts@.map_values(|p: String| p@).push(cur@) == split_seq(s@.subrange(0, i as int), c),
        decreases n - i,
    {
        let ch = s.get_char(i);
        proof {
            assert(s@.subrange(0, i + 1).drop_last() =~= s@.subrange(0, i as int));
            assert(s@.subrange(0, i + 1).last() == ch);
            lemma_split_nonempty(s@.subrange(0, i as int), c);
        }
        let ghost before = parts@.map_values(|p: String| p@);
        let ghost cur_before = cur@;
        if ch == c {
            let done = cur;
            cur = String::new();
            parts.push(done);
            proof {
                assert(parts@.map_values(|p: String| p@) =~= before.push(cur_before));
                assert(parts@.map_values(|p: String| p@).push(cur@) =~= split_seq(
                    s@.subrange(0, i + 1),
                    c,
                ));
            }
        } else {
            push_char(&mut cur, ch);
            proof {
                assert(parts@.map_values(|p: String| p@) =~= before);
                assert(parts@.map_values(|p: String| p@).push(cur@) =~= split_seq(
                    s@.subrange(0, i + 1),
                    c,
                ));
            }
        }
        i = i + 1;
    }
    parts.push(cur);
    proof {
        assert(s@.subrange(0, n as int) =~= s@);
    }
    parts
}

// ── decimal numbers ─────────────────────────────────────────────────────────

/// The ASCII digit for `d < 10`.
pub open spec fn digit_char(d: nat) -> char {
    if d == 0 { '0' }
    else if d == 1 { '1' }
    else if d == 2 { '2' }
    else if d == 3 { '3' }
    else if d == 4 { '4' }
    else if d == 5 { '5' }
    else if d == 6 { '6' }
    else if d == 7 { '7' }
    else if d == 8 { '8' }
    else { '9' }
}

/// The value of an ASCII decimal digit.
pub open spec fn digit_value(c: char) -> nat {
    if c == '0' { 0 }
    else if c == '1' { 1 }
    else if c == '2' { 2 }
    else if c == '3' { 3 }
    else if c == '4' { 4 }
    else if c == '5' { 5 }
    else if c == '6' { 6 }
    else if c == '7' { 7 }
    else if c == '8' { 8 }
    else { 9 }
}

/// `c` is one of `'0'..='9'`.
pub open spec fn is_digit(c: char) -> bool {
    '0' <= c && c <= '9'
}

/// Shortest decimal representation of `n` (`n.to_string()` / `{}`).
pub open spec fn decimal(n: nat) -> Seq<char>
    decreases n,
{
    if n < 10 {
        seq![digit_char(n)]
    } else {
        decimal(n / 10).push(digit_char(n % 10))
    }
}

fn digit(d: u64) -> (c: char)
    requires
        d < 10,
    ensures
        c == digit_char(d as nat),
{
    if d == 0 { '0' }
    else if d == 1 { '1' }
    else if d == 2 { '2' }
    else if d == 3 { '3' }
    else if d == 4 { '4' }
    else if d == 5 { '5' }
    else if d == 6 { '6' }
    else if d == 7 { '7' }
    else if d == 8 { '8' }
    else { '9' }
}

/// Decimal representation of `n`.
pub fn u64_to_decimal(n: u64) -> (r: String)
    ensures
        r@ == decimal(n as nat),
    decreases n,
{
    if n < 10 {
        let mut s = String::new();
        push_char(&mut s, digit(n));
        assert(s@ =~= seq![digit_char(n as nat)]);
        s
    } else {
        let mut s = u64_to_decimal(n / 10);
        push_char(&mut s, digit(n % 10));
        s
    }
}

/// Append the decimal representation of `n` to `s`.
pub fn append_decimal(s: &mut String, n: u64)
    ensures
        final(s)@ == old(s)@ + decimal(n as nat),
{
    let d = u64_to_decimal(n);
    s.append(d.as_str());
}

/// Value of a sequence of decimal digits, most significant first.
pub open spec fn digits_value(t: Seq<char>) -> nat
    decreases t.len(),
{
    if t.len() == 0 {
        0
    } else {
        digits_value(t.drop_last()) * 10 + digit_value(t.last())
    }
}

/// Every character is a decimal digit.
pub open spec fn all_digits(t: Seq<char>) -> bool {
    forall|i: int| 0 <= i < t.len() ==> is_digit(#[trigger] t[i])
}

/// The digits of an unsigned integer literal: an optional leading `+`
/// followed by the digits themselves.
pub open spec fn unsigned_digits(s: Seq<char>) -> Seq<char> {
    if s.len() > 0 && s[0] == '+' {
        s.drop_first()
    } else {
        s
    }
}

/// What `str::parse` gives for an unsigned integer type whose largest value
/// is `max`: the value when the text is an optional `+` followed by at least
/// one decimal digit and the value does not exceed `max`, `None` otherwise.
pub open spec fn parse_unsigned(s: Seq<char>, max: nat) -> Option<nat> {
    let t = unsigned_digits(s);
    if t.len() > 0 && all_digits(t) && digits_value(t) <= max {
        Some(digits_value(t))
    } else {
        None
    }
}

proof fn lemma_digits_value_prefix_monotone(t: Seq<char>, i: int)
    requires
        0 <= i <= t.len(),
    ensures
        digits_value(t.subrange(0, i)) <= digits_value(t),
    decreases t.len() - i,
{
    if i < t.len() {
        lemma_digits_value_prefix_monotone(t, i + 1);
        assert(t.subrange(0, i + 1).drop_last() =~= t.subrange(0, i));
    } else {
        assert(t.subrange(0, i) =~= t);
    }
}

fn char_digit(c: char) -> (r: Option<u64>)
    ensures
        r.is_some() == is_digit(c),
        r.is_some() ==> r.unwrap() == digit_value(c) && r.unwrap() < 10,
{
    if c == '0' { Some(0) }
    else if c == '1' { Some(1) }
    else if c == '2' { Some(2) }
    else if c == '3' { Some(3) }
    else if c == '4' { Some(4) }
    else if c == '5' { Some(5) }
    else if c == '6' { Some(6) }
    else if c == '7' { Some(7) }
    else if c == '8' { Some(8) }
    else if c == '9' { Some(9) }
    else { None }
}

/// Parse an unsigned decimal integer no larger than `max`
/// (`str::parse::<uN>()` where `max` is `uN::MAX`).
pub fn parse_u64_max(s: &str, max: u64) -> (r: Option<u64>)
    ensures
        match parse_unsigned(s@, max as nat) {
            Some(v) => r == Some(v as u64),
            None => r.is_none(),
        },
{
    let n = s.unicode_len();
    let start: usize = if n > 0 && s.get_char(0) == '+' { 1 } else { 0 };
    let ghost t = unsigned_digits(s@);
    proof {
        if start == 1 {
            assert(t =~= s@.subrange(1, n as int));
        } else {
            assert(t =~= s@.subrange(0, n as int));
        }
    }
    if start >= n {
        return None;
    }
    let mut acc: u64 = 0;
    let mut i: usize = start;
    while i < n
        invariant
            n == s@.len(),
            start <= i <= n,
            start < n,
            t == s@.subrange(start as int, n as int),
            t == unsigned_digits(s@),
            acc as nat == digits_value(t.subrange(0, i - start)),
            acc <= max,
            all_digits(t.subrange(0, i - start)),
        decreases n - i,
    {
        let c = s.get_char(i);
        let ghost k = (i - start) as int;
        proof {
            assert(t[k] == c);
            assert(t.subrange(0, k + 1).drop_last() =~= t.subrange(0, k));
            assert(t.subrange(0, k + 1).last() == c);
        }
        match char_digit(c) {
            None => {
                assert(!all_digits(t)) by {
                    assert(!is_digit(t[k]));
                }
                assert(parse_unsigned(s@, max as nat).is_none());
                return None;
            },
            Some(d) => {
                let next = match acc.checked_mul(10) {
                    Some(m) => m.checked_add(d),
                    None => None,
                };
                match next {
                    Some(v) if v <= max => {
                        acc = v;
                        proof {
                            assert(all_digits(t.subrange(0, k + 1)));
                        }
                        i = i + 1;
                    },
                    _ => {
                        proof {
                            lemma_digits_value_prefix_monotone(t, k + 1);
                            assert(digits_value(t.subrange(0, k + 1)) == acc * 10 + d);
                            assert(digits_value(t.subrange(0, k + 1)) > max);
                            assert(parse_unsigned(s@, max as nat).is_none());
                        }
                        return None;
                    },
                }
            },
        }
    }
    proof {
        assert(t.subrange(0, (n - start) as int) =~= t);
    }
    Some(acc)
}

// ── ASCII case, searching and bracket trimming ─────────────────────────────

/// ASCII lower-casing of one character (`char::to_ascii_lowercase`).
pub open spec fn ascii_lower(c: char) -> char {
    if 'A' <= c && c <= 'Z' {
        ((c as u32) + 32) as char
    } else {
        c
    }
}

/// ASCII lower-casing of every character (`str::to_ascii_lowercase`).
pub open spec fn ascii_lower_seq(s: Seq<char>) -> Seq<char> {
    s.map_values(|c: char| ascii_lower(c))
}

fn to_ascii_lower(c: char) -> (r: char)
    ensures
        r == ascii_lower(c),
{
    if 'A' <= c && c <= 'Z' {
        let b = (c as u8) + 32;
        assert((c as u8) + 32 == (c as u32) + 32);
        b as char
    } else {
        c
    }
}

/// Whether the ASCII-lower-cased `s` starts with `p`
/// (`s.to_ascii_lowercase().starts_with(p)`).
pub fn starts_with_ascii_lowercase(s: &str, p: &str) -> (r: bool)
    ensures
        r == has_prefix(ascii_lower_seq(s@), p@),
{
    let n = s.unicode_len();
    let m = p.unicode_len();
    let ghost l = ascii_lower_seq(s@);
    if m > n {
        return false;
    }
    let mut i: usize = 0;
    while i < m
        invariant
            n == s@.len(),
            m == p@.len(),
            l == ascii_lower_seq(s@),
            l.len() == n,
            m <= n,
            i <= m,
            forall|k: int| 0 <= k < i ==> l[k] == p@[k],
        decreases m - i,
    {
        if to_ascii_lower(s.get_char(i)) != p.get_char(i) {
            assert(l.subrange(0, m as int)[i as int] != p@[i as int]);
            return false;
        }
        i = i + 1;
    }
    assert(l.subrange(0, m as int) =~= p@);
    true
}

/// Index of the first `c` in `s`, or the length of `s` when there is none.
pub open spec fn find_from(s: Seq<char>, c: char, i: int) -> int
    decreases s.len() - i,
{
    if i >= s.len() {
        s.len() as int
    } else if s[i] == c {
        i
    } else {
        find_from(s, c, i + 1)
    }
}

/// Index of the first `c` in `s`, or the length of `s` when there is none.
pub open spec fn find_char(s: Seq<char>, c: char) -> int {
    find_from(s, c, 0)
}

/// One past the index of the last `c` in the first `j` characters of `s`,
/// or 0 when there is none.
pub open spec fn rfind_upto(s: Seq<char>, c: char, j: int) -> int
    decreases j,
{
    if j <= 0 {
        0
    } else if s[j - 1] == c {
        j
    } else {
        rfind_upto(s, c, j - 1)
    }
}

/// Index of the last `c` in `s`, if any.
pub open spec fn rfind_char(s: Seq<char>, c: char) -> Option<int> {
    let j = rfind_upto(s, c, s.len() as int);
    if j == 0 {
        None
    } else {
        Some(j - 1)
    }
}

proof fn lemma_find_from(s: Seq<char>, c: char, i: int)
    requires
        0 <= i <= s.len(),
    ensures
        i <= find_from(s, c, i) <= s.len(),
    decreases s.len() - i,
{
    if i < s.len() && s[i] != c {
        lemma_find_from(s, c, i + 1);
    }
}

proof fn lemma_rfind_upto(s: Seq<char>, c: char, j: int)
    requires
        0 <= j <= s.len(),
    ensures
        0 <= rfind_upto(s, c, j) <= j,
    decreases j,
{
    if j > 0 && s[j - 1] != c {
        lemma_rfind_upto(s, c, j - 1);
    }
}

/// `find_char` as an executable search.
pub fn find(s: &str, c: char) -> (r: usize)
    ensures
        r == find_char(s@, c),
        r <= s@.len(),
{
    let n = s.unicode_len();
    let mut i: usize = 0;
    proof {
        lemma_find_from(s@, c, 0);
    }
    while i < n && s.get_char(i) != c
        invariant
            n == s@.len(),
            i <= n,
            find_from(s@, c, i as int) == find_char(s@, c),
        decreases n - i,
    {
        i = i + 1;
    }
    i
}

/// `rfind_char` as an executable search.
pub fn rfind(s: &str, c: char) -> (r: Option<usize>)
    ensures
        match rfind_char(s@, c) {
            Some(k) => 0 <= k < s@.len() && r == Some(k as usize),
            None => r.is_none(),
        },
{
    let n = s.unicode_len();
    let mut j: usize = n;
    proof {
        lemma_rfind_upto(s@, c, n as int);
    }
    while j > 0 && s.get_char(j - 1) != c
        invariant
            n == s@.len(),
            j <= n,
            rfind_upto(s@, c, j as int) == rfind_upto(s@, c, n as int),
        decreases j,
    {
        j = j - 1;
    }
    if j == 0 {
        None
    } else {
        Some(j - 1)
    }
}

/// `[` or `]`.
pub open spec fn is_bracket(c: char) -> bool {
    c == '[' || c == ']'
}

/// Index of the first character at or after `i` that is not a bracket.
pub open spec fn lead_br(s: Seq<char>, i: int) -> int
    decreases s.len() - i,
{
    if i >= s.len() {
        s.len() as int
    } else if is_bracket(s[i]) {
        lead_br(s, i + 1)
    } else {
        i
    }
}

/// One past the last non-bracket character before `j`, or 0.
pub open spec fn trail_br(s: Seq<char>, j: int) -> int
    decreases j,
{
    if j <= 0 {
        0
    } else if is_bracket(s[j - 1]) {
        trail_br(s, j - 1)
    } else {
        j
    }
}

/// `s` without leading and trailing `[` and `]`
/// (`str::trim_matches(['[', ']'])`).
pub open spec fn trim_brackets_seq(s: Seq<char>) -> Seq<char> {
    let a = lead_br(s, 0);
    let b = trail_br(s, s.len() as int);
    if a >= b {
        Seq::empty()
    } else {
        s.subrange(a, b)
    }
}

proof fn lemma_lead_br(s: Seq<char>, i: int)
    requires
        0 <= i <= s.len(),
    ensures
        i <= lead_br(s, i) <= s.len(),
        forall|k: int| i <= k < lead_br(s, i) ==> is_bracket(#[trigger] s[k]),
        lead_br(s, i) < s.len() ==> !is_bracket(s[lead_br(s, i)]),
    decreases s.len() - i,
{
    if i < s.len() && is_bracket(s[i]) {
        lemma_lead_br(s, i + 1);
    }
}

proof fn lemma_trail_br(s: Seq<char>, j: int)
    requires
        0 <= j <= s.len(),
    ensures
        0 <= trail_br(s, j) <= j,
        forall|k: int| trail_br(s, j) <= k < j ==> is_bracket(#[trigger] s[k]),
        trail_br(s, j) > 0 ==> !is_bracket(s[trail_br(s, j) - 1]),
    decreases j,
{
    if j > 0 && is_bracket(s[j - 1]) {
        lemma_trail_br(s, j - 1);
    }
}

/// `str::trim_matches(['[', ']'])`.
pub fn trim_brackets(s: &str) -> (r: &str)
    ensures
        r@ == trim_brackets_seq(s@),
{
    let n = s.unicode_len();
    let mut a: usize = 0;
    while a < n && (s.get_char(a) == '[' || s.get_char(a) == ']')
        invariant
            n == s@.len(),
            a <= n,
            lead_br(s@, a as int) == lead_br(s@, 0),
        decreases n - a,
    {
        a = a + 1;
    }
    let mut b: usize = n;
    while b > a && (s.get_char(b - 1) == '[' || s.get_char(b - 1) == ']')
        invariant
            n == s@.len(),
            a <= b <= n,
            trail_br(s@, b as int) == trail_br(s@, n as int),
            a as int == lead_br(s@, 0),
        decreases b,
    {
        b = b - 1;
    }
    proof {
        lemma_trail_br(s@, n as int);
        lemma_trail_br(s@, b as int);
        lemma_lead_br(s@, 0);
        if b > a {
            assert(trail_br(s@, b as int) == b as int);
        } else {
            let t = trail_br(s@, n as int);
            if a < t {
                assert(t <= b);
            }
        }
    }
    if a >= b {
        proof {
            assert(s@.subrange(a as int, a as int) =~= Seq::<char>::empty());
        }
        s.substring_char(a, a)
    } else {
        s.substring_char(a, b)
    }
}

/// Number of bytes of the UTF-8 encoding of `s`, as `str::len` reports it.
pub open spec fn utf8_len(s: Seq<char>) -> nat {
    (vstd::utf8::encode_utf8(s).len() as usize) as nat
}

} // verus!

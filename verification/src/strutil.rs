//! Small string utilities shared by the whole renderer: character-level
//! equality and search, joining, repetition, decimal formatting, and the
//! case-mapping primitives that the identifier layer builds on.

use vstd::prelude::*;

verus! {

// ---------------------------------------------------------------------------
// Named results of std case mappings.
//
// Unicode case mapping takes pages to state, so the result is given a name
// and the contracts downstream speak of that name.
// ---------------------------------------------------------------------------

/// The first character of `c`'s Unicode uppercase mapping, or `c` itself when
/// the mapping is empty.
pub uninterp spec fn upper_char(c: char) -> char;

/// The first character of `c`'s Unicode lowercase mapping, or `c` itself when
/// the mapping is empty.
pub uninterp spec fn low_char(c: char) -> char;

/// The Unicode lowercase form of a whole string, as `str::to_lowercase`
/// computes it.
pub uninterp spec fn lower_of(s: Seq<char>) -> Seq<char>;

/// Whether `c` has the Unicode `White_Space` property.
pub uninterp spec fn is_unicode_space(c: char) -> bool;

/// Relies on `char::to_uppercase`: the result depends on the character alone;
/// for ASCII letters the mapping is `a..z` to `A..Z` and every other ASCII
/// character maps to itself.
#[verifier::external_body]
pub fn char_upcase(c: char) -> (r: char)
    ensures
        r == upper_char(c),
        (97 <= c as u32 && c as u32 <= 122) ==> r as u32 == c as u32 - 32,
        ((c as u32) < 128 && !(97 <= c as u32 && c as u32 <= 122)) ==> r == c,
{
    c.to_uppercase().next().unwrap_or(c)
}

/// Relies on `char::to_lowercase`: the result depends on the character alone;
/// for ASCII letters the mapping is `A..Z` to `a..z` and every other ASCII
/// character maps to itself.
#[verifier::external_body]
pub fn char_downcase(c: char) -> (r: char)
    ensures
        r == low_char(c),
        (65 <= c as u32 && c as u32 <= 90) ==> r as u32 == c as u32 + 32,
        ((c as u32) < 128 && !(65 <= c as u32 && c as u32 <= 90)) ==> r == c,
{
    c.to_lowercase().next().unwrap_or(c)
}

/// Whether every character of the string is ASCII.
pub open spec fn all_ascii(s: Seq<char>) -> bool {
    forall|i: int| 0 <= i < s.len() ==> ((#[trigger] s[i]) as u32) < 128
}

/// Relies on `str::to_lowercase`: the result depends on the characters
/// alone, and an empty string stays empty.  On all-ASCII input it maps
/// character by character: `A..Z` to `a..z`, everything else unchanged (no
/// ASCII character has a multi-character or context-dependent lowercase
/// mapping).
#[verifier::external_body]
pub fn str_lowercase(s: &str) -> (r: String)
    ensures
        r@ == lower_of(s@),
        s@.len() == 0 ==> r@.len() == 0,
        all_ascii(s@) ==> r@.len() == s@.len(),
        all_ascii(s@) ==> (forall|i: int|
            0 <= i < s@.len() && 65 <= (s@[i] as u32) && (s@[i] as u32) <= 90 ==> ((
            #[trigger] r@[i]) as u32) == (s@[i] as u32) + 32),
        all_ascii(s@) ==> (forall|i: int|
            0 <= i < s@.len() && !(65 <= (s@[i] as u32) && (s@[i] as u32) <= 90) ==> (
            #[trigger] r@[i]) == s@[i]),
{
    s.to_lowercase()
}

/// Relies on `char::is_whitespace`: the result depends on the character
/// alone, and on ASCII input it holds exactly for the six ASCII members of
/// Unicode's `White_Space` property: tab, line feed, vertical tab, form
/// feed, carriage return and space.
#[verifier::external_body]
pub fn char_is_space(c: char) -> (r: bool)
    ensures
        r == is_unicode_space(c),
        ((c as u32) < 128) ==> r == (c == ' ' || c == '\t' || c == '\n' || (c as u32) == 11
            || (c as u32) == 12 || c == '\r'),
{
    c.is_whitespace()
}

// ---------------------------------------------------------------------------
// Decimal formatting.
// ---------------------------------------------------------------------------

/// The character for a single decimal digit.
pub open spec fn digit_char(d: nat) -> char {
    if d == 0 { '0' }
    else if d == 1 { '1' }
    else if d == 2 { '2' }
    else if d == 3 { '3' }
    else if d == 4 { '4' }
    else if d == 5 { '5' }
    else if d == 6 { '6' }
    else if d == 7 { '7' }
    else if d == 8 { '8' }
    else { '9' }
}

/// The decimal digit string of a non-negative number, most significant digit
/// first, with no leading zeros (a lone `0` for zero).
pub open spec fn dec_nat(n: nat) -> Seq<char>
    decreases n,
{
    if n < 10 { seq![digit_char(n)] } else { dec_nat(n / 10) + seq![digit_char(n % 10)] }
}

/// The decimal rendering of a signed number: a leading `-` for negatives.
pub open spec fn dec_int(n: int) -> Seq<char> {
    if n < 0 { seq!['-'] + dec_nat((-n) as nat) } else { dec_nat(n as nat) }
}

/// The character of one decimal digit.
fn digit_to_char(d: u64) -> (c: char)
    requires
        d < 10,
    ensures
        c == digit_char(d as nat),
{
    if d == 0 {
        '0'
    } else if d == 1 {
        '1'
    } else if d == 2 {
        '2'
    } else if d == 3 {
        '3'
    } else if d == 4 {
        '4'
    } else if d == 5 {
        '5'
    } else if d == 6 {
        '6'
    } else if d == 7 {
        '7'
    } else if d == 8 {
        '8'
    } else {
        '9'
    }
}

/// Renders a number as plain decimal digits.
pub fn fmt_u64(n: u64) -> (r: String)
    ensures
        r@ == dec_nat(n as nat),
{
    let mut ds: Vec<char> = Vec::new();
    let mut m = n;
    let c0 = digit_to_char(m % 10);
    proof {
        assert(ds@.push(c0).reverse() =~= seq![digit_char((n as nat) % 10)]);
    }
    ds.push(c0);
    m = m / 10;
    while m > 0
        invariant
            ds@.len() >= 1,
            m == 0 ==> dec_nat(n as nat) == ds@.reverse(),
            m > 0 ==> dec_nat(n as nat) == dec_nat(m as nat) + ds@.reverse(),
        decreases m,
    {
        let d = m % 10;
        let c = digit_to_char(d);
        proof {
            assert(ds@.push(c).reverse() =~= seq![c] + ds@.reverse());
            if m >= 10 {
                assert(dec_nat(m as nat) == dec_nat((m as nat) / 10) + seq![
                    digit_char((m as nat) % 10),
                ]);
                assert((dec_nat((m as nat) / 10) + seq![digit_char((m as nat) % 10)])
                    + ds@.reverse() =~= dec_nat((m as nat) / 10) + (seq![
                    digit_char((m as nat) % 10),
                ] + ds@.reverse()));
            }
            assert(m / 10 < m) by (nonlinear_arith)
                requires
                    m > 0,
            ;
        }
        ds.push(c);
        m = m / 10;
    }
    let mut r = String::new();
    let ghost rev = ds@.reverse();
    let mut i: usize = ds.len();
    proof {
        assert(r@ =~= rev.take(0));
    }
    while i > 0
        invariant
            i <= ds@.len(),
            rev == ds@.reverse(),
            dec_nat(n as nat) == rev,
            r@ == rev.take(ds@.len() - i),
        decreases i,
    {
        let c = ds[i - 1];
        push_char(&mut r, c);
        proof {
            assert(rev[ds@.len() - i] == ds@[i - 1]);
            assert(rev.take(ds@.len() - i) + seq![ds@[i - 1]] =~= rev.take(
                ds@.len() - (i - 1),
            ));
        }
        i -= 1;
    }
    proof {
        assert(rev.take(ds@.len() as int) =~= rev);
    }
    r
}

/// Renders a signed number in decimal, with a leading `-` when negative.
pub fn fmt_i64(n: i64) -> (r: String)
    ensures
        r@ == dec_int(n as int),
{
    if n >= 0 {
        fmt_u64(n as u64)
    } else {
        let mag: u64 = if n == -9223372036854775807i64 - 1 {
            9223372036854775808u64
        } else {
            (-n) as u64
        };
        proof {
            assert(mag as nat == (-(n as int)) as nat);
        }
        let digits = fmt_u64(mag);
        let mut r = String::new();
        r.append("-");
        r.append(digits.as_str());
        proof {
            reveal_strlit("-");
            assert("-"@ =~= seq!['-']);
            assert(r@ =~= seq!['-'] + dec_nat(mag as nat));
        }
        r
    }
}

// ---------------------------------------------------------------------------
// Verified character-level string operations.
// ---------------------------------------------------------------------------

/// Relies on `String::push`: appends the one character.
#[verifier::external_body]
pub fn push_char(s: &mut String, c: char)
    ensures
        final(s)@ == old(s)@ + seq![c],
{
    s.push(c);
}

/// Character-for-character string equality.
pub fn str_eq(a: &str, b: &str) -> (r: bool)
    ensures
        r == (a@ == b@),
{
    let alen = a.unicode_len();
    let blen = b.unicode_len();
    if alen != blen {
        proof {
            assert(a@.len() != b@.len());
        }
        return false;
    }
    let mut i: usize = 0;
    while i < alen
        invariant
            alen == a@.len(),
            alen == b@.len(),
            i <= alen,
            forall|j: int| 0 <= j < i ==> a@[j] == b@[j],
        decreases alen - i,
    {
        if a.get_char(i) != b.get_char(i) {
            return false;
        }
        i += 1;
    }
    proof {
        assert(a@ =~= b@);
    }
    true
}

/// Whether `needle` occurs as a contiguous run of characters inside `hay`.
pub open spec fn spec_contains(hay: Seq<char>, needle: Seq<char>) -> bool {
    exists|i: int|
        0 <= i && i + needle.len() <= hay.len() && #[trigger] hay.subrange(
            i,
            i + needle.len() as int,
        ) == needle
}

/// Substring search, character by character.
pub fn str_contains(hay: &str, needle: &str) -> (r: bool)
    ensures
        r == spec_contains(hay@, needle@),
{
    let hl = hay.unicode_len();
    let nl = needle.unicode_len();
    if nl > hl {
        return false;
    }
    if nl == 0 {
        proof {
            assert(hay@.subrange(0, 0 + needle@.len() as int) =~= needle@);
        }
        return true;
    }
    let mut i: usize = 0;
    while i <= hl - nl
        invariant
            hl == hay@.len(),
            nl == needle@.len(),
            1 <= nl <= hl,
            i <= hl - nl + 1,
            forall|j: int|
                0 <= j < i ==> #[trigger] hay@.subrange(j, j + needle@.len() as int) != needle@,
        decreases hl - nl + 1 - i,
    {
        let sub = hay.substring_char(i, i + nl);
        if str_eq(sub, needle) {
            assert(hay@.subrange(i as int, i as int + needle@.len() as int) == needle@);
            return true;
        }
        i += 1;
    }
    false
}

// ---------------------------------------------------------------------------
// Joining and repetition.
// ---------------------------------------------------------------------------

/// The first `i` pieces joined with `sep` between neighbours.
pub open spec fn spec_join_pre(xs: Seq<Seq<char>>, sep: Seq<char>, i: int) -> Seq<char>
    decreases i,
{
    if i <= 0 {
        Seq::empty()
    } else if i == 1 {
        xs[0]
    } else {
        spec_join_pre(xs, sep, i - 1) + sep + xs[i - 1]
    }
}

/// All the pieces joined with `sep` between neighbours.
pub open spec fn spec_join(xs: Seq<Seq<char>>, sep: Seq<char>) -> Seq<char> {
    spec_join_pre(xs, sep, xs.len() as int)
}

/// Joins the pieces with the separator between neighbours.
pub fn join_strings(v: &Vec<String>, sep: &str) -> (r: String)
    ensures
        r@ == spec_join(v@.map_values(|s: String| s@), sep@),
{
    let ghost xs = v@.map_values(|s: String| s@);
    let mut r = String::new();
    let mut i: usize = 0;
    while i < v.len()
        invariant
            xs == v@.map_values(|s: String| s@),
            i <= v.len(),
            r@ == spec_join_pre(xs, sep@, i as int),
        decreases v.len() - i,
    {
        if i > 0 {
            r.append(sep);
        }
        r.append(v[i].as_str());
        proof {
            assert(xs[i as int] == v@[i as int]@);
            if i == 0 {
                assert(r@ =~= spec_join_pre(xs, sep@, 1));
            }
        }
        i += 1;
    }
    r
}

/// `s` repeated `n` times, end to end.
pub open spec fn spec_repeat(s: Seq<char>, n: nat) -> Seq<char>
    decreases n,
{
    if n == 0 { Seq::empty() } else { spec_repeat(s, (n - 1) as nat) + s }
}

/// Repeats the string `n` times.
pub fn str_repeat(s: &str, n: usize) -> (r: String)
    ensures
        r@ == spec_repeat(s@, n as nat),
{
    let mut r = String::new();
    let mut i: usize = 0;
    while i < n
        invariant
            i <= n,
            r@ == spec_repeat(s@, i as nat),
        decreases n - i,
    {
        r.append(s);
        i += 1;
    }
    r
}

/// `s` wrapped in double quotes.
pub open spec fn spec_quoted(s: Seq<char>) -> Seq<char> {
    "\""@ + s + "\""@
}

/// Wraps the string in double quotes.
pub fn quote(s: &str) -> (r: String)
    ensures
        r@ == spec_quoted(s@),
{
    let mut r = String::new();
    r.append("\"");
    r.append(s);
    r.append("\"");
    proof {
        assert(r@ =~= spec_quoted(s@));
    }
    r
}

/// Whether `p` is a prefix of `s`.
pub open spec fn spec_starts_with(s: Seq<char>, p: Seq<char>) -> bool {
    s.len() >= p.len() && s.subrange(0, p.len() as int) == p
}

/// Prefix test, character by character.
pub fn str_starts_with(s: &str, p: &str) -> (r: bool)
    ensures
        r == spec_starts_with(s@, p@),
{
    let sl = s.unicode_len();
    let pl = p.unicode_len();
    if pl > sl {
        return false;
    }
    let head = s.substring_char(0, pl);
    str_eq(head, p)
}

} // verus!

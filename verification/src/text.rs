//! Character-level text helpers shared by the chat, persona and process
//! modules: trimming, substring search, decimal rendering, and the few
//! Unicode case/class operations that come from the standard library.
use vstd::prelude::*;

verus! {

// ---------------------------------------------------------------------------
// Unicode properties taken from the standard library
// ---------------------------------------------------------------------------

/// Whether `c` has the Unicode `Alphabetic` or `Numeric` property, as
/// `char::is_alphanumeric` decides it.
pub uninterp spec fn alphanumeric(c: char) -> bool;

/// The lower-case mapping of a whole string, as `str::to_lowercase` computes it.
pub uninterp spec fn lowercase_of(s: Seq<char>) -> Seq<char>;

/// The upper-case mapping of a whole string, as `str::to_uppercase` computes it.
pub uninterp spec fn uppercase_of(s: Seq<char>) -> Seq<char>;

/// The text that `String::from_utf8_lossy` makes of a byte sequence.
pub uninterp spec fn utf8_lossy(bytes: Seq<u8>) -> Seq<char>;

/// `char::is_alphanumeric`. The result is named by `alphanumeric`; the
/// Unicode property tables behind it are not restated.
#[verifier::external_body]
pub(crate) fn is_alphanumeric(c: char) -> (r: bool)
    ensures
        r == alphanumeric(c),
{
    c.is_alphanumeric()
}

/// `str::to_lowercase`. The result is named by `lowercase_of`; the
/// documentation's mapping tables are not restated here.
#[verifier::external_body]
pub(crate) fn to_lowercase(s: &str) -> (r: String)
    ensures
        r@ == lowercase_of(s@),
{
    s.to_lowercase()
}

/// `str::to_uppercase`. The result is named by `uppercase_of`.
#[verifier::external_body]
pub(crate) fn to_uppercase(s: &str) -> (r: String)
    ensures
        r@ == uppercase_of(s@),
{
    s.to_uppercase()
}

/// `String::from_utf8_lossy`: valid UTF-8 is decoded as it stands; what
/// becomes of invalid sequences (replacement characters) is named by
/// `utf8_lossy` and not restated.
#[verifier::external_body]
pub(crate) fn utf8_lossy_decode(bytes: &[u8]) -> (r: String)
    ensures
        r@ == utf8_lossy(bytes@),
        vstd::utf8::valid_utf8(bytes@) ==> r@ == vstd::utf8::decode_utf8(bytes@),
{
    String::from_utf8_lossy(bytes).into_owned()
}

/// `String`'s `FromIterator<&char>`: the string made of exactly these
/// characters, in order.
#[verifier::external_body]
pub(crate) fn string_from_chars(v: &Vec<char>) -> (r: String)
    ensures
        r@ == v@,
{
    v.iter().collect()
}

// ---------------------------------------------------------------------------
// Conversions
// ---------------------------------------------------------------------------

/// The characters of `s`, in order.
pub fn chars_of(s: &str) -> (r: Vec<char>)
    ensures
        r@ == s@,
{
    let mut r: Vec<char> = Vec::new();
    for c in it: s.chars()
        invariant
            r@ == it.seq().take(it.index() as int),
            it.seq() == s@,
    {
        r.push(c);
    }
    r
}

/// Appends all of `extra` to `v`.
pub fn push_all(v: &mut Vec<char>, extra: &Vec<char>)
    ensures
        final(v)@ == old(v)@ + extra@,
{
    let ghost start = v@;
    let mut i: usize = 0;
    while i < extra.len()
        invariant
            i <= extra.len(),
            v@ == start + extra@.take(i as int),
        decreases extra.len() - i,
    {
        v.push(extra[i]);
        i = i + 1;
        assert(extra@.take(i as int) == extra@.take((i - 1) as int).push(extra@[i - 1]));
    }
    assert(extra@.take(i as int) == extra@);
}

/// Appends the characters of `s` to `v`.
pub fn push_str(v: &mut Vec<char>, s: &str)
    ensures
        final(v)@ == old(v)@ + s@,
{
    let cs = chars_of(s);
    push_all(v, &cs);
}

// ---------------------------------------------------------------------------
// Whitespace and trimming
// ---------------------------------------------------------------------------

/// The Unicode `White_Space` property, which `char::is_whitespace` and
/// `str::trim` go by.
pub open spec fn is_white_space(c: char) -> bool {
    let u = c as u32;
    ||| (0x9 <= u && u <= 0xd)
    ||| u == 0x20
    ||| u == 0x85
    ||| u == 0xa0
    ||| u == 0x1680
    ||| (0x2000 <= u && u <= 0x200a)
    ||| u == 0x2028
    ||| u == 0x2029
    ||| u == 0x202f
    ||| u == 0x205f
    ||| u == 0x3000
}

/// Whether `c` is Unicode white space.
pub fn is_whitespace(c: char) -> (r: bool)
    ensures
        r == is_white_space(c),
{
    let u = c as u32;
    (0x9 <= u && u <= 0xd) || u == 0x20 || u == 0x85 || u == 0xa0 || u == 0x1680 || (0x2000 <= u
        && u <= 0x200a) || u == 0x2028 || u == 0x2029 || u == 0x202f || u == 0x205f || u == 0x3000
}

/// `s` without its leading white space.
pub open spec fn trim_start(s: Seq<char>) -> Seq<char>
    decreases s.len(),
{
    if s.len() > 0 && is_white_space(s[0]) {
        trim_start(s.drop_first())
    } else {
        s
    }
}

/// `s` without its trailing white space.
pub open spec fn trim_end(s: Seq<char>) -> Seq<char>
    decreases s.len(),
{
    if s.len() > 0 && is_white_space(s.last()) {
        trim_end(s.drop_last())
    } else {
        s
    }
}

/// `s` without leading and trailing white space, as `str::trim` gives it.
pub open spec fn trimmed(s: Seq<char>) -> Seq<char> {
    trim_end(trim_start(s))
}

proof fn lemma_trim_start_skip(s: Seq<char>, lo: int)
    requires
        0 <= lo <= s.len(),
        forall|k: int| 0 <= k < lo ==> is_white_space(#[trigger] s[k]),
        lo == s.len() || !is_white_space(s[lo]),
    ensures
        trim_start(s) == s.skip(lo),
    decreases lo,
{
    if lo == 0 {
        assert(s.skip(0) =~= s);
    } else {
        let t = s.drop_first();
        assert forall|k: int| 0 <= k < lo - 1 implies is_white_space(#[trigger] t[k]) by {
            assert(t[k] == s[k + 1]);
        }
        if lo - 1 < t.len() {
            assert(t[lo - 1] == s[lo]);
        }
        lemma_trim_start_skip(t, lo - 1);
        assert(t.skip(lo - 1) =~= s.skip(lo));
    }
}

proof fn lemma_trim_end_take(s: Seq<char>, hi: int)
    requires
        0 <= hi <= s.len(),
        forall|k: int| hi <= k < s.len() ==> is_white_space(#[trigger] s[k]),
        hi == 0 || !is_white_space(s[hi - 1]),
    ensures
        trim_end(s) == s.take(hi),
    decreases s.len() - hi,
{
    if hi == s.len() {
        assert(s.take(hi) =~= s);
    } else {
        let t = s.drop_last();
        assert forall|k: int| hi <= k < t.len() implies is_white_space(#[trigger] t[k]) by {
            assert(t[k] == s[k]);
        }
        if hi > 0 {
            assert(t[hi - 1] == s[hi - 1]);
        }
        lemma_trim_end_take(t, hi);
        assert(t.take(hi) =~= s.take(hi));
    }
}

/// Trimming removes exactly the white space at both ends: when everything
/// before `lo` and from `hi` on is white space, and `s[lo]` and `s[hi - 1]`
/// are not (or nothing is left between them), the trimmed text is
/// `s[lo..hi]`.
pub proof fn law_trim_keeps_the_inner_text(s: Seq<char>, lo: int, hi: int)
    requires
        0 <= lo <= hi <= s.len(),
        forall|k: int| 0 <= k < lo ==> is_white_space(#[trigger] s[k]),
        forall|k: int| hi <= k < s.len() ==> is_white_space(#[trigger] s[k]),
        lo < hi ==> !is_white_space(s[lo]) && !is_white_space(s[hi - 1]),
    ensures
        trimmed(s) == s.subrange(lo, hi),
{
    if lo == hi {
        assert forall|k: int| 0 <= k < s.len() implies is_white_space(#[trigger] s[k]) by {
            if k >= lo {
                assert(hi <= k);
            }
        }
        lemma_trim_start_skip(s, s.len() as int);
        assert(s.skip(s.len() as int) =~= Seq::<char>::empty());
        assert(s.subrange(lo, hi) =~= Seq::<char>::empty());
    } else {
        lemma_trim_start_skip(s, lo);
        let t = s.skip(lo);
        assert forall|k: int| hi - lo <= k < t.len() implies is_white_space(#[trigger] t[k]) by {
            assert(t[k] == s[k + lo]);
        }
        assert(t[hi - lo - 1] == s[hi - 1]);
        lemma_trim_end_take(t, hi - lo);
        assert(t.take(hi - lo) =~= s.subrange(lo, hi));
    }
}

/// The characters of `s` without leading and trailing white space.
pub fn trim_chars(s: &Vec<char>) -> (r: Vec<char>)
    ensures
        r@ == trimmed(s@),
{
    let n = s.len();
    let mut lo: usize = 0;
    while lo < n && is_whitespace(s[lo])
        invariant
            lo <= n,
            n == s@.len(),
            forall|k: int| 0 <= k < lo ==> is_white_space(#[trigger] s@[k]),
        decreases n - lo,
    {
        lo = lo + 1;
    }
    proof {
        lemma_trim_start_skip(s@, lo as int);
    }
    let ghost rest = s@.skip(lo as int);
    let mut hi: usize = n;
    while hi > lo && is_whitespace(s[hi - 1])
        invariant
            lo <= hi <= n,
            n == s@.len(),
            rest == s@.skip(lo as int),
            forall|k: int| hi <= k < n ==> is_white_space(#[trigger] s@[k]),
        decreases hi,
    {
        hi = hi - 1;
    }
    proof {
        assert forall|k: int| hi - lo <= k < rest.len() implies is_white_space(#[trigger] rest[k]) by {
            assert(rest[k] == s@[k + lo]);
        }
        if hi > lo {
            assert(rest[hi - lo - 1] == s@[hi - 1]);
        }
        lemma_trim_end_take(rest, hi - lo);
    }
    let mut r: Vec<char> = Vec::new();
    let mut i: usize = lo;
    while i < hi
        invariant
            lo <= i <= hi <= n,
            n == s@.len(),
            r@ == s@.subrange(lo as int, i as int),
        decreases hi - i,
    {
        r.push(s[i]);
        i = i + 1;
        assert(r@ =~= s@.subrange(lo as int, i as int));
    }
    assert(rest.take(hi - lo) =~= s@.subrange(lo as int, hi as int));
    r
}

/// `s` without leading and trailing white space (`str::trim`).
pub fn trim(s: &str) -> (r: String)
    ensures
        r@ == trimmed(s@),
{
    let cs = chars_of(s);
    let t = trim_chars(&cs);
    string_from_chars(&t)
}

/// Whether `s` is empty once white space is trimmed.
pub fn is_blank(s: &str) -> (r: bool)
    ensures
        r == (trimmed(s@).len() == 0),
{
    let cs = chars_of(s);
    let t = trim_chars(&cs);
    t.len() == 0
}

// ---------------------------------------------------------------------------
// Substrings
// ---------------------------------------------------------------------------

/// Whether `p` occurs in `s` starting at position `i`.
pub open spec fn occurs_at(s: Seq<char>, p: Seq<char>, i: int) -> bool {
    0 <= i && i + p.len() <= s.len() && s.subrange(i, i + p.len()) == p
}

/// Whether `p` occurs somewhere in `s` (`str::contains` with a string pattern).
pub open spec fn has_substring(s: Seq<char>, p: Seq<char>) -> bool {
    exists|i: int| occurs_at(s, p, i)
}

/// Whether `p` occurs in `s` at position `i`.
fn matches_at(s: &Vec<char>, p: &Vec<char>, i: usize) -> (r: bool)
    requires
        i + p.len() <= s.len(),
    ensures
        r == occurs_at(s@, p@, i as int),
{
    let mut j: usize = 0;
    while j < p.len()
        invariant
            i + p.len() <= s.len(),
            j <= p.len(),
            forall|k: int| 0 <= k < j ==> s@[i + k] == p@[k],
        decreases p.len() - j,
    {
        if s[i + j] != p[j] {
            assert(s@.subrange(i as int, i + p.len())[j as int] != p@[j as int]);
            return false;
        }
        j = j + 1;
    }
    assert(s@.subrange(i as int, i + p.len()) =~= p@);
    true
}

/// Whether `p` occurs somewhere in `s`.
pub fn contains_chars(s: &Vec<char>, p: &Vec<char>) -> (r: bool)
    ensures
        r == has_substring(s@, p@),
{
    if p.len() > s.len() {
        assert(!has_substring(s@, p@));
        return false;
    }
    let last = s.len() - p.len();
    let mut i: usize = 0;
    loop
        invariant
            last == s.len() - p.len(),
            p.len() <= s.len(),
            i <= last,
            forall|k: int| 0 <= k < i ==> !occurs_at(s@, p@, k),
        ensures
            forall|k: int| 0 <= k <= last ==> !occurs_at(s@, p@, k),
        decreases last - i,
    {
        if matches_at(s, p, i) {
            return true;
        }
        if i == last {
            break;
        }
        i = i + 1;
    }
    assert forall|k: int| !occurs_at(s@, p@, k) by {
        if 0 <= k && k <= last {
        }
    }
    false
}

/// Whether `a` and `b` hold the same characters.
pub fn chars_equal(a: &Vec<char>, b: &Vec<char>) -> (r: bool)
    ensures
        r == (a@ == b@),
{
    if a.len() != b.len() {
        return false;
    }
    let r = matches_at(a, b, 0);
    assert(a@.subrange(0, b@.len() as int) =~= a@);
    r
}

/// Whether `s` begins with `p`.
pub open spec fn begins_with(s: Seq<char>, p: Seq<char>) -> bool {
    p.len() <= s.len() && s.take(p.len() as int) == p
}

/// Whether `s` begins with `p`.
pub fn starts_with_chars(s: &Vec<char>, p: &Vec<char>) -> (r: bool)
    ensures
        r == begins_with(s@, p@),
{
    if p.len() > s.len() {
        return false;
    }
    let r = matches_at(s, p, 0);
    assert(s@.subrange(0, p@.len() as int) =~= s@.take(p@.len() as int));
    r
}

// ---------------------------------------------------------------------------
// Decimal rendering
// ---------------------------------------------------------------------------

/// The decimal digit character for `d < 10`.
pub open spec fn digit_char(d: nat) -> char {
    (d + 48) as char
}

/// The decimal representation of `n`, without sign or leading zeros
/// (`u64::to_string`).
pub open spec fn decimal(n: nat) -> Seq<char>
    decreases n,
{
    if n < 10 {
        seq![digit_char(n)]
    } else {
        decimal(n / 10).push(digit_char(n % 10))
    }
}

/// The value of a text of decimal digits, read most significant first.
pub open spec fn digits_value(s: Seq<char>) -> int
    decreases s.len(),
{
    if s.len() == 0 {
        0
    } else {
        digits_value(s.drop_last()) * 10 + (s.last() as int - 48)
    }
}

/// `decimal(n)` writes `n` in base ten: it is made of the digits `0` to
/// `9`, their value is `n`, and it has no leading zero.
pub proof fn law_decimal_is_base_ten(n: nat)
    ensures
        decimal(n).len() > 0,
        forall|k: int| 0 <= k < decimal(n).len() ==> 48 <= #[trigger] (decimal(n)[k] as int) <= 57,
        digits_value(decimal(n)) == n,
        decimal(n).len() > 1 ==> decimal(n)[0] != '0',
    decreases n,
{
    if n < 10 {
        let d = decimal(n);
        assert(d.len() == 1);
        assert(d[0] == digit_char(n));
        assert(d.drop_last() =~= Seq::<char>::empty());
        assert(d.last() as int == n + 48);
        assert(digits_value(d) == digits_value(d.drop_last()) * 10 + (d.last() as int - 48));
    } else {
        let q = n / 10;
        law_decimal_is_base_ten(q);
        let d = decimal(n);
        let dq = decimal(q);
        assert(d == dq.push(digit_char(n % 10)));
        assert(d.drop_last() =~= dq);
        assert(d.last() as int == n % 10 + 48);
        assert(n == q * 10 + n % 10);
        assert(digits_value(d) == digits_value(dq) * 10 + (d.last() as int - 48));
        assert forall|k: int| 0 <= k < d.len() implies 48 <= #[trigger] (d[k] as int) <= 57 by {
            if k < dq.len() {
                assert(d[k] == dq[k]);
            }
        }
        assert(d[0] == dq[0]);
        if dq.len() == 1 {
            assert(q < 10) by {
                if q >= 10 {
                    law_decimal_is_base_ten(q / 10);
                    assert(dq == decimal(q / 10).push(digit_char(q % 10)));
                }
            }
            assert(dq[0] == digit_char(q));
        }
    }
}

fn digit(d: u64) -> (c: char)
    requires
        d < 10,
    ensures
        c == digit_char(d as nat),
{
    let b: u8 = (d as u8) + 48;
    b as char
}

/// The decimal representation of `n`, as characters.
pub fn decimal_chars(n: u64) -> (r: Vec<char>)
    ensures
        r@ == decimal(n as nat),
{
    let mut rest: u64 = n;
    let mut acc: Vec<char> = Vec::new();
    while rest >= 10
        invariant
            decimal(n as nat) == decimal(rest as nat) + acc@,
        decreases rest,
    {
        let d = digit(rest % 10);
        acc.insert(0, d);
        proof {
            let q = (rest / 10) as nat;
            assert(decimal(rest as nat) == decimal(q).push(digit_char((rest % 10) as nat)));
            assert(decimal(q).push(digit_char((rest % 10) as nat)) + (acc@.drop_first()) =~= decimal(q)
                + acc@);
        }
        rest = rest / 10;
    }
    let mut r: Vec<char> = Vec::new();
    r.push(digit(rest));
    push_all(&mut r, &acc);
    r
}

/// The decimal representation of `n` (`u64::to_string`).
pub fn decimal_string(n: u64) -> (r: String)
    ensures
        r@ == decimal(n as nat),
{
    let cs = decimal_chars(n);
    string_from_chars(&cs)
}

} // verus!

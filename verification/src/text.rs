//! String helpers shared by the parsers: equality, prefixes and suffixes,
//! all stated over the UTF-8 bytes of the strings, as `str` compares them.

use vstd::prelude::*;
use vstd::string::StringSliceAdditionalSpecFns;

verus! {

broadcast use vstd::utf8::encode_utf8_decode_utf8;

/// Two strings are equal exactly when their characters are.
pub fn str_eq(a: &str, b: &str) -> (res: bool)
    ensures
        res == (a@ == b@),
{
    let ab = a.as_bytes();
    let bb = b.as_bytes();
    if ab.len() != bb.len() {
        return false;
    }
    let mut i: usize = 0;
    while i < ab.len()
        invariant
            ab@ == a.spec_bytes(),
            bb@ == b.spec_bytes(),
            ab@.len() == bb@.len(),
            i <= ab@.len(),
            forall|k: int| 0 <= k < i ==> ab@[k] == bb@[k],
        decreases ab@.len() - i,
    {
        if ab[i] != bb[i] {
            return false;
        }
        i = i + 1;
    }
    assert(ab@ =~= bb@);
    assert(a@ == vstd::utf8::decode_utf8(a.spec_bytes()));
    true
}


/// `String::push`: appends one character.
#[verifier::external_body]
pub(crate) fn push_char(s: &mut String, c: char)
    ensures
        final(s)@ == old(s)@.push(c),
{
    s.push(c);
}

/// The characters of a string, in order.
pub fn chars_of(s: &str) -> (v: Vec<char>)
    ensures
        v@ == s@,
{
    let mut v: Vec<char> = Vec::new();
    for c in it: s.chars()
        invariant
            it.seq() == s@,
            v@ == s@.take(it.index() as int),
    {
        assert(s@.take(it.index() + 1) == s@.take(it.index() as int).push(c));
        v.push(c);
    }
    assert(s@.take(s@.len() as int) == s@);
    v
}

/// The string made of the characters `v[from..to]`.
pub fn string_from_chars(v: &[char], from: usize, to: usize) -> (s: String)
    requires
        from <= to <= v@.len(),
    ensures
        s@ == v@.subrange(from as int, to as int),
{
    let mut s = String::new();
    let mut i = from;
    while i < to
        invariant
            from <= i <= to <= v@.len(),
            s@ == v@.subrange(from as int, i as int),
        decreases to - i,
    {
        push_char(&mut s, v[i]);
        assert(v@.subrange(from as int, i + 1) == v@.subrange(from as int, i as int).push(v@[i as int]));
        i = i + 1;
    }
    s
}

/// Whether a character is white space in the sense of Unicode's
/// `White_Space` property, as `char::is_whitespace` decides.
pub open spec fn is_ws(c: char) -> bool {
    let u = c as u32;
    (0x09 <= u <= 0x0D) || u == 0x20 || u == 0x85 || u == 0xA0 || u == 0x1680 || (0x2000 <= u
        <= 0x200A) || u == 0x2028 || u == 0x2029 || u == 0x202F || u == 0x205F || u == 0x3000
}

/// Decide `is_ws`.
pub fn is_whitespace(c: char) -> (b: bool)
    ensures
        b == is_ws(c),
{
    let u = c as u32;
    (0x09 <= u && u <= 0x0D) || u == 0x20 || u == 0x85 || u == 0xA0 || u == 0x1680 || (0x2000
        <= u && u <= 0x200A) || u == 0x2028 || u == 0x2029 || u == 0x202F || u == 0x205F || u
        == 0x3000
}

/// The tokens found in the first `n` characters of `s` and the token in
/// progress after them, tokens being runs of characters other than white
/// space.
pub open spec fn ws_split_state(s: Seq<char>, n: nat) -> (Seq<Seq<char>>, Seq<char>)
    decreases n,
{
    if n == 0 {
        (Seq::empty(), Seq::empty())
    } else {
        let (toks, cur) = ws_split_state(s, (n - 1) as nat);
        let c = s[n - 1];
        if is_ws(c) {
            if cur.len() > 0 {
                (toks.push(cur), Seq::empty())
            } else {
                (toks, cur)
            }
        } else {
            (toks, cur.push(c))
        }
    }
}

/// The maximal runs of non-white-space characters of `s`, in order.
pub open spec fn ws_tokens(s: Seq<char>) -> Seq<Seq<char>> {
    let (toks, cur) = ws_split_state(s, s.len());
    if cur.len() > 0 {
        toks.push(cur)
    } else {
        toks
    }
}

/// The views of a vector of strings.
pub open spec fn views_of(v: Seq<String>) -> Seq<Seq<char>> {
    v.map_values(|x: String| x@)
}

/// Split a string at white space, dropping empty tokens.
pub fn split_whitespace(s: &str) -> (toks: Vec<String>)
    ensures
        views_of(toks@) == ws_tokens(s@),
{
    let cs = chars_of(s);
    let mut toks: Vec<String> = Vec::new();
    let mut start: usize = 0;
    let mut i: usize = 0;
    while i < cs.len()
        invariant
            cs@ == s@,
            start <= i <= cs@.len(),
            views_of(toks@) == ws_split_state(s@, i as nat).0,
            cs@.subrange(start as int, i as int) == ws_split_state(s@, i as nat).1,
        decreases cs@.len() - i,
    {
        let c = cs[i];
        if is_whitespace(c) {
            if start < i {
                let t = string_from_chars(cs.as_slice(), start, i);
                let ghost prev = toks@;
                toks.push(t);
                assert(views_of(toks@) =~= views_of(prev).push(t@));
            }
            start = i + 1;
        } else {
            assert(cs@.subrange(start as int, i + 1) == cs@.subrange(start as int, i as int).push(c));
        }
        i = i + 1;
    }
    if start < cs.len() {
        let t = string_from_chars(cs.as_slice(), start, cs.len());
        let ghost prev = toks@;
        toks.push(t);
        assert(views_of(toks@) =~= views_of(prev).push(t@));
    }
    toks
}

/// `s` with its leading white space removed.
pub open spec fn trim_start_spec(s: Seq<char>) -> Seq<char>
    decreases s.len(),
{
    if s.len() > 0 && is_ws(s[0]) {
        trim_start_spec(s.drop_first())
    } else {
        s
    }
}

/// `s` with its trailing white space removed.
pub open spec fn trim_end_spec(s: Seq<char>) -> Seq<char>
    decreases s.len(),
{
    if s.len() > 0 && is_ws(s.last()) {
        trim_end_spec(s.drop_last())
    } else {
        s
    }
}

/// `s` with white space removed from both ends, as `str::trim` does.
pub open spec fn trim_spec(s: Seq<char>) -> Seq<char> {
    trim_end_spec(trim_start_spec(s))
}

/// The bounds `[from, to)` of `v` with white space removed from both ends.
fn trim_bounds(v: &[char]) -> (r: (usize, usize))
    ensures
        r.0 <= r.1 <= v@.len(),
        v@.subrange(r.0 as int, r.1 as int) == trim_spec(v@),
{
    let mut i: usize = 0;
    assert(v@.subrange(0, v@.len() as int) == v@);
    while i < v.len() && is_whitespace(v[i])
        invariant
            i <= v@.len(),
            trim_start_spec(v@) == trim_start_spec(v@.subrange(i as int, v@.len() as int)),
        decreases v@.len() - i,
    {
        assert(v@.subrange(i as int, v@.len() as int).drop_first() == v@.subrange(
            i + 1,
            v@.len() as int,
        ));
        i = i + 1;
    }
    let ghost ts = v@.subrange(i as int, v@.len() as int);
    assert(trim_start_spec(v@) == ts);
    let mut j: usize = v.len();
    while j > i && is_whitespace(v[j - 1])
        invariant
            i <= j <= v@.len(),
            ts == v@.subrange(i as int, v@.len() as int),
            trim_end_spec(ts) == trim_end_spec(v@.subrange(i as int, j as int)),
        decreases j - i,
    {
        assert(v@.subrange(i as int, j as int).drop_last() == v@.subrange(i as int, j - 1));
        j = j - 1;
    }
    (i, j)
}

/// `str::trim`: the string without leading and trailing white space.
pub fn trim(s: &str) -> (t: String)
    ensures
        t@ == trim_spec(s@),
{
    let cs = chars_of(s);
    let (i, j) = trim_bounds(cs.as_slice());
    string_from_chars(cs.as_slice(), i, j)
}

/// The pieces of the first `n` characters of `s` cut at `sep`, and the
/// piece in progress after them.
pub open spec fn split_state(s: Seq<char>, sep: char, n: nat) -> (Seq<Seq<char>>, Seq<char>)
    decreases n,
{
    if n == 0 {
        (Seq::empty(), Seq::empty())
    } else {
        let (parts, cur) = split_state(s, sep, (n - 1) as nat);
        if s[n - 1] == sep {
            (parts.push(cur), Seq::empty())
        } else {
            (parts, cur.push(s[n - 1]))
        }
    }
}

/// The pieces of `s` between occurrences of `sep`, empty pieces included,
/// as `str::split` gives them.
pub open spec fn split_spec(s: Seq<char>, sep: char) -> Seq<Seq<char>> {
    let (parts, cur) = split_state(s, sep, s.len());
    parts.push(cur)
}

/// `str::split` at one character.
pub fn split_on(s: &str, sep: char) -> (parts: Vec<String>)
    ensures
        views_of(parts@) == split_spec(s@, sep),
{
    let cs = chars_of(s);
    let mut parts: Vec<String> = Vec::new();
    let mut start: usize = 0;
    let mut i: usize = 0;
    while i < cs.len()
        invariant
            cs@ == s@,
            start <= i <= cs@.len(),
            views_of(parts@) == split_state(s@, sep, i as nat).0,
            cs@.subrange(start as int, i as int) == split_state(s@, sep, i as nat).1,
        decreases cs@.len() - i,
    {
        let c = cs[i];
        if c == sep {
            let t = string_from_chars(cs.as_slice(), start, i);
            let ghost prev = parts@;
            parts.push(t);
            assert(views_of(parts@) =~= views_of(prev).push(t@));
            start = i + 1;
        } else {
            assert(cs@.subrange(start as int, i + 1) == cs@.subrange(start as int, i as int).push(c));
        }
        i = i + 1;
    }
    let t = string_from_chars(cs.as_slice(), start, cs.len());
    let ghost prev = parts@;
    parts.push(t);
    assert(views_of(parts@) =~= views_of(prev).push(t@));
    parts
}

/// `s` begins with `p`.
pub open spec fn has_prefix(s: Seq<char>, p: Seq<char>) -> bool {
    p.len() <= s.len() && s.subrange(0, p.len() as int) == p
}

/// `s` ends with `p`.
pub open spec fn has_suffix(s: Seq<char>, p: Seq<char>) -> bool {
    p.len() <= s.len() && s.subrange(s.len() - p.len(), s.len() as int) == p
}

/// Whether the characters `v[at..at + p.len()]` are those of `p`.
pub(crate) fn chars_match_at(v: &[char], at: usize, p: &[char]) -> (b: bool)
    requires
        at + p@.len() <= v@.len(),
    ensures
        b == (v@.subrange(at as int, at + p@.len()) == p@),
{
    let vlen = v.len();
    let mut k: usize = 0;
    while k < p.len()
        invariant
            at + p@.len() <= v@.len(),
            vlen == v@.len(),
            k <= p@.len(),
            forall|m: int| 0 <= m < k ==> v@[at + m] == p@[m],
        decreases p@.len() - k,
    {
        if v[at + k] != p[k] {
            assert(v@.subrange(at as int, at + p@.len())[k as int] != p@[k as int]);
            return false;
        }
        k = k + 1;
    }
    assert(v@.subrange(at as int, at + p@.len()) =~= p@);
    true
}

/// `str::starts_with` for a string pattern.
pub fn starts_with(s: &str, p: &str) -> (b: bool)
    ensures
        b == has_prefix(s@, p@),
{
    let v = chars_of(s);
    let q = chars_of(p);
    if q.len() > v.len() {
        return false;
    }
    chars_match_at(v.as_slice(), 0, q.as_slice())
}

/// `str::ends_with` for a string pattern.
pub fn ends_with(s: &str, p: &str) -> (b: bool)
    ensures
        b == has_suffix(s@, p@),
{
    let v = chars_of(s);
    let q = chars_of(p);
    if q.len() > v.len() {
        return false;
    }
    chars_match_at(v.as_slice(), v.len() - q.len(), q.as_slice())
}

/// A decimal digit.
pub open spec fn is_digit(c: char) -> bool {
    '0' <= c <= '9'
}

/// The value of a string of decimal digits, most significant first.
pub open spec fn digits_value(d: Seq<char>) -> int
    decreases d.len(),
{
    if d.len() == 0 {
        0
    } else {
        digits_value(d.drop_last()) * 10 + (d.last() as int - '0' as int)
    }
}

/// `s` without one leading `+`.
pub open spec fn unsigned_digits(s: Seq<char>) -> Seq<char> {
    if s.len() > 0 && s[0] == '+' {
        s.drop_first()
    } else {
        s
    }
}

/// Every character of `d` is a decimal digit.
pub open spec fn all_digits(d: Seq<char>) -> bool {
    forall|i: int| 0 <= i < d.len() ==> is_digit(#[trigger] d[i])
}

/// The number an unsigned integer's `from_str` reads from `s`: an optional
/// `+` followed by at least one decimal digit and nothing else, whose value
/// is at most `max`; `None` for any other text.
pub open spec fn parse_unsigned_spec(s: Seq<char>, max: int) -> Option<int> {
    let d = unsigned_digits(s);
    if d.len() == 0 || !all_digits(d) || digits_value(d) > max {
        None
    } else {
        Some(digits_value(d))
    }
}

proof fn lemma_digits_value_grows(d: Seq<char>, k: int)
    requires
        0 <= k <= d.len(),
        forall|i: int| 0 <= i < d.len() ==> is_digit(#[trigger] d[i]),
    ensures
        0 <= digits_value(d.take(k)) <= digits_value(d),
    decreases d.len() - k,
{
    if k < d.len() {
        lemma_digits_value_grows(d, k + 1);
        assert(d.take(k + 1).drop_last() == d.take(k));
        assert(d.take(k + 1)[k] == d[k]);
        assert(is_digit(d[k]));
    } else {
        assert(d.take(k) == d);
        lemma_digits_nonneg(d);
    }
}

proof fn lemma_digits_nonneg(d: Seq<char>)
    requires
        forall|i: int| 0 <= i < d.len() ==> is_digit(#[trigger] d[i]),
    ensures
        digits_value(d) >= 0,
    decreases d.len(),
{
    if d.len() > 0 {
        let p = d.drop_last();
        assert(forall|i: int| 0 <= i < p.len() ==> p[i] == d[i]);
        lemma_digits_nonneg(p);
        assert(is_digit(d[d.len() - 1]));
    }
}

/// Read an unsigned decimal number no larger than `max`, as the `from_str`
/// of an unsigned integer type whose largest value is `max` does.
pub fn parse_unsigned(s: &str, max: u64) -> (r: Option<u64>)
    ensures
        match r {
            Some(v) => parse_unsigned_spec(s@, max as int) == Some(v as int),
            None => parse_unsigned_spec(s@, max as int) is None,
        },
{
    let cs = chars_of(s);
    let start: usize = if cs.len() > 0 && cs[0] == '+' { 1 } else { 0 };
    let ghost d = unsigned_digits(s@);
    assert(d == cs@.subrange(start as int, cs@.len() as int));
    if start == cs.len() {
        return None;
    }
    let mut i = start;
    while i < cs.len()
        invariant
            cs@ == s@,
            start <= i <= cs@.len(),
            d == cs@.subrange(start as int, cs@.len() as int),
            d == unsigned_digits(s@),
            forall|k: int| start <= k < i ==> is_digit(#[trigger] cs@[k]),
        decreases cs@.len() - i,
    {
        if !(cs[i] >= '0' && cs[i] <= '9') {
            assert(d[i - start] == cs@[i as int]);
            assert(!is_digit(d[i - start]));
            assert(!all_digits(d));
            assert(unsigned_digits(s@) == d);
            assert(parse_unsigned_spec(s@, max as int) is None);
            return None;
        }
        i = i + 1;
    }
    assert(forall|k: int| 0 <= k < d.len() ==> is_digit(#[trigger] d[k])) by {
        assert forall|k: int| 0 <= k < d.len() implies is_digit(#[trigger] d[k]) by {
            assert(d[k] == cs@[start + k]);
        }
    }
    let mut v: u64 = 0;
    let mut j = start;
    while j < cs.len()
        invariant
            cs@ == s@,
            start <= j <= cs@.len(),
            d == cs@.subrange(start as int, cs@.len() as int),
            d == unsigned_digits(s@),
            forall|k: int| 0 <= k < d.len() ==> is_digit(#[trigger] d[k]),
            v as int == digits_value(d.take(j - start)),
            v <= max,
        decreases cs@.len() - j,
    {
        proof {
            assert(d.take(j - start + 1).drop_last() == d.take(j - start));
            assert(d.take(j - start + 1).last() == d[j - start]);
            assert(d[j - start] == cs@[j as int]);
            assert(is_digit(d[j - start]));
        }
        let dig = (cs[j] as u32 - '0' as u32) as u64;
        let nv: u128 = v as u128 * 10 + dig as u128;
        if nv > max as u128 {
            proof {
                lemma_digits_value_grows(d, j - start + 1);
                assert(digits_value(d.take(j - start + 1)) == nv);
                assert(digits_value(d) > max);
                assert(parse_unsigned_spec(s@, max as int) is None);
            }
            return None;
        }
        v = nv as u64;
        j = j + 1;
    }
    assert(d.take(d.len() as int) == d);
    Some(v)
}

/// `p` occurs in `s`.
pub open spec fn has_substring(s: Seq<char>, p: Seq<char>) -> bool {
    exists|i: int| 0 <= i && i + p.len() <= s.len() && #[trigger] s.subrange(i, i + p.len()) == p
}

/// `str::contains` for a string pattern.
pub fn contains_str(s: &str, p: &str) -> (b: bool)
    ensures
        b == has_substring(s@, p@),
{
    let v = chars_of(s);
    let q = chars_of(p);
    if q.len() > v.len() {
        return false;
    }
    if q.len() == 0 {
        assert(s@.subrange(0, 0 + p@.len() as int) =~= p@);
        return true;
    }
    let vl = v.len();
    let mut i: usize = 0;
    while i <= v.len() - q.len()
        invariant
            vl == v@.len(),
            1 <= q@.len() <= v@.len(),
            v@ == s@,
            q@ == p@,
            i <= v@.len() - q@.len() + 1,
            forall|k: int| 0 <= k < i ==> #[trigger] v@.subrange(k, k + q@.len()) != q@,
        decreases v@.len() - q@.len() + 1 - i,
    {
        if chars_match_at(v.as_slice(), i, q.as_slice()) {
            return true;
        }
        i = i + 1;
    }
    false
}

} // verus!

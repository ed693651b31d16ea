use vstd::prelude::*;
use vstd::utf8::{decode_utf8, valid_utf8};

verus! {

/// What `String::from_utf8_lossy` makes of a byte sequence: the decoded text, with
/// every ill-formed part replaced by U+FFFD.
pub uninterp spec fn lossy_decoded(bytes: Seq<u8>) -> Seq<char>;

/// `String::from_utf8_lossy(..).into_owned()`. On well-formed UTF-8 the std
/// documentation promises the text is returned unchanged; on other input only the
/// name is stated.
#[verifier::external_body]
pub(crate) fn lossy_string(bytes: &[u8]) -> (s: String)
    ensures
        s@ == lossy_decoded(bytes@),
        valid_utf8(bytes@) ==> s@ == decode_utf8(bytes@),
{
    String::from_utf8_lossy(bytes).into_owned()
}

/// `String::from_utf8(..).ok()`: `Some` exactly on well-formed UTF-8, holding the
/// decoded text.
#[verifier::external_body]
pub(crate) fn string_from_utf8(bytes: Vec<u8>) -> (s: Option<String>)
    ensures
        s is Some <==> valid_utf8(bytes@),
        s matches Some(t) ==> t@ == decode_utf8(bytes@),
{
    String::from_utf8(bytes).ok()
}

/// `String::push`: appends one character.
#[verifier::external_body]
pub(crate) fn push_char(s: &mut String, c: char)
    ensures
        final(s)@ == old(s)@.push(c),
{
    s.push(c)
}

/// The characters of a string slice, in order.
pub fn chars_of(s: &str) -> (v: Vec<char>)
    ensures
        v@ == s@,
{
    broadcast use vstd::string::group_string_axioms;

    let mut v: Vec<char> = Vec::new();
    let chars = s.chars();
    for c in it: chars
        invariant
            it.seq() == s@,
            v@ == s@.take(it.index() as int),
    {
        v.push(c);
        assert(s@.take(it.index() as int + 1) == s@.take(it.index() as int).push(c));
    }
    assert(s@.take(s@.len() as int) == s@);
    v
}

/// A string holding exactly the given characters.
pub fn string_of(cs: &[char]) -> (s: String)
    ensures
        s@ == cs@,
{
    let mut s = String::new();
    let mut i: usize = 0;
    while i < cs.len()
        invariant
            i <= cs@.len(),
            s@ == cs@.take(i as int),
        decreases cs@.len() - i,
    {
        push_char(&mut s, cs[i]);
        assert(cs@.take(i as int + 1) == cs@.take(i as int).push(cs@[i as int]));
        i = i + 1;
    }
    assert(cs@.take(cs@.len() as int) == cs@);
    s
}

/// The ASCII digit for `d < 10`.
pub open spec fn digit_byte(d: nat) -> u8 {
    (48 + d) as u8
}

/// The decimal digits of `n`, most significant first, without leading zeros
/// (`"0"` for zero): the text of `n.to_string()` for an unsigned integer.
pub open spec fn decimal_digits(n: nat) -> Seq<u8>
    decreases n,
{
    if n < 10 {
        seq![digit_byte(n)]
    } else {
        decimal_digits(n / 10).push(digit_byte(n % 10))
    }
}

/// `10^k`.
pub open spec fn pow10(k: nat) -> nat
    decreases k,
{
    if k == 0 {
        1
    } else {
        10 * pow10((k - 1) as nat)
    }
}

/// A number below `10^k` has at most `k` digits (and every number has one).
pub proof fn lemma_decimal_len(n: nat, k: nat)
    requires
        n < pow10(k),
    ensures
        1 <= decimal_digits(n).len(),
        k >= 1 ==> decimal_digits(n).len() <= k,
    decreases n,
{
    if n >= 10 {
        assert(k >= 2) by {
            if k < 2 {
                if k == 1 {
                    assert(pow10(1) == 10) by {
                        reveal_with_fuel(pow10, 2);
                    }
                } else {
                    assert(pow10(0) == 1);
                }
            }
        }
        assert(n / 10 < pow10((k - 1) as nat));
        lemma_decimal_len(n / 10, (k - 1) as nat);
    } else if k == 0 {
        assert(pow10(0) == 1);
    }
}

/// A `u64` has at most twenty decimal digits.
pub proof fn lemma_u64_decimal_len(n: u64)
    ensures
        1 <= decimal_digits(n as nat).len() <= 20,
{
    assert(pow10(20) == 100000000000000000000) by {
        reveal_with_fuel(pow10, 21);
    }
    lemma_decimal_len(n as nat, 20);
}

/// The same digits as characters.
pub open spec fn decimal_text(n: nat) -> Seq<char> {
    decimal_digits(n).map_values(|b: u8| b as char)
}

/// Appends the decimal digits of `n` to `out`.
pub fn push_decimal_bytes(out: &mut Vec<u8>, n: u64)
    ensures
        final(out)@ == old(out)@ + decimal_digits(n as nat),
    decreases n,
{
    if n >= 10 {
        push_decimal_bytes(out, n / 10);
    }
    out.push(((n % 10) as u8) + 48u8);
}

/// The decimal digits of `n` as bytes.
pub fn decimal_bytes(n: u64) -> (v: Vec<u8>)
    ensures
        v@ == decimal_digits(n as nat),
{
    let mut v: Vec<u8> = Vec::new();
    push_decimal_bytes(&mut v, n);
    assert(v@ == Seq::<u8>::empty() + decimal_digits(n as nat));
    v
}

/// `n.to_string()` for an unsigned integer.
pub fn decimal_string(n: u64) -> (s: String)
    ensures
        s@ == decimal_text(n as nat),
{
    let digits = decimal_bytes(n);
    let mut s = String::new();
    let mut i: usize = 0;
    while i < digits.len()
        invariant
            i <= digits@.len(),
            digits@ == decimal_digits(n as nat),
            s@ == digits@.take(i as int).map_values(|b: u8| b as char),
        decreases digits@.len() - i,
    {
        let b = digits[i];
        push_char(&mut s, b as char);
        assert(digits@.take(i as int + 1) == digits@.take(i as int).push(b));
        assert(digits@.take(i as int + 1).map_values(|b: u8| b as char)
            == digits@.take(i as int).map_values(|b: u8| b as char).push(b as char));
        i = i + 1;
    }
    assert(digits@.take(digits@.len() as int) == digits@);
    s
}

/// `char::is_whitespace`: the Unicode `White_Space` characters.
pub open spec fn is_white_space(c: char) -> bool {
    ||| c == ' '
    ||| ('\x09' <= c && c <= '\x0d')
    ||| c == '\u{85}'
    ||| c == '\u{a0}'
    ||| c == '\u{1680}'
    ||| ('\u{2000}' <= c && c <= '\u{200a}')
    ||| c == '\u{2028}'
    ||| c == '\u{2029}'
    ||| c == '\u{202f}'
    ||| c == '\u{205f}'
    ||| c == '\u{3000}'
}

pub fn white_space(c: char) -> (b: bool)
    ensures
        b == is_white_space(c),
{
    c == ' ' || ('\x09' <= c && c <= '\x0d') || c == '\u{85}' || c == '\u{a0}' || c == '\u{1680}'
        || ('\u{2000}' <= c && c <= '\u{200a}') || c == '\u{2028}' || c == '\u{2029}' || c
        == '\u{202f}' || c == '\u{205f}' || c == '\u{3000}'
}

/// `str::trim` on a character sequence: the longest middle part whose first and
/// last characters are not white space (empty when every character is).
#[verifier::opaque]
pub open spec fn trimmed(s: Seq<char>) -> Seq<char> {
    if forall|i: int| 0 <= i < s.len() ==> is_white_space(#[trigger] s[i]) {
        Seq::empty()
    } else {
        let start = choose|a: int|
            0 <= a < s.len() && !is_white_space(s[a]) && forall|i: int|
                0 <= i < a ==> is_white_space(#[trigger] s[i]);
        let end = choose|b: int|
            0 <= b < s.len() && !is_white_space(s[b]) && forall|i: int|
                b < i < s.len() ==> is_white_space(#[trigger] s[i]);
        s.subrange(start, end + 1)
    }
}

/// `s[lo..hi].trim()` as an owned string.
pub fn trim_range(cs: &[char], lo: usize, hi: usize) -> (t: String)
    requires
        lo <= hi <= cs@.len(),
    ensures
        t@ == trimmed(cs@.subrange(lo as int, hi as int)),
{
    reveal(trimmed);
    let ghost s = cs@.subrange(lo as int, hi as int);
    let mut a = lo;
    while a < hi && white_space(cs[a])
        invariant
            lo <= a <= hi <= cs@.len(),
            forall|i: int| lo <= i < a ==> is_white_space(#[trigger] cs@[i]),
        decreases hi - a,
    {
        a = a + 1;
    }
    if a == hi {
        assert forall|i: int| 0 <= i < s.len() implies is_white_space(#[trigger] s[i]) by {
            assert(s[i] == cs@[lo + i]);
        }
        return String::new();
    }
    let mut b = hi;
    while b > a + 1 && white_space(cs[b - 1])
        invariant
            a < b <= hi <= cs@.len(),
            !is_white_space(cs@[a as int]),
            forall|i: int| b <= i < hi ==> is_white_space(#[trigger] cs@[i]),
        decreases b - a,
    {
        b = b - 1;
    }
    let mut out: Vec<char> = Vec::new();
    let mut k = a;
    while k < b
        invariant
            a <= k <= b <= cs@.len(),
            out@ == cs@.subrange(a as int, k as int),
        decreases b - k,
    {
        out.push(cs[k]);
        assert(cs@.subrange(a as int, k + 1) == cs@.subrange(a as int, k as int).push(cs@[k as int]));
        k = k + 1;
    }
    proof {
        let start = (a - lo) as int;
        let end = (b - 1 - lo) as int;
        assert(!is_white_space(s[start]));
        assert(!is_white_space(s[end]));
        assert forall|i: int| 0 <= i < start implies is_white_space(#[trigger] s[i]) by {
            assert(s[i] == cs@[lo + i]);
        }
        assert forall|i: int| end < i < s.len() implies is_white_space(#[trigger] s[i]) by {
            assert(s[i] == cs@[lo + i]);
        }
        let c_start = choose|x: int|
            0 <= x < s.len() && !is_white_space(s[x]) && forall|i: int|
                0 <= i < x ==> is_white_space(#[trigger] s[i]);
        let c_end = choose|y: int|
            0 <= y < s.len() && !is_white_space(s[y]) && forall|i: int|
                y < i < s.len() ==> is_white_space(#[trigger] s[i]);
        assert(c_start == start) by {
            if c_start < start {
                assert(is_white_space(s[c_start]));
            } else if c_start > start {
                assert(is_white_space(s[start]));
            }
        }
        assert(c_end == end) by {
            if c_end < end {
                assert(is_white_space(s[end]));
            } else if c_end > end {
                assert(is_white_space(s[c_end]));
            }
        }
        assert(s.subrange(start, end + 1) == cs@.subrange(a as int, b as int));
    }
    string_of(out.as_slice())
}

} // verus!

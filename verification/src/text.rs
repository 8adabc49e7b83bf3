//! Characters and strings: whitespace, digits, and the conversions between
//! numbers and their digit strings.
use vstd::prelude::*;
use vstd::arithmetic::power::pow;

verus! {

broadcast use vstd::string::axiom_spec_iter;

/// The characters of a string slice, in order.
pub fn chars_of(s: &str) -> (v: Vec<char>)
    ensures
        v@ == s@,
{
    let mut v: Vec<char> = Vec::new();
    for c in it: s.chars()
        invariant
            it.seq() == s@,
            v@ == it.seq().take(it.index()),
    {
        v.push(c);
    }
    v
}

/// Unicode's White_Space property, the whitespace that `str::trim` removes.
pub open spec fn is_whitespace(c: char) -> bool {
    let u = c as u32;
    ||| 0x9 <= u <= 0xd
    ||| u == 0x20
    ||| u == 0x85
    ||| u == 0xa0
    ||| u == 0x1680
    ||| 0x2000 <= u <= 0x200a
    ||| u == 0x2028
    ||| u == 0x2029
    ||| u == 0x202f
    ||| u == 0x205f
    ||| u == 0x3000
}

/// Whether `c` is Unicode whitespace.
pub fn char_is_whitespace(c: char) -> (r: bool)
    ensures
        r == is_whitespace(c),
{
    let u = c as u32;
    (0x9 <= u && u <= 0xd) || u == 0x20 || u == 0x85 || u == 0xa0 || u == 0x1680 || (0x2000 <= u
        && u <= 0x200a) || u == 0x2028 || u == 0x2029 || u == 0x202f || u == 0x205f || u == 0x3000
}

/// The whitespace that trimming removes is exactly Unicode's White_Space
/// set, `char::is_whitespace`: tab, line feed, vertical tab, form feed,
/// carriage return, space, next line, no-break space, ogham space mark, the
/// eleven spaces from en quad to hair space, line separator, paragraph
/// separator, narrow no-break space, medium mathematical space and
/// ideographic space.
pub proof fn lemma_whitespace_is_white_space_set(c: char)
    ensures
        is_whitespace(c) <==> {
            ||| c == '\t' || c == '\n' || c == '\u{b}' || c == '\u{c}' || c == '\r'
            ||| c == ' ' || c == '\u{85}' || c == '\u{a0}' || c == '\u{1680}'
            ||| c == '\u{2000}' || c == '\u{2001}' || c == '\u{2002}' || c == '\u{2003}'
            ||| c == '\u{2004}' || c == '\u{2005}' || c == '\u{2006}' || c == '\u{2007}'
            ||| c == '\u{2008}' || c == '\u{2009}' || c == '\u{200a}'
            ||| c == '\u{2028}' || c == '\u{2029}' || c == '\u{202f}' || c == '\u{205f}'
            ||| c == '\u{3000}'
        },
{
}

/// Whitespace before a text does not survive trimming from the start.
pub proof fn lemma_trim_start_drops_prefix(w: Seq<char>, t: Seq<char>)
    requires
        forall|i: int| 0 <= i < w.len() ==> #[trigger] is_whitespace(w[i]),
    ensures
        trim_start(w + t) == trim_start(t),
    decreases w.len(),
{
    if w.len() > 0 {
        assert((w + t).drop_first() =~= w.drop_first() + t);
        lemma_trim_start_drops_prefix(w.drop_first(), t);
    } else {
        assert(w + t =~= t);
    }
}

/// Whitespace after a text does not survive trimming from the end.
pub proof fn lemma_trim_end_drops_suffix(t: Seq<char>, w: Seq<char>)
    requires
        forall|i: int| 0 <= i < w.len() ==> #[trigger] is_whitespace(w[i]),
    ensures
        trim_end(t + w) == trim_end(t),
    decreases w.len(),
{
    if w.len() > 0 {
        assert((t + w).drop_last() =~= t + w.drop_last());
        assert((t + w).last() == w.last());
        lemma_trim_end_drops_suffix(t, w.drop_last());
    } else {
        assert(t + w =~= t);
    }
}

/// `s` without its leading whitespace.
pub open spec fn trim_start(s: Seq<char>) -> Seq<char>
    decreases s.len(),
{
    if s.len() > 0 && is_whitespace(s[0]) {
        trim_start(s.drop_first())
    } else {
        s
    }
}

/// `s` without its trailing whitespace.
pub open spec fn trim_end(s: Seq<char>) -> Seq<char>
    decreases s.len(),
{
    if s.len() > 0 && is_whitespace(s.last()) {
        trim_end(s.drop_last())
    } else {
        s
    }
}

/// `s` without its leading and trailing whitespace.
pub open spec fn trim(s: Seq<char>) -> Seq<char> {
    trim_end(trim_start(s))
}

/// The characters of `s` without its leading and trailing whitespace.
pub fn trim_chars(s: &Vec<char>) -> (r: Vec<char>)
    ensures
        r@ == trim(s@),
{
    let n = s.len();
    let mut lo: usize = 0;
    assert(s@.subrange(0, n as int) =~= s@);
    while lo < n && char_is_whitespace(s[lo])
        invariant
            n == s@.len(),
            lo <= n,
            trim_start(s@) == trim_start(s@.subrange(lo as int, n as int)),
        decreases n - lo,
    {
        assert(s@.subrange(lo as int, n as int).drop_first() =~= s@.subrange(lo + 1, n as int));
        lo = lo + 1;
    }
    let ghost rest = s@.subrange(lo as int, n as int);
    assert(trim_start(s@) == rest);
    let mut hi: usize = n;
    while hi > lo && char_is_whitespace(s[hi - 1])
        invariant
            n == s@.len(),
            lo <= hi <= n,
            trim_end(rest) == trim_end(s@.subrange(lo as int, hi as int)),
        decreases hi - lo,
    {
        assert(s@.subrange(lo as int, hi as int).drop_last() =~= s@.subrange(
            lo as int,
            hi - 1,
        ));
        hi = hi - 1;
    }
    let mut r: Vec<char> = Vec::new();
    let mut i: usize = lo;
    while i < hi
        invariant
            lo <= i <= hi <= n,
            n == s@.len(),
            r@ == s@.subrange(lo as int, i as int),
        decreases hi - i,
    {
        r.push(s[i]);
        assert(r@ =~= s@.subrange(lo as int, i + 1));
        i = i + 1;
    }
    r
}

/// The value of a digit character: `0`..`9` count 0..9, `a`..`z` and
/// `A`..`Z` count 10..35; any other character counts 36, a digit in no radix.
pub open spec fn digit_value(c: char) -> int {
    let u = c as u32;
    if 0x30 <= u <= 0x39 {
        u - 0x30
    } else if 0x61 <= u <= 0x7a {
        u - 0x61 + 10
    } else if 0x41 <= u <= 0x5a {
        u - 0x41 + 10
    } else {
        36
    }
}

/// The value of a digit character, as `digit_value` gives it.
pub fn char_digit_value(c: char) -> (r: u64)
    ensures
        r == digit_value(c),
{
    let u = c as u32;
    if 0x30 <= u && u <= 0x39 {
        (u - 0x30) as u64
    } else if 0x61 <= u && u <= 0x7a {
        (u - 0x61 + 10) as u64
    } else if 0x41 <= u && u <= 0x5a {
        (u - 0x41 + 10) as u64
    } else {
        36
    }
}

/// Every character of `d` is a digit in `radix`.
pub open spec fn all_digits(d: Seq<char>, radix: int) -> bool {
    forall|i: int| 0 <= i < d.len() ==> #[trigger] digit_value(d[i]) < radix
}

/// The number that the digits `d` write in `radix`, most significant first.
pub open spec fn digits_value(d: Seq<char>, radix: int) -> int
    decreases d.len(),
{
    if d.len() == 0 {
        0
    } else {
        digits_value(d.drop_last(), radix) * radix + digit_value(d.last())
    }
}

/// The digits of an unsigned number: `s` without one leading `+`.
pub open spec fn unsigned_digits(s: Seq<char>) -> Seq<char> {
    if s.len() > 0 && s[0] == '+' {
        s.drop_first()
    } else {
        s
    }
}

/// What `u64::from_str_radix(s, radix)` returns: an optional `+` and then
/// one or more digits of `radix` whose value fits in 64 bits.
pub open spec fn parse_radix(s: Seq<char>, radix: int) -> Option<u64> {
    let d = unsigned_digits(s);
    if d.len() > 0 && all_digits(d, radix) && digits_value(d, radix) <= u64::MAX {
        Some(digits_value(d, radix) as u64)
    } else {
        None
    }
}

/// A digit string has a value of at least zero, and at least the value of
/// any of its prefixes.
pub proof fn lemma_digits_value_prefix(d: Seq<char>, k: int, radix: int)
    requires
        all_digits(d, radix),
        0 <= k <= d.len(),
        radix >= 1,
    ensures
        0 <= digits_value(d.take(k), radix) <= digits_value(d, radix),
    decreases d.len(),
{
    if k == d.len() {
        assert(d.take(k) =~= d);
        if d.len() > 0 {
            lemma_digits_value_prefix(d.drop_last(), k - 1, radix);
            assert(d.drop_last().take(k - 1) =~= d.drop_last());
            let a = digits_value(d.drop_last(), radix);
            assert(a * radix >= 0) by (nonlinear_arith)
                requires a >= 0, radix >= 1;
            assert(digit_value(d[d.len() - 1]) >= 0);
        }
    } else {
        lemma_digits_value_prefix(d.drop_last(), k, radix);
        assert(d.drop_last().take(k) =~= d.take(k));
        let a = digits_value(d.drop_last(), radix);
        assert(a * radix >= a) by (nonlinear_arith)
            requires a >= 0, radix >= 1;
        assert(digit_value(d[d.len() - 1]) >= 0);
    }
}

/// Parses `s[from..]` as `u64::from_str_radix` would.
pub fn parse_radix_from(s: &Vec<char>, from: usize, radix: u64) -> (r: Option<u64>)
    requires
        from <= s@.len(),
        2 <= radix <= 36,
    ensures
        r == parse_radix(s@.skip(from as int), radix as int),
{
    let n = s.len();
    let ghost t = s@.skip(from as int);
    let mut start = from;
    if start < n && s[start] == '+' {
        start = start + 1;
    }
    let ghost d = s@.subrange(start as int, n as int);
    assert(d =~= unsigned_digits(t));
    if start == n {
        return None;
    }
    let mut acc: u64 = 0;
    let mut i: usize = start;
    assert(d.take(0) =~= Seq::<char>::empty());
    while i < n
        invariant
            start <= i <= n,
            n == s@.len(),
            2 <= radix <= 36,
            d == s@.subrange(start as int, n as int),
            d == unsigned_digits(t),
            t == s@.skip(from as int),
            all_digits(d.take(i - start), radix as int),
            acc == digits_value(d.take(i - start), radix as int),
        decreases n - i,
    {
        let dv = char_digit_value(s[i]);
        let ghost k = i - start;
        assert(d[k] == s@[i as int]);
        if dv >= radix {
            assert(digit_value(d[k]) >= radix);
            return None;
        }
        assert(d.take(k + 1).drop_last() =~= d.take(k));
        assert(d.take(k + 1).last() == d[k]);
        assert(all_digits(d.take(k + 1), radix as int)) by {
            assert forall|j: int| 0 <= j < k + 1 implies #[trigger] digit_value(
                d.take(k + 1)[j],
            ) < radix by {
                if j < k {
                    assert(d.take(k + 1)[j] == d.take(k)[j]);
                }
            }
        }
        assert(digits_value(d.take(k + 1), radix as int) == acc * radix + dv);
        match acc.checked_mul(radix) {
            None => {
                proof {
                    if all_digits(d, radix as int) {
                        lemma_digits_value_prefix(d, k + 1, radix as int);
                    }
                }
                return None;
            },
            Some(m) => match m.checked_add(dv) {
                None => {
                    proof {
                        if all_digits(d, radix as int) {
                            lemma_digits_value_prefix(d, k + 1, radix as int);
                        }
                    }
                    return None;
                },
                Some(a) => {
                    acc = a;
                },
            },
        }
        i = i + 1;
    }
    assert(d.take(n - start) =~= d);
    Some(acc)
}

/// Parses a whole string slice as `u64::from_str_radix(s, radix)` would.
pub fn parse_u64_radix(s: &str, radix: u64) -> (r: Option<u64>)
    requires
        2 <= radix <= 36,
    ensures
        r == parse_radix(s@, radix as int),
{
    let c = chars_of(s);
    assert(c@.skip(0) =~= c@);
    parse_radix_from(&c, 0, radix)
}

/// The lowercase digit character of a digit value below 36.
pub open spec fn digit_char(d: int) -> char {
    if d < 10 {
        (0x30 + d) as char
    } else {
        (0x61 + d - 10) as char
    }
}

/// The last `n` hexadecimal digits of `v`, lowercase and zero-padded.
pub open spec fn hex_digits(v: nat, n: nat) -> Seq<char>
    decreases n,
{
    if n == 0 {
        Seq::empty()
    } else {
        hex_digits(v / 16, (n - 1) as nat).push(digit_char((v % 16) as int))
    }
}

/// The decimal digits of `v`, without leading zeros.
pub open spec fn decimal_digits(v: nat) -> Seq<char>
    decreases v,
{
    if v < 10 {
        seq![digit_char(v as int)]
    } else {
        decimal_digits(v / 10).push(digit_char((v % 10) as int))
    }
}

/// A digit character counts for its digit value.
pub proof fn lemma_digit_char_value(d: int)
    requires
        0 <= d < 16,
    ensures
        digit_value(digit_char(d)) == d,
        digit_char(d) != '+',
        !is_whitespace(digit_char(d)),
        digit_char(d) != 'x',
        digit_char(d) != 'X',
{
}

/// The hexadecimal digits of `v` are `n` digits whose value is `v` modulo
/// `16^n`, and none of them is whitespace, a sign or an `x`.
pub proof fn lemma_hex_digits_value(v: nat, n: nat)
    ensures
        hex_digits(v, n).len() == n,
        all_digits(hex_digits(v, n), 16),
        digits_value(hex_digits(v, n), 16) == (v as int) % pow(16, n),
        forall|i: int|
            0 <= i < n ==> {
                let c = #[trigger] hex_digits(v, n)[i];
                &&& c != '+'
                &&& !is_whitespace(c)
                &&& c != 'x'
                &&& c != 'X'
            },
    decreases n,
{
    vstd::arithmetic::power::lemma_pow0(16);
    if n > 0 {
        let h = hex_digits(v / 16, (n - 1) as nat);
        let c = digit_char((v % 16) as int);
        lemma_hex_digits_value(v / 16, (n - 1) as nat);
        lemma_digit_char_value((v % 16) as int);
        assert(hex_digits(v, n) == h.push(c));
        assert(h.push(c).drop_last() =~= h);
        vstd::arithmetic::power::lemma_pow_positive(16, (n - 1) as nat);
        vstd::arithmetic::power::lemma_pow1(16);
        vstd::arithmetic::power::lemma_pow_adds(16, 1, (n - 1) as nat);
        vstd::arithmetic::div_mod::lemma_mod_breakdown(v as int, 16, pow(16, (n - 1) as nat));
        assert forall|i: int| 0 <= i < n implies #[trigger] digit_value(hex_digits(v, n)[i])
            < 16 by {
            if i < n - 1 {
                assert(hex_digits(v, n)[i] == h[i]);
            }
        }
        assert forall|i: int|
            0 <= i < n implies {
            let c = #[trigger] hex_digits(v, n)[i];
            &&& c != '+'
            &&& !is_whitespace(c)
            &&& c != 'x'
            &&& c != 'X'
        } by {
            if i < n - 1 {
                assert(hex_digits(v, n)[i] == h[i]);
            }
        }
    }
}

/// The decimal digits of `v` are one or more digits whose value is `v`,
/// the first of which is no sign.
pub proof fn lemma_decimal_digits_value(v: nat)
    ensures
        decimal_digits(v).len() > 0,
        all_digits(decimal_digits(v), 10),
        digits_value(decimal_digits(v), 10) == v,
        decimal_digits(v)[0] != '+',
    decreases v,
{
    if v < 10 {
        lemma_digit_char_value(v as int);
        let s1 = seq![digit_char(v as int)];
        assert(s1.drop_last() =~= Seq::<char>::empty());
        assert(s1.last() == digit_char(v as int));
        assert(digits_value(s1, 10) == digits_value(s1.drop_last(), 10) * 10 + digit_value(
            s1.last(),
        ));
    } else {
        let h = decimal_digits(v / 10);
        let c = digit_char((v % 10) as int);
        lemma_decimal_digits_value(v / 10);
        lemma_digit_char_value((v % 10) as int);
        assert(h.push(c).drop_last() =~= h);
        assert forall|i: int| 0 <= i < decimal_digits(v).len() implies #[trigger] digit_value(
            decimal_digits(v)[i],
        ) < 10 by {
            if i < h.len() {
                assert(decimal_digits(v)[i] == h[i]);
            }
        }
        assert(decimal_digits(v)[0] == h[0]);
    }
}

/// The ASCII code of the lowercase hexadecimal digit for `n`.
pub fn hex_digit(n: u8) -> (r: u8)
    requires
        n < 16,
    ensures
        r as u32 == digit_char(n as int) as u32,
{
    if n < 10 {
        0x30u8 + n
    } else {
        0x61u8 + (n - 10)
    }
}

/// Appends one character to a string (`String::push`).
#[verifier::external_body]
fn push_char(s: &mut String, c: char)
    ensures
        final(s)@ == old(s)@.push(c),
{
    s.push(c);
}

/// Appends the last `n` hexadecimal digits of `v` to `s`.
pub fn push_hex_digits(s: &mut String, v: u64, n: u64)
    ensures
        final(s)@ == old(s)@ + hex_digits(v as nat, n as nat),
    decreases n,
{
    if n > 0 {
        push_hex_digits(s, v / 16, n - 1);
        let d = hex_digit((v % 16) as u8);
        push_char(s, d as char);
    }
}

/// Appends the decimal digits of `v` to `s`.
pub fn push_decimal_digits(s: &mut String, v: u64)
    ensures
        final(s)@ == old(s)@ + decimal_digits(v as nat),
    decreases v,
{
    if v >= 10 {
        push_decimal_digits(s, v / 10);
    }
    let d = hex_digit((v % 10) as u8);
    push_char(s, d as char);
}

} // verus!

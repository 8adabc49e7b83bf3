//! The order of identifiers: that of their raw values, which puts them in
//! the order of their timestamps.
use vstd::prelude::*;
use core::cmp::Ordering;
use vstd::std_specs::cmp::PartialOrdSpec;
use vstd::arithmetic::power::pow;
use crate::id::{Id, id_text};
use crate::text::{digit_char, hex_digits};

verus! {

/// How `a` compares to `b`: as their raw values do.
pub open spec fn raw_order(a: Id, b: Id) -> Option<Ordering> {
    if a.0 < b.0 {
        Some(Ordering::Less)
    } else if a.0 == b.0 {
        Some(Ordering::Equal)
    } else {
        Some(Ordering::Greater)
    }
}

impl PartialOrd for Id {
    fn partial_cmp(&self, other: &Id) -> (r: Option<Ordering>) {
        if self.0 < other.0 {
            Some(Ordering::Less)
        } else if self.0 == other.0 {
            Some(Ordering::Equal)
        } else {
            Some(Ordering::Greater)
        }
    }
}

impl vstd::std_specs::cmp::PartialOrdSpecImpl for Id {
    open spec fn obeys_partial_cmp_spec() -> bool {
        true
    }

    open spec fn partial_cmp_spec(&self, other: &Id) -> Option<Ordering> {
        raw_order(*self, *other)
    }
}

/// Identifiers sort as their raw values: one is less than another exactly
/// when its raw value is.
pub proof fn lemma_ids_sort_as_raw(a: Id, b: Id)
    ensures
        (a.partial_cmp_spec(&b) == Some(Ordering::Less)) <==> a.0 < b.0,
        (a.partial_cmp_spec(&b) == Some(Ordering::Equal)) <==> a.0 == b.0,
        (a.partial_cmp_spec(&b) == Some(Ordering::Greater)) <==> a.0 > b.0,
{
}

/// `s` comes before `t` in dictionary order of their characters' code
/// points, the order in which Rust compares strings.
pub open spec fn text_less(s: Seq<char>, t: Seq<char>) -> bool {
    ||| exists|i: int|
        0 <= i < s.len() && i < t.len() && #[trigger] s.take(i) == t.take(i) && (s[i] as u32) < (
        t[i] as u32)
    ||| s.len() < t.len() && t.take(s.len() as int) == s
}

/// Two texts of one length, each with one character added, are in order
/// when the texts are, or when the texts are equal and the added characters
/// are in order.
proof fn lemma_text_less_push(a: Seq<char>, b: Seq<char>, x: char, y: char)
    requires
        a.len() == b.len(),
    ensures
        text_less(a.push(x), b.push(y)) <==> text_less(a, b) || (a == b && (x as u32) < (
        y as u32)),
{
    let s = a.push(x);
    let t = b.push(y);
    let m = a.len() as int;
    if text_less(a, b) {
        let i = choose|i: int|
            0 <= i < a.len() && i < b.len() && #[trigger] a.take(i) == b.take(i) && (a[i] as u32)
                < (b[i] as u32);
        assert(s.take(i) =~= a.take(i));
        assert(t.take(i) =~= b.take(i));
        assert(s[i] == a[i] && t[i] == b[i]);
        assert(text_less(s, t));
    }
    if a == b && (x as u32) < (y as u32) {
        assert(s.take(m) =~= a);
        assert(t.take(m) =~= b);
        assert(s[m] == x && t[m] == y);
        assert(text_less(s, t));
    }
    if text_less(s, t) {
        let i = choose|i: int|
            0 <= i < s.len() && i < t.len() && #[trigger] s.take(i) == t.take(i) && (s[i] as u32)
                < (t[i] as u32);
        if i < m {
            assert(s.take(i) =~= a.take(i));
            assert(t.take(i) =~= b.take(i));
            assert(s[i] == a[i] && t[i] == b[i]);
            assert(text_less(a, b));
        } else {
            assert(s.take(m) =~= a);
            assert(t.take(m) =~= b);
        }
    }
}

/// Digit characters are in the order of their values.
proof fn lemma_digit_char_order(d: int, e: int)
    requires
        0 <= d < 16,
        0 <= e < 16,
    ensures
        (digit_char(d) as u32) < (digit_char(e) as u32) <==> d < e,
        digit_char(d) == digit_char(e) <==> d == e,
{
}

/// The last `n` hexadecimal digits of two numbers are equal, or in order,
/// exactly as the numbers modulo `16^n` are.
proof fn lemma_hex_digits_order(v: nat, w: nat, n: nat)
    ensures
        hex_digits(v, n) == hex_digits(w, n) <==> v as int % pow(16, n) == w as int % pow(16, n),
        text_less(hex_digits(v, n), hex_digits(w, n)) <==> v as int % pow(16, n) < w as int % pow(
            16,
            n,
        ),
    decreases n,
{
    vstd::arithmetic::power::lemma_pow0(16);
    if n == 0 {
        assert(hex_digits(v, n) =~= hex_digits(w, n));
        let e = hex_digits(v, 0);
        assert(!text_less(e, e));
    } else {
        let q = pow(16, (n - 1) as nat);
        let ha = hex_digits(v / 16, (n - 1) as nat);
        let hb = hex_digits(w / 16, (n - 1) as nat);
        let dv = (v % 16) as int;
        let dw = (w % 16) as int;
        lemma_hex_digits_order(v / 16, w / 16, (n - 1) as nat);
        crate::text::lemma_hex_digits_value(v / 16, (n - 1) as nat);
        crate::text::lemma_hex_digits_value(w / 16, (n - 1) as nat);
        lemma_digit_char_order(dv, dw);
        lemma_text_less_push(ha, hb, digit_char(dv), digit_char(dw));
        vstd::arithmetic::power::lemma_pow_positive(16, (n - 1) as nat);
        vstd::arithmetic::power::lemma_pow1(16);
        vstd::arithmetic::power::lemma_pow_adds(16, 1, (n - 1) as nat);
        vstd::arithmetic::div_mod::lemma_mod_breakdown(v as int, 16, q);
        vstd::arithmetic::div_mod::lemma_mod_breakdown(w as int, 16, q);
        let a = (v / 16) as int % q;
        let b = (w / 16) as int % q;
        assert(hex_digits(v, n) == ha.push(digit_char(dv)));
        assert(hex_digits(w, n) == hb.push(digit_char(dw)));
        if ha.push(digit_char(dv)) == hb.push(digit_char(dw)) {
            assert(ha.push(digit_char(dv)).drop_last() =~= ha);
            assert(hb.push(digit_char(dw)).drop_last() =~= hb);
        }
        assert((16 * a + dv == 16 * b + dw) <==> (a == b && dv == dw)) by (nonlinear_arith)
            requires 0 <= dv < 16, 0 <= dw < 16;
        assert((16 * a + dv < 16 * b + dw) <==> (a < b || (a == b && dv < dw))) by (
        nonlinear_arith)
            requires 0 <= dv < 16, 0 <= dw < 16;
    }
}

/// The text forms of identifiers sort as the identifiers do: one text comes
/// before another exactly when its identifier's raw value is smaller.
pub proof fn lemma_text_order(a: Id, b: Id)
    ensures
        text_less(id_text(a.0), id_text(b.0)) <==> a.0 < b.0,
        id_text(a.0) == id_text(b.0) <==> a.0 == b.0,
{
    lemma_hex_digits_order(a.0 as nat, b.0 as nat, 16);
    crate::id::lemma_sixteen_hex_digits_span_u64();
}

} // verus!

//! Decimal text of 32-bit identifiers: how an identifier is written into a
//! path or a statement, and how a path segment is read back as one.

use vstd::prelude::*;

verus! {

/// The character of a decimal digit `d` (`d < 10`).
pub open spec fn digit_char(d: nat) -> char {
    (d + 48) as char
}

pub open spec fn is_digit(c: char) -> bool {
    '0' <= c && c <= '9'
}

/// The value of a decimal digit character.
pub open spec fn digit_value(c: char) -> nat {
    (c as nat - 48) as nat
}

/// The shortest decimal digits of `n`.
pub open spec fn decimal(n: nat) -> Seq<char>
    decreases n,
{
    if n < 10 {
        seq![digit_char(n)]
    } else {
        decimal(n / 10).push(digit_char(n % 10))
    }
}

/// How an `i32` is displayed: its decimal digits, after a minus sign when it
/// is negative.
pub open spec fn i32_text(x: i32) -> Seq<char> {
    if x < 0 {
        seq!['-'] + decimal((-x) as nat)
    } else {
        decimal(x as nat)
    }
}

pub open spec fn all_digits(s: Seq<char>) -> bool {
    forall|i: int| 0 <= i < s.len() ==> is_digit(#[trigger] s[i])
}

/// The number that a sequence of digits denotes.
pub open spec fn digits_value(s: Seq<char>) -> nat
    decreases s.len(),
{
    if s.len() == 0 {
        0
    } else {
        digits_value(s.drop_last()) * 10 + digit_value(s.last())
    }
}

/// Reading an `i32` from text as std's `i32::from_str` does: an optional
/// `+` or `-`, then at least one ASCII digit and nothing else, with a value
/// that fits.
pub open spec fn parse_i32(s: Seq<char>) -> Option<i32> {
    let negative = s.len() > 0 && s[0] == '-';
    let digits = if s.len() > 0 && (s[0] == '-' || s[0] == '+') { s.drop_first() } else { s };
    let magnitude = digits_value(digits) as int;
    let value = if negative { -magnitude } else { magnitude };
    if digits.len() == 0 || !all_digits(digits) || value < i32::MIN || value > i32::MAX {
        None
    } else {
        Some(value as i32)
    }
}

/// The one-character text of digit `d`.
fn digit_str(d: u32) -> (s: &'static str)
    requires
        d < 10,
    ensures
        s@ == seq![digit_char(d as nat)],
{
    match d {
        0 => { proof { reveal_strlit("0"); } "0" },
        1 => { proof { reveal_strlit("1"); } "1" },
        2 => { proof { reveal_strlit("2"); } "2" },
        3 => { proof { reveal_strlit("3"); } "3" },
        4 => { proof { reveal_strlit("4"); } "4" },
        5 => { proof { reveal_strlit("5"); } "5" },
        6 => { proof { reveal_strlit("6"); } "6" },
        7 => { proof { reveal_strlit("7"); } "7" },
        8 => { proof { reveal_strlit("8"); } "8" },
        _ => { proof { reveal_strlit("9"); } "9" },
    }
}

/// Appends the decimal digits of `n` to `out`.
pub fn push_decimal(out: &mut String, n: u32)
    ensures
        final(out)@ == old(out)@ + decimal(n as nat),
    decreases n,
{
    if n >= 10 {
        push_decimal(out, n / 10);
    }
    out.append(digit_str(n % 10));
    proof {
        if n >= 10 {
            assert(old(out)@ + decimal(n as nat) =~= old(out)@ + decimal((n / 10) as nat) + seq![
                digit_char((n % 10) as nat),
            ]);
        }
    }
}

/// Appends the text of `x` to `out`, as `Display` writes an `i32`.
pub fn push_i32(out: &mut String, x: i32)
    ensures
        final(out)@ == old(out)@ + i32_text(x),
{
    if x < 0 {
        proof { reveal_strlit("-"); }
        out.append("-");
        let magnitude: u32 = if x == i32::MIN { 2147483648u32 } else { (-x) as u32 };
        push_decimal(out, magnitude);
        assert(old(out)@ + i32_text(x) =~= old(out)@ + seq!['-'] + decimal(magnitude as nat));
    } else {
        push_decimal(out, x as u32);
    }
}

/// The text of `x`, as `x.to_string()` gives it.
pub fn format_i32(x: i32) -> (s: String)
    ensures
        s@ == i32_text(x),
{
    let mut s = String::new();
    push_i32(&mut s, x);
    assert(s@ =~= i32_text(x));
    s
}


/// A prefix of digits denotes no more than the whole.
pub proof fn lemma_digits_value_prefix(s: Seq<char>, k: int)
    requires
        0 <= k <= s.len(),
        all_digits(s),
    ensures
        digits_value(s.take(k)) <= digits_value(s),
    decreases s.len(),
{
    if k < s.len() {
        assert(s.drop_last().take(k) =~= s.take(k));
        lemma_digits_value_prefix(s.drop_last(), k);
    } else {
        assert(s.take(k) =~= s);
    }
}

/// The characters of `s`, in order.
pub fn chars_of(s: &str) -> (v: Vec<char>)
    ensures
        v@ == s@,
{
    let mut v: Vec<char> = Vec::new();
    for c in it: s.chars()
        invariant
            v@ == it.seq().take(it.index() as int),
    {
        v.push(c);
    }
    v
}

/// Reads `v[lo..hi]` as std's `i32::from_str` reads text.
pub fn parse_i32_in(v: &Vec<char>, lo: usize, hi: usize) -> (r: Option<i32>)
    requires
        lo <= hi <= v@.len(),
    ensures
        r == parse_i32(v@.subrange(lo as int, hi as int)),
{
    let ghost t = v@.subrange(lo as int, hi as int);
    if lo == hi {
        return None;
    }
    let negative = v[lo] == '-';
    let start: usize = if v[lo] == '-' || v[lo] == '+' { lo + 1 } else { lo };
    let ghost digits = v@.subrange(start as int, hi as int);
    assert(digits =~= if t.len() > 0 && (t[0] == '-' || t[0] == '+') { t.drop_first() } else { t });
    if start == hi {
        return None;
    }
    let mut acc: u64 = 0;
    let mut i: usize = start;
    while i < hi
        invariant
            start <= i <= hi <= v@.len(),
            start < hi,
            t == v@.subrange(lo as int, hi as int),
            digits == v@.subrange(start as int, hi as int),
            digits == (if t.len() > 0 && (t[0] == '-' || t[0] == '+') { t.drop_first() } else { t }),
            negative == (t.len() > 0 && t[0] == '-'),
            all_digits(v@.subrange(start as int, i as int)),
            acc == digits_value(v@.subrange(start as int, i as int)),
            acc <= 2147483648,
        decreases hi - i,
    {
        let c = v[i];
        if !('0' <= c && c <= '9') {
            assert(!is_digit(digits[i - start]));
            return None;
        }
        let d: u64 = (c as u64) - 48;
        let ghost before = v@.subrange(start as int, i as int);
        assert(v@.subrange(start as int, i + 1).drop_last() =~= before);
        acc = acc * 10 + d;
        i = i + 1;
        if acc > 2147483648 {
            proof {
                if all_digits(digits) {
                    assert(digits.take(i - start) =~= v@.subrange(start as int, i as int));
                    lemma_digits_value_prefix(digits, i - start);
                }
            }
            return None;
        }
    }
    assert(v@.subrange(start as int, i as int) =~= digits);
    if negative {
        Some((0i64 - acc as i64) as i32)
    } else if acc > 2147483647 {
        None
    } else {
        Some(acc as i32)
    }
}

/// Reads `s` as std's `i32::from_str` reads text.
pub fn parse_i32_text(s: &str) -> (r: Option<i32>)
    ensures
        r == parse_i32(s@),
{
    let v = chars_of(s);
    assert(v@.subrange(0, v@.len() as int) =~= v@);
    parse_i32_in(&v, 0, v.len())
}


/// The digits of `n` are digits, at least one, and denote `n`.
pub proof fn lemma_decimal(n: nat)
    ensures
        decimal(n).len() >= 1,
        all_digits(decimal(n)),
        digits_value(decimal(n)) == n,
    decreases n,
{
    if n < 10 {
        assert(decimal(n).drop_last() =~= Seq::<char>::empty());
        assert(digit_char(n) as nat == n + 48);
        assert(digits_value(decimal(n).drop_last()) == 0);
        assert(digit_value(decimal(n).last()) == n);
    } else {
        lemma_decimal(n / 10);
        let d = digit_char(n % 10);
        assert(d as nat == n % 10 + 48);
        assert(decimal(n).drop_last() =~= decimal(n / 10));
        assert(decimal(n).last() == d);
        vstd::arithmetic::div_mod::lemma_fundamental_div_mod(n as int, 10);
        assert(digit_value(d) == n % 10);
        assert(digits_value(decimal(n)) == digits_value(decimal(n / 10)) * 10 + n % 10);
        assert forall|i: int| 0 <= i < decimal(n).len() implies is_digit(#[trigger] decimal(n)[i]) by {
            if i < decimal(n).len() - 1 {
                assert(decimal(n)[i] == decimal(n / 10)[i]);
            }
        }
    }
}

/// Reading back the text of any `i32` gives that `i32`.
pub proof fn lemma_parse_format_roundtrip(x: i32)
    ensures
        parse_i32(i32_text(x)) == Some(x),
{
    if x < 0 {
        let m = (-x) as nat;
        lemma_decimal(m);
        assert((seq!['-'] + decimal(m)).drop_first() =~= decimal(m));
    } else {
        lemma_decimal(x as nat);
        assert(is_digit(decimal(x as nat)[0]));
    }
}

/// The text of an `i32` holds only digits and a leading minus sign, so no
/// path separator.
pub proof fn lemma_i32_text_has_no_slash(x: i32)
    ensures
        forall|i: int| 0 <= i < i32_text(x).len() ==> #[trigger] i32_text(x)[i] != '/',
        i32_text(x).len() >= 1,
{
    if x < 0 {
        lemma_decimal((-x) as nat);
        assert forall|i: int| 0 <= i < i32_text(x).len() implies #[trigger] i32_text(x)[i] != '/' by {
            if i > 0 {
                assert(i32_text(x)[i] == decimal((-x) as nat)[i - 1]);
            }
        }
    } else {
        lemma_decimal(x as nat);
    }
}

} // verus!

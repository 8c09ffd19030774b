//! Decimal text of integers, both ways.

use vstd::prelude::*;
use crate::text::{chars_of, push_char};

verus! {

/// The character of a decimal digit.
pub open spec fn digit_char(d: nat) -> char {
    ((d + 48) as u8) as char
}

pub open spec fn is_digit(c: char) -> bool {
    '0' <= c && c <= '9'
}

/// The decimal digits of `n`, most significant first, without leading zeros.
pub open spec fn digits_of(n: nat) -> Seq<char>
    decreases n,
{
    if n < 10 {
        seq![digit_char(n)]
    } else {
        digits_of(n / 10).push(digit_char(n % 10))
    }
}

/// The decimal text of `n`, with a `-` when it is negative.
pub open spec fn int_text(n: int) -> Seq<char> {
    if n < 0 {
        seq!['-'] + digits_of((-n) as nat)
    } else {
        digits_of(n as nat)
    }
}

/// The value of a run of decimal digits.
pub open spec fn digits_value(s: Seq<char>) -> nat
    decreases s.len(),
{
    if s.len() == 0 {
        0
    } else {
        digits_value(s.drop_last()) * 10 + ((s.last() as nat) - 48) as nat
    }
}

pub open spec fn all_digits(s: Seq<char>) -> bool {
    forall|i: int| 0 <= i < s.len() ==> is_digit(#[trigger] s[i])
}

/// The digits of a number's text: after one optional sign (`+`, or also `-`
/// when `signed`).
pub open spec fn unsigned_part(s: Seq<char>, signed: bool) -> Seq<char> {
    if s.len() > 0 && (s[0] == '+' || (signed && s[0] == '-')) {
        s.drop_first()
    } else {
        s
    }
}

/// What `str::parse::<u64>` reads from `s`.
pub open spec fn parse_u64_of(s: Seq<char>) -> Option<u64> {
    let b = unsigned_part(s, false);
    if b.len() > 0 && all_digits(b) && digits_value(b) <= u64::MAX {
        Some(digits_value(b) as u64)
    } else {
        None
    }
}

/// What `str::parse::<i32>` reads from `s`.
pub open spec fn parse_i32_of(s: Seq<char>) -> Option<i32> {
    let b = unsigned_part(s, true);
    let v: int = if s.len() > 0 && s[0] == '-' {
        -digits_value(b)
    } else {
        digits_value(b) as int
    };
    if b.len() > 0 && all_digits(b) && i32::MIN <= v && v <= i32::MAX {
        Some(v as i32)
    } else {
        None
    }
}

proof fn lemma_digit_char(d: nat)
    requires
        d < 10,
    ensures
        digit_char(d) as nat == d + 48,
        is_digit(digit_char(d)),
{
    let b = (d + 48) as u8;
    assert(b as nat == d + 48);
    assert((b as char) as nat == b as nat);
}

proof fn lemma_digits_of(n: nat)
    ensures
        digits_of(n).len() > 0,
        all_digits(digits_of(n)),
        digits_value(digits_of(n)) == n,
    decreases n,
{
    if n < 10 {
        lemma_digit_char(n);
        assert(digits_of(n).drop_last() =~= Seq::<char>::empty());
        assert(digits_value(Seq::<char>::empty()) == 0);
        assert(digits_of(n).last() == digit_char(n));
        assert(digits_value(digits_of(n)) == n);
    }
    if n >= 10 {
        lemma_digits_of(n / 10);
        lemma_digit_char(n % 10);
        let d = digits_of(n);
        assert(d.drop_last() =~= digits_of(n / 10));
        assert(d.last() == digit_char(n % 10));
        assert(digits_value(d) == digits_value(digits_of(n / 10)) * 10 + n % 10);
        assert((n / 10) * 10 + n % 10 == n) by (nonlinear_arith);
        assert(digits_value(d) == n);
        assert forall|i: int| 0 <= i < d.len() implies is_digit(#[trigger] d[i]) by {
            if i < d.len() - 1 {
                assert(d[i] == digits_of(n / 10)[i]);
            }
        }
    }
}

/// Reading the text of a number gives the number back.
pub proof fn lemma_parse_int_text(n: i32)
    ensures
        parse_i32_of(int_text(n as int)) == Some(n),
        int_text(n as int).len() > 0,
        is_digit(int_text(n as int).last()),
        int_text(n as int)[0] == '-' || is_digit(int_text(n as int)[0]),
        forall|i: int| 0 <= i < int_text(n as int).len() ==> #[trigger] int_text(n as int)[i] == '-'
            || is_digit(int_text(n as int)[i]),
{
    let t = int_text(n as int);
    if n < 0 {
        let m = (-(n as int)) as nat;
        lemma_digits_of(m);
        assert(t.drop_first() =~= digits_of(m));
        assert(unsigned_part(t, true) =~= digits_of(m));
        assert forall|i: int| 0 <= i < t.len() implies #[trigger] t[i] == '-' || is_digit(t[i]) by {
            if i > 0 {
                assert(t[i] == digits_of(m)[i - 1]);
            }
        }
        assert(t.last() == digits_of(m).last());
    } else {
        lemma_digits_of(n as nat);
        assert(unsigned_part(t, true) =~= t);
    }
}

/// Appends the decimal digits of `n`.
pub fn push_digits(out: &mut String, n: u64)
    ensures
        final(out)@ == old(out)@ + digits_of(n as nat),
    decreases n,
{
    if n >= 10 {
        push_digits(out, n / 10);
    }
    let d = (n % 10) as u8;
    push_char(out, (d + 48) as char);
    assert(old(out)@ + digits_of(n as nat) =~= out@);
}

/// The decimal text of `n`.
pub fn u64_text(n: u64) -> (r: String)
    ensures
        r@ == digits_of(n as nat),
{
    let mut out = String::new();
    push_digits(&mut out, n);
    assert(out@ =~= digits_of(n as nat));
    out
}

/// The decimal text of `n`, signed.
pub fn i32_text(n: i32) -> (r: String)
    ensures
        r@ == int_text(n as int),
{
    let mut out = String::new();
    if n < 0 {
        push_char(&mut out, '-');
        let m = (-(n as i64)) as u64;
        push_digits(&mut out, m);
    } else {
        push_digits(&mut out, n as u64);
    }
    assert(out@ =~= int_text(n as int));
    out
}

proof fn lemma_digits_value_grows(s: Seq<char>, k: int)
    requires
        0 <= k <= s.len(),
        all_digits(s),
    ensures
        digits_value(s.take(k)) <= digits_value(s),
    decreases s.len() - k,
{
    if k < s.len() {
        lemma_digits_value_grows(s, k + 1);
        assert(s.take(k + 1).drop_last() =~= s.take(k));
        assert(is_digit(s[k]));
    } else {
        assert(s.take(k) =~= s);
    }
}

/// The value of the digits `c[from..]`, if every one is a digit and the value
/// is at most `limit`.
fn read_digits(c: &Vec<char>, from: usize, limit: u64) -> (r: Option<u64>)
    requires
        from <= c@.len(),
    ensures
        match r {
            Some(v) => all_digits(c@.skip(from as int)) && digits_value(c@.skip(from as int))
                == v && v <= limit,
            None => !(all_digits(c@.skip(from as int)) && digits_value(c@.skip(from as int))
                <= limit),
        },
{
    let ghost b = c@.skip(from as int);
    let mut acc: u64 = 0;
    let mut i = from;
    while i < c.len()
        invariant
            from <= i <= c@.len(),
            b == c@.skip(from as int),
            all_digits(b.take(i - from)),
            acc == digits_value(b.take(i - from)),
            acc <= limit,
        decreases c@.len() - i,
    {
        let ch = c[i];
        assert(b[i - from] == ch);
        if !('0' <= ch && ch <= '9') {
            assert(!all_digits(b));
            return None;
        }
        let d = (ch as u32 - 48) as u64;
        assert(b.take(i + 1 - from).drop_last() =~= b.take(i - from));
        if d > limit || acc > (limit - d) / 10 {
            assert(digits_value(b.take(i + 1 - from)) > limit) by (nonlinear_arith)
                requires
                    digits_value(b.take(i + 1 - from)) == acc * 10 + d,
                    d > limit || acc > (limit - d) / 10,
            ;
            proof {
                if all_digits(b) {
                    lemma_digits_value_grows(b, i + 1 - from);
                }
            }
            return None;
        }
        assert(acc * 10 + d <= limit) by (nonlinear_arith)
            requires
                d <= limit,
                acc <= (limit - d) / 10,
        ;
        acc = acc * 10 + d;
        assert(all_digits(b.take(i + 1 - from)));
        i += 1;
    }
    assert(b.take(i - from) =~= b);
    Some(acc)
}

/// Where the digits of `c` begin: after one optional sign.
fn digits_start(c: &Vec<char>, signed: bool) -> (r: usize)
    ensures
        r <= c@.len(),
        c@.skip(r as int) == unsigned_part(c@, signed),
{
    if c.len() > 0 && (c[0] == '+' || (signed && c[0] == '-')) {
        assert(c@.skip(1) =~= c@.drop_first());
        1
    } else {
        assert(c@.skip(0) =~= c@);
        0
    }
}

/// Reads an unsigned number as `str::parse::<u64>` does.
pub fn parse_u64(s: &str) -> (r: Option<u64>)
    ensures
        r == parse_u64_of(s@),
{
    let c = chars_of(s);
    let from = digits_start(&c, false);
    if from == c.len() {
        return None;
    }
    read_digits(&c, from, u64::MAX)
}

/// Reads a signed number as `str::parse::<i32>` does.
pub fn parse_i32(s: &str) -> (r: Option<i32>)
    ensures
        r == parse_i32_of(s@),
{
    let c = chars_of(s);
    let from = digits_start(&c, true);
    if from == c.len() {
        return None;
    }
    let negative = c[0] == '-';
    let limit: u64 = if negative {
        2147483648
    } else {
        2147483647
    };
    match read_digits(&c, from, limit) {
        Some(v) => if negative {
            Some((-(v as i64)) as i32)
        } else {
            Some(v as i32)
        },
        None => None,
    }
}

} // verus!

//! Decimal numerals: the text of an integer and the integer of a text.

use vstd::prelude::*;
use vstd::string::StringExecFns;
use vstd::string::StrSliceExecFns;
use vstd::string::is_ascii_spec_bytes;

verus! {

/// The ASCII code of `-`.
const MINUS: u8 = 45;

/// The ASCII code of `0`.
const ZERO: u8 = 48;

/// The ASCII code of `9`.
const NINE: u8 = 57;

/// Whether a character is one of the ten decimal digits.
pub open spec fn is_digit(c: char) -> bool {
    '0' <= c <= '9'
}

/// The number that a digit writes.
pub open spec fn digit_value(c: char) -> nat {
    (c as int - '0' as int) as nat
}

/// The digit that writes a number below ten.
pub open spec fn digit_char(d: nat) -> char {
    (d + ('0' as nat)) as char
}

/// Whether every character of a text is a digit.
pub open spec fn all_digits(s: Seq<char>) -> bool {
    forall|i: int| 0 <= i < s.len() ==> is_digit(#[trigger] s[i])
}

/// The number that a sequence of decimal digits writes, most significant digit first.
pub open spec fn digits_value(s: Seq<char>) -> nat
    decreases s.len(),
{
    if s.len() == 0 {
        0
    } else {
        digits_value(s.drop_last()) * 10 + digit_value(s.last())
    }
}

/// The digits of a natural number, without leading zeros.
pub open spec fn digits_of(n: nat) -> Seq<char>
    decreases n,
{
    if n < 10 {
        seq![digit_char(n)]
    } else {
        digits_of(n / 10).push(digit_char(n % 10))
    }
}

/// The canonical text of an integer: its digits, after a `-` when it is negative.
pub open spec fn decimal(i: int) -> Seq<char> {
    if i < 0 {
        seq!['-'] + digits_of((-i) as nat)
    } else {
        digits_of(i as nat)
    }
}

/// The integer that a text writes, where the text is one or more decimal
/// digits after an optional `-`; `None` for any other text.
pub open spec fn int_value(t: Seq<char>) -> Option<int> {
    if t.len() > 0 && t[0] == '-' {
        let d = t.subrange(1, t.len() as int);
        if d.len() > 0 && all_digits(d) {
            Some(-(digits_value(d) as int))
        } else {
            None
        }
    } else if t.len() > 0 && all_digits(t) {
        Some(digits_value(t) as int)
    } else {
        None
    }
}

/// A numeral is canonical when it has no leading zero and is not `-0`.
pub open spec fn is_canonical(t: Seq<char>) -> bool {
    let d = if t.len() > 0 && t[0] == '-' {
        t.subrange(1, t.len() as int)
    } else {
        t
    };
    &&& int_value(t) is Some
    &&& d.len() == 1 || d[0] != '0'
    &&& int_value(t) == Some(0int) ==> t.len() == 1
}

/// Whether a number can be held in 32 bits with a sign.
pub open spec fn fits_i32(v: int) -> bool {
    i32::MIN <= v <= i32::MAX
}

/// The digits of a number are digits, write that number, and start with a
/// zero only for zero itself.
pub proof fn lemma_digits_of(n: nat)
    ensures
        digits_of(n).len() >= 1,
        all_digits(digits_of(n)),
        digits_value(digits_of(n)) == n,
        n > 0 ==> digits_of(n)[0] != '0',
        n == 0 ==> digits_of(n) == seq!['0'],
    decreases n,
{
    if n < 10 {
        let s = seq![digit_char(n)];
        assert(s.drop_last().len() == 0);
        assert(digits_value(s.drop_last()) == 0);
        assert(digits_value(s) == n);
    } else {
        lemma_digits_of(n / 10);
        let p = digits_of(n / 10);
        let s = p.push(digit_char(n % 10));
        assert(s.drop_last() =~= p);
        assert(digits_value(s) == n);
        assert(s[0] == p[0]);
    }
}

/// Digits written after a numeral do not make its number smaller.
proof fn lemma_digits_value_prefix(d: Seq<char>, i: int, j: int)
    requires
        0 <= i <= j <= d.len(),
    ensures
        digits_value(d.take(i)) <= digits_value(d.take(j)),
    decreases j - i,
{
    if i < j {
        lemma_digits_value_prefix(d, i, j - 1);
        assert(d.take(j).drop_last() =~= d.take(j - 1));
    }
}

/// Writing a number and reading the text back gives the number.
pub proof fn lemma_decimal_reads_back(i: int)
    ensures
        int_value(decimal(i)) == Some(i),
        is_canonical(decimal(i)),
{
    if i < 0 {
        let n = (-i) as nat;
        lemma_digits_of(n);
        let t = decimal(i);
        assert(t.subrange(1, t.len() as int) =~= digits_of(n));
        assert(t[0] == '-');
    } else {
        lemma_digits_of(i as nat);
        let t = decimal(i);
        assert(is_digit(t[0]));
        assert(t[0] != '-');
    }
}

/// Digits without a leading zero are the digits of their number.
proof fn lemma_canonical_digits(d: Seq<char>)
    requires
        d.len() >= 1,
        all_digits(d),
        d.len() == 1 || d[0] != '0',
    ensures
        digits_of(digits_value(d)) == d,
        d[0] != '0' ==> digits_value(d) > 0,
    decreases d.len(),
{
    let p = d.drop_last();
    let c = d.last();
    assert(is_digit(c));
    if p.len() == 0 {
        assert(digits_value(p) == 0);
        assert(digits_value(d) == digit_value(c));
        assert(digit_char(digit_value(c)) == c);
        assert(digits_of(digits_value(d)) =~= d);
    } else {
        assert(p[0] == d[0]);
        assert forall|i: int| 0 <= i < p.len() implies is_digit(#[trigger] p[i]) by {
            assert(p[i] == d[i]);
        }
        lemma_canonical_digits(p);
        let v = digits_value(p);
        let w = digit_value(c);
        assert(digits_value(d) == v * 10 + w);
        assert(v > 0);
        assert((v * 10 + w) / 10 == v);
        assert((v * 10 + w) % 10 == w);
        assert(digit_char(w) == c);
        assert(digits_of(digits_value(d)) =~= d);
    }
}

/// Reading a canonical numeral and writing the number back gives the numeral.
pub proof fn lemma_canonical_writes_back(t: Seq<char>)
    requires
        is_canonical(t),
    ensures
        decimal(int_value(t)->0) == t,
{
    if t.len() > 0 && t[0] == '-' {
        let d = t.subrange(1, t.len() as int);
        lemma_canonical_digits(d);
        assert(digits_value(d) != 0);
        assert(seq!['-'] + d =~= t);
    } else {
        lemma_canonical_digits(t);
    }
}

/// Reads a numeral of an optional `-` and decimal digits; `None` where the
/// text is no such numeral or its number does not fit in 32 bits.
pub fn parse_int(s: &str) -> (r: Option<i32>)
    ensures
        r == match int_value(s@) {
            Some(v) => if fits_i32(v) {
                Some(v as i32)
            } else {
                None
            },
            None => None,
        },
{
    if !s.is_ascii() {
        proof {
            let i = choose|i: int| 0 <= i < s@.len() && !('\0' <= #[trigger] s@[i] <= '\u{7f}');
            let t = s@;
            if t.len() > 0 && t[0] == '-' {
                let d = t.subrange(1, t.len() as int);
                if i > 0 {
                    assert(d[i - 1] == t[i]);
                    assert(!is_digit(d[i - 1]));
                }
            } else {
                assert(!is_digit(t[i]));
            }
        }
        return None;
    }
    proof {
        is_ascii_spec_bytes(s);
    }
    let n = s.as_bytes().len();
    assert(n == s@.len());
    if n == 0 {
        return None;
    }
    let negative = s.get_ascii(0) == MINUS;
    assert(negative == (s@[0] == '-'));
    let start: usize = if negative { 1 } else { 0 };
    if start == n {
        return None;
    }
    let ghost d = s@.subrange(start as int, n as int);
    let mut acc: u64 = 0;
    let mut i: usize = start;
    while i < n
        invariant
            start <= i <= n,
            n == s@.len(),
            n > 0,
            negative == (s@[0] == '-'),
            start == if negative { 1usize } else { 0usize },
            s.is_ascii(),
            d == s@.subrange(start as int, n as int),
            all_digits(d.take(i - start)),
            acc == digits_value(d.take(i - start)),
            acc <= 2147483648,
        decreases n - i,
    {
        let b = s.get_ascii(i);
        assert(b == s@[i as int] as u8);
        assert(d[i - start] == s@[i as int]);
        if b < ZERO || b > NINE {
            assert(!is_digit(d[i - start]));
            assert(!all_digits(d));
            proof {
                if !negative {
                    assert(d =~= s@);
                }
            }
            return None;
        }
        assert(is_digit(d[i - start]));
        let ghost before = d.take(i - start);
        let ghost after = d.take(i - start + 1);
        assert(after.drop_last() =~= before);
        assert(after.last() == d[i - start]);
        assert forall|k: int| 0 <= k < after.len() implies is_digit(#[trigger] after[k]) by {
            if k < before.len() {
                assert(after[k] == before[k]);
            }
        }
        acc = acc * 10 + (b - ZERO) as u64;
        i += 1;
        if acc > 2147483648 {
            proof {
                lemma_digits_value_prefix(d, i - start, d.len() as int);
                assert(d.take(d.len() as int) =~= d);
                if !negative {
                    assert(d =~= s@);
                }
            }
            return None;
        }
    }
    assert(d.take(i - start) =~= d);
    proof {
        if !negative {
            assert(d =~= s@);
        }
    }
    if negative {
        let v: i64 = -(acc as i64);
        Some(v as i32)
    } else if acc <= 2147483647 {
        Some(acc as i32)
    } else {
        None
    }
}

/// The digit of a number below ten, as text.
fn digit_text(d: u8) -> (s: &'static str)
    requires
        d < 10,
    ensures
        s@ == seq![digit_char(d as nat)],
{
    proof {
        reveal_strlit("0");
        reveal_strlit("1");
        reveal_strlit("2");
        reveal_strlit("3");
        reveal_strlit("4");
        reveal_strlit("5");
        reveal_strlit("6");
        reveal_strlit("7");
        reveal_strlit("8");
        reveal_strlit("9");
    }
    let s = match d {
        0 => "0",
        1 => "1",
        2 => "2",
        3 => "3",
        4 => "4",
        5 => "5",
        6 => "6",
        7 => "7",
        8 => "8",
        _ => "9",
    };
    assert(s@ =~= seq![digit_char(d as nat)]);
    s
}

/// Writes the digits of a number at the end of a text.
fn append_digits(out: &mut String, n: u32)
    ensures
        final(out)@ == old(out)@ + digits_of(n as nat),
    decreases n,
{
    if n >= 10 {
        append_digits(out, n / 10);
    }
    out.append(digit_text((n % 10) as u8));
    assert(out@ =~= old(out)@ + digits_of(n as nat));
}

/// Writes an integer as its canonical numeral.
pub fn int_text(i: i32) -> (s: String)
    ensures
        s@ == decimal(i as int),
{
    let mut out = String::new();
    if i < 0 {
        proof {
            reveal_strlit("-");
        }
        out.append("-");
        let magnitude: i64 = -(i as i64);
        append_digits(&mut out, magnitude as u32);
        assert(out@ =~= decimal(i as int));
    } else {
        append_digits(&mut out, i as u32);
        assert(out@ =~= decimal(i as int));
    }
    out
}

} // verus!

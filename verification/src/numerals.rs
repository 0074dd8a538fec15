//! Decimal numerals over sequences of characters: the canonical decimal
//! rendering of a number, the value of a digit string, and executable
//! 16-bit signed parsing and rendering proved against them.

use vstd::prelude::*;

verus! {

/// Whether `c` is a decimal digit.
pub open spec fn is_digit(c: char) -> bool {
    48 <= c as u32 <= 57
}

/// The numeric value of a digit character.
pub open spec fn digit_val(c: char) -> int {
    c as u32 - 48
}

/// The digit character of a value 0 through 9.
pub open spec fn digit_char(d: int) -> char
    recommends
        0 <= d <= 9,
{
    if d == 0 {
        '0'
    } else if d == 1 {
        '1'
    } else if d == 2 {
        '2'
    } else if d == 3 {
        '3'
    } else if d == 4 {
        '4'
    } else if d == 5 {
        '5'
    } else if d == 6 {
        '6'
    } else if d == 7 {
        '7'
    } else if d == 8 {
        '8'
    } else {
        '9'
    }
}

/// Whether every character of `s` is a decimal digit.
pub open spec fn all_digits(s: Seq<char>) -> bool {
    forall|i: int| 0 <= i < s.len() ==> is_digit(#[trigger] s[i])
}

/// The value of a digit string, most significant digit first.
pub open spec fn digits_val(s: Seq<char>) -> int
    decreases s.len(),
{
    if s.len() == 0 {
        0
    } else {
        digits_val(s.drop_last()) * 10 + digit_val(s.last())
    }
}

/// The canonical decimal digits of a non-negative number: no sign, no
/// leading zero except for the number 0 itself.
pub open spec fn dec_digits(n: int) -> Seq<char>
    recommends
        n >= 0,
    decreases n,
{
    if n <= 9 {
        seq![digit_char(n)]
    } else {
        dec_digits(n / 10) + seq![digit_char(n % 10)]
    }
}

/// The canonical signed decimal rendering: a leading minus sign for a
/// negative number, the digits alone otherwise.
pub open spec fn dec_signed(v: int) -> Seq<char> {
    if v < 0 {
        seq!['-'] + dec_digits(-v)
    } else {
        dec_digits(v)
    }
}

/// The 16-bit signed integer a character string denotes, if any: an
/// optional sign, then one or more decimal digits, whose value must lie
/// within the 16-bit signed range.
pub open spec fn parse_i16_spec(s: Seq<char>) -> Option<i16> {
    let neg = s.len() > 0 && s[0] == '-';
    let signed = s.len() > 0 && (s[0] == '-' || s[0] == '+');
    let ds = if signed {
        s.skip(1)
    } else {
        s
    };
    if ds.len() == 0 || !all_digits(ds) {
        None
    } else {
        let v = digits_val(ds);
        if neg && v <= 32768 {
            Some((-v) as i16)
        } else if !neg && v <= 32767 {
            Some(v as i16)
        } else {
            None
        }
    }
}

/// The value of a digit string is never negative.
pub proof fn lemma_digits_val_nonneg(s: Seq<char>)
    requires
        all_digits(s),
    ensures
        digits_val(s) >= 0,
    decreases s.len(),
{
    if s.len() > 0 {
        assert(all_digits(s.drop_last()));
        lemma_digits_val_nonneg(s.drop_last());
    }
}

/// A digit string is worth at least any of its prefixes.
pub proof fn lemma_digits_val_prefix_le(s: Seq<char>, k: int)
    requires
        all_digits(s),
        0 <= k <= s.len(),
    ensures
        digits_val(s.subrange(0, k)) <= digits_val(s),
    decreases s.len() - k,
{
    if k == s.len() {
        assert(s.subrange(0, k) =~= s);
    } else {
        let p = s.subrange(0, k);
        let q = s.subrange(0, k + 1);
        assert(q.drop_last() =~= p);
        assert(all_digits(p));
        lemma_digits_val_nonneg(p);
        assert(digits_val(q) == digits_val(p) * 10 + digit_val(q.last()));
        assert(digits_val(p) <= digits_val(p) * 10) by (nonlinear_arith)
            requires
                digits_val(p) >= 0,
        ;
        lemma_digits_val_prefix_le(s, k + 1);
    }
}

/// The canonical digits of a non-negative number are all digits, start
/// with a digit, and are worth exactly that number.
pub proof fn lemma_dec_digits_val(n: int)
    requires
        n >= 0,
    ensures
        all_digits(dec_digits(n)),
        dec_digits(n).len() >= 1,
        digits_val(dec_digits(n)) == n,
    decreases n,
{
    if n <= 9 {
        let s1 = seq![digit_char(n)];
        assert(dec_digits(n) =~= s1);
        assert(is_digit(digit_char(n)));
        assert(s1.drop_last() =~= Seq::<char>::empty());
        assert(digits_val(Seq::<char>::empty()) == 0);
        assert(digits_val(s1) == digit_val(digit_char(n)));
    } else {
        lemma_dec_digits_val(n / 10);
        let d = dec_digits(n / 10) + seq![digit_char(n % 10)];
        assert(d.drop_last() =~= dec_digits(n / 10));
        assert(d.last() == digit_char(n % 10));
        assert(is_digit(digit_char(n % 10)));
        assert(digit_val(digit_char(n % 10)) == n % 10);
        assert(digits_val(d) == (n / 10) * 10 + n % 10);
        assert((n / 10) * 10 + n % 10 == n) by (nonlinear_arith);
    }
}

/// Rendering a 16-bit signed number and parsing the result gives the
/// number back.
pub proof fn lemma_dec_parse_round_trip(v: int)
    requires
        -32768 <= v <= 32767,
    ensures
        parse_i16_spec(dec_signed(v)) == Some(v as i16),
{
    if v < 0 {
        let s = seq!['-'] + dec_digits(-v);
        lemma_dec_digits_val(-v);
        assert(s[0] == '-');
        assert(s.skip(1) =~= dec_digits(-v));
        assert(digits_val(s.skip(1)) == -v);
    } else {
        let s = dec_digits(v);
        lemma_dec_digits_val(v);
        assert(is_digit(s[0]));
        assert(s[0] != '-' && s[0] != '+');
    }
}

/// The digit character of `d`, as a one-character string.
fn digit_str(d: u8) -> (r: &'static str)
    requires
        d <= 9,
    ensures
        r@ == seq![digit_char(d as int)],
{
    proof {
        reveal_strlit("0");
        reveal_strlit("1");
        reveal_strlit("2");
        reveal_strlit("3");
        reveal_strlit("4");
        reveal_strlit("5");
        reveal_strlit("6");
        reveal_strlit("7");
        reveal_strlit("8");
        reveal_strlit("9");
    }
    let r: &'static str = match d {
        0u8 => "0",
        1u8 => "1",
        2u8 => "2",
        3u8 => "3",
        4u8 => "4",
        5u8 => "5",
        6u8 => "6",
        7u8 => "7",
        8u8 => "8",
        _ => "9",
    };
    proof {
        assert(r@ =~= seq![digit_char(d as int)]);
    }
    r
}

/// Appends the canonical decimal digits of `n` to `out`.
fn push_digits(out: &mut String, n: u32)
    ensures
        final(out)@ == old(out)@ + dec_digits(n as int),
    decreases n,
{
    if n <= 9 {
        out.append(digit_str(n as u8));
    } else {
        push_digits(out, n / 10);
        out.append(digit_str((n % 10) as u8));
        proof {
            assert(out@ =~= old(out)@ + dec_digits(n as int));
        }
    }
}

/// The canonical decimal string of a 16-bit signed number.
pub fn render_i16(v: i16) -> (r: String)
    ensures
        r@ == dec_signed(v as int),
{
    let mut out = String::new();
    if v < 0 {
        proof {
            reveal_strlit("-");
        }
        out.append("-");
        proof {
            assert(out@ =~= seq!['-']);
        }
        let mag: u32 = (-(v as i32)) as u32;
        push_digits(&mut out, mag);
    } else {
        push_digits(&mut out, v as u32);
    }
    out
}

/// Parses a 16-bit signed decimal number: exactly the strings
/// [`parse_i16_spec`] accepts, with exactly its value.
pub fn parse_i16(s: &str) -> (r: Option<i16>)
    ensures
        r == parse_i16_spec(s@),
{
    let n = s.unicode_len();
    let mut start: usize = 0;
    let mut neg = false;
    if n > 0 {
        let c0 = s.get_char(0);
        if c0 == '-' {
            neg = true;
            start = 1;
        } else if c0 == '+' {
            start = 1;
        }
    }
    let ghost ds = if start == 1 {
        s@.skip(1)
    } else {
        s@
    };
    if n == start {
        return None;
    }
    let mut acc: u32 = 0;
    let mut j: usize = start;
    while j < n
        invariant
            start <= j <= n,
            n == s@.len(),
            start == 0 || start == 1,
            start == 1 ==> n >= 1,
            (start == 1) == (s@.len() > 0 && (s@[0] == '-' || s@[0] == '+')),
            neg == (s@.len() > 0 && s@[0] == '-'),
            ds == if start == 1 {
                s@.skip(1)
            } else {
                s@
            },
            ds.len() == n - start,
            all_digits(ds.subrange(0, j - start)),
            acc == digits_val(ds.subrange(0, j - start)),
            acc <= 32768,
        decreases n - j,
    {
        let c = s.get_char(j);
        let u: u32 = c as u32;
        if u < 48 || u > 57 {
            proof {
                assert(ds[j - start] == c);
                assert(!is_digit(c));
                assert(!all_digits(ds));
            }
            return None;
        }
        let d: u32 = u - 48;
        acc = acc * 10 + d;
        proof {
            let p = ds.subrange(0, j - start);
            let q = ds.subrange(0, j + 1 - start);
            assert(q.drop_last() =~= p);
            assert(q.last() == ds[j - start]);
            assert(ds[j - start] == s@[j as int]);
        }
        j = j + 1;
        if acc > 32768 {
            proof {
                if all_digits(ds) {
                    lemma_digits_val_prefix_le(ds, j - start);
                }
            }
            return None;
        }
    }
    proof {
        assert(ds.subrange(0, n - start) =~= ds);
    }
    if neg {
        Some((-(acc as i32)) as i16)
    } else {
        if acc > 32767 {
            return None;
        }
        Some(acc as i16)
    }
}

} // verus!

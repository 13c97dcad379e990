//! Decimal and fixed-point number formatting, and markup escaping, with
//! exact `Seq<char>` specifications.

use vstd::prelude::*;

verus! {

use vstd::string::StringExecFns;
use vstd::string::StrSliceExecFns;

/// The decimal digit character for a value in `0..10`.
pub open spec fn digit_char(d: int) -> char {
    if d == 0 {
        '0'
    } else if d == 1 {
        '1'
    } else if d == 2 {
        '2'
    } else if d == 3 {
        '3'
    } else if d == 4 {
        '4'
    } else if d == 5 {
        '5'
    } else if d == 6 {
        '6'
    } else if d == 7 {
        '7'
    } else if d == 8 {
        '8'
    } else {
        '9'
    }
}

/// The decimal representation of a natural number, most significant digit
/// first, with no leading zeros (a lone `0` for zero).
pub open spec fn dec_nat(n: nat) -> Seq<char>
    decreases n,
{
    if n < 10 {
        seq![digit_char(n as int)]
    } else {
        dec_nat(n / 10) + seq![digit_char((n % 10) as int)]
    }
}

/// A single decimal digit as a string slice.
pub fn digit_str(d: u64) -> (r: &'static str)
    requires
        d < 10,
    ensures
        r@ == seq![digit_char(d as int)],
{
    if d == 0 {
        let s = "0";
        proof {
            reveal_strlit("0");
            assert(s@ =~= seq![digit_char(d as int)]);
        }
        s
    } else if d == 1 {
        let s = "1";
        proof {
            reveal_strlit("1");
            assert(s@ =~= seq![digit_char(d as int)]);
        }
        s
    } else if d == 2 {
        let s = "2";
        proof {
            reveal_strlit("2");
            assert(s@ =~= seq![digit_char(d as int)]);
        }
        s
    } else if d == 3 {
        let s = "3";
        proof {
            reveal_strlit("3");
            assert(s@ =~= seq![digit_char(d as int)]);
        }
        s
    } else if d == 4 {
        let s = "4";
        proof {
            reveal_strlit("4");
            assert(s@ =~= seq![digit_char(d as int)]);
        }
        s
    } else if d == 5 {
        let s = "5";
        proof {
            reveal_strlit("5");
            assert(s@ =~= seq![digit_char(d as int)]);
        }
        s
    } else if d == 6 {
        let s = "6";
        proof {
            reveal_strlit("6");
            assert(s@ =~= seq![digit_char(d as int)]);
        }
        s
    } else if d == 7 {
        let s = "7";
        proof {
            reveal_strlit("7");
            assert(s@ =~= seq![digit_char(d as int)]);
        }
        s
    } else if d == 8 {
        let s = "8";
        proof {
            reveal_strlit("8");
            assert(s@ =~= seq![digit_char(d as int)]);
        }
        s
    } else {
        let s = "9";
        proof {
            reveal_strlit("9");
            assert(s@ =~= seq![digit_char(d as int)]);
        }
        s
    }
}

/// The decimal representation of an unsigned value.
pub fn dec_u64(n: u64) -> (r: String)
    ensures
        r@ == dec_nat(n as nat),
    decreases n,
{
    if n < 10 {
        String::from_str(digit_str(n))
    } else {
        let mut r = dec_u64(n / 10);
        r.append(digit_str(n % 10));
        r
    }
}

/// The decimal representation of an integer: a leading minus sign for
/// negative values, then the digits of the magnitude.
pub open spec fn dec_int(v: int) -> Seq<char> {
    if v < 0 {
        seq!['-'] + dec_nat((-v) as nat)
    } else {
        dec_nat(v as nat)
    }
}

/// The decimal representation of a signed value.
pub fn dec_i64(v: i64) -> (r: String)
    requires
        v > i64::MIN,
    ensures
        r@ == dec_int(v as int),
{
    if v >= 0 {
        let r = dec_u64(v as u64);
        proof {
            assert(r@ =~= dec_int(v as int));
        }
        r
    } else {
        let mut r = String::from_str("-");
        let m = dec_u64((-v) as u64);
        r.append(m.as_str());
        proof {
            reveal_strlit("-");
            assert("-"@ =~= seq!['-']);
            assert(r@ =~= dec_int(v as int));
        }
        r
    }
}

/// A magnitude in hundredths rendered as a decimal, with trailing zeros of
/// the fractional part (and a bare trailing dot) left out.
pub open spec fn fixed2_nat(m: nat) -> Seq<char> {
    let q = m / 100;
    let f = m % 100;
    if f == 0 {
        dec_nat(q)
    } else if f % 10 == 0 {
        dec_nat(q) + seq!['.', digit_char((f / 10) as int)]
    } else {
        dec_nat(q) + seq!['.', digit_char((f / 10) as int), digit_char((f % 10) as int)]
    }
}

/// A value in hundredths rendered as a signed decimal.
pub open spec fn fixed2(v: int) -> Seq<char> {
    if v < 0 {
        seq!['-'] + fixed2_nat((-v) as nat)
    } else {
        fixed2_nat(v as nat)
    }
}

/// Renders a non-negative fixed-point value held in hundredths.
pub fn fmt_fixed2_u(m: u64) -> (r: String)
    ensures
        r@ == fixed2_nat(m as nat),
{
    let q = m / 100;
    let f = m % 100;
    let mut r = dec_u64(q);
    if f == 0 {
    } else if f % 10 == 0 {
        r.append(".");
        r.append(digit_str(f / 10));
    } else {
        r.append(".");
        r.append(digit_str(f / 10));
        r.append(digit_str(f % 10));
    }
    proof {
        reveal_strlit(".");
        assert("."@ =~= seq!['.']);
        assert(r@ =~= fixed2_nat(m as nat));
    }
    r
}

/// Renders a signed fixed-point value held in hundredths.
pub fn fmt_fixed2(v: i64) -> (r: String)
    requires
        v > i64::MIN,
    ensures
        r@ == fixed2(v as int),
{
    if v >= 0 {
        let r = fmt_fixed2_u(v as u64);
        proof {
            assert(r@ =~= fixed2(v as int));
        }
        r
    } else {
        let mut r = String::from_str("-");
        let m = fmt_fixed2_u((-v) as u64);
        r.append(m.as_str());
        proof {
            reveal_strlit("-");
            assert("-"@ =~= seq!['-']);
            assert(r@ =~= fixed2(v as int));
        }
        r
    }
}

/// A value in tenths rendered with exactly one decimal place.
pub open spec fn tenths_str(t: nat) -> Seq<char> {
    dec_nat(t / 10) + seq!['.', digit_char((t % 10) as int)]
}

/// Renders a value held in tenths with one decimal place.
pub fn fmt_tenths(t: u64) -> (r: String)
    ensures
        r@ == tenths_str(t as nat),
{
    let mut r = dec_u64(t / 10);
    r.append(".");
    r.append(digit_str(t % 10));
    proof {
        reveal_strlit(".");
        assert("."@ =~= seq!['.']);
        assert(r@ =~= tenths_str(t as nat));
    }
    r
}

/// A value in `0..100` rendered as exactly two digits.
pub open spec fn two_digits(v: int) -> Seq<char> {
    seq![digit_char(v / 10), digit_char(v % 10)]
}

/// Renders a value below one hundred as two zero-padded digits.
pub fn fmt_two_digits(v: u64) -> (r: String)
    requires
        v < 100,
    ensures
        r@ == two_digits(v as int),
{
    let mut r = String::from_str(digit_str(v / 10));
    r.append(digit_str(v % 10));
    proof {
        assert(r@ =~= two_digits(v as int));
    }
    r
}

/// How a single character is embedded in markup text: the five characters
/// with a meaning in markup become entities, every other character stands
/// for itself.
pub open spec fn escape_char(c: char) -> Seq<char> {
    if c == '&' {
        seq!['&', 'a', 'm', 'p', ';']
    } else if c == '<' {
        seq!['&', 'l', 't', ';']
    } else if c == '>' {
        seq!['&', 'g', 't', ';']
    } else if c == '"' {
        seq!['&', 'q', 'u', 'o', 't', ';']
    } else if c == '\'' {
        seq!['&', '#', '3', '9', ';']
    } else {
        seq![c]
    }
}

/// A text escaped for embedding in markup, character by character.
pub open spec fn escape_seq(s: Seq<char>) -> Seq<char>
    decreases s.len(),
{
    if s.len() == 0 {
        Seq::empty()
    } else {
        escape_seq(s.drop_last()) + escape_char(s.last())
    }
}

/// Appends one character to a string.
///
/// Relies on std's `String::push`, which appends the given character.
#[verifier::external_body]
fn push_char(s: &mut String, c: char)
    ensures
        final(s)@ == old(s)@ + seq![c],
{
    s.push(c);
}

/// Escapes a text for embedding in markup.
pub fn escape_text(s: &str) -> (r: String)
    ensures
        r@ == escape_seq(s@),
{
    let n = s.unicode_len();
    let mut r = String::new();
    let mut i: usize = 0;
    while i < n
        invariant
            i <= n,
            n == s@.len(),
            r@ == escape_seq(s@.take(i as int)),
        decreases n - i,
    {
        let c = s.get_char(i);
        if c == '&' {
            r.append("&amp;");
            proof {
                reveal_strlit("&amp;");
            }
        } else if c == '<' {
            r.append("&lt;");
            proof {
                reveal_strlit("&lt;");
            }
        } else if c == '>' {
            r.append("&gt;");
            proof {
                reveal_strlit("&gt;");
            }
        } else if c == '"' {
            r.append("&quot;");
            proof {
                reveal_strlit("&quot;");
            }
        } else if c == '\'' {
            r.append("&#39;");
            proof {
                reveal_strlit("&#39;");
            }
        } else {
            push_char(&mut r, c);
        }
        proof {
            assert(s@.take(i + 1).drop_last() =~= s@.take(i as int));
            assert(s@.take(i + 1).last() == s@[i as int]);
            assert(r@ =~= escape_seq(s@.take(i + 1)));
        }
        i = i + 1;
    }
    proof {
        assert(s@.take(n as int) =~= s@);
    }
    r
}

/// Whether two string slices hold the same characters.
pub fn str_eq(a: &str, b: &str) -> (r: bool)
    ensures
        r == (a@ == b@),
{
    let na = a.unicode_len();
    let nb = b.unicode_len();
    if na != nb {
        return false;
    }
    let mut i: usize = 0;
    while i < na
        invariant
            i <= na,
            na == a@.len(),
            na == b@.len(),
            forall|j: int| 0 <= j < i ==> a@[j] == b@[j],
        decreases na - i,
    {
        if a.get_char(i) != b.get_char(i) {
            return false;
        }
        i = i + 1;
    }
    proof {
        assert(a@ =~= b@);
    }
    true
}

} // verus!

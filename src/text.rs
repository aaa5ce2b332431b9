//! String helpers shared by the query builder, the cursor codec and the client.

use vstd::prelude::*;
use vstd::string::*;
use vstd::utf8::*;

verus! {

/// Relies on `String::push`: appends one character.
#[verifier::external_body]
pub(crate) fn push_char(s: &mut String, c: char)
    ensures
        final(s)@ == old(s)@.push(c),
{
    s.push(c)
}

/// `a` and `b` hold the same characters.
pub fn str_eq(a: &str, b: &str) -> (r: bool)
    ensures
        r == (a@ == b@),
{
    let x = a.as_bytes();
    let y = b.as_bytes();
    proof {
        encode_utf8_decode_utf8(a@);
        encode_utf8_decode_utf8(b@);
    }
    if x.len() != y.len() {
        return false;
    }
    let mut i: usize = 0;
    while i < x.len()
        invariant
            x@ == encode_utf8(a@),
            y@ == encode_utf8(b@),
            x@.len() == y@.len(),
            i <= x@.len(),
            forall|j: int| 0 <= j < i ==> x@[j] == y@[j],
        decreases x@.len() - i,
    {
        if x[i] != y[i] {
            assert(x@[i as int] != y@[i as int]);
            assert(x@ != y@);
            return false;
        }
        i = i + 1;
    }
    assert(x@ =~= y@);
    true
}


/// The character of a decimal digit `d < 10`.
pub open spec fn digit_char(d: int) -> char {
    (d + 48) as char
}

pub open spec fn is_digit(c: char) -> bool {
    48 <= c as int && c as int <= 57
}

pub open spec fn digit_value(c: char) -> int {
    c as int - 48
}

/// Decimal digits of `n`, most significant first, without leading zeros.
pub open spec fn nat_decimal(n: nat) -> Seq<char>
    decreases n,
{
    if n < 10 {
        seq![digit_char(n as int)]
    } else {
        nat_decimal(n / 10).push(digit_char((n % 10) as int))
    }
}

/// Decimal text of an integer, with a leading `-` when it is negative.
pub open spec fn int_decimal(i: int) -> Seq<char> {
    if i < 0 {
        seq!['-'] + nat_decimal((-i) as nat)
    } else {
        nat_decimal(i as nat)
    }
}

/// A non-empty run of decimal digits.
pub open spec fn all_digits(s: Seq<char>) -> bool {
    s.len() > 0 && forall|i: int| 0 <= i < s.len() ==> is_digit(#[trigger] s[i])
}

pub open spec fn digits_value(s: Seq<char>) -> int
    decreases s.len(),
{
    if s.len() == 0 {
        0
    } else {
        10 * digits_value(s.drop_last()) + digit_value(s.last())
    }
}

/// The integer that a decimal text denotes: an optional sign, then at least one digit.
pub open spec fn decimal_value(s: Seq<char>) -> Option<int> {
    if s.len() > 0 && (s[0] == '-' || s[0] == '+') {
        if all_digits(s.drop_first()) {
            if s[0] == '-' {
                Some(-digits_value(s.drop_first()))
            } else {
                Some(digits_value(s.drop_first()))
            }
        } else {
            None
        }
    } else if all_digits(s) {
        Some(digits_value(s))
    } else {
        None
    }
}

/// What parsing a decimal text as an `i64` yields: its value where that fits.
pub open spec fn i64_of_decimal(s: Seq<char>) -> Option<i64> {
    match decimal_value(s) {
        Some(v) => if i64::MIN <= v <= i64::MAX {
            Some(v as i64)
        } else {
            None
        },
        None => None,
    }
}

proof fn lemma_nat_decimal_digits(n: nat)
    ensures
        all_digits(nat_decimal(n)),
        digits_value(nat_decimal(n)) == n,
        nat_decimal(n)[0] != '-' && nat_decimal(n)[0] != '+',
    decreases n,
{
    if n >= 10 {
        lemma_nat_decimal_digits(n / 10);
        let s = nat_decimal(n);
        assert(s.drop_last() =~= nat_decimal(n / 10));
        assert(n == 10 * (n / 10) + n % 10) by (nonlinear_arith);
        assert(digit_value(s.last()) == n % 10);
        assert(digits_value(s) == 10 * digits_value(s.drop_last()) + digit_value(s.last()));
        assert forall|i: int| 0 <= i < s.len() implies is_digit(#[trigger] s[i]) by {
            if i < s.len() - 1 {
                assert(s[i] == nat_decimal(n / 10)[i]);
            }
        }
    } else {
        assert(nat_decimal(n).drop_last() =~= Seq::<char>::empty());
        assert(digit_value(nat_decimal(n).last()) == n);
        assert(digits_value(Seq::<char>::empty()) == 0);
        assert(digits_value(nat_decimal(n)) == 10 * digits_value(nat_decimal(n).drop_last())
            + digit_value(nat_decimal(n).last()));
    }
}

/// Reading back the decimal text of an integer gives that integer.
pub proof fn lemma_decimal_round_trip(i: int)
    ensures
        decimal_value(int_decimal(i)) == Some(i),
{
    if i < 0 {
        lemma_nat_decimal_digits((-i) as nat);
        assert((seq!['-'] + nat_decimal((-i) as nat)).drop_first() =~= nat_decimal((-i) as nat));
    } else {
        lemma_nat_decimal_digits(i as nat);
    }
}

fn digit_char_exec(d: u64) -> (c: char)
    requires
        d < 10,
    ensures
        c == digit_char(d as int),
{
    ((d as u8) + 48u8) as char
}

pub(crate) fn push_nat_decimal(s: &mut String, n: u64)
    ensures
        final(s)@ == old(s)@ + nat_decimal(n as nat),
    decreases n,
{
    if n >= 10 {
        push_nat_decimal(s, n / 10);
    }
    let c = digit_char_exec(n % 10);
    push_char(s, c);
    if n >= 10 {
        assert(final(s)@ =~= old(s)@ + nat_decimal(n as nat));
    } else {
        assert(final(s)@ =~= old(s)@ + nat_decimal(n as nat));
    }
}

/// Decimal text of `i`, as `i.to_string()` writes it.
pub fn i64_to_decimal(i: i64) -> (r: String)
    ensures
        r@ == int_decimal(i as int),
{
    let mut s = String::new();
    if i < 0 {
        push_char(&mut s, '-');
        let mag: u64 = ((-(i + 1)) as u64) + 1;
        push_nat_decimal(&mut s, mag);
        assert(s@ =~= int_decimal(i as int));
    } else {
        push_nat_decimal(&mut s, i as u64);
        assert(s@ =~= int_decimal(i as int));
    }
    s
}

pub(crate) proof fn lemma_digits_value_nonneg(s: Seq<char>)
    requires
        forall|i: int| 0 <= i < s.len() ==> is_digit(#[trigger] s[i]),
    ensures
        digits_value(s) >= 0,
    decreases s.len(),
{
    if s.len() > 0 {
        assert forall|i: int| 0 <= i < s.drop_last().len() implies is_digit(#[trigger] s.drop_last()[i]) by {
            assert(s.drop_last()[i] == s[i]);
        }
        lemma_digits_value_nonneg(s.drop_last());
    }
}

/// Extending a run of digits never lowers its value.
proof fn lemma_digits_value_grows(s: Seq<char>, k: int)
    requires
        forall|i: int| 0 <= i < s.len() ==> is_digit(#[trigger] s[i]),
        0 <= k <= s.len(),
    ensures
        digits_value(s) >= digits_value(s.subrange(0, k)),
    decreases s.len() - k,
{
    if k < s.len() {
        lemma_digits_value_grows(s, k + 1);
        let t = s.subrange(0, k + 1);
        assert(t.drop_last() =~= s.subrange(0, k));
        assert forall|i: int| 0 <= i < s.subrange(0, k).len() implies is_digit(#[trigger] s.subrange(0, k)[i]) by {
            assert(s.subrange(0, k)[i] == s[i]);
        }
        lemma_digits_value_nonneg(s.subrange(0, k));
    } else {
        assert(s.subrange(0, k) =~= s);
    }
}

/// Parses a decimal `i64` (an optional sign, then digits), as `str::parse::<i64>` does.
pub fn parse_i64(s: &str) -> (r: Option<i64>)
    ensures
        r == i64_of_decimal(s@),
{
    let n = s.unicode_len();
    if n == 0 {
        return None;
    }
    let first = s.get_char(0);
    let negative = first == '-';
    let start: usize = if first == '-' || first == '+' { 1 } else { 0 };
    if start == n {
        return None;
    }
    let ghost digits = s@.subrange(start as int, n as int);
    let limit: u64 = if negative { 9223372036854775808u64 } else { 9223372036854775807u64 };
    let mut acc: u64 = 0;
    let mut i: usize = start;
    while i < n
        invariant
            n == s@.len(),
            start <= i <= n,
            start < n,
            start <= 1,
            start == 1 <==> (s@[0] == '-' || s@[0] == '+'),
            negative == (s@[0] == '-'),
            digits == s@.subrange(start as int, n as int),
            forall|j: int| start <= j < i ==> is_digit(#[trigger] s@[j]),
            acc as int == digits_value(s@.subrange(start as int, i as int)),
            acc <= limit,
            limit <= 9223372036854775808u64,
            limit >= 9223372036854775807u64,
            negative ==> limit == 9223372036854775808u64,
            !negative ==> limit == 9223372036854775807u64,
        decreases n - i,
    {
        let c = s.get_char(i);
        if !('0' <= c && c <= '9') {
            proof {
                assert(!is_digit(digits[i - start]));
                if start == 1 {
                    assert(s@.drop_first() =~= digits);
                } else {
                    assert(s@ =~= digits);
                }
            }
            return None;
        }
        let d: u64 = (c as u32 - 48) as u64;
        assert(d <= 9);
        let ghost prefix = s@.subrange(start as int, i as int + 1);
        assert(prefix.drop_last() =~= s@.subrange(start as int, i as int));
        if acc > (limit - d) / 10 {
            proof {
                assert(10 * acc + d > limit) by (nonlinear_arith)
                    requires acc > (limit - d) / 10, d <= 9, limit >= 9;
                assert(prefix.last() == c);
                assert(digits_value(prefix) == 10 * digits_value(prefix.drop_last()) + digit_value(prefix.last()));
                if all_digits(digits) {
                    lemma_digits_value_grows(digits, i - start + 1);
                    assert(digits.subrange(0, i - start + 1) =~= prefix);
                }
                if start == 1 {
                    assert(s@.drop_first() =~= digits);
                } else {
                    assert(s@ =~= digits);
                }
            }
            return None;
        }
        acc = acc * 10 + d;
        i = i + 1;
    }
    proof {
        assert(s@.subrange(start as int, n as int) =~= digits);
        if start == 1 {
            assert(s@.drop_first() =~= digits);
        } else {
            assert(s@ =~= digits);
        }
    }
    if negative {
        if acc == 9223372036854775808u64 {
            Some(i64::MIN)
        } else {
            Some(-(acc as i64))
        }
    } else {
        Some(acc as i64)
    }
}

} // verus!

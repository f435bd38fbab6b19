use vstd::prelude::*;

verus! {

pub open spec fn is_digit(c: char) -> bool {
    '0' <= c <= '9'
}

pub open spec fn digit_value(c: char) -> int {
    c as int - '0' as int
}

/// The number that the decimal digits `d` write.
pub open spec fn digits_value(d: Seq<char>) -> int
    decreases d.len(),
{
    if d.len() == 0 {
        0
    } else {
        digits_value(d.drop_last()) * 10 + digit_value(d.last())
    }
}

pub open spec fn all_digits(d: Seq<char>) -> bool {
    forall|i: int| 0 <= i < d.len() ==> is_digit(#[trigger] d[i])
}

/// A signed decimal integer: an optional `+` or `-`, then one or more ASCII
/// digits, and nothing else; its value must fit in an `i32`.
pub open spec fn parse_int(s: Seq<char>) -> Option<int> {
    let negative = s.len() > 0 && s[0] == '-';
    let signed = s.len() > 0 && (s[0] == '-' || s[0] == '+');
    let d = if signed {
        s.drop_first()
    } else {
        s
    };
    if d.len() == 0 || !all_digits(d) {
        None
    } else {
        let v = if negative {
            -digits_value(d)
        } else {
            digits_value(d)
        };
        if i32::MIN <= v <= i32::MAX {
            Some(v)
        } else {
            None
        }
    }
}

/// Digits beyond this value cannot bring a magnitude back into range.
const CAP: i64 = 2147483649;

proof fn lemma_digits_nonneg(d: Seq<char>)
    requires
        all_digits(d),
    ensures
        digits_value(d) >= 0,
    decreases d.len(),
{
    if d.len() > 0 {
        lemma_digits_nonneg(d.drop_last());
    }
}

/// The integer that `s` writes, if it writes one that fits in an `i32`.
pub fn parse_i32(s: &Vec<char>) -> (r: Option<i32>)
    ensures
        r matches Some(v) ==> parse_int(s@) == Some(v as int),
        r is None ==> parse_int(s@) is None,
{
    let n = s.len();
    let negative = n > 0 && s[0] == '-';
    let start: usize = if n > 0 && (s[0] == '-' || s[0] == '+') {
        1
    } else {
        0
    };
    let ghost d = s@.skip(start as int);
    let ghost signed = s@.len() > 0 && (s@[0] == '-' || s@[0] == '+');
    assert(signed <==> start == 1);
    assert(start == 1 ==> d =~= s@.drop_first());
    assert(start == 0 ==> d =~= s@);
    assert(d == if signed { s@.drop_first() } else { s@ });
    if start == n {
        return None;
    }
    let mut m: i64 = 0;
    let mut i = start;
    while i < n
        invariant
            start <= i <= n,
            n == s.len(),
            d == s@.skip(start as int),
            signed == (s@.len() > 0 && (s@[0] == '-' || s@[0] == '+')),
            d == (if signed { s@.drop_first() } else { s@ }),
            all_digits(d.take(i - start)),
            0 <= m <= CAP,
            m == if digits_value(d.take(i - start)) < CAP {
                digits_value(d.take(i - start))
            } else {
                CAP as int
            },
        decreases n - i,
    {
        let c = s[i];
        if !('0' <= c && c <= '9') {
            assert(!is_digit(d[i - start]));
            assert(!all_digits(d));
            return None;
        }
        let ghost p = d.take(i - start);
        let ghost q = d.take(i + 1 - start);
        assert(q.drop_last() == p);
        assert(q.last() == c);
        assert(all_digits(q)) by {
            assert forall|j: int| 0 <= j < q.len() implies is_digit(#[trigger] q[j]) by {
                if j < p.len() {
                    assert(q[j] == p[j]);
                }
            }
        }
        let dv = (c as u32 - '0' as u32) as i64;
        proof {
            lemma_digits_nonneg(p);
            assert(digits_value(q) == digits_value(p) * 10 + dv);
            if digits_value(p) >= CAP {
                assert(digits_value(p) * 10 >= CAP) by (nonlinear_arith)
                    requires
                        digits_value(p) >= CAP,
                ;
            }
        }
        let next = m * 10 + dv;
        m = if next < CAP {
            next
        } else {
            CAP
        };
        i += 1;
    }
    assert(d.take(n - start) == d);
    let v: i64 = if negative {
        -m
    } else {
        m
    };
    if -2147483648 <= v && v <= 2147483647 {
        Some(v as i32)
    } else {
        None
    }
}

/// The decimal digits of `n`, without leading zeros.
pub open spec fn decimal_nat(n: nat) -> Seq<char>
    decreases n,
{
    if n < 10 {
        seq![('0' as u32 + n) as char]
    } else {
        decimal_nat(n / 10).push(('0' as u32 + n % 10) as char)
    }
}

/// How `n` is written in decimal: a `-` before the digits of a negative value.
pub open spec fn decimal(n: int) -> Seq<char> {
    if n < 0 {
        seq!['-'] + decimal_nat((-n) as nat)
    } else {
        decimal_nat(n as nat)
    }
}

/// The ASCII digit for `d`.
fn digit_char(d: u32) -> (r: char)
    requires
        d < 10,
    ensures
        r == ('0' as u32 + d) as char,
{
    match d {
        0 => '0',
        1 => '1',
        2 => '2',
        3 => '3',
        4 => '4',
        5 => '5',
        6 => '6',
        7 => '7',
        8 => '8',
        _ => '9',
    }
}

fn push_decimal_nat(n: u32, out: &mut String)
    ensures
        final(out)@ == old(out)@ + decimal_nat(n as nat),
    decreases n,
{
    if n >= 10 {
        push_decimal_nat(n / 10, out);
    }
    out.push(digit_char(n % 10));
}

/// `n` written in decimal.
pub fn decimal_string(n: i32) -> (r: String)
    ensures
        r@ == decimal(n as int),
{
    let mut out = String::new();
    if n < 0 {
        out.push('-');
        let m: u32 = (-(n as i64)) as u32;
        push_decimal_nat(m, &mut out);
    } else {
        push_decimal_nat(n as u32, &mut out);
    }
    out
}

} // verus!

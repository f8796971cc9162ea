//! Decimal representation of unsigned integers, for timestamps and for the
//! length prefixes of the record format.

use vstd::prelude::*;
use vstd::string::StrSliceExecFns;
use vstd::string::StringExecFns;

verus! {

/// The character for one decimal digit.
pub open spec fn digit_char(d: nat) -> char {
    if d == 0 {
        '0'
    } else if d == 1 {
        '1'
    } else if d == 2 {
        '2'
    } else if d == 3 {
        '3'
    } else if d == 4 {
        '4'
    } else if d == 5 {
        '5'
    } else if d == 6 {
        '6'
    } else if d == 7 {
        '7'
    } else if d == 8 {
        '8'
    } else {
        '9'
    }
}

/// The value of one decimal digit character; ten for anything else.
pub open spec fn digit_value(c: char) -> nat {
    if c == '0' {
        0
    } else if c == '1' {
        1
    } else if c == '2' {
        2
    } else if c == '3' {
        3
    } else if c == '4' {
        4
    } else if c == '5' {
        5
    } else if c == '6' {
        6
    } else if c == '7' {
        7
    } else if c == '8' {
        8
    } else if c == '9' {
        9
    } else {
        10
    }
}

/// Whether the character is a decimal digit.
pub open spec fn is_digit(c: char) -> bool {
    digit_value(c) < 10
}

/// The canonical decimal representation of `n`: no sign, no leading zero
/// except for zero itself.
pub open spec fn dec_rep(n: nat) -> Seq<char>
    decreases n,
{
    if n < 10 {
        seq![digit_char(n)]
    } else {
        dec_rep(n / 10).push(digit_char(n % 10))
    }
}

/// Every character of a decimal representation is a digit, and the first is
/// zero only when the number is zero.
pub proof fn lemma_dec_rep_digits(n: nat)
    ensures
        dec_rep(n).len() >= 1,
        forall|i: int| 0 <= i < dec_rep(n).len() ==> is_digit(#[trigger] dec_rep(n)[i]),
        n > 0 ==> dec_rep(n)[0] != '0',
        n == 0 ==> dec_rep(n) == seq!['0'],
    decreases n,
{
    if n >= 10 {
        lemma_dec_rep_digits(n / 10);
        assert forall|i: int| 0 <= i < dec_rep(n).len() implies is_digit(
            #[trigger] dec_rep(n)[i],
        ) by {
            if i < dec_rep(n / 10).len() {
                assert(dec_rep(n)[i] == dec_rep(n / 10)[i]);
            } else {
                assert(dec_rep(n)[i] == digit_char(n % 10));
            }
        }
        assert(dec_rep(n)[0] == dec_rep(n / 10)[0]);
    }
}

/// Powers of ten.
pub open spec fn pow10(k: nat) -> nat
    decreases k,
{
    if k == 0 {
        1
    } else {
        10 * pow10((k - 1) as nat)
    }
}

/// The state a left-to-right decimal scan reaches from accumulator `acc` at
/// position `i`: the value read and the position of the first non-digit.
pub open spec fn parse_dec_rec(s: Seq<char>, i: int, acc: nat) -> (nat, int)
    decreases s.len() - i,
{
    if 0 <= i < s.len() && is_digit(s[i]) {
        parse_dec_rec(s, i + 1, acc * 10 + digit_value(s[i]))
    } else {
        (acc, i)
    }
}

/// Reads a decimal number at position `i`: at least one digit, value and
/// end position, or nothing when no digit starts there.
pub open spec fn parse_dec(s: Seq<char>, i: int) -> Option<(nat, int)> {
    if 0 <= i < s.len() && is_digit(s[i]) {
        Some(parse_dec_rec(s, i, 0))
    } else {
        None
    }
}

/// A decimal scan never loses what it has accumulated.
pub proof fn lemma_parse_dec_rec_ge(s: Seq<char>, i: int, acc: nat)
    ensures
        parse_dec_rec(s, i, acc).0 >= acc,
    decreases s.len() - i,
{
    if 0 <= i < s.len() && is_digit(s[i]) {
        lemma_parse_dec_rec_ge(s, i + 1, acc * 10 + digit_value(s[i]));
        assert(acc * 10 + digit_value(s[i]) >= acc) by (nonlinear_arith);
    }
}

/// A decimal scan never moves backwards.
pub proof fn lemma_parse_dec_rec_end_ge(s: Seq<char>, i: int, acc: nat)
    ensures
        parse_dec_rec(s, i, acc).1 >= i,
    decreases s.len() - i,
{
    if 0 <= i < s.len() && is_digit(s[i]) {
        lemma_parse_dec_rec_end_ge(s, i + 1, acc * 10 + digit_value(s[i]));
    }
}

/// The value of a digit's character is the digit.
pub proof fn lemma_digit_char_value(d: nat)
    requires
        d < 10,
    ensures
        digit_value(digit_char(d)) == d,
{
}

/// Scanning over the decimal representation of `n` multiplies the
/// accumulator by the width scanned and adds `n`.
pub proof fn lemma_scan_dec_rep(s: Seq<char>, i: int, acc: nat, n: nat)
    requires
        0 <= i,
        i + dec_rep(n).len() <= s.len(),
        s.subrange(i, i + dec_rep(n).len()) == dec_rep(n),
    ensures
        parse_dec_rec(s, i, acc) == parse_dec_rec(
            s,
            i + dec_rep(n).len(),
            acc * pow10(dec_rep(n).len()) + n,
        ),
    decreases n,
{
    if n < 10 {
        assert(s[i] == dec_rep(n)[0]);
        assert(s[i] == digit_char(n));
        lemma_digit_char_value(n);
        assert(parse_dec_rec(s, i, acc) == parse_dec_rec(s, i + 1, acc * 10 + n));
        assert(pow10(0) == 1);
        assert(pow10(1) == 10 * pow10(0));
    } else {
        let rep = dec_rep(n);
        let head = dec_rep(n / 10);
        let lp = head.len() as int;
        assert(rep == head.push(digit_char(n % 10)));
        assert(s.subrange(i, i + lp) =~= head) by {
            assert forall|k: int| 0 <= k < lp implies s.subrange(i, i + lp)[k] == head[k] by {
                assert(s[i + k] == s.subrange(i, i + rep.len())[k]);
                assert(rep[k] == head[k]);
            }
        }
        lemma_scan_dec_rep(s, i, acc, n / 10);
        let mid = acc * pow10(head.len()) + n / 10;
        assert(s[i + lp] == rep[lp]);
        assert(rep[lp] == digit_char(n % 10));
        lemma_digit_char_value((n % 10) as nat);
        assert(is_digit(s[i + lp]));
        assert(parse_dec_rec(s, i + lp, mid) == parse_dec_rec(s, i + lp + 1, mid * 10 + n % 10));
        assert(mid * 10 + n % 10 == acc * pow10(rep.len()) + n) by {
            assert((acc * pow10(head.len()) + n / 10) * 10 == acc * pow10(head.len()) * 10 + (n
                / 10) * 10) by (nonlinear_arith);
            vstd::arithmetic::mul::lemma_mul_is_associative(
                acc as int,
                pow10(head.len()) as int,
                10,
            );
            assert(pow10(rep.len()) == 10 * pow10(head.len()));
            vstd::arithmetic::mul::lemma_mul_is_commutative(pow10(head.len()) as int, 10);
            vstd::arithmetic::div_mod::lemma_fundamental_div_mod(n as int, 10);
        }
    }
}

/// Reading a decimal representation followed by a non-digit yields exactly
/// the represented number.
pub proof fn lemma_parse_dec_of_rep(s: Seq<char>, i: int, n: nat)
    requires
        0 <= i,
        i + dec_rep(n).len() <= s.len(),
        s.subrange(i, i + dec_rep(n).len()) == dec_rep(n),
        i + dec_rep(n).len() < s.len() ==> !is_digit(s[i + dec_rep(n).len()]),
    ensures
        parse_dec(s, i) == Some((n, i + dec_rep(n).len())),
{
    lemma_dec_rep_digits(n);
    assert(s[i] == dec_rep(n)[0]);
    lemma_scan_dec_rep(s, i, 0, n);
    let end = i + dec_rep(n).len();
    assert(0 * pow10(dec_rep(n).len()) + n == n) by (nonlinear_arith);
    assert(parse_dec_rec(s, end, n) == (n, end));
}

/// One digit as a string slice.
fn digit_str(d: u64) -> (r: &'static str)
    requires
        d < 10,
    ensures
        r@ == seq![digit_char(d as nat)],
{
    proof {
        reveal_strlit("0");
        reveal_strlit("1");
        reveal_strlit("2");
        reveal_strlit("3");
        reveal_strlit("4");
        reveal_strlit("5");
        reveal_strlit("6");
        reveal_strlit("7");
        reveal_strlit("8");
        reveal_strlit("9");
    }
    let r: &'static str = if d == 0 {
        "0"
    } else if d == 1 {
        "1"
    } else if d == 2 {
        "2"
    } else if d == 3 {
        "3"
    } else if d == 4 {
        "4"
    } else if d == 5 {
        "5"
    } else if d == 6 {
        "6"
    } else if d == 7 {
        "7"
    } else if d == 8 {
        "8"
    } else {
        "9"
    };
    proof {
        assert(r@ =~= seq![digit_char(d as nat)]);
    }
    r
}

/// Formats `n` in decimal.
pub fn u64_to_string(n: u64) -> (r: String)
    ensures
        r@ == dec_rep(n as nat),
    decreases n,
{
    if n < 10 {
        String::from_str(digit_str(n))
    } else {
        let mut r = u64_to_string(n / 10);
        r.append(digit_str(n % 10));
        proof {
            assert(r@ =~= dec_rep(n as nat));
        }
        r
    }
}

/// Reads a decimal number from position `i` of a string: the value and the
/// position just past its digits.  `None` with no digit at `i`, and `None`
/// too when the number does not fit in 64 bits, in which case it certainly
/// exceeds the length of any string held in memory.
pub fn parse_u64_at(s: &str, i: usize) -> (r: Option<(u64, usize)>)
    ensures
        match parse_dec(s@, i as int) {
            Option::None => r is None,
            Option::Some((v, j)) => match r {
                Option::Some((rv, rj)) => rv == v && rj == j && v <= u64::MAX,
                Option::None => v > u64::MAX,
            },
        },
{
    let n = s.unicode_len();
    if i >= n {
        return None;
    }
    if digit_of(s.get_char(i)) == 10 {
        return None;
    }
    let mut j: usize = i;
    let mut acc: u64 = 0;
    let mut overflow = false;
    let mut stop = false;
    while !stop && j < n
        invariant
            i <= j <= n,
            n == s@.len(),
            parse_dec_rec(s@, i as int, 0) == parse_dec_rec(s@, j as int, acc as nat),
            stop && !overflow ==> j == n || !is_digit(s@[j as int]),
            overflow ==> parse_dec_rec(s@, i as int, 0).0 > u64::MAX,
            overflow ==> stop,
        decreases (n - j) + (if stop { 0int } else { 1int }),
    {
        let c = s.get_char(j);
        let d = digit_of(c);
        if d == 10 {
            stop = true;
        } else if acc > (u64::MAX - d) / 10 {
            proof {
                let sv = parse_dec_rec(s@, j as int, acc as nat);
                assert(sv == parse_dec_rec(s@, j as int + 1, (acc as nat) * 10 + (d as nat)));
                lemma_parse_dec_rec_ge(s@, j as int + 1, (acc as nat) * 10 + (d as nat));
                assert((acc as nat) * 10 + (d as nat) > u64::MAX) by (nonlinear_arith)
                    requires
                        acc > (u64::MAX - d) / 10,
                        d < 10,
                ;
            }
            overflow = true;
            stop = true;
        } else {
            proof {
                assert((acc as nat) * 10 + (d as nat) <= u64::MAX) by (nonlinear_arith)
                    requires
                        acc <= (u64::MAX - d) / 10,
                        d < 10,
                ;
                assert(parse_dec_rec(s@, j as int, acc as nat) == parse_dec_rec(
                    s@,
                    j as int + 1,
                    (acc as nat) * 10 + (d as nat),
                ));
            }
            acc = acc * 10 + d;
            j += 1;
        }
    }
    if overflow {
        proof {
            assert(parse_dec(s@, i as int) == Some(parse_dec_rec(s@, i as int, 0)));
        }
        return None;
    }
    proof {
        assert(parse_dec_rec(s@, j as int, acc as nat) == (acc as nat, j as int));
    }
    Some((acc, j))
}

/// The digit value of a digit character.
pub fn digit_of(c: char) -> (r: u64)
    ensures
        r == digit_value(c),
{
    if c == '0' {
        0
    } else if c == '1' {
        1
    } else if c == '2' {
        2
    } else if c == '3' {
        3
    } else if c == '4' {
        4
    } else if c == '5' {
        5
    } else if c == '6' {
        6
    } else if c == '7' {
        7
    } else if c == '8' {
        8
    } else if c == '9' {
        9
    } else {
        10
    }
}

} // verus!

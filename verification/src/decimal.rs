//! Decimal text: turning numbers into digit strings and digit strings back
//! into numbers, with the round-trip facts the script codec rests on.

use vstd::prelude::*;
use vstd::string::StrSliceExecFns;

verus! {

/// The character of one decimal digit.
pub open spec fn spec_digit_char(d: int) -> char {
    if d == 0 {
        '0'
    } else if d == 1 {
        '1'
    } else if d == 2 {
        '2'
    } else if d == 3 {
        '3'
    } else if d == 4 {
        '4'
    } else if d == 5 {
        '5'
    } else if d == 6 {
        '6'
    } else if d == 7 {
        '7'
    } else if d == 8 {
        '8'
    } else {
        '9'
    }
}

/// The value of one decimal digit character, `None` for any other character.
pub open spec fn spec_digit_val(c: char) -> Option<int> {
    if c == '0' {
        Some(0int)
    } else if c == '1' {
        Some(1int)
    } else if c == '2' {
        Some(2int)
    } else if c == '3' {
        Some(3int)
    } else if c == '4' {
        Some(4int)
    } else if c == '5' {
        Some(5int)
    } else if c == '6' {
        Some(6int)
    } else if c == '7' {
        Some(7int)
    } else if c == '8' {
        Some(8int)
    } else if c == '9' {
        Some(9int)
    } else {
        None
    }
}

/// Whether a character is a decimal digit.
pub open spec fn spec_is_digit(c: char) -> bool {
    spec_digit_val(c) is Some
}

/// The digits of a non-negative number, most significant first; zero has no
/// digits here.
pub open spec fn spec_digits(n: int) -> Seq<char>
    decreases n,
{
    if n <= 0 {
        Seq::empty()
    } else {
        spec_digits(n / 10).push(spec_digit_char(n % 10))
    }
}

/// The decimal writing of a non-negative number; zero is written `0`.
pub open spec fn spec_decimal(n: int) -> Seq<char> {
    if n == 0 {
        seq!['0']
    } else {
        spec_digits(n)
    }
}

/// The value of a digit string, most significant digit first; characters
/// that are no digits count as zero.
pub open spec fn spec_digits_val(s: Seq<char>) -> int
    decreases s.len(),
{
    if s.len() == 0 {
        0
    } else {
        spec_digits_val(s.drop_last()) * 10 + (match spec_digit_val(s.last()) {
            Some(d) => d,
            None => 0int,
        })
    }
}

/// A digit string never has a negative value.
pub proof fn lemma_val_nonneg(s: Seq<char>)
    ensures
        spec_digits_val(s) >= 0,
    decreases s.len(),
{
    if s.len() > 0 {
        lemma_val_nonneg(s.drop_last());
    }
}

/// Appending digits never shrinks the value.
pub proof fn lemma_val_extends(s: Seq<char>, t: Seq<char>)
    ensures
        spec_digits_val(s + t) >= spec_digits_val(s),
    decreases t.len(),
{
    if t.len() == 0 {
        assert(s + t =~= s);
    } else {
        assert((s + t).drop_last() =~= s + t.drop_last());
        lemma_val_extends(s, t.drop_last());
        lemma_val_nonneg(s + t.drop_last());
    }
}

/// The digit characters of a number are digits, their value is the number
/// again, and a positive number has at least one digit.
pub proof fn lemma_digits_round_trip(n: int)
    requires
        n >= 0,
    ensures
        spec_digits_val(spec_digits(n)) == n,
        forall|i: int| 0 <= i < spec_digits(n).len() ==> spec_is_digit(#[trigger] spec_digits(n)[i]),
        n >= 1 ==> spec_digits(n).len() >= 1,
    decreases n,
{
    if n > 0 {
        lemma_digits_round_trip(n / 10);
        let s = spec_digits(n);
        let prefix = spec_digits(n / 10);
        assert(s.drop_last() =~= prefix);
        assert(spec_digit_val(spec_digit_char(n % 10)) == Some(n % 10));
        assert(spec_digits_val(s) == (n / 10) * 10 + n % 10);
        assert((n / 10) * 10 + n % 10 == n) by (nonlinear_arith)
            requires
                n > 0,
        ;
    }
}

/// The decimal writing of a number is made of digits, is never empty, and
/// reads back as the number.
pub proof fn lemma_decimal_round_trip(n: int)
    requires
        n >= 0,
    ensures
        spec_digits_val(spec_decimal(n)) == n,
        forall|i: int| 0 <= i < spec_decimal(n).len() ==> spec_is_digit(
            #[trigger] spec_decimal(n)[i],
        ),
        spec_decimal(n).len() >= 1,
{
    lemma_digits_round_trip(n);
    if n == 0 {
        let s = seq!['0'];
        assert(s.drop_last() =~= Seq::<char>::empty());
        assert(spec_digits_val(s) == 0);
    }
}

/// Returns the digit character of `d`.
fn digit_str(d: u64) -> (r: &'static str)
    requires
        d < 10,
    ensures
        r@ == seq![spec_digit_char(d as int)],
{
    proof {
        reveal_strlit("0");
        reveal_strlit("1");
        reveal_strlit("2");
        reveal_strlit("3");
        reveal_strlit("4");
        reveal_strlit("5");
        reveal_strlit("6");
        reveal_strlit("7");
        reveal_strlit("8");
        reveal_strlit("9");
    }
    let r = if d == 0 {
        "0"
    } else if d == 1 {
        "1"
    } else if d == 2 {
        "2"
    } else if d == 3 {
        "3"
    } else if d == 4 {
        "4"
    } else if d == 5 {
        "5"
    } else if d == 6 {
        "6"
    } else if d == 7 {
        "7"
    } else if d == 8 {
        "8"
    } else {
        "9"
    };
    proof {
        assert(r@ =~= seq![spec_digit_char(d as int)]);
    }
    r
}

/// Appends the digits of `n`, most significant first; nothing for zero.
fn push_digits(s: &mut String, n: u64)
    ensures
        final(s)@ == old(s)@ + spec_digits(n as int),
    decreases n,
{
    if n == 0 {
        proof {
            assert(old(s)@ + spec_digits(0) =~= old(s)@);
        }
    } else {
        push_digits(s, n / 10);
        s.append(digit_str(n % 10));
        proof {
            assert(old(s)@ + spec_digits(n as int) =~= (old(s)@ + spec_digits(n as int / 10))
                + seq![spec_digit_char(n as int % 10)]);
        }
    }
}

/// Writes a number in decimal.
pub fn u64_to_string(n: u64) -> (r: String)
    ensures
        r@ == spec_decimal(n as int),
{
    let mut s = String::new();
    if n == 0 {
        s.append("0");
        proof {
            reveal_strlit("0");
            assert(s@ =~= spec_decimal(0));
        }
    } else {
        push_digits(&mut s, n);
        proof {
            assert(s@ =~= spec_digits(n as int));
        }
    }
    s
}

/// Where the run of digit characters that starts at `i` ends: the first
/// position at or after `i` that holds no digit, or the end of the text.
pub open spec fn digit_run_end(s: Seq<char>, i: int) -> int
    decreases s.len() - i,
{
    if i < 0 {
        i
    } else if i >= s.len() {
        s.len() as int
    } else if spec_is_digit(s[i]) {
        digit_run_end(s, i + 1)
    } else {
        i
    }
}

/// What `digit_run_end` finds: digits up to it, and no digit at it.
pub proof fn lemma_digit_run_end(s: Seq<char>, i: int)
    requires
        0 <= i <= s.len(),
    ensures
        i <= digit_run_end(s, i) <= s.len(),
        forall|m: int| i <= m < digit_run_end(s, i) ==> spec_is_digit(s[m]),
        digit_run_end(s, i) < s.len() ==> !spec_is_digit(s[digit_run_end(s, i)]),
    decreases s.len() - i,
{
    if i < s.len() && spec_is_digit(s[i]) {
        lemma_digit_run_end(s, i + 1);
    }
}

/// A stretch of digits followed by a non-digit (or the end) is exactly the
/// digit run.
pub proof fn lemma_digit_run_exact(s: Seq<char>, i: int, j: int)
    requires
        0 <= i <= j <= s.len(),
        forall|m: int| i <= m < j ==> spec_is_digit(s[m]),
        j == s.len() || !spec_is_digit(s[j]),
    ensures
        digit_run_end(s, i) == j,
    decreases j - i,
{
    if i < j {
        lemma_digit_run_exact(s, i + 1, j);
    }
}

/// Reading a number at position `i`: the value of the digit run that starts
/// there. There is no number when no digit starts at `i` or when the run's
/// value does not fit the machine's largest word.
pub open spec fn spec_parse_u64(s: Seq<char>, i: int) -> Option<(u64, int)> {
    if i < 0 {
        None
    } else {
        let j = digit_run_end(s, i);
        if j == i {
            None
        } else {
            let v = spec_digits_val(s.subrange(i, j));
            if v <= u64::MAX {
                Some((v as u64, j))
            } else {
                None
            }
        }
    }
}

/// Parsing reads the decimal writing of a number back, when what follows the
/// digits is no digit.
pub proof fn lemma_parse_u64_of_decimal(s: Seq<char>, i: int, n: u64)
    requires
        0 <= i,
        i + spec_decimal(n as int).len() <= s.len(),
        s.subrange(i, i + spec_decimal(n as int).len()) == spec_decimal(n as int),
        i + spec_decimal(n as int).len() == s.len() || !spec_is_digit(
            s[i + spec_decimal(n as int).len()],
        ),
    ensures
        spec_parse_u64(s, i) == Some((n, i + spec_decimal(n as int).len())),
{
    let digits = spec_decimal(n as int);
    let l = digits.len() as int;
    lemma_decimal_round_trip(n as int);
    assert forall|m: int| i <= m < i + l implies spec_is_digit(s[m]) by {
        assert(s[m] == digits[m - i]);
    }
    lemma_digit_run_exact(s, i, i + l);
    assert(s.subrange(i, i + l) == digits);
}

/// Returns the value of a digit character, `None` for any other character.
fn digit_val(c: char) -> (r: Option<u64>)
    ensures
        r matches Some(d) ==> spec_digit_val(c) == Some(d as int),
        r is None <==> spec_digit_val(c) is None,
{
    if c == '0' {
        Some(0)
    } else if c == '1' {
        Some(1)
    } else if c == '2' {
        Some(2)
    } else if c == '3' {
        Some(3)
    } else if c == '4' {
        Some(4)
    } else if c == '5' {
        Some(5)
    } else if c == '6' {
        Some(6)
    } else if c == '7' {
        Some(7)
    } else if c == '8' {
        Some(8)
    } else if c == '9' {
        Some(9)
    } else {
        None
    }
}

/// Reads the number written at position `i`, and where its digits end;
/// `None` when no digit starts there or the value does not fit a machine
/// word.
pub fn parse_u64_at(s: &str, n: usize, i: usize) -> (r: Option<(u64, usize)>)
    requires
        n == s@.len(),
        i <= n,
    ensures
        r matches Some((v, j)) ==> spec_parse_u64(s@, i as int) == Some((v, j as int)) && i < j
            <= n,
        r is None <==> spec_parse_u64(s@, i as int) is None,
{
    let ghost e = digit_run_end(s@, i as int);
    proof {
        lemma_digit_run_end(s@, i as int);
    }
    let mut j = i;
    let mut acc: u64 = 0;
    let mut overflow = false;
    loop
        invariant
            n == s@.len(),
            i <= j <= e <= n,
            e == digit_run_end(s@, i as int),
            forall|m: int| i <= m < e ==> spec_is_digit(s@[m]),
            e < s@.len() ==> !spec_is_digit(s@[e as int]),
            !overflow ==> acc == spec_digits_val(s@.subrange(i as int, j as int)),
            overflow ==> spec_digits_val(s@.subrange(i as int, e)) > u64::MAX,
        ensures
            j == e,
            !overflow ==> acc == spec_digits_val(s@.subrange(i as int, e)),
            overflow ==> spec_digits_val(s@.subrange(i as int, e)) > u64::MAX,
        decreases n - j,
    {
        if j >= n {
            break ;
        }
        let c = s.get_char(j);
        let d = match digit_val(c) {
            Some(d) => d,
            None => {
                break ;
            },
        };
        proof {
            if j as int == e {
                assert(spec_is_digit(s@[e as int]));
                assert(false);
            }
        }
        let ghost prefix = s@.subrange(i as int, j as int);
        let ghost extended = s@.subrange(i as int, j as int + 1);
        proof {
            assert(extended.drop_last() =~= prefix);
            assert(extended.last() == s@[j as int]);
        }
        if !overflow {
            if acc > (u64::MAX - d) / 10 {
                overflow = true;
                proof {
                    assert(spec_digits_val(extended) > u64::MAX) by (nonlinear_arith)
                        requires
                            spec_digits_val(extended) == spec_digits_val(prefix) * 10 + d,
                            acc == spec_digits_val(prefix),
                            acc > (u64::MAX - d) / 10,
                            d < 10,
                    ;
                    let tail = s@.subrange(j as int + 1, e);
                    assert(s@.subrange(i as int, e) =~= extended + tail);
                    lemma_val_extends(extended, tail);
                }
            } else {
                proof {
                    assert(acc * 10 + d <= u64::MAX) by (nonlinear_arith)
                        requires
                            acc <= (u64::MAX - d) / 10,
                            d < 10,
                    ;
                    lemma_val_nonneg(prefix);
                }
                acc = acc * 10 + d;
            }
        }
        j = j + 1;
    }
    if j == i {
        None
    } else if overflow {
        None
    } else {
        Some((acc, j))
    }
}

} // verus!

//! Exact base-10 text for integers, the form in which money is persisted.
//!
//! Values are written as an optional `-` followed by their digits, and read
//! back under the grammar of the standard `i128` parser: an optional `+` or
//! `-`, then at least one ASCII digit, with the value inside `i128`'s range.

use vstd::prelude::*;
use vstd::string::StringSliceAdditionalSpecFns;

verus! {

/// Whether `c` is an ASCII decimal digit.
pub open spec fn is_digit(c: char) -> bool {
    '0' <= c && c <= '9'
}

/// The value of a decimal digit character (zero for anything else).
pub open spec fn digit_of(c: char) -> nat {
    if is_digit(c) {
        (c as int - '0' as int) as nat
    } else {
        0
    }
}

/// The character of a decimal digit `0..=9`.
pub open spec fn digit_char(d: int) -> char {
    if d == 0 {
        '0'
    } else if d == 1 {
        '1'
    } else if d == 2 {
        '2'
    } else if d == 3 {
        '3'
    } else if d == 4 {
        '4'
    } else if d == 5 {
        '5'
    } else if d == 6 {
        '6'
    } else if d == 7 {
        '7'
    } else if d == 8 {
        '8'
    } else {
        '9'
    }
}

/// Every character of `s` is a decimal digit.
pub open spec fn all_digits(s: Seq<char>) -> bool {
    forall|i: int| 0 <= i < s.len() ==> is_digit(#[trigger] s[i])
}

/// The number a string of digits spells, most significant digit first.
pub open spec fn digits_value(s: Seq<char>) -> nat
    decreases s.len(),
{
    if s.len() == 0 {
        0
    } else {
        digits_value(s.drop_last()) * 10 + digit_of(s.last())
    }
}

/// The integer a decimal text denotes: an optional sign followed by at least
/// one digit, or `None` when the text is not of that form.
pub open spec fn decimal_value(s: Seq<char>) -> Option<int> {
    if s.len() > 0 && (s[0] == '-' || s[0] == '+') {
        let body = s.drop_first();
        if body.len() > 0 && all_digits(body) {
            Some(
                if s[0] == '-' {
                    -digits_value(body)
                } else {
                    digits_value(body) as int
                },
            )
        } else {
            None
        }
    } else if s.len() > 0 && all_digits(s) {
        Some(digits_value(s) as int)
    } else {
        None
    }
}

/// What parsing `s` as an `i128` yields: its decimal value when that value
/// fits, `None` otherwise.
pub open spec fn parsed_i128(s: Seq<char>) -> Option<i128> {
    match decimal_value(s) {
        Some(v) => if i128::MIN <= v <= i128::MAX {
            Some(v as i128)
        } else {
            None
        },
        None => None,
    }
}

/// The shortest digit string of a natural number.
pub open spec fn digits_text(n: nat) -> Seq<char>
    decreases n,
{
    if n < 10 {
        seq![digit_char(n as int)]
    } else {
        digits_text(n / 10).push(digit_char((n % 10) as int))
    }
}

/// The canonical decimal text of an integer: a `-` for negatives, then the
/// digits of its magnitude.
pub open spec fn decimal_text(v: int) -> Seq<char> {
    if v < 0 {
        seq!['-'] + digits_text((-v) as nat)
    } else {
        digits_text(v as nat)
    }
}

/// The digits of `n` are non-empty, all decimal, and spell `n`.
pub proof fn lemma_digits_text(n: nat)
    ensures
        digits_text(n).len() > 0,
        all_digits(digits_text(n)),
        digits_value(digits_text(n)) == n,
    decreases n,
{
    if n >= 10 {
        lemma_digits_text(n / 10);
        let t = digits_text(n);
        assert(t.drop_last() =~= digits_text(n / 10));
        assert(t.last() == digit_char((n % 10) as int));
        assert(digit_of(digit_char((n % 10) as int)) == n % 10);
        assert(digits_value(t) == digits_value(t.drop_last()) * 10 + digit_of(t.last()));
        assert((n / 10) * 10 + n % 10 == n);
    } else {
        assert(digit_of(digit_char(n as int)) == n);
        let t = digits_text(n);
        assert(t.drop_last() =~= Seq::<char>::empty());
        assert(digits_value(t) == digits_value(t.drop_last()) * 10 + digit_of(t.last()));
    }
}

/// `10^k`.
pub open spec fn pow10(k: nat) -> nat
    decreases k,
{
    if k == 0 {
        1
    } else {
        10 * pow10((k - 1) as nat)
    }
}

/// A number below `10^k` has at most `k` digits.
pub proof fn lemma_digits_text_len(n: nat, k: nat)
    requires
        k >= 1,
        n < pow10(k),
    ensures
        digits_text(n).len() <= k,
    decreases n,
{
    if n >= 10 {
        assert(k >= 2) by {
            if k == 1 {
                assert(pow10(0) == 1);
            }
        }
        assert(n / 10 < pow10((k - 1) as nat));
        lemma_digits_text_len(n / 10, (k - 1) as nat);
    }
}

/// Different numbers have different digits.
pub proof fn lemma_digits_text_injective(a: nat, b: nat)
    requires
        digits_text(a) == digits_text(b),
    ensures
        a == b,
{
    lemma_digits_text(a);
    lemma_digits_text(b);
}

/// Reading back the canonical text of any integer gives that integer.
pub proof fn lemma_decimal_round_trip(v: int)
    ensures
        decimal_value(decimal_text(v)) == Some(v),
{
    if v < 0 {
        let n = (-v) as nat;
        lemma_digits_text(n);
        let s = decimal_text(v);
        assert(s.drop_first() =~= digits_text(n));
    } else {
        lemma_digits_text(v as nat);
        assert(is_digit(digits_text(v as nat)[0]));
    }
}

/// Reading back the canonical text of an `i128` gives the same `i128`.
pub proof fn lemma_i128_text_round_trip(v: i128)
    ensures
        parsed_i128(decimal_text(v as int)) == Some(v),
{
    lemma_decimal_round_trip(v as int);
}

/// A prefix of a digit string never spells a larger number than the whole.
pub proof fn lemma_digits_prefix_le(s: Seq<char>, k: int)
    requires
        all_digits(s),
        0 <= k <= s.len(),
    ensures
        digits_value(s.take(k)) <= digits_value(s),
    decreases s.len(),
{
    if k < s.len() {
        let d = s.drop_last();
        lemma_digits_prefix_le(d, k);
        assert(d.take(k) =~= s.take(k));
    } else {
        assert(s.take(k) =~= s);
    }
}

/// The one-character text of a decimal digit.
pub(crate) fn digit_str(d: u8) -> (r: &'static str)
    requires
        d < 10,
    ensures
        r@ == seq![digit_char(d as int)],
{
    proof {
        reveal_strlit("0");
        reveal_strlit("1");
        reveal_strlit("2");
        reveal_strlit("3");
        reveal_strlit("4");
        reveal_strlit("5");
        reveal_strlit("6");
        reveal_strlit("7");
        reveal_strlit("8");
        reveal_strlit("9");
    }
    if d == 0 {
        "0"
    } else if d == 1 {
        "1"
    } else if d == 2 {
        "2"
    } else if d == 3 {
        "3"
    } else if d == 4 {
        "4"
    } else if d == 5 {
        "5"
    } else if d == 6 {
        "6"
    } else if d == 7 {
        "7"
    } else if d == 8 {
        "8"
    } else {
        "9"
    }
}

/// Append the digits of `n` to `out`.
fn append_digits(n: u128, out: &mut String)
    ensures
        final(out)@ == old(out)@ + digits_text(n as nat),
    decreases n,
{
    if n >= 10 {
        append_digits(n / 10, out);
    }
    let d: u8 = (n % 10) as u8;
    out.append(digit_str(d));
    proof {
        if n >= 10 {
            assert(old(out)@ + digits_text((n / 10) as nat) + seq![digit_char(d as int)] =~= old(out)@
                + digits_text(n as nat));
        } else {
            assert(digits_text(n as nat) == seq![digit_char(d as int)]);
        }
    }
}

/// The digits of an unsigned number.
pub fn unsigned_text(n: u128) -> (r: String)
    ensures
        r@ == digits_text(n as nat),
{
    let mut out = String::new();
    append_digits(n, &mut out);
    assert(out@ =~= digits_text(n as nat));
    out
}

/// The canonical decimal text of `v`.
pub fn decimal_string(v: i128) -> (r: String)
    ensures
        r@ == decimal_text(v as int),
{
    let mut out = String::new();
    if v < 0 {
        proof {
            reveal_strlit("-");
        }
        out.append("-");
        let below: i128 = v + 1;
        let mag: u128 = ((0 - below) as u128) + 1;
        assert(mag == -v);
        append_digits(mag, &mut out);
        assert(out@ =~= decimal_text(v as int));
    } else {
        append_digits(v as u128, &mut out);
        assert(out@ =~= decimal_text(v as int));
    }
    out
}

/// Parse `s` as an `i128` under the standard grammar; `None` when it is not
/// a decimal integer or does not fit.
pub fn parse_i128(s: &str) -> (r: Option<i128>)
    ensures
        r == parsed_i128(s@),
{
    let n: usize = s.unicode_len();
    if n == 0 {
        return None;
    }
    let c0: char = s.get_char(0);
    let neg: bool = c0 == '-';
    let start: usize = if c0 == '-' || c0 == '+' {
        1
    } else {
        0
    };
    if start == n {
        return None;
    }
    let limit: u128 = if neg {
        0x8000_0000_0000_0000_0000_0000_0000_0000
    } else {
        0x7fff_ffff_ffff_ffff_ffff_ffff_ffff_ffff
    };
    let ghost body: Seq<char> = s@.subrange(start as int, n as int);
    proof {
        if start == 1 {
            assert(body =~= s@.drop_first());
        } else {
            assert(body =~= s@);
        }
    }
    let mut acc: u128 = 0;
    let mut i: usize = start;
    while i < n
        invariant
            n == s@.len(),
            n > 0,
            start <= i <= n,
            (start == 1) == (s@[0] == '-' || s@[0] == '+'),
            neg == (s@[0] == '-'),
            start == 1 ==> body == s@.drop_first(),
            start == 0 ==> body == s@,
            start == 0 || start == 1,
            body == s@.subrange(start as int, n as int),
            all_digits(body.take(i - start)),
            acc == digits_value(body.take(i - start)),
            acc <= limit,
            limit == (if neg {
                0x8000_0000_0000_0000_0000_0000_0000_0000u128
            } else {
                0x7fff_ffff_ffff_ffff_ffff_ffff_ffff_ffffu128
            }),
        decreases n - i,
    {
        let c: char = s.get_char(i);
        assert(c == body[i - start]);
        if !(c >= '0' && c <= '9') {
            proof {
                assert(!all_digits(body));
            }
            return None;
        }
        let d: u128 = (c as u32 - '0' as u32) as u128;
        assert(d == digit_of(c));
        let ghost next: Seq<char> = body.take(i - start + 1);
        proof {
            assert(next.drop_last() =~= body.take(i - start));
            assert(next.last() == c);
            assert forall|j: int| 0 <= j < next.len() implies is_digit(#[trigger] next[j]) by {
                if j < i - start {
                    assert(next[j] == body.take(i - start)[j]);
                }
            }
        }
        if acc > limit / 10 || acc * 10 + d > limit {
            proof {
                assert(digits_value(next) > limit) by (nonlinear_arith)
                    requires
                        digits_value(next) == acc * 10 + d,
                        acc > limit / 10 || acc * 10 + d > limit,
                        d >= 0,
                        limit > 0,
                ;
                if all_digits(body) {
                    lemma_digits_prefix_le(body, i - start + 1);
                }
            }
            return None;
        }
        acc = acc * 10 + d;
        i = i + 1;
    }
    proof {
        assert(body.take(n - start) =~= body);
    }
    if neg {
        if acc == 0x8000_0000_0000_0000_0000_0000_0000_0000 {
            Some(i128::MIN)
        } else {
            Some(0 - (acc as i128))
        }
    } else {
        Some(acc as i128)
    }
}

} // verus!

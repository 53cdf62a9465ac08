//! Decimal-digit text handling: parsing numbers out of page text and
//! rendering page indices back into URLs.

use vstd::prelude::*;
use crate::errors::Ao3ApiError;

verus! {

/// A decimal digit character.
pub open spec fn is_digit(c: char) -> bool {
    '0' <= c && c <= '9'
}

/// Numeric value of a digit character.
pub open spec fn digit_val(c: char) -> nat {
    (c as int - '0' as int) as nat
}

/// The digit character for a value below ten.
pub open spec fn digit_char(d: nat) -> char {
    if d == 0 {
        '0'
    } else if d == 1 {
        '1'
    } else if d == 2 {
        '2'
    } else if d == 3 {
        '3'
    } else if d == 4 {
        '4'
    } else if d == 5 {
        '5'
    } else if d == 6 {
        '6'
    } else if d == 7 {
        '7'
    } else if d == 8 {
        '8'
    } else {
        '9'
    }
}

pub open spec fn all_digits(s: Seq<char>) -> bool {
    forall|i: int| 0 <= i < s.len() ==> is_digit(#[trigger] s[i])
}

/// Value of a digit string read left to right.
pub open spec fn digits_val(s: Seq<char>) -> nat
    decreases s.len(),
{
    if s.len() == 0 {
        0
    } else {
        digits_val(s.drop_last()) * 10 + digit_val(s.last())
    }
}

/// A digit string that denotes a value which fits in a u64.
pub open spec fn valid_u64_digits(s: Seq<char>) -> bool {
    s.len() > 0 && all_digits(s) && digits_val(s) <= u64::MAX
}

/// Decimal representation of a number, without leading zeros.
pub open spec fn dec_rep(n: nat) -> Seq<char>
    decreases n,
{
    if n < 10 {
        seq![digit_char(n)]
    } else {
        dec_rep(n / 10).push(digit_char(n % 10))
    }
}

/// The input with every comma removed, other characters kept in order.
pub open spec fn strip_commas(s: Seq<char>) -> Seq<char>
    decreases s.len(),
{
    if s.len() == 0 {
        Seq::empty()
    } else if s.last() == ',' {
        strip_commas(s.drop_last())
    } else {
        strip_commas(s.drop_last()).push(s.last())
    }
}

/// The input with one optional leading plus sign removed: the digit part
/// of a number as unsigned decimal parsing reads it.
pub open spec fn strip_plus(s: Seq<char>) -> Seq<char> {
    if s.len() > 0 && s[0] == '+' {
        s.subrange(1, s.len() as int)
    } else {
        s
    }
}

/// A string that unsigned decimal parsing accepts with a value fitting in
/// a u64: an optional leading plus sign, then digits.
pub open spec fn valid_u64_number(s: Seq<char>) -> bool {
    valid_u64_digits(strip_plus(s))
}

/// A string that unsigned decimal parsing accepts with a value fitting in
/// a u32: an optional leading plus sign, then digits.
pub open spec fn valid_u32_number(s: Seq<char>) -> bool {
    strip_plus(s).len() > 0 && all_digits(strip_plus(s)) && digits_val(strip_plus(s))
        <= u32::MAX
}

/// A digit prefix never denotes more than the whole digit string.
proof fn lemma_digits_val_prefix_le(s: Seq<char>, i: int)
    requires
        0 <= i <= s.len(),
    ensures
        digits_val(s.take(i)) <= digits_val(s),
    decreases s.len() - i,
{
    if i == s.len() {
        assert(s.take(i) =~= s);
    } else {
        assert(s.take(i + 1).drop_last() =~= s.take(i));
        assert(digits_val(s.take(i + 1)) == digits_val(s.take(i)) * 10 + digit_val(s.take(
            i + 1,
        ).last()));
        lemma_digits_val_prefix_le(s, i + 1);
    }
}

/// How one more character moves the comma-stripped text and its digit
/// part: a comma changes nothing; anything else lands at the stripped
/// text's end, and reaches the digit part unless it is a plus sign in
/// front position.
proof fn lemma_number_step(s: Seq<char>, i: int)
    requires
        0 <= i < s.len(),
    ensures
        s[i] == ',' ==> strip_commas(s.take(i + 1)) == strip_commas(s.take(i)),
        s[i] != ',' ==> strip_commas(s.take(i + 1)) == strip_commas(s.take(i)).push(s[i]),
        s[i] != ',' && strip_commas(s.take(i)).len() == 0 && s[i] == '+' ==> strip_plus(
            strip_commas(s.take(i + 1)),
        ) == strip_plus(strip_commas(s.take(i))),
        s[i] != ',' && !(strip_commas(s.take(i)).len() == 0 && s[i] == '+') ==> strip_plus(
            strip_commas(s.take(i + 1)),
        ) == strip_plus(strip_commas(s.take(i))).push(s[i]),
{
    assert(s.take(i + 1).drop_last() =~= s.take(i));
    assert(s.take(i + 1).last() == s[i]);
    if s[i] != ',' {
        let sp = strip_commas(s.take(i));
        let sq = strip_commas(s.take(i + 1));
        assert(sq == sp.push(s[i]));
        if sp.len() == 0 {
            if s[i] == '+' {
                assert(strip_plus(sq) =~= strip_plus(sp));
            } else {
                assert(strip_plus(sq) =~= strip_plus(sp).push(s[i]));
            }
        } else {
            assert(sq[0] == sp[0]);
            if sp[0] == '+' {
                assert(strip_plus(sq) =~= strip_plus(sp).push(s[i]));
            } else {
                assert(strip_plus(sq) =~= strip_plus(sp).push(s[i]));
            }
        }
    }
}

/// Reading a longer prefix never lowers the value its digit part denotes.
proof fn lemma_number_val_monotone(s: Seq<char>, i: int, j: int)
    requires
        0 <= i <= j <= s.len(),
    ensures
        digits_val(strip_plus(strip_commas(s.take(i)))) <= digits_val(
            strip_plus(strip_commas(s.take(j))),
        ),
    decreases j - i,
{
    if i < j {
        lemma_number_val_monotone(s, i, j - 1);
        lemma_number_step(s, j - 1);
        let bp = strip_plus(strip_commas(s.take(j - 1)));
        let bq = strip_plus(strip_commas(s.take(j)));
        if s[j - 1] != ',' && !(strip_commas(s.take(j - 1)).len() == 0 && s[j - 1] == '+') {
            assert(bq == bp.push(s[j - 1]));
            assert(bp.push(s[j - 1]).drop_last() =~= bp);
            assert(digits_val(bq) == digits_val(bp) * 10 + digit_val(bq.last()));
            assert(digits_val(bp) * 10 >= digits_val(bp)) by (nonlinear_arith);
        }
    }
}

/// A character that is neither a comma, nor a digit, nor a plus sign in
/// front position of the comma-stripped text leaves a non-digit in the
/// whole text's digit part.
proof fn lemma_bad_char_invalidates(s: Seq<char>, i: int)
    requires
        0 <= i < s.len(),
        s[i] != ',',
        !is_digit(s[i]),
        strip_commas(s.take(i)).len() > 0 || s[i] != '+',
    ensures
        !all_digits(strip_plus(strip_commas(s))),
{
    let p = strip_commas(s.take(i)).len() as int;
    lemma_number_step(s, i);
    lemma_strip_prefix(s, i + 1);
    let full = strip_commas(s);
    let body = strip_plus(full);
    assert(strip_commas(s.take(i + 1))[p] == s[i]);
    assert(full[p] == s[i]);
    if full[0] == '+' {
        assert(p >= 1);
        assert(body[p - 1] == full[p]);
        assert(!is_digit(body[p - 1]));
    } else {
        assert(body[p] == full[p]);
        assert(!is_digit(body[p]));
    }
}

/// Every character kept by `strip_commas` of a prefix is kept by the whole.
proof fn lemma_strip_prefix(s: Seq<char>, i: int)
    requires
        0 <= i <= s.len(),
    ensures
        strip_commas(s.take(i)).len() <= strip_commas(s).len(),
        forall|k: int|
            0 <= k < strip_commas(s.take(i)).len() ==> #[trigger] strip_commas(s)[k]
                == strip_commas(s.take(i))[k],
    decreases s.len() - i,
{
    if i == s.len() {
        assert(s.take(i) =~= s);
    } else {
        lemma_strip_prefix(s, i + 1);
        assert(s.take(i + 1).drop_last() =~= s.take(i));
    }
}

/// Parses an unsigned decimal number: an optional leading plus sign, then
/// digits. `None` when the string is empty or just a sign, holds any other
/// non-digit, or denotes a value above `u64::MAX`.
pub fn parse_u64(s: &str) -> (r: Option<u64>)
    ensures
        r is Some <==> valid_u64_number(s@),
        r matches Some(v) ==> v as nat == digits_val(strip_plus(s@)),
{
    let n = s.unicode_len();
    let mut start: usize = 0;
    if n > 0 && s.get_char(0) == '+' {
        start = 1;
    }
    let ghost body = strip_plus(s@);
    proof {
        assert(body =~= s@.subrange(start as int, n as int));
    }
    if start == n {
        return None;
    }
    let mut i: usize = start;
    let mut acc: u64 = 0;
    while i < n
        invariant
            start <= i <= n,
            n == s@.len(),
            body == strip_plus(s@),
            body == s@.subrange(start as int, n as int),
            all_digits(body.take(i as int - start as int)),
            acc as nat == digits_val(body.take(i as int - start as int)),
        decreases n - i,
    {
        let c = s.get_char(i);
        proof {
            let k = i as int - start as int;
            assert(body.take(k + 1).drop_last() =~= body.take(k));
            assert(body.take(k + 1).last() == body[k]);
            assert(body[k] == s@[i as int]);
        }
        if c < '0' || c > '9' {
            assert(!is_digit(body[i as int - start as int]));
            return None;
        }
        let d: u64 = (c as u32 - 48) as u64;
        assert(d == digit_val(c) && d <= 9);
        if acc > (u64::MAX - d) / 10 {
            proof {
                assert(acc * 10 + d > u64::MAX) by (nonlinear_arith)
                    requires
                        acc > (u64::MAX - d) / 10,
                        d <= 9,
                ;
                lemma_digits_val_prefix_le(body, i as int - start as int + 1);
            }
            return None;
        }
        assert(acc * 10 + d <= u64::MAX) by (nonlinear_arith)
            requires
                acc <= (u64::MAX - d) / 10,
                d <= 9,
        ;
        acc = acc * 10 + d;
        i = i + 1;
    }
    proof {
        assert(body.take(n as int - start as int) =~= body);
    }
    Some(acc)
}

fn digit_str(d: u64) -> (r: &'static str)
    requires
        d < 10,
    ensures
        r@ =~= seq![digit_char(d as nat)],
{
    proof {
        reveal_strlit("0");
        reveal_strlit("1");
        reveal_strlit("2");
        reveal_strlit("3");
        reveal_strlit("4");
        reveal_strlit("5");
        reveal_strlit("6");
        reveal_strlit("7");
        reveal_strlit("8");
        reveal_strlit("9");
    }
    match d {
        0 => "0",
        1 => "1",
        2 => "2",
        3 => "3",
        4 => "4",
        5 => "5",
        6 => "6",
        7 => "7",
        8 => "8",
        _ => "9",
    }
}

/// Renders a number as its decimal digits.
pub fn u64_to_string(n: u64) -> (r: String)
    ensures
        r@ == dec_rep(n as nat),
    decreases n,
{
    if n < 10 {
        String::from_str(digit_str(n))
    } else {
        let q = u64_to_string(n / 10);
        let r = q.concat(digit_str(n % 10));
        proof {
            assert(r@ =~= dec_rep(n as nat / 10).push(digit_char(n as nat % 10)));
        }
        r
    }
}

/// Character-wise string equality.
pub fn str_eq(a: &str, b: &str) -> (r: bool)
    ensures
        r == (a@ == b@),
{
    let la = a.unicode_len();
    let lb = b.unicode_len();
    if la != lb {
        return false;
    }
    let mut i: usize = 0;
    while i < la
        invariant
            0 <= i <= la,
            la == a@.len(),
            la == b@.len(),
            forall|j: int| 0 <= j < i ==> a@[j] == b@[j],
        decreases la - i,
    {
        if a.get_char(i) != b.get_char(i) {
            return false;
        }
        i = i + 1;
    }
    proof {
        assert(a@ =~= b@);
    }
    true
}

/// Parses page-count text in which thousands may be separated by commas,
/// as in "1,234"; commas are dropped, the rest must be digits that denote
/// a value fitting in a u32.
pub fn parse_number_with_commas(text: &str) -> (r: Result<u32, Ao3ApiError>)
    ensures
        r is Ok <==> valid_u32_number(strip_commas(text@)),
        r matches Ok(v) ==> v as nat == digits_val(strip_plus(strip_commas(text@))),
        r is Err ==> r matches Err(Ao3ApiError::GenericError(_)),
{
    let n = text.unicode_len();
    let mut i: usize = 0;
    let mut acc: u64 = 0;
    let mut seen_digit = false;
    let mut seen_plus = false;
    while i < n
        invariant
            0 <= i <= n,
            n == text@.len(),
            seen_plus == (strip_commas(text@.take(i as int)).len() > 0 && strip_commas(
                text@.take(i as int),
            )[0] == '+'),
            all_digits(strip_plus(strip_commas(text@.take(i as int)))),
            acc as nat == digits_val(strip_plus(strip_commas(text@.take(i as int)))),
            acc <= u32::MAX,
            seen_digit == (strip_plus(strip_commas(text@.take(i as int))).len() > 0),
        decreases n - i,
    {
        let c = text.get_char(i);
        proof {
            lemma_number_step(text@, i as int);
        }
        let ghost sp = strip_commas(text@.take(i as int));
        let ghost bp = strip_plus(sp);
        if c == ',' {
        } else if c >= '0' && c <= '9' {
            proof {
                assert(strip_plus(strip_commas(text@.take(i as int + 1))) == bp.push(c));
                assert(bp.push(c).drop_last() =~= bp);
                assert(bp.push(c).last() == c);
                if sp.len() > 0 {
                    assert(strip_commas(text@.take(i as int + 1))[0] == sp[0]);
                }
            }
            let d: u64 = (c as u32 - 48) as u64;
            assert(d == digit_val(c) && d <= 9);
            if acc > (u32::MAX as u64 - d) / 10 {
                proof {
                    assert(acc * 10 + d > u32::MAX) by (nonlinear_arith)
                        requires
                            acc > (u32::MAX as u64 - d) / 10,
                            d <= 9,
                    ;
                    lemma_number_val_monotone(text@, i as int + 1, n as int);
                    assert(text@.take(n as int) =~= text@);
                }
                return Err(Ao3ApiError::GenericError(String::from_str("number too large")));
            }
            assert(acc * 10 + d <= u32::MAX) by (nonlinear_arith)
                requires
                    acc <= (u32::MAX as u64 - d) / 10,
                    d <= 9,
            ;
            acc = acc * 10 + d;
            seen_digit = true;
        } else if c == '+' && !seen_plus && !seen_digit {
            proof {
                assert(sp.len() == 0);
                assert(strip_commas(text@.take(i as int + 1)) == sp.push('+'));
                assert(strip_commas(text@.take(i as int + 1))[0] == '+');
                assert(strip_plus(strip_commas(text@.take(i as int + 1))) == bp);
            }
            seen_plus = true;
        } else {
            proof {
                if seen_plus || seen_digit {
                    assert(sp.len() > 0);
                }
                lemma_bad_char_invalidates(text@, i as int);
            }
            return Err(Ao3ApiError::GenericError(String::from_str("not a decimal number")));
        }
        i = i + 1;
    }
    proof {
        assert(text@.take(n as int) =~= text@);
    }
    if !seen_digit {
        return Err(Ao3ApiError::GenericError(String::from_str("no digits found")));
    }
    Ok(acc as u32)
}

} // verus!

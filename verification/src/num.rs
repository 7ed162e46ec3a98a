use vstd::prelude::*;

use crate::error::SwayWsError;

verus! {

/// A decimal digit, `'0'` through `'9'`.
pub open spec fn is_digit_char(c: char) -> bool {
    48 <= c as u32 <= 57
}

/// The numeric value of a decimal digit character.
pub open spec fn digit_val(c: char) -> int {
    c as u32 - 48
}

/// `10^n`.
pub open spec fn pow10(n: nat) -> int
    decreases n,
{
    if n == 0 {
        1
    } else {
        10 * pow10((n - 1) as nat)
    }
}

/// Every character of `s` is a decimal digit.
pub open spec fn seq_is_digits(s: Seq<char>) -> bool {
    forall|i: int| 0 <= i < s.len() ==> is_digit_char(s[i])
}

/// The value of a sequence of decimal digits, most significant first.
pub open spec fn digits_val(s: Seq<char>) -> int
    decreases s.len(),
{
    if s.len() == 0 {
        0
    } else {
        digits_val(s.drop_last()) * 10 + digit_val(s.last())
    }
}

/// The digits of an optionally signed decimal numeral: everything after a
/// leading `'-'` or `'+'`, or the whole string when there is no sign.
pub open spec fn int_digits(s: Seq<char>) -> Seq<char> {
    if s.len() > 0 && (s[0] == '-' || s[0] == '+') {
        s.skip(1)
    } else {
        s
    }
}

/// `s` is a decimal integer numeral: an optional sign followed by at least
/// one digit, and nothing else.
pub open spec fn str_is_int(s: Seq<char>) -> bool {
    int_digits(s).len() > 0 && seq_is_digits(int_digits(s))
}

/// The mathematical value of a decimal integer numeral.
pub open spec fn str_int_val(s: Seq<char>) -> int {
    if s.len() > 0 && s[0] == '-' {
        -digits_val(int_digits(s))
    } else {
        digits_val(int_digits(s))
    }
}

pub proof fn lemma_pow10_pos(n: nat)
    ensures
        pow10(n) >= 1,
    decreases n,
{
    if n > 0 {
        lemma_pow10_pos((n - 1) as nat);
    }
}

pub proof fn lemma_pow10_mono(a: nat, b: nat)
    requires
        a <= b,
    ensures
        1 <= pow10(a) <= pow10(b),
    decreases b,
{
    lemma_pow10_pos(a);
    if a < b {
        lemma_pow10_mono(a, (b - 1) as nat);
        lemma_pow10_pos((b - 1) as nat);
    }
}

/// A string of digits is worth at least 0 and strictly less than one more
/// decimal order of magnitude than it has digits.
pub proof fn lemma_digits_val_bounds(s: Seq<char>)
    requires
        seq_is_digits(s),
    ensures
        0 <= digits_val(s) < pow10(s.len()),
    decreases s.len(),
{
    if s.len() > 0 {
        lemma_digits_val_bounds(s.drop_last());
        assert(is_digit_char(s.last()));
    }
}

/// A digit string whose leading digit is not zero reaches its leading order
/// of magnitude.
pub proof fn lemma_digits_val_lower(s: Seq<char>)
    requires
        seq_is_digits(s),
        s.len() > 0,
        digit_val(s[0]) != 0,
    ensures
        digits_val(s) >= pow10((s.len() - 1) as nat),
    decreases s.len(),
{
    assert(is_digit_char(s[0]));
    if s.len() == 1 {
        assert(s.last() == s[0]);
        assert(s.drop_last().len() == 0);
        assert(digits_val(s.drop_last()) == 0);
        assert(digits_val(s) == digit_val(s[0]));
        assert(digit_val(s[0]) >= 1);
    } else {
        assert(forall|i: int| 0 <= i < s.len() - 1 ==> s.drop_last()[i] == s[i]);
        assert(seq_is_digits(s.drop_last()));
        assert(s.drop_last()[0] == s[0]);
        lemma_digits_val_lower(s.drop_last());
        assert(is_digit_char(s.last()));
        assert(digit_val(s.last()) >= 0);
        assert(digits_val(s) == digits_val(s.drop_last()) * 10 + digit_val(s.last()));
        assert(pow10((s.len() - 1) as nat) == 10 * pow10((s.len() - 2) as nat));
    }
}

/// A leading zero digit does not change the value of a digit string.
pub proof fn lemma_skip_leading_zero(s: Seq<char>)
    requires
        s.len() > 0,
        digit_val(s[0]) == 0,
    ensures
        digits_val(s) == digits_val(s.skip(1)),
    decreases s.len(),
{
    if s.len() == 1 {
        assert(s.skip(1).len() == 0);
        assert(s.last() == s[0]);
        assert(s.drop_last().len() == 0);
        assert(digits_val(s.drop_last()) == 0);
        assert(digits_val(s) == digit_val(s[0]));
    } else {
        assert(s.drop_last()[0] == s[0]);
        lemma_skip_leading_zero(s.drop_last());
        assert(s.drop_last().skip(1) =~= s.skip(1).drop_last());
        assert(s.skip(1).last() == s.last());
        assert(digits_val(s) == digits_val(s.drop_last()) * 10 + digit_val(s.last()));
        assert(digits_val(s.skip(1)) == digits_val(s.skip(1).drop_last()) * 10 + digit_val(
            s.skip(1).last(),
        ));
    }
}

/// Whether `c` is a decimal digit.
fn is_digit(c: char) -> (r: bool)
    ensures
        r == is_digit_char(c),
{
    let u = c as u32;
    48 <= u && u <= 57
}

/// Parses an optionally signed decimal numeral into an `i64`, succeeding
/// exactly on well-formed numerals whose value fits; everything else is a
/// `Parse` error.
pub fn parse_i64(s: &str) -> (r: Result<i64, SwayWsError>)
    ensures
        r is Ok <==> str_is_int(s@) && i64::MIN <= str_int_val(s@) <= i64::MAX,
        r matches Ok(v) ==> v == str_int_val(s@),
        r is Err ==> r == Err::<i64, SwayWsError>(SwayWsError::Parse),
{
    let n = s.unicode_len();
    if n == 0 {
        proof {
            assert(int_digits(s@).len() == 0);
        }
        return Err(SwayWsError::Parse);
    }
    let c0 = s.get_char(0);
    let neg = c0 == '-';
    let start: usize = if c0 == '-' || c0 == '+' {
        1
    } else {
        0
    };
    let ghost digits = int_digits(s@);
    proof {
        if start == 0 {
            assert(digits =~= s@);
        }
    }
    if n == start {
        proof {
            assert(digits.len() == 0);
        }
        return Err(SwayWsError::Parse);
    }
    // Every remaining character must be a digit.
    let mut i: usize = start;
    while i < n
        invariant
            start <= i <= n,
            n == s@.len(),
            start <= 1,
            digits == int_digits(s@),
            digits == s@.skip(start as int),
            forall|k: int| start <= k < i ==> is_digit_char(s@[k]),
        decreases n - i,
    {
        if !is_digit(s.get_char(i)) {
            proof {
                assert(digits[i - start] == s@[i as int]);
                assert(!seq_is_digits(digits));
            }
            return Err(SwayWsError::Parse);
        }
        i = i + 1;
    }
    proof {
        assert(seq_is_digits(digits));
        assert(str_is_int(s@));
    }
    // Skip leading zeros; they do not affect the value.
    let mut z: usize = start;
    while z < n && s.get_char(z) as u32 == 48
        invariant
            start <= z <= n,
            n == s@.len(),
            digits == s@.skip(start as int),
            seq_is_digits(digits),
            digits_val(digits) == digits_val(s@.skip(z as int)),
        decreases n - z,
    {
        proof {
            lemma_skip_leading_zero(s@.skip(z as int));
            assert(s@.skip(z as int).skip(1) =~= s@.skip(z as int + 1));
        }
        z = z + 1;
    }
    let m = n - z;
    proof {
        assert(s@.skip(z as int).len() == m);
        assert(forall|k: int| 0 <= k < m ==> is_digit_char(#[trigger] s@.skip(z as int)[k]));
    }
    if m > 19 {
        // At least twenty significant digits: out of range for any i64.
        proof {
            let sig = s@.skip(z as int);
            assert(sig[0] == s@[z as int]);
            assert(digit_val(sig[0]) != 0);
            lemma_digits_val_lower(sig);
            lemma_pow10_mono(19, (m - 1) as nat);
            reveal_with_fuel(pow10, 21);
            assert(pow10(19) == 10000000000000000000);
            assert(digits_val(digits) >= 10000000000000000000);
        }
        return Err(SwayWsError::Parse);
    }
    // Accumulate the at most nineteen significant digits; the value stays
    // below 10^19, which fits in a u64.
    let mut acc: u64 = 0;
    let mut j: usize = z;
    proof {
        assert(s@.subrange(z as int, z as int) =~= Seq::<char>::empty());
    }
    while j < n
        invariant
            z <= j <= n,
            n == s@.len(),
            n - z <= 19,
            seq_is_digits(s@.skip(z as int)),
            forall|k: int| z <= k < n ==> is_digit_char(s@[k]),
            acc == digits_val(s@.subrange(z as int, j as int)),
            acc < pow10((j - z) as nat),
        decreases n - j,
    {
        let c = s.get_char(j);
        assert(is_digit_char(c));
        let d: u64 = (c as u32 - 48) as u64;
        proof {
            lemma_pow10_mono((j - z) as nat, 18);
            reveal_with_fuel(pow10, 20);
            assert(acc < 1000000000000000000);
        }
        acc = acc * 10 + d;
        proof {
            let pre = s@.subrange(z as int, j as int);
            let post = s@.subrange(z as int, j as int + 1);
            assert(post.drop_last() =~= pre);
            assert(post.last() == c);
        }
        j = j + 1;
    }
    proof {
        assert(s@.subrange(z as int, n as int) =~= s@.skip(z as int));
        assert(acc == digits_val(digits));
        lemma_digits_val_bounds(digits);
    }
    if neg {
        if acc > 9223372036854775808u64 {
            return Err(SwayWsError::Parse);
        }
        if acc == 9223372036854775808u64 {
            Ok(i64::MIN)
        } else {
            Ok(-(acc as i64))
        }
    } else {
        if acc > 9223372036854775807u64 {
            return Err(SwayWsError::Parse);
        }
        Ok(acc as i64)
    }
}

/// Parses an optionally signed decimal numeral into an `i32`, succeeding
/// exactly on well-formed numerals whose value fits.
pub fn parse_i32(s: &str) -> (r: Result<i32, SwayWsError>)
    ensures
        r is Ok <==> str_is_int(s@) && i32::MIN <= str_int_val(s@) <= i32::MAX,
        r matches Ok(v) ==> v == str_int_val(s@),
        r is Err ==> r == Err::<i32, SwayWsError>(SwayWsError::Parse),
{
    match parse_i64(s) {
        Ok(v) => {
            if -2147483648i64 <= v && v <= 2147483647i64 {
                Ok(v as i32)
            } else {
                Err(SwayWsError::Parse)
            }
        },
        Err(e) => Err(e),
    }
}

/// The character for one decimal digit value.
pub open spec fn digit_char(d: int) -> char {
    if d == 0 {
        '0'
    } else if d == 1 {
        '1'
    } else if d == 2 {
        '2'
    } else if d == 3 {
        '3'
    } else if d == 4 {
        '4'
    } else if d == 5 {
        '5'
    } else if d == 6 {
        '6'
    } else if d == 7 {
        '7'
    } else if d == 8 {
        '8'
    } else {
        '9'
    }
}

/// The decimal digit string of a non-negative integer, without sign or
/// leading zeros.
pub open spec fn dec_digits(n: int) -> Seq<char>
    decreases n,
{
    if n < 10 {
        seq![digit_char(n)]
    } else {
        dec_digits(n / 10) + seq![digit_char(n % 10)]
    }
}

/// The decimal numeral of an integer: a `'-'` sign for negative values,
/// then the digits.
pub open spec fn int_to_dec_str(n: int) -> Seq<char> {
    if n < 0 {
        seq!['-'] + dec_digits(-n)
    } else {
        dec_digits(n)
    }
}

/// The one-character string for a digit value.
fn digit_str(d: u64) -> (r: &'static str)
    requires
        d < 10,
    ensures
        r@ == seq![digit_char(d as int)],
{
    if d == 0 {
        proof {
            reveal_strlit("0");
            assert("0"@ =~= seq![digit_char(0)]);
        }
        "0"
    } else if d == 1 {
        proof {
            reveal_strlit("1");
            assert("1"@ =~= seq![digit_char(1)]);
        }
        "1"
    } else if d == 2 {
        proof {
            reveal_strlit("2");
            assert("2"@ =~= seq![digit_char(2)]);
        }
        "2"
    } else if d == 3 {
        proof {
            reveal_strlit("3");
            assert("3"@ =~= seq![digit_char(3)]);
        }
        "3"
    } else if d == 4 {
        proof {
            reveal_strlit("4");
            assert("4"@ =~= seq![digit_char(4)]);
        }
        "4"
    } else if d == 5 {
        proof {
            reveal_strlit("5");
            assert("5"@ =~= seq![digit_char(5)]);
        }
        "5"
    } else if d == 6 {
        proof {
            reveal_strlit("6");
            assert("6"@ =~= seq![digit_char(6)]);
        }
        "6"
    } else if d == 7 {
        proof {
            reveal_strlit("7");
            assert("7"@ =~= seq![digit_char(7)]);
        }
        "7"
    } else if d == 8 {
        proof {
            reveal_strlit("8");
            assert("8"@ =~= seq![digit_char(8)]);
        }
        "8"
    } else {
        proof {
            reveal_strlit("9");
            assert("9"@ =~= seq![digit_char(9)]);
        }
        "9"
    }
}

/// Renders a `u64` in decimal.
pub fn u64_to_string(n: u64) -> (r: String)
    ensures
        r@ == dec_digits(n as int),
    decreases n,
{
    if n < 10 {
        digit_str(n).to_owned()
    } else {
        let mut s = u64_to_string(n / 10);
        let tail = digit_str(n % 10);
        s.append(tail);
        proof {
            assert(s@ =~= dec_digits(n as int));
        }
        s
    }
}

/// Renders an `i32` in decimal, with a leading `'-'` for negative values.
pub fn i32_to_string(n: i32) -> (r: String)
    ensures
        r@ == int_to_dec_str(n as int),
{
    if n < 0 {
        let mag: u64 = (-(n as i64)) as u64;
        let mut s = "-".to_owned();
        proof {
            reveal_strlit("-");
            assert("-"@ =~= seq!['-']);
        }
        let digits = u64_to_string(mag);
        s.append(digits.as_str());
        proof {
            assert(s@ =~= int_to_dec_str(n as int));
        }
        s
    } else {
        u64_to_string(n as u64)
    }
}

/// Renders an `i64` in decimal, with a leading `'-'` for negative values.
pub fn i64_to_string(n: i64) -> (r: String)
    ensures
        r@ == int_to_dec_str(n as int),
{
    if n >= 0 {
        return u64_to_string(n as u64);
    }
    let mag: u64 = if n == i64::MIN {
        9223372036854775808u64
    } else {
        (-n) as u64
    };
    let mut s = "-".to_owned();
    proof {
        reveal_strlit("-");
        assert("-"@ =~= seq!['-']);
    }
    let digits = u64_to_string(mag);
    s.append(digits.as_str());
    proof {
        assert(s@ =~= int_to_dec_str(n as int));
    }
    s
}

/// The digit string of a non-negative integer is all digits and reads back
/// as that integer.
pub proof fn lemma_dec_digits_value(n: int)
    requires
        n >= 0,
    ensures
        seq_is_digits(dec_digits(n)),
        dec_digits(n).len() >= 1,
        digits_val(dec_digits(n)) == n,
    decreases n,
{
    if n < 10 {
        let s = dec_digits(n);
        assert(s =~= seq![digit_char(n)]);
        assert(is_digit_char(digit_char(n)));
        assert(digit_val(digit_char(n)) == n);
        assert(s.drop_last().len() == 0);
        assert(digits_val(s.drop_last()) == 0);
        assert(digits_val(s) == n);
    } else {
        lemma_dec_digits_value(n / 10);
        let head = dec_digits(n / 10);
        let s = dec_digits(n);
        assert(s =~= head + seq![digit_char(n % 10)]);
        assert(s.drop_last() =~= head);
        assert(s.last() == digit_char(n % 10));
        assert(is_digit_char(digit_char(n % 10)));
        assert(digit_val(digit_char(n % 10)) == n % 10);
        assert(digits_val(s) == digits_val(head) * 10 + (n % 10));
        assert(seq_is_digits(s)) by {
            assert(forall|i: int| 0 <= i < head.len() ==> s[i] == head[i]);
        }
    }
}

/// Rendering and parsing are inverse: the decimal numeral of any integer
/// is a well-formed numeral, and its value is the integer itself. In
/// particular every name a numeric range synthesizes reads back as the
/// number it was made from.
pub proof fn lemma_int_str_round_trip(n: int)
    ensures
        str_is_int(int_to_dec_str(n)),
        str_int_val(int_to_dec_str(n)) == n,
{
    if n < 0 {
        let s = int_to_dec_str(n);
        lemma_dec_digits_value(-n);
        assert(s =~= seq!['-'] + dec_digits(-n));
        assert(s[0] == '-');
        assert(s.skip(1) =~= dec_digits(-n));
        assert(int_digits(s) == s.skip(1));
        assert(str_int_val(s) == -digits_val(dec_digits(-n)));
    } else {
        let s = int_to_dec_str(n);
        lemma_dec_digits_value(n);
        assert(s == dec_digits(n));
        assert(is_digit_char(s[0]));
        assert(s[0] != '-') by {
            if s[0] == '-' {
                assert(s[0] as u32 == '-' as u32);
                assert('-' as u32 == 45);
            }
        }
        assert(s[0] != '+') by {
            if s[0] == '+' {
                assert(s[0] as u32 == '+' as u32);
                assert('+' as u32 == 43);
            }
        }
        assert(int_digits(s) == s);
    }
}

} // verus!

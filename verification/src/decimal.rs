//! Amounts as decimal numerals.
//!
//! Asset values are 128-bit integers, which a JavaScript number cannot hold, so every amount that
//! leaves or enters the wallet does so as a string of decimal digits.
use vstd::prelude::*;
use vstd::string::*;

verus! {

/// The character of the digit `d`.
pub open spec fn digit_char(d: nat) -> char
    recommends
        d < 10,
{
    (48 + d) as char
}

/// Whether `c` is one of the ten decimal digits.
pub open spec fn is_digit(c: char) -> bool {
    '0' <= c <= '9'
}

/// The digit that `c` stands for.
pub open spec fn digit_value(c: char) -> nat
    recommends
        is_digit(c),
{
    (c as int - 48) as nat
}

/// The decimal numeral of `n`, without leading zeros.
pub open spec fn decimal(n: nat) -> Seq<char>
    decreases n,
{
    if n < 10 {
        seq![digit_char(n)]
    } else {
        decimal(n / 10).push(digit_char(n % 10))
    }
}

/// Whether `s` is a nonempty string of decimal digits.
pub open spec fn is_numeral(s: Seq<char>) -> bool {
    &&& s.len() > 0
    &&& forall|i: int| 0 <= i < s.len() ==> is_digit(#[trigger] s[i])
}

/// The number that a string of decimal digits denotes.
pub open spec fn numeral_value(s: Seq<char>) -> nat
    decreases s.len(),
{
    if s.len() == 0 {
        0
    } else {
        10 * numeral_value(s.drop_last()) + digit_value(s.last())
    }
}

/// The amount that `s` denotes, where it is a numeral that fits in 128 bits.
pub open spec fn amount(s: Seq<char>) -> Option<u128> {
    if is_numeral(s) && numeral_value(s) <= u128::MAX {
        Some(numeral_value(s) as u128)
    } else {
        None
    }
}

/// What is written as a numeral is a numeral, and denotes the number that was written.
pub proof fn law_decimal_denotes(n: nat)
    ensures
        is_numeral(decimal(n)),
        numeral_value(decimal(n)) == n,
    decreases n,
{
    if n < 10 {
        assert(decimal(n).drop_last() =~= Seq::<char>::empty());
        assert(numeral_value(decimal(n).drop_last()) == 0);
        assert(decimal(n).last() == digit_char(n));
    } else {
        law_decimal_denotes(n / 10);
        assert(decimal(n).drop_last() =~= decimal(n / 10));
        assert(decimal(n).last() == digit_char(n % 10));
        assert forall|i: int| 0 <= i < decimal(n).len() implies is_digit(
            #[trigger] decimal(n)[i],
        ) by {
            if i < decimal(n / 10).len() {
                assert(decimal(n)[i] == decimal(n / 10)[i]);
            }
        }
    }
}

/// A numeral is a nonempty string of the characters from `0` to `9`.
pub proof fn law_numeral_is_digits(s: Seq<char>)
    ensures
        is_numeral(s) <==> s.len() > 0 && forall|i: int|
            0 <= i < s.len() ==> '0' <= #[trigger] s[i] <= '9',
{
    if s.len() > 0 && forall|i: int| 0 <= i < s.len() ==> '0' <= #[trigger] s[i] <= '9' {
        assert forall|i: int| 0 <= i < s.len() implies is_digit(#[trigger] s[i]) by {}
    }
    if is_numeral(s) {
        assert forall|i: int| 0 <= i < s.len() implies '0' <= #[trigger] s[i] <= '9' by {
            assert(is_digit(s[i]));
        }
    }
}

/// A digit that is written behind a numeral makes its number ten times as large and adds itself.
pub proof fn law_numeral_value_by_place(s: Seq<char>, c: char)
    requires
        '0' <= c <= '9',
    ensures
        numeral_value(Seq::empty()) == 0,
        numeral_value(s.push(c)) == 10 * numeral_value(s) + (c as int - '0' as int),
{
    assert(s.push(c).drop_last() =~= s);
    assert(s.push(c).last() == c);
}

/// No numeral is written with a leading zero but that of zero, which is `0` itself.
pub proof fn law_decimal_has_no_leading_zero(n: nat)
    ensures
        decimal(n).len() > 0,
        decimal(n)[0] == '0' <==> n == 0,
        n == 0 ==> decimal(n) == seq!['0'],
    decreases n,
{
    if n >= 10 {
        law_decimal_has_no_leading_zero(n / 10);
        assert(decimal(n)[0] == decimal(n / 10)[0]);
    }
}

/// A numeral without a leading zero is the one that its number is written as.
pub proof fn law_numeral_is_written_back(s: Seq<char>)
    requires
        s.len() > 0,
        forall|i: int| 0 <= i < s.len() ==> '0' <= #[trigger] s[i] <= '9',
        s.len() > 1 ==> s[0] != '0',
    ensures
        decimal(numeral_value(s)) == s,
        s.len() > 1 ==> numeral_value(s) >= 10,
    decreases s.len(),
{
    let rest = s.drop_last();
    assert('0' <= s.last() <= '9');
    assert(digit_char(digit_value(s.last())) == s.last());
    if s.len() == 1 {
        assert(numeral_value(rest) == 0);
        assert(seq![s.last()] =~= s);
    } else {
        assert(rest[0] == s[0]);
        law_numeral_is_written_back(rest);
        if rest.len() == 1 {
            assert(numeral_value(rest.drop_last()) == 0);
            assert(numeral_value(rest) > 0);
        }
        assert(rest.push(s.last()) =~= s);
    }
}

/// A string denotes the amount `value` exactly where it is all digits, at least one, and its
/// number is `value`.
pub proof fn law_amount_is_exact(s: Seq<char>, value: u128)
    ensures
        amount(s) == Some(value) <==> {
            &&& s.len() > 0
            &&& forall|i: int| 0 <= i < s.len() ==> '0' <= #[trigger] s[i] <= '9'
            &&& numeral_value(s) == value
        },
{
    law_numeral_is_digits(s);
}

/// Different numbers are written differently.
pub proof fn law_decimal_injective(m: nat, n: nat)
    requires
        decimal(m) == decimal(n),
    ensures
        m == n,
{
    law_decimal_denotes(m);
    law_decimal_denotes(n);
}

/// Every 128-bit amount is read back from its numeral unchanged.
pub proof fn law_amount_round_trip(value: u128)
    ensures
        amount(decimal(value as nat)) == Some(value),
{
    law_decimal_denotes(value as nat);
}

/// A longer string of digits never denotes less than a prefix of it.
proof fn lemma_prefix_denotes_no_more(s: Seq<char>, k: int)
    requires
        0 <= k <= s.len(),
    ensures
        numeral_value(s.take(k)) <= numeral_value(s),
    decreases s.len() - k,
{
    if k == s.len() {
        assert(s.take(k) =~= s);
    } else {
        lemma_prefix_denotes_no_more(s, k + 1);
        assert(s.take(k + 1).drop_last() =~= s.take(k));
    }
}

/// The digit `d` as a string of one character.
fn digit_str(d: u8) -> (s: &'static str)
    requires
        d < 10,
    ensures
        s@ == seq![digit_char(d as nat)],
{
    proof {
        reveal_strlit("0");
        reveal_strlit("1");
        reveal_strlit("2");
        reveal_strlit("3");
        reveal_strlit("4");
        reveal_strlit("5");
        reveal_strlit("6");
        reveal_strlit("7");
        reveal_strlit("8");
        reveal_strlit("9");
    }
    match d {
        0 => "0",
        1 => "1",
        2 => "2",
        3 => "3",
        4 => "4",
        5 => "5",
        6 => "6",
        7 => "7",
        8 => "8",
        _ => "9",
    }
}

/// Writes `value` as a decimal numeral.
pub fn decimal_string(value: u128) -> (s: String)
    ensures
        s@ == decimal(value as nat),
        s@.len() > 0,
        forall|i: int| 0 <= i < s@.len() ==> '0' <= #[trigger] s@[i] <= '9',
        numeral_value(s@) == value,
        s@[0] == '0' <==> value == 0,
    decreases value,
{
    let mut s: String = if value < 10 {
        String::new()
    } else {
        decimal_string(value / 10)
    };
    s.append(digit_str((value % 10) as u8));
    assert(s@ =~= decimal(value as nat));
    proof {
        law_decimal_denotes(value as nat);
        law_numeral_is_digits(s@);
        law_decimal_has_no_leading_zero(value as nat);
    }
    s
}

/// Reads a decimal numeral; [`None`] where `s` is no numeral or denotes more than 128 bits hold.
pub fn parse_amount(s: &str) -> (r: Option<u128>)
    ensures
        r == amount(s@),
        r is Some <==> {
            &&& s@.len() > 0
            &&& forall|i: int| 0 <= i < s@.len() ==> '0' <= #[trigger] s@[i] <= '9'
            &&& numeral_value(s@) <= u128::MAX
        },
        r matches Some(value) ==> numeral_value(s@) == value,
{
    proof {
        law_numeral_is_digits(s@);
    }
    if s.is_empty() || !s.is_ascii() {
        proof {
            if is_numeral(s@) {
                assert forall|i: int| 0 <= i < s@.len() implies '\0' <= #[trigger] s@[i]
                    <= '\u{7f}' by {
                    assert(is_digit(s@[i]));
                }
            }
        }
        return None;
    }
    proof {
        vstd::utf8::is_ascii_chars_encode_utf8(s@);
    }
    let bytes = s.as_bytes();
    let mut total: u128 = 0;
    let mut i: usize = 0;
    while i < bytes.len()
        invariant
            0 <= i <= bytes@.len(),
            bytes@.len() == s@.len(),
            s@.len() > 0,
            forall|j: int|
                #![trigger s@[j]]
                #![trigger bytes@[j]]
                0 <= j < s@.len() ==> s@[j] as u8 == bytes@[j],
            forall|j: int| 0 <= j < s@.len() ==> '\0' <= #[trigger] s@[j] <= '\u{7f}',
            forall|j: int| 0 <= j < i ==> is_digit(#[trigger] s@[j]),
            total == numeral_value(s@.take(i as int)),
        decreases bytes@.len() - i,
    {
        let b: u8 = bytes[i];
        proof {
            assert(s@[i as int] as u8 == b);
            assert(s@.take(i + 1).drop_last() =~= s@.take(i as int));
            assert(s@.take(i + 1).last() == s@[i as int]);
            lemma_prefix_denotes_no_more(s@, i + 1);
        }
        if b < 48 || b > 57 {
            return None;
        }
        match total.checked_mul(10) {
            None => {
                return None;
            },
            Some(tens) => match tens.checked_add((b - 48) as u128) {
                None => {
                    return None;
                },
                Some(sum) => {
                    total = sum;
                },
            },
        }
        i += 1;
    }
    assert(s@.take(i as int) =~= s@);
    Some(total)
}

} // verus!

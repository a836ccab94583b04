//! Numbers as text: decimal digits written and read back

use vstd::prelude::*;

verus! {

/// The character of the decimal digit `d`
pub open spec fn digit_char(d: nat) -> char {
    (48 + d) as char
}

/// The number that the decimal digit `c` stands for
pub open spec fn digit_value(c: char) -> nat {
    (c as int - 48) as nat
}

/// Whether `c` is one of `0` to `9`
pub open spec fn is_digit(c: char) -> bool {
    48 <= c as int <= 57
}

/// `n` in decimal, without leading zeros
pub open spec fn decimal(n: nat) -> Seq<char>
    decreases n,
{
    if n < 10 {
        seq![digit_char(n)]
    } else {
        decimal(n / 10).push(digit_char(n % 10))
    }
}

/// The number that the digits of `s` write down, most significant first
pub open spec fn digits_value(s: Seq<char>) -> nat
    decreases s.len(),
{
    if s.len() == 0 {
        0
    } else {
        digits_value(s.drop_last()) * 10 + digit_value(s.last())
    }
}

/// Whether `s` is digits and nothing else
pub open spec fn all_digits(s: Seq<char>) -> bool {
    forall|i: int| 0 <= i < s.len() ==> is_digit(#[trigger] s[i])
}

/// `s` without the one plus sign it may start with
pub open spec fn unsigned_part(s: Seq<char>) -> Seq<char> {
    if s.len() > 0 && s[0] == '+' {
        s.drop_first()
    } else {
        s
    }
}

/// What `s` reads as: an optional plus sign, then digits, of a value that fits 64 bits
pub open spec fn parsed_u64(s: Seq<char>) -> Option<u64> {
    let digits = unsigned_part(s);
    if digits.len() > 0 && all_digits(digits) && digits_value(digits) <= u64::MAX {
        Some(digits_value(digits) as u64)
    } else {
        None
    }
}

/// A number written in decimal is digits and nothing else, and reads back as itself.
pub proof fn law_decimal_reads_back(n: u64)
    ensures
        decimal(n as nat).len() > 0,
        all_digits(decimal(n as nat)),
        parsed_u64(decimal(n as nat)) == Some(n),
{
    lemma_decimal(n as nat);
}

/// Two numbers written in decimal differ unless they are the same number.
pub proof fn law_decimal_is_injective(a: nat, b: nat)
    ensures
        decimal(a) == decimal(b) ==> a == b,
{
    lemma_decimal(a);
    lemma_decimal(b);
}

proof fn lemma_decimal(n: nat)
    ensures
        decimal(n).len() > 0,
        all_digits(decimal(n)),
        digits_value(decimal(n)) == n,
        unsigned_part(decimal(n)) == decimal(n),
    decreases n,
{
    reveal_with_fuel(digits_value, 2);
    if n < 10 {
        assert(decimal(n).drop_last() =~= Seq::<char>::empty());
    } else {
        lemma_decimal(n / 10);
        assert(decimal(n).drop_last() =~= decimal(n / 10));
    }
    assert(is_digit(decimal(n)[0]));
}

proof fn lemma_digits_value_grows(s: Seq<char>, i: int)
    requires
        0 <= i <= s.len(),
    ensures
        digits_value(s.take(i)) <= digits_value(s),
    decreases s.len(),
{
    if i == s.len() {
        assert(s.take(i) =~= s);
    } else {
        assert(s.drop_last().take(i) =~= s.take(i));
        lemma_digits_value_grows(s.drop_last(), i);
    }
}

/// The one-character text of the decimal digit `d`
fn digit_text(d: u64) -> (text: &'static str)
    requires
        d < 10,
    ensures
        text@ == seq![digit_char(d as nat)],
{
    proof {
        reveal_strlit("0");
        reveal_strlit("1");
        reveal_strlit("2");
        reveal_strlit("3");
        reveal_strlit("4");
        reveal_strlit("5");
        reveal_strlit("6");
        reveal_strlit("7");
        reveal_strlit("8");
        reveal_strlit("9");
    }
    match d {
        0 => "0",
        1 => "1",
        2 => "2",
        3 => "3",
        4 => "4",
        5 => "5",
        6 => "6",
        7 => "7",
        8 => "8",
        _ => "9",
    }
}

/// `n` in decimal
pub fn decimal_text(n: u64) -> (text: String)
    ensures
        text@ == decimal(n as nat),
    decreases n,
{
    if n < 10 {
        String::from_str(digit_text(n))
    } else {
        let mut text = decimal_text(n / 10);
        text.append(digit_text(n % 10));
        text
    }
}

/// Read a 64-bit number out of decimal text
///
/// One plus sign may stand in front; anything else that is not a digit, no digit at all, and a
/// value too large are not a number.
pub fn parse_u64(s: &str) -> (n: Option<u64>)
    ensures
        n == parsed_u64(s@),
{
    let len: usize = s.unicode_len();
    let mut start: usize = 0;
    if len > 0 && s.get_char(0) == '+' {
        start = 1;
    }
    let ghost digits = unsigned_part(s@);
    assert(digits =~= s@.skip(start as int));
    if start == len {
        return None;
    }
    let mut value: u64 = 0;
    let mut i: usize = start;
    while i < len
        invariant
            start <= i <= len,
            len == s@.len(),
            digits == s@.skip(start as int),
            digits == unsigned_part(s@),
            all_digits(digits.take(i - start)),
            value == digits_value(digits.take(i - start)),
        decreases len - i,
    {
        let c: char = s.get_char(i);
        let ghost upto = digits.take(i - start + 1);
        assert(upto.drop_last() =~= digits.take(i - start));
        assert(upto.last() == c);
        assert(digits[i - start] == c);
        let code: u32 = c as u32;
        if code < 48 || code > 57 {
            assert(!is_digit(digits[i - start]));
            return None;
        }
        let d: u64 = (code - 48) as u64;
        proof {
            lemma_digits_value_grows(digits, i - start + 1);
        }
        if value > u64::MAX / 10 || value * 10 > u64::MAX - d {
            return None;
        }
        value = value * 10 + d;
        i = i + 1;
    }
    assert(digits.take(len - start) =~= digits);
    Some(value)
}

/// A number is written in decimal, from its first digit on: a single digit as itself, and any other
/// number as what it is without its last digit, followed by that digit.
pub proof fn law_decimal_ends_in_the_last_digit(n: nat, d: nat)
    requires
        d < 10,
    ensures
        decimal(d).len() == 1,
        decimal(d)[0] as int == '0' as int + d,
        n > 0 ==> decimal(n * 10 + d) == decimal(n) + decimal(d),
{
    if n > 0 {
        assert((n * 10 + d) / 10 == n);
        assert((n * 10 + d) % 10 == d);
        assert(decimal(n * 10 + d) =~= decimal(n) + decimal(d));
    }
}

/// Text is read digit by digit: one more digit at the end makes ten times the number and the digit
/// more, as far as 64 bits hold it, and anything but a digit makes it no number. The plus sign that
/// may stand in front is no number by itself, and neither is nothing at all.
pub proof fn law_numbers_are_read_digit_by_digit(s: Seq<char>, c: char)
    ensures
        parsed_u64(Seq::empty()) is None,
        parsed_u64(seq!['+']) is None,
        ({
            let d = c as int - '0' as int;
            let more = parsed_u64(s.push(c));
            if 0 <= d < 10 {
                if s.len() == 0 || s == seq!['+'] {
                    more is Some && more->0 == d
                } else {
                    match parsed_u64(s) {
                        Some(n) => if n * 10 + d <= u64::MAX {
                            more is Some && more->0 == n * 10 + d
                        } else {
                            more is None
                        },
                        None => more is None,
                    }
                }
            } else {
                more is None
            }
        }),
{
    let d = c as int - '0' as int;
    let digits = unsigned_part(s);
    let t = s.push(c);
    let more = unsigned_part(t);
    assert(unsigned_part(Seq::<char>::empty()) =~= Seq::<char>::empty());
    assert(unsigned_part(seq!['+']) =~= Seq::<char>::empty());
    if s.len() == 0 {
        assert(t =~= seq![c]);
        if c == '+' {
            assert(more =~= Seq::<char>::empty());
        } else {
            assert(more =~= seq![c]);
        }
    } else {
        assert(t[0] == s[0]);
        assert(more =~= digits.push(c));
    }
    if more.len() > 0 {
        assert(more.last() == c);
        if all_digits(more) {
            assert(is_digit(more[more.len() - 1]));
        }
    }
    if s.len() == 0 || s == seq!['+'] {
        if 0 <= d < 10 {
            assert(more =~= seq![c]);
            assert(more.drop_last() =~= Seq::<char>::empty());
            reveal_with_fuel(digits_value, 2);
        }
    } else {
        assert(digits.len() > 0) by {
            if digits.len() == 0 {
                assert(s =~= seq!['+']);
            }
        }
        assert(more.drop_last() =~= digits);
        assert(all_digits(more) <==> all_digits(digits) && is_digit(c)) by {
            if all_digits(more) {
                assert forall|i: int| 0 <= i < digits.len() implies is_digit(
                    #[trigger] digits[i],
                ) by {
                    assert(more[i] == digits[i]);
                }
            }
            if all_digits(digits) && is_digit(c) {
                assert forall|i: int| 0 <= i < more.len() implies is_digit(#[trigger] more[i]) by {
                    if i < digits.len() {
                        assert(more[i] == digits[i]);
                    }
                }
            }
        }
    }
}

/// A number that was written out is read back as itself.
pub proof fn law_written_number_is_parsed_back(n: u64, text: String, s: &str, read: Option<u64>)
    requires
        call_ensures(decimal_text, (n,), text),
        s@ == text@,
        call_ensures(parse_u64, (s,), read),
    ensures
        read == Some(n),
{
    law_decimal_reads_back(n);
}

} // verus!

//! Text that numbers and strings are shown as and read from.

use vstd::prelude::*;
use vstd::string::*;

verus! {

/// The character of a decimal digit.
pub open spec fn digit(d: nat) -> char {
    ('0' as u32 + d) as char
}

/// A number in decimal, without leading zeros.
pub open spec fn decimal(n: nat) -> Seq<char>
    decreases n,
{
    if n < 10 {
        seq![digit(n)]
    } else {
        decimal(n / 10).push(digit(n % 10))
    }
}

/// A number in decimal, with a minus sign where it is negative.
pub open spec fn signed_decimal(n: int) -> Seq<char> {
    if n < 0 {
        seq!['-'] + decimal((-n) as nat)
    } else {
        decimal(n as nat)
    }
}

/// Whether every character is a decimal digit.
pub open spec fn all_digits(s: Seq<char>) -> bool {
    forall|i: int| 0 <= i < s.len() ==> '0' <= #[trigger] s[i] <= '9'
}

/// The number that a sequence of digits stands for.
pub open spec fn value_of(s: Seq<char>) -> nat
    decreases s.len(),
{
    if s.len() == 0 {
        0
    } else {
        value_of(s.drop_last()) * 10 + (s.last() as nat - '0' as nat) as nat
    }
}

/// The digits of a number's text: what follows the plus sign, where there is one.
pub open spec fn unsigned_part(s: Seq<char>) -> Seq<char> {
    if s.len() > 0 && s[0] == '+' {
        s.drop_first()
    } else {
        s
    }
}

/// The 64-bit number that a text stands for: an optional plus sign and one or more
/// decimal digits, nothing else, and no more than fits.
pub open spec fn parsed(s: Seq<char>) -> Option<u64> {
    let digits = unsigned_part(s);
    if digits.len() > 0 && all_digits(digits) && value_of(digits) <= u64::MAX {
        Some(value_of(digits) as u64)
    } else {
        None
    }
}

/// What a string is shown as between double quotes, with the escapes of `Debug`.
pub uninterp spec fn quoted(s: Seq<char>) -> Seq<char>;

/// A decimal digit as text.
fn digit_text(d: u64) -> (r: String)
    requires
        d < 10,
    ensures
        r@ == seq![digit(d as nat)],
{
    let r = match d {
        0 => "0",
        1 => "1",
        2 => "2",
        3 => "3",
        4 => "4",
        5 => "5",
        6 => "6",
        7 => "7",
        8 => "8",
        _ => "9",
    };
    proof {
        reveal_strlit("0");
        reveal_strlit("1");
        reveal_strlit("2");
        reveal_strlit("3");
        reveal_strlit("4");
        reveal_strlit("5");
        reveal_strlit("6");
        reveal_strlit("7");
        reveal_strlit("8");
        reveal_strlit("9");
        assert(r@ =~= seq![digit(d as nat)]);
    }
    r.to_owned()
}

/// Shows a number in decimal.
pub(crate) fn decimal_u64(n: u64) -> (r: String)
    ensures
        r@ == decimal(n as nat),
    decreases n,
{
    if n < 10 {
        digit_text(n)
    } else {
        let mut r = decimal_u64(n / 10);
        r.append(digit_text(n % 10).as_str());
        assert(r@ =~= decimal(n as nat / 10).push(digit(n as nat % 10)));
        r
    }
}

/// Shows a number in decimal, after a minus sign where it is negative.
pub(crate) fn decimal_i64(n: i64) -> (r: String)
    ensures
        r@ == signed_decimal(n as int),
{
    if n < 0 {
        let magnitude = (-(n + 1)) as u64 + 1;
        let mut r = "-".to_owned();
        r.append(decimal_u64(magnitude).as_str());
        proof {
            reveal_strlit("-");
            assert("-"@ =~= seq!['-']);
        }
        r
    } else {
        decimal_u64(n as u64)
    }
}

proof fn lemma_value_grows(s: Seq<char>, i: int)
    requires
        0 <= i <= s.len(),
    ensures
        value_of(s.take(i)) <= value_of(s),
    decreases s.len() - i,
{
    if i < s.len() {
        assert(s.take(i + 1).drop_last() =~= s.take(i));
        lemma_value_grows(s, i + 1);
    } else {
        assert(s.take(i) =~= s);
    }
}

/// Reads a text as a number.
pub(crate) fn parse_u64(s: &str) -> (r: Option<u64>)
    ensures
        r == parsed(s@),
{
    let len = s.unicode_len();
    let start: usize = if len > 0 && s.get_char(0) == '+' {
        1
    } else {
        0
    };
    if start == len {
        return None;
    }
    let ghost digits = unsigned_part(s@);
    assert(digits =~= s@.skip(start as int));
    let mut i: usize = start;
    let mut value: u64 = 0;
    assert(digits.take(0) =~= Seq::<char>::empty());
    while i < len
        invariant
            start <= i <= len,
            len == s@.len(),
            digits == s@.skip(start as int),
            digits == unsigned_part(s@),
            all_digits(digits.take(i - start)),
            value == value_of(digits.take(i - start)),
        decreases len - i,
    {
        let ghost done = i - start;
        let c = s.get_char(i);
        assert(c == digits[done]);
        if !('0' <= c && c <= '9') {
            return None;
        }
        let d = c as u64 - '0' as u64;
        proof {
            assert(digits.take(done + 1).drop_last() =~= digits.take(done));
            assert(value_of(digits.take(done + 1)) == value * 10 + d);
            assert forall|j: int| 0 <= j < done + 1 implies '0' <= #[trigger] digits.take(
                done + 1,
            )[j] <= '9' by {
                if j < done {
                    assert(digits.take(done)[j] == digits[j]);
                }
            }
        }
        if value > (u64::MAX - d) / 10 {
            proof {
                lemma_value_grows(digits, done + 1);
            }
            return None;
        }
        value = value * 10 + d;
        i = i + 1;
    }
    assert(digits.take(i - start) =~= digits);
    Some(value)
}

/// `Debug` of `str`: shows the string between double quotes, with escapes.
#[verifier::external_body]
pub(crate) fn quote(s: &str) -> (r: String)
    ensures
        r@ == quoted(s@),
{
    format!("{:?}", s)
}

/// Shows a number in decimal.
pub(crate) fn decimal_usize(n: usize) -> (r: String)
    ensures
        r@ == decimal(n as nat),
{
    decimal_u64(n as u64)
}

/// A number in decimal is one or more digits, and they stand for it.
pub proof fn law_decimal_stands_for_its_number(n: nat)
    ensures
        decimal(n).len() > 0,
        all_digits(decimal(n)),
        value_of(decimal(n)) == n,
    decreases n,
{
    assert('0' as u32 == 0x30 && '9' as u32 == 0x39);
    if n < 10 {
        assert(decimal(n).drop_last() =~= Seq::<char>::empty());
        assert(decimal(n).last() == digit(n));
        assert(value_of(Seq::<char>::empty()) == 0);
    } else {
        law_decimal_stands_for_its_number(n / 10);
        assert(decimal(n).drop_last() =~= decimal(n / 10));
        assert(decimal(n).last() == digit(n % 10));
    }
}

/// Numbers with the same text are the same number.
pub proof fn law_signed_decimals_tell_numbers_apart(m: int, n: int)
    requires
        signed_decimal(m) == signed_decimal(n),
    ensures
        m == n,
{
    let (a, b) = (if m < 0 { -m } else { m }, if n < 0 { -n } else { n });
    law_decimal_stands_for_its_number(a as nat);
    law_decimal_stands_for_its_number(b as nat);
    let (da, db) = (decimal(a as nat), decimal(b as nat));
    assert('0' <= da[0] <= '9' && '0' <= db[0] <= '9');
    if m < 0 && n < 0 {
        assert(da =~= (seq!['-'] + da).skip(1));
        assert(db =~= (seq!['-'] + db).skip(1));
    } else if m < 0 {
        assert((seq!['-'] + da)[0] == '-');
    } else if n < 0 {
        assert((seq!['-'] + db)[0] == '-');
    }
}

/// Three pieces of text, one after another.
pub(crate) fn wrap(before: &str, middle: &str, after: &str) -> (r: String)
    ensures
        r@ == before@ + middle@ + after@,
{
    let mut r = before.to_owned();
    r.append(middle);
    r.append(after);
    r
}

/// A digit counts as many as it is places behind `0`, and one more digit makes what comes before
/// it count tenfold.
pub proof fn law_digits_count_by_their_place(s: Seq<char>, d: char)
    requires
        '0' <= d <= '9',
    ensures
        value_of(seq![]) == 0,
        value_of(s.push(d)) == value_of(s) * 10 + (d as int - '0' as int),
{
    assert(s.push(d).drop_last() =~= s);
}

/// A number in decimal has no leading zero, unless it is zero itself.
pub proof fn law_decimal_has_no_leading_zero(n: nat)
    ensures
        decimal(n)[0] == '0' ==> n == 0,
        decimal(0) == seq!['0'],
    decreases n,
{
    if n >= 10 {
        law_decimal_has_no_leading_zero(n / 10);
        law_decimal_stands_for_its_number(n / 10);
    }
}

/// A negative number is shown with a minus sign before what its opposite is shown as.
pub proof fn law_sign_is_shown(n: nat)
    ensures
        signed_decimal(n as int) == decimal(n),
        n > 0 ==> signed_decimal(-(n as int)) == seq!['-'] + decimal(n),
{
}

/// A number is read from its decimal text, with a plus sign before it or without, and with zeros
/// before it or without.
pub proof fn law_numbers_are_read_from_their_texts(n: u64, digits: Seq<char>)
    requires
        forall|i: int| 0 <= i < digits.len() ==> '0' <= #[trigger] digits[i] <= '9',
    ensures
        parsed(decimal(n as nat)) == Some(n),
        parsed(seq!['+'] + decimal(n as nat)) == Some(n),
        digits.len() > 0 ==> parsed(seq!['0'] + digits) == parsed(digits),
{
    law_decimal_stands_for_its_number(n as nat);
    let text = decimal(n as nat);
    assert('0' <= text[0] <= '9');
    assert((seq!['+'] + text).drop_first() =~= text);
    if digits.len() > 0 {
        lemma_leading_zero(digits);
        let longer = seq!['0'] + digits;
        assert(longer[0] == '0' && '0' <= digits[0] <= '9');
        assert(all_digits(digits));
        assert forall|i: int| 0 <= i < longer.len() implies '0' <= #[trigger] longer[i] <= '9' by {
            if i > 0 {
                assert(longer[i] == digits[i - 1]);
            }
        }
    }
}

proof fn lemma_leading_zero(digits: Seq<char>)
    ensures
        value_of(seq!['0'] + digits) == value_of(digits),
    decreases digits.len(),
{
    let longer = seq!['0'] + digits;
    if digits.len() == 0 {
        assert(longer.drop_last() =~= Seq::<char>::empty());
        assert(value_of(longer.drop_last()) == 0);
    } else {
        assert(longer.drop_last() =~= seq!['0'] + digits.drop_last());
        lemma_leading_zero(digits.drop_last());
    }
}

/// No number is read from a text without digits, from one with anything but digits behind an
/// optional plus sign, or from one that counts more than fits; from any other text of digits the
/// number is read that it counts.
pub proof fn law_only_numbers_are_read(digits: Seq<char>, text: Seq<char>, i: int)
    requires
        forall|j: int| 0 <= j < digits.len() ==> '0' <= #[trigger] digits[j] <= '9',
    ensures
        parsed(seq![]) is None,
        parsed(seq!['+']) is None,
        0 <= i < text.len() && !('0' <= text[i] <= '9') && (i > 0 || text[i] != '+') ==> parsed(
            text,
        ) is None,
        digits.len() > 0 && value_of(digits) > u64::MAX ==> parsed(digits) is None,
        digits.len() > 0 && value_of(digits) <= u64::MAX ==> parsed(digits) == Some(
            value_of(digits) as u64,
        ),
{
    if 0 <= i < text.len() && !('0' <= text[i] <= '9') && (i > 0 || text[i] != '+') {
        let rest = unsigned_part(text);
        if text[0] == '+' {
            assert(rest[i - 1] == text[i]);
        }
        assert(!all_digits(rest));
    }
    if digits.len() > 0 {
        assert('0' <= digits[0] <= '9');
        assert(all_digits(digits));
    }
}

} // verus!

//! Decimal numerals: reading unsigned numbers from text and writing them.
use vstd::prelude::*;

verus! {

/// Whether a character is one of the ten decimal digits.
pub open spec fn is_digit(c: char) -> bool {
    '0' <= c <= '9'
}

/// Whether a text is made of decimal digits alone.
pub open spec fn all_digits(s: Seq<char>) -> bool {
    forall|i: int| 0 <= i < s.len() ==> is_digit(#[trigger] s[i])
}

/// The number that a run of decimal digits writes.
pub open spec fn value_of(s: Seq<char>) -> nat
    decreases s.len(),
{
    if s.len() == 0 {
        0
    } else {
        value_of(s.drop_last()) * 10 + (s.last() as u32 - '0' as u32) as nat
    }
}

/// A numeral without the plus sign that it may begin with.
pub open spec fn unsigned_digits(s: Seq<char>) -> Seq<char> {
    if s.len() > 0 && s[0] == '+' {
        s.skip(1)
    } else {
        s
    }
}

/// The number that a text writes: an optional plus sign, then one digit or more,
/// with a value of at most `limit`.
pub open spec fn number_in(s: Seq<char>, limit: nat) -> Option<nat> {
    let digits = unsigned_digits(s);
    if digits.len() > 0 && all_digits(digits) && value_of(digits) <= limit {
        Some(value_of(digits))
    } else {
        None
    }
}

proof fn lemma_value_grows(s: Seq<char>, i: int)
    requires
        0 <= i <= s.len(),
    ensures
        value_of(s.take(i)) <= value_of(s),
    decreases s.len() - i,
{
    if i < s.len() {
        lemma_value_grows(s, i + 1);
        assert(s.take(i + 1).drop_last() =~= s.take(i));
    } else {
        assert(s.take(i) =~= s);
    }
}

/// Reads an unsigned number of at most `limit` from a text.
pub fn read_number(s: &str, limit: u64) -> (r: Option<u64>)
    ensures
        match r {
            Some(n) => number_in(s@, limit as nat) == Some(n as nat),
            None => number_in(s@, limit as nat) is None,
        },
{
    let chars = crate::text::chars_of(s);
    let mut i: usize = 0;
    if chars.len() > 0 && chars[0] == '+' {
        i = 1;
    }
    let ghost digits = unsigned_digits(s@);
    let ghost offset = i as int;
    assert(i == 0 ==> s@.skip(0) =~= s@);
    assert(digits == s@.skip(offset));
    if i == chars.len() {
        return None;
    }
    let mut value: u64 = 0;
    assert(digits.take(0) =~= Seq::<char>::empty());
    while i < chars.len()
        invariant
            offset <= i <= chars.len(),
            0 <= offset <= 1,
            chars@ == s@,
            digits == s@.skip(offset),
            digits == unsigned_digits(s@),
            all_digits(digits.take(i - offset)),
            value == value_of(digits.take(i - offset)),
            value <= limit,
        decreases chars.len() - i,
    {
        let c = chars[i];
        assert(digits[i - offset] == c);
        if !('0' <= c && c <= '9') {
            return None;
        }
        let ghost seen = digits.take(i - offset + 1);
        assert(seen.drop_last() =~= digits.take(i - offset));
        let d: u64 = c as u64 - '0' as u64;
        proof {
            lemma_value_grows(digits, i - offset + 1);
        }
        if value > limit / 10 {
            return None;
        }
        let tens: u64 = value * 10;
        if d > limit - tens {
            return None;
        }
        value = tens + d;
        i += 1;
    }
    assert(digits.take(i - offset) =~= digits);
    Some(value)
}

/// The digit that writes a number below ten.
pub open spec fn digit(n: nat) -> char {
    (n + '0' as u32) as char
}

/// The decimal digits that write a number, without leading zeros.
pub open spec fn digits_of(n: nat) -> Seq<char>
    decreases n,
{
    if n < 10 {
        seq![digit(n)]
    } else {
        digits_of(n / 10).push(digit(n % 10))
    }
}

/// The decimal digits that write a number, with a zero before a single one.
pub open spec fn two_digits_of(n: nat) -> Seq<char> {
    if n < 10 {
        seq!['0', digit(n)]
    } else {
        digits_of(n)
    }
}

fn digit_char(n: u64) -> (r: char)
    requires
        n < 10,
    ensures
        r == digit(n as nat),
{
    (n as u8 + '0' as u8) as char
}

/// Writes a number in decimal.
pub fn write_number(n: u64) -> (r: String)
    ensures
        r@ == digits_of(n as nat),
    decreases n,
{
    if n < 10 {
        let mut out = String::new();
        out.push(digit_char(n));
        assert(out@ =~= digits_of(n as nat));
        out
    } else {
        let mut out = write_number(n / 10);
        out.push(digit_char(n % 10));
        out
    }
}

/// Writes a number in decimal, with at least two digits.
pub fn write_two_digits(n: u64) -> (r: String)
    ensures
        r@ == two_digits_of(n as nat),
{
    if n < 10 {
        let mut out = String::new();
        out.push('0');
        out.push(digit_char(n));
        assert(out@ =~= two_digits_of(n as nat));
        out
    } else {
        write_number(n)
    }
}

/// The digits that write a number are digits, and their value is the number.
pub proof fn lemma_digits_read_back(n: nat)
    ensures
        digits_of(n).len() > 0,
        all_digits(digits_of(n)),
        value_of(digits_of(n)) == n,
    decreases n,
{
    reveal_with_fuel(value_of, 2);
    if n >= 10 {
        lemma_digits_read_back(n / 10);
        assert(digits_of(n).drop_last() =~= digits_of(n / 10));
    } else {
        assert(digits_of(n).drop_last() =~= Seq::<char>::empty());
    }
}

/// A number that was written in decimal is read back as it was, whether or not it
/// was written with two digits at least.
pub proof fn written_numbers_are_read_back(n: nat, limit: nat)
    requires
        n <= limit,
    ensures
        number_in(digits_of(n), limit) == Some(n),
        number_in(two_digits_of(n), limit) == Some(n),
{
    lemma_digits_read_back(n);
    reveal_with_fuel(value_of, 3);
    if n < 10 {
        let s = seq!['0', digit(n)];
        assert(s.drop_last() =~= seq!['0']);
        assert(s.drop_last().drop_last() =~= Seq::<char>::empty());
    }
    assert(is_digit(digits_of(n)[0]));
}

/// Ten to the power of `k`.
pub open spec fn power_of_ten(k: nat) -> nat
    decreases k,
{
    if k == 0 {
        1
    } else {
        10 * power_of_ten((k - 1) as nat)
    }
}

proof fn lemma_digits_are_few(n: nat, k: nat)
    requires
        k > 0,
        n < power_of_ten(k),
    ensures
        digits_of(n).len() <= k,
    decreases n,
{
    reveal_with_fuel(power_of_ten, 2);
    if n >= 10 {
        lemma_digits_are_few(n / 10, (k - 1) as nat);
    }
}

/// A number of 64 bits has at most twenty digits.
pub proof fn lemma_at_most_twenty_digits(n: u64)
    ensures
        digits_of(n as nat).len() <= 20,
{
    reveal_with_fuel(power_of_ten, 21);
    lemma_digits_are_few(n as nat, 20);
}

/// A run of digits writes less than ten to the power of its length.
pub proof fn lemma_value_is_small(s: Seq<char>)
    requires
        all_digits(s),
    ensures
        value_of(s) < power_of_ten(s.len()),
    decreases s.len(),
{
    if s.len() > 0 {
        assert(is_digit(s[s.len() - 1]));
        assert forall|i: int| 0 <= i < s.drop_last().len() implies is_digit(
            #[trigger] s.drop_last()[i],
        ) by {
            assert(s.drop_last()[i] == s[i]);
        }
        lemma_value_is_small(s.drop_last());
    }
}

/// Ten to the power of a larger number is no smaller.
pub proof fn lemma_powers_grow(a: nat, b: nat)
    requires
        a <= b,
    ensures
        power_of_ten(a) <= power_of_ten(b),
    decreases b,
{
    if a < b {
        lemma_powers_grow(a, (b - 1) as nat);
    }
}

/// Numerals are positional: a digit behind others counts ones, and those before it tens
/// of what they count alone.
pub proof fn numerals_are_positional(s: Seq<char>, c: char, limit: nat)
    requires
        forall|i: int| 0 <= i < s.len() ==> '0' <= #[trigger] s[i] <= '9',
        '0' <= c <= '9',
    ensures
        s.len() == 0 ==> number_in(s.push(c), 9) == Some((c as int - 48) as nat),
        number_in(s.push(c), limit) matches Some(n) ==> n <= limit && n % 10 == c as int - 48 && (
        s.len() > 0 ==> number_in(s, limit) == Some(n / 10)),
        s.len() > 0 && number_in(s, limit) is Some && number_in(s, limit)->0 * 10 + (c as int - 48)
            <= limit ==> number_in(s.push(c), limit) is Some,
{
    let t = s.push(c);
    assert(t.drop_last() =~= s);
    reveal_with_fuel(value_of, 2);
    assert(all_digits(s));
    assert forall|i: int| 0 <= i < t.len() implies is_digit(#[trigger] t[i]) by {
        if i < s.len() {
            assert(t[i] == s[i]);
        }
    }
    assert(is_digit(t[0]));
    if s.len() > 0 {
        assert(is_digit(s[0]));
    }
}

/// What is a number has a digit at its end and none but digits behind its first
/// character, which may be a plus sign.
pub proof fn only_digits_make_numbers(s: Seq<char>, limit: nat)
    ensures
        number_in(s, limit) is Some ==> s.len() > 0 && '0' <= s.last() <= '9',
        number_in(s, limit) is Some ==> forall|i: int|
            0 <= i < s.len() ==> '0' <= #[trigger] s[i] <= '9' || (i == 0 && s[i] == '+'),
        s.len() > 0 && '0' <= s[0] <= '9' ==> number_in(seq!['+'] + s, limit) == number_in(s, limit),
{
    let plus = seq!['+'] + s;
    assert(plus.skip(1) =~= s);
    if number_in(s, limit) is Some {
        let digits = unsigned_digits(s);
        assert(is_digit(digits[digits.len() - 1]));
        assert forall|i: int| 0 <= i < s.len() implies '0' <= #[trigger] s[i] <= '9' || (i == 0
            && s[i] == '+') by {
            if s[0] == '+' {
                if i > 0 {
                    assert(is_digit(digits[i - 1]));
                }
            } else {
                assert(is_digit(digits[i]));
            }
        }
    }
}

/// A number is written without a zero before it, its last digit is its remainder by
/// ten, and what stands before that writes its tenth.
pub proof fn numbers_are_written_by_tens(n: nat)
    ensures
        n < 10 ==> digits_of(n).len() == 1 && digits_of(n)[0] as int == 48 + n,
        n >= 10 ==> digits_of(n).drop_last() == digits_of(n / 10) && digits_of(n).last() as int
            == 48 + n % 10,
        n < 10 ==> two_digits_of(n) == seq!['0'] + digits_of(n),
        n >= 10 ==> two_digits_of(n) == digits_of(n),
{
    if n >= 10 {
        assert(digits_of(n).drop_last() =~= digits_of(n / 10));
    } else {
        assert(two_digits_of(n) =~= seq!['0'] + digits_of(n));
    }
}

/// What is written of a number is read back as that number, and nothing above the limit is
/// read.
pub proof fn numbers_survive_writing(
    n: u64,
    limit: u64,
    text: &str,
    written: String,
    padded: String,
    r: Option<u64>,
)
    requires
        call_ensures(write_number, (n,), written),
        call_ensures(write_two_digits, (n,), padded),
        text@ == written@ || text@ == padded@,
        call_ensures(read_number, (text, limit), r),
    ensures
        n <= limit ==> r == Some(n),
        n > limit ==> r is None,
        n < 10 ==> written@.len() == 1 && padded@ == seq!['0'] + written@,
        n >= 10 ==> padded@ == written@,
        n == 0 || written@[0] != '0',
{
    lemma_digits_read_back(n as nat);
    numbers_are_written_by_tens(n as nat);
    lemma_no_zero_before(n as nat);
    let digits = digits_of(n as nat);
    assert(is_digit(digits[0]));
    if n < 10 {
        let long = seq!['0'] + digits;
        assert(long.drop_last() =~= seq!['0']);
        reveal_with_fuel(value_of, 3);
        assert forall|i: int| 0 <= i < long.len() implies is_digit(#[trigger] long[i]) by {
            if i > 0 {
                assert(long[i] == digits[i - 1]);
            }
        }
        assert(digits.drop_last() =~= Seq::<char>::empty());
        assert(long.last() == digits.last());
        assert(value_of(long) == n);
    }
}

proof fn lemma_no_zero_before(n: nat)
    ensures
        digits_of(n).len() > 0,
        n == 0 || digits_of(n)[0] != '0',
    decreases n,
{
    if n >= 10 {
        lemma_no_zero_before(n / 10);
    }
}

} // verus!

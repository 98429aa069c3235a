//! Lengths of time: reading `H:MM:SS` clocks, carrying the parts of a calendar
//! duration into hours, minutes and seconds, and writing clocks.
use vstd::prelude::*;

verus! {

/// The number of seconds in some hours, minutes and seconds.
pub open spec fn seconds_in(h: nat, m: nat, s: nat) -> nat {
    h * 3600 + m * 60 + s
}

/// The number in the part that stands `back` places before the last one; zero if
/// the clock has no such part.
pub open spec fn part_from_end(clock: Seq<Seq<char>>, back: int) -> Option<nat> {
    if back < clock.len() {
        crate::numerals::number_in(clock[clock.len() - 1 - back], u64::MAX as nat)
    } else {
        Some(0)
    }
}

/// The hours, minutes and seconds of a clock: the last part holds the seconds,
/// the one before it the minutes, the one before that the hours. Parts before
/// these do not count.
pub open spec fn clock_fields(s: Seq<char>) -> Option<(nat, nat, nat)> {
    let clock = crate::text::parts(s, ':');
    match (part_from_end(clock, 2), part_from_end(clock, 1), part_from_end(clock, 0)) {
        (Some(hours), Some(minutes), Some(seconds)) => Some((hours, minutes, seconds)),
        _ => None,
    }
}

/// Whether the seconds of a clock can be counted in 64 bits. A text that is no
/// clock has none to count.
pub open spec fn clock_is_countable(s: Seq<char>) -> bool {
    clock_fields(s) matches Some((h, m, x)) ==> seconds_in(h, m, x) <= u64::MAX
}

fn number_from_end(clock: &Vec<String>, back: usize) -> (r: Option<u64>)
    ensures
        match r {
            Some(n) => part_from_end(clock.deep_view(), back as int) == Some(n as nat),
            None => part_from_end(clock.deep_view(), back as int) is None,
        },
{
    if back < clock.len() {
        crate::numerals::read_number(clock[clock.len() - 1 - back].as_str(), u64::MAX)
    } else {
        Some(0)
    }
}

/// Reads the hours, minutes and seconds of a clock.
pub fn read_clock(s: &str) -> (r: Option<(u64, u64, u64)>)
    ensures
        match r {
            Some((h, m, x)) => clock_fields(s@) == Some((h as nat, m as nat, x as nat)),
            None => clock_fields(s@) is None,
        },
{
    let clock = crate::text::split(s, ':');
    match (number_from_end(&clock, 2), number_from_end(&clock, 1), number_from_end(&clock, 0)) {
        (Some(hours), Some(minutes), Some(seconds)) => Some((hours, minutes, seconds)),
        _ => None,
    }
}

fn count_seconds(h: u64, m: u64, s: u64) -> (r: Option<u64>)
    ensures
        match r {
            Some(n) => n == seconds_in(h as nat, m as nat, s as nat),
            None => seconds_in(h as nat, m as nat, s as nat) > u64::MAX,
        },
{
    let total: u128 = h as u128 * 3600 + m as u128 * 60 + s as u128;
    if total <= u64::MAX as u128 {
        Some(total as u64)
    } else {
        None
    }
}

/// Whether the seconds of a clock can be counted in 64 bits.
pub fn clock_counts(s: &str) -> (r: bool)
    ensures
        r == clock_is_countable(s@),
{
    match read_clock(s) {
        Some((h, m, x)) => count_seconds(h, m, x).is_some(),
        None => true,
    }
}

/// Reads a clock such as `1:02:03`, `2:03` or `3` as a number of seconds.
pub fn parse_duration(duration_str: &str) -> (r: Result<u64, String>)
    requires
        clock_is_countable(duration_str@),
    ensures
        match r {
            Ok(n) => clock_fields(duration_str@) matches Some((h, m, s)) && n == seconds_in(h, m, s),
            Err(e) => clock_fields(duration_str@) is None && e@ == "Invalid format"@,
        },
{
    match read_clock(duration_str) {
        Some((h, m, s)) => Ok(h * 3600 + m * 60 + s),
        None => Err("Invalid format".to_string()),
    }
}

proof fn lemma_parts_are_short(s: Seq<char>, i: int)
    requires
        0 <= i < crate::text::parts(s, ':').len(),
    ensures
        crate::text::parts(s, ':')[i].len() + crate::text::parts(s, ':').len() - 1 <= s.len(),
    decreases s.len(),
{
    crate::text::lemma_first_of(s, ':');
    let at = crate::text::first_of(s, ':');
    if at < s.len() {
        let rest = crate::text::parts(s.skip(at + 1), ':');
        lemma_parts_are_short(s.skip(at + 1), if i > 0 { i - 1 } else { 0 });
    }
}

proof fn lemma_part_is_small(s: Seq<char>, back: int)
    requires
        0 <= back <= 2,
        s.len() <= 17,
    ensures
        part_from_end(crate::text::parts(s, ':'), back) matches Some(n)
            ==> n < crate::numerals::power_of_ten((17 - back) as nat),
{
    let clock = crate::text::parts(s, ':');
    reveal_with_fuel(crate::numerals::power_of_ten, 2);
    crate::numerals::lemma_powers_grow(0, (17 - back) as nat);
    if back < clock.len() && part_from_end(clock, back) is Some {
        let part = clock[clock.len() - 1 - back];
        let digits = crate::numerals::unsigned_digits(part);
        lemma_parts_are_short(s, clock.len() - 1 - back);
        crate::numerals::lemma_value_is_small(digits);
        crate::numerals::lemma_powers_grow(digits.len(), (17 - back) as nat);
    }
}

/// The seconds of a clock of up to seventeen characters can always be counted.
pub proof fn ordinary_clocks_count(s: Seq<char>)
    requires
        s.len() <= 17,
    ensures
        clock_is_countable(s),
{
    lemma_part_is_small(s, 0);
    lemma_part_is_small(s, 1);
    lemma_part_is_small(s, 2);
    reveal_with_fuel(crate::numerals::power_of_ten, 18);
}

/// The whole parts of a duration's hours, minutes and seconds, before any of them
/// is carried over.
#[derive(Clone, Copy, Debug, PartialEq, Eq)]
pub struct IsoDuration {
    pub hour: i64,
    pub minute: i64,
    pub second: i64,
}

impl IsoDuration {
    /// The minutes, with those that the seconds make up.
    pub open spec fn carried_minutes(self) -> int {
        if self.second >= 60 {
            self.minute + self.second / 60
        } else {
            self.minute as int
        }
    }

    /// The hours, with those that the minutes make up.
    pub open spec fn carried_hours(self) -> int {
        if self.carried_minutes() >= 60 {
            self.hour + self.carried_minutes() / 60
        } else {
            self.hour as int
        }
    }

    /// The hours, minutes and seconds after carrying; what is negative counts as
    /// zero.
    pub open spec fn hms(self) -> (nat, nat, nat) {
        let m = self.carried_minutes();
        (
            if self.carried_hours() > 0 { self.carried_hours() as nat } else { 0 },
            if m >= 60 { (m % 60) as nat } else if m > 0 { m as nat } else { 0 },
            if self.second >= 60 {
                (self.second % 60) as nat
            } else if self.second > 0 {
                self.second as nat
            } else {
                0
            },
        )
    }

    /// Whether the carried parts still fit their 64 bits.
    pub open spec fn carries(self) -> bool {
        self.carried_minutes() <= i64::MAX && self.carried_hours() <= i64::MAX
    }

    /// Whether, besides, the seconds can be counted in 64 bits.
    pub open spec fn is_countable(self) -> bool {
        self.carries() && seconds_in(self.hms().0, self.hms().1, self.hms().2) <= u64::MAX
    }

    /// Tests whether the carried parts fit their 64 bits.
    pub fn carrying_fits(&self) -> (r: bool)
        ensures
            r == self.carries(),
    {
        let mut m: i64 = self.minute;
        if self.second >= 60 {
            match m.checked_add(self.second / 60) {
                Some(carried) => m = carried,
                None => return false,
            }
        }
        m < 60 || self.hour.checked_add(m / 60).is_some()
    }

    /// Tests whether the seconds of a duration can be counted.
    pub fn counts(&self) -> (r: bool)
        ensures
            r == self.is_countable(),
    {
        if !self.carrying_fits() {
            return false;
        }
        let (h, m, s) = iso_duration_to_hms(self);
        count_seconds(h, m, s).is_some()
    }
}

/// Carries the seconds over sixty into minutes and the minutes over sixty into
/// hours.
pub fn iso_duration_to_hms(d: &IsoDuration) -> (r: (u64, u64, u64))
    requires
        d.carries(),
    ensures
        (r.0 as nat, r.1 as nat, r.2 as nat) == d.hms(),
{
    let mut h: i64 = d.hour;
    let mut m: i64 = d.minute;
    let mut s: i64 = d.second;
    if s >= 60 {
        m = m + s / 60;
        s = s % 60;
    }
    if m >= 60 {
        h = h + m / 60;
        m = m % 60;
    }
    (
        if h > 0 { h as u64 } else { 0 },
        if m > 0 { m as u64 } else { 0 },
        if s > 0 { s as u64 } else { 0 },
    )
}

/// The length of a duration in seconds.
pub fn duration_to_seconds(d: &IsoDuration) -> (r: u64)
    requires
        d.is_countable(),
    ensures
        r == seconds_in(d.hms().0, d.hms().1, d.hms().2),
{
    let (h, m, s) = iso_duration_to_hms(d);
    h * 3600 + m * 60 + s
}

/// Carrying leaves fewer than sixty minutes and seconds, and keeps the length of
/// a duration whose parts are not negative.
pub proof fn carrying_keeps_the_length(d: IsoDuration)
    requires
        d.hour >= 0,
        d.minute >= 0,
        d.second >= 0,
    ensures
        d.hms().1 < 60,
        d.hms().2 < 60,
        seconds_in(d.hms().0, d.hms().1, d.hms().2) == seconds_in(
            d.hour as nat,
            d.minute as nat,
            d.second as nat,
        ),
{
}

/// Hours, minutes and seconds on a clock, each with two digits at least.
pub open spec fn clock_text(h: nat, m: nat, s: nat) -> Seq<char> {
    crate::numerals::two_digits_of(h) + seq![':'] + crate::numerals::two_digits_of(m) + seq![':']
        + crate::numerals::two_digits_of(s)
}

/// Writes hours, minutes and seconds as `HH:MM:SS`.
pub fn write_clock(h: u64, m: u64, s: u64) -> (r: String)
    ensures
        r@ == clock_text(h as nat, m as nat, s as nat),
{
    let mut out = crate::numerals::write_two_digits(h);
    out.push(':');
    out.append(crate::numerals::write_two_digits(m).as_str());
    out.push(':');
    out.append(crate::numerals::write_two_digits(s).as_str());
    assert(out@ =~= clock_text(h as nat, m as nat, s as nat));
    out
}

/// A number of seconds on a clock.
pub open spec fn seconds_text(n: nat) -> Seq<char> {
    clock_text(n / 3600, n / 60 % 60, n % 60)
}

/// Writes a number of seconds as `HH:MM:SS`.
pub fn write_seconds(n: u64) -> (r: String)
    ensures
        r@ == seconds_text(n as nat),
{
    write_clock(n / 3600, n / 60 % 60, n % 60)
}

proof fn lemma_no_separator(s: Seq<char>)
    requires
        crate::numerals::all_digits(s),
    ensures
        crate::text::first_of(s, ':') == s.len(),
{
    crate::text::lemma_first_of(s, ':');
    let at = crate::text::first_of(s, ':');
    if at < s.len() {
        assert(crate::numerals::is_digit(s[at]));
    }
}

proof fn lemma_first_part(a: Seq<char>, b: Seq<char>)
    requires
        crate::numerals::all_digits(a),
    ensures
        crate::text::parts(a + seq![':'] + b, ':') == seq![a] + crate::text::parts(b, ':'),
{
    let whole = a + seq![':'] + b;
    crate::text::lemma_first_of(whole, ':');
    let at = crate::text::first_of(whole, ':');
    assert(whole[a.len() as int] == ':');
    if at < a.len() {
        assert(crate::numerals::is_digit(a[at]));
    }
    assert(at == a.len());
    assert(whole.take(at) =~= a);
    assert(whole.skip(at + 1) =~= b);
}

proof fn lemma_two_digits(n: nat)
    ensures
        crate::numerals::all_digits(crate::numerals::two_digits_of(n)),
{
    crate::numerals::lemma_digits_read_back(n);
}

/// A clock that was written is read back as the same hours, minutes and seconds.
pub proof fn written_clocks_are_read_back(h: u64, m: u64, s: u64)
    ensures
        clock_fields(clock_text(h as nat, m as nat, s as nat)) == Some(
            (h as nat, m as nat, s as nat),
        ),
{
    let a = crate::numerals::two_digits_of(h as nat);
    let b = crate::numerals::two_digits_of(m as nat);
    let c = crate::numerals::two_digits_of(s as nat);
    lemma_two_digits(h as nat);
    lemma_two_digits(m as nat);
    lemma_two_digits(s as nat);
    lemma_no_separator(c);
    lemma_first_part(b, c);
    lemma_first_part(a, b + seq![':'] + c);
    assert(clock_text(h as nat, m as nat, s as nat) =~= a + seq![':'] + (b + seq![':'] + c));
    let clock = crate::text::parts(clock_text(h as nat, m as nat, s as nat), ':');
    assert(clock =~= seq![a, b, c]);
    crate::numerals::written_numbers_are_read_back(h as nat, u64::MAX as nat);
    crate::numerals::written_numbers_are_read_back(m as nat, u64::MAX as nat);
    crate::numerals::written_numbers_are_read_back(s as nat, u64::MAX as nat);
}

proof fn lemma_seconds_on_a_clock(n: nat)
    ensures
        seconds_in(n / 3600, n / 60 % 60, n % 60) == n,
{
    let minutes = n / 60;
    vstd::arithmetic::div_mod::lemma_div_denominator(n as int, 60, 60);
    assert(n / 3600 == minutes / 60);
    assert(n == 60 * minutes + n % 60);
    assert(minutes == 60 * (minutes / 60) + minutes % 60);
}

/// A number of seconds that was written as a clock is counted back as it was.
pub proof fn written_seconds_are_counted_back(n: u64)
    ensures
        clock_fields(seconds_text(n as nat)) matches Some((h, m, s)) && seconds_in(h, m, s) == n,
        clock_is_countable(seconds_text(n as nat)),
{
    written_clocks_are_read_back(n / 3600, n / 60 % 60, n % 60);
    lemma_seconds_on_a_clock(n as nat);
}

/// The seconds of the video whose clock a program printed, or zero if it printed
/// none, or if they do not fit.
pub open spec fn printed_duration(stdout: Seq<u8>) -> nat {
    match clock_fields(crate::text::trimmed(crate::text::strict_text(stdout))) {
        Some((h, m, s)) if seconds_in(h, m, s) <= usize::MAX => seconds_in(h, m, s),
        _ => 0,
    }
}

/// Reads the clock that yt-dlp printed for a video.
pub fn read_printed_duration(stdout: &[u8]) -> (r: usize)
    requires
        clock_is_countable(crate::text::trimmed(crate::text::strict_text(stdout@))),
    ensures
        r == printed_duration(stdout@),
{
    let text = crate::text::trim(crate::text::utf8_or_empty(stdout).as_str());
    match parse_duration(text.as_str()) {
        Ok(n) => if n <= usize::MAX as u64 {
            n as usize
        } else {
            0
        },
        Err(_) => 0,
    }
}

/// Whether some bytes are the UTF-8 of a text between blanks and line ends.
pub open spec fn prints(stdout: Seq<u8>, text: Seq<char>) -> bool {
    &&& vstd::utf8::valid_utf8(stdout)
    &&& exists|before: Seq<char>, after: Seq<char>|
        #![trigger crate::text::is_blank(before), crate::text::is_blank(after)]
        crate::text::is_blank(before) && crate::text::is_blank(after)
            && vstd::utf8::decode_utf8(stdout) == before + text + after
}

proof fn lemma_printed_text(stdout: Seq<u8>, text: Seq<char>)
    requires
        prints(stdout, text),
        text.len() > 0,
        '!' <= text[0] <= '~',
        '!' <= text.last() <= '~',
    ensures
        crate::text::trimmed(crate::text::strict_text(stdout)) == text,
{
    let (before, after) = choose|before: Seq<char>, after: Seq<char>|
        #![trigger crate::text::is_blank(before), crate::text::is_blank(after)]
        crate::text::is_blank(before) && crate::text::is_blank(after)
            && vstd::utf8::decode_utf8(stdout) == before + text + after;
    crate::text::trimming_leaves_what_is_printed(before, text, after);
}

proof fn lemma_clock_of_three(a: Seq<char>, b: Seq<char>, c: Seq<char>)
    requires
        crate::numerals::all_digits(a),
        crate::numerals::all_digits(b),
        crate::numerals::all_digits(c),
    ensures
        crate::text::parts(a + seq![':'] + b + seq![':'] + c, ':') == seq![a, b, c],
        crate::text::parts(b + seq![':'] + c, ':') == seq![b, c],
        crate::text::parts(c, ':') == seq![c],
{
    lemma_no_separator(c);
    lemma_first_part(b, c);
    lemma_first_part(a, b + seq![':'] + c);
    assert(a + seq![':'] + b + seq![':'] + c =~= a + seq![':'] + (b + seq![':'] + c));
    assert(crate::text::parts(a + seq![':'] + b + seq![':'] + c, ':') =~= seq![a, b, c]);
    assert(crate::text::parts(b + seq![':'] + c, ':') =~= seq![b, c]);
}

/// The length of a video that is printed as a clock is read in full: sixty seconds to
/// each minute and sixty minutes to each hour, whether or not hours and minutes are
/// printed and whether or not they are printed with two digits.
pub proof fn printed_clocks_are_read_in_full(stdout: Seq<u8>, h: nat, m: nat, s: nat, text: Seq<char>)
    requires
        3600 * h + 60 * m + s <= usize::MAX,
        prints(stdout, text),
        ({
            let hours = crate::numerals::digits_of(h) + seq![':'];
            let minutes = crate::numerals::digits_of(m) + seq![':'];
            let long_minutes = crate::numerals::two_digits_of(m) + seq![':'];
            ||| text == hours + long_minutes + crate::numerals::two_digits_of(s)
            ||| text == crate::numerals::two_digits_of(h) + seq![':'] + long_minutes
                + crate::numerals::two_digits_of(s)
            ||| h == 0 && text == minutes + crate::numerals::two_digits_of(s)
            ||| h == 0 && m == 0 && text == crate::numerals::digits_of(s)
        }),
    ensures
        printed_duration(stdout) == 3600 * h + 60 * m + s,
{
    crate::numerals::lemma_digits_read_back(h);
    crate::numerals::lemma_digits_read_back(m);
    crate::numerals::lemma_digits_read_back(s);
    lemma_two_digits(h);
    lemma_two_digits(m);
    lemma_two_digits(s);
    crate::numerals::written_numbers_are_read_back(h, u64::MAX as nat);
    crate::numerals::written_numbers_are_read_back(m, u64::MAX as nat);
    crate::numerals::written_numbers_are_read_back(s, u64::MAX as nat);
    let (a1, a2) = (crate::numerals::digits_of(h), crate::numerals::two_digits_of(h));
    let (b1, b2) = (crate::numerals::digits_of(m), crate::numerals::two_digits_of(m));
    let (c1, c2) = (crate::numerals::digits_of(s), crate::numerals::two_digits_of(s));
    lemma_clock_of_three(a1, b2, c2);
    lemma_clock_of_three(a2, b2, c2);
    lemma_clock_of_three(a1, b1, c2);
    lemma_clock_of_three(a1, b1, c1);
    assert(crate::numerals::is_digit(a1[0]) && crate::numerals::is_digit(a2[0]));
    assert(crate::numerals::is_digit(b1[0]) && crate::numerals::is_digit(b2[0]));
    assert(crate::numerals::is_digit(c1[0]) && crate::numerals::is_digit(c2[0]));
    assert(crate::numerals::is_digit(c1[c1.len() - 1]));
    assert(crate::numerals::is_digit(c2[c2.len() - 1]));
    if text == a1 + seq![':'] + (b2 + seq![':']) + c2 {
        assert(text =~= a1 + seq![':'] + b2 + seq![':'] + c2);
        assert(text[0] == a1[0] && text.last() == c2[c2.len() - 1]);
    } else if text == a2 + seq![':'] + (b2 + seq![':']) + c2 {
        assert(text =~= a2 + seq![':'] + b2 + seq![':'] + c2);
        assert(text[0] == a2[0] && text.last() == c2[c2.len() - 1]);
    } else if h == 0 && text == b1 + seq![':'] + c2 {
        assert(text[0] == b1[0] && text.last() == c2[c2.len() - 1]);
    } else {
        assert(text == c1);
    }
    lemma_printed_text(stdout, text);
}

/// What is read of the clock of a number of seconds is that number.
pub proof fn printed_seconds_are_read_back(stdout: Seq<u8>, n: usize)
    requires
        prints(stdout, seconds_text(n as nat)),
    ensures
        printed_duration(stdout) == n,
{
    let (h, m, s) = (n as nat / 3600, n as nat / 60 % 60, n as nat % 60);
    lemma_seconds_on_a_clock(n as nat);
    let text = seconds_text(n as nat);
    assert(text =~= crate::numerals::two_digits_of(h) + seq![':'] + (crate::numerals::two_digits_of(
        m,
    ) + seq![':']) + crate::numerals::two_digits_of(s));
    printed_clocks_are_read_in_full(stdout, h, m, s, text);
}

/// What does not end in a digit is no clock, and has no length.
pub proof fn what_is_no_clock_has_no_length(stdout: Seq<u8>, text: Seq<char>)
    requires
        prints(stdout, text),
        text.len() > 0,
        '!' <= text[0] <= '~',
        '!' <= text.last() <= '~',
        !('0' <= text.last() <= '9'),
    ensures
        printed_duration(stdout) == 0,
{
    lemma_printed_text(stdout, text);
    lemma_last_part(text);
    let clock = crate::text::parts(text, ':');
    let part = clock.last();
    if part_from_end(clock, 0) is Some {
        crate::numerals::only_digits_make_numbers(part, u64::MAX as nat);
        assert(part.last() == text.last());
    }
}

proof fn lemma_last_part(s: Seq<char>)
    ensures
        crate::text::parts(s, ':').len() > 0,
        crate::text::parts(s, ':').last().len() > 0 ==> s.len() > 0 && crate::text::parts(
            s,
            ':',
        ).last().last() == s.last(),
    decreases s.len(),
{
    crate::text::lemma_first_of(s, ':');
    let at = crate::text::first_of(s, ':');
    if at < s.len() {
        lemma_last_part(s.skip(at + 1));
        assert(crate::text::parts(s, ':').last() == crate::text::parts(s.skip(at + 1), ':').last());
    }
}

/// The clock of fewer than a hundred hours has eight characters: two digits of the
/// hours, two of the minutes and two of the seconds, with colons between them.
pub proof fn clocks_have_two_digits_each(n: nat)
    requires
        n < 360000,
    ensures
        ({
            let text = seconds_text(n);
            &&& text.len() == 8
            &&& text[2] == ':' && text[5] == ':'
            &&& (text[0] as int - 48) * 10 + (text[1] as int - 48) == n / 3600
            &&& (text[3] as int - 48) * 10 + (text[4] as int - 48) == n % 3600 / 60
            &&& (text[6] as int - 48) * 10 + (text[7] as int - 48) == n % 60
            &&& forall|i: int| 0 <= i < 8 && i % 3 < 2 ==> '0' <= #[trigger] text[i] <= '9'
        }),
{
    let (h, m, s) = (n / 3600, n / 60 % 60, n % 60);
    reveal_with_fuel(crate::numerals::digits_of, 2);
    let (a, b, c) = (
        crate::numerals::two_digits_of(h),
        crate::numerals::two_digits_of(m),
        crate::numerals::two_digits_of(s),
    );
    assert(a.len() == 2 && b.len() == 2 && c.len() == 2);
    let text = seconds_text(n);
    assert(text =~= seq![a[0], a[1], ':', b[0], b[1], ':', c[0], c[1]]);
    assert(n % 3600 / 60 == n / 60 % 60);
}

proof fn lemma_told_by_division(h: nat, m: nat, s: nat)
    requires
        m < 60,
        s < 60,
    ensures
        (3600 * h + 60 * m + s) % 60 == s,
        (3600 * h + 60 * m + s) / 60 == 60 * h + m,
        (60 * h + m) % 60 == m,
        (3600 * h + 60 * m + s) / 3600 == h,
{
}

/// The length of a duration is that of its hours, minutes and seconds, and the clock
/// that is written of it shows the same length.
pub proof fn lengths_add_up(d: IsoDuration)
    requires
        d.hour >= 0,
        d.minute >= 0,
        d.second >= 0,
    ensures
        ({
            let length = 3600 * d.hour + 60 * d.minute + d.second;
            &&& seconds_in(d.hms().0, d.hms().1, d.hms().2) == length
            &&& clock_text(d.hms().0, d.hms().1, d.hms().2) == seconds_text(length as nat)
        }),
{
    carrying_keeps_the_length(d);
    let (h, m, s) = d.hms();
    lemma_told_by_division(h, m, s);
    assert((3600 * d.hour + 60 * d.minute + d.second) as nat == 3600 * h + 60 * m + s);
}

/// What is negative in a duration counts as nothing.
pub proof fn negative_parts_count_as_nothing(d: IsoDuration)
    requires
        d.hour <= 0,
        d.minute <= 0,
        d.second <= 0,
    ensures
        d.hms() == (0nat, 0nat, 0nat),
{
}

/// Durations of up to a million million hours, minutes and seconds can always be counted,
/// and so be written.
pub proof fn ordinary_durations_count(d: IsoDuration)
    requires
        0 <= d.hour <= 1_000_000_000_000,
        0 <= d.minute <= 1_000_000_000_000,
        0 <= d.second <= 1_000_000_000_000,
    ensures
        d.carries(),
        d.is_countable(),
{
}

/// The parts of a duration are told by division: the seconds after the whole minutes in
/// them, the minutes, with those, after the whole hours, and the hours.
pub proof fn parts_are_told_by_division(d: IsoDuration, r: (u64, u64, u64), n: u64)
    requires
        0 <= d.hour,
        0 <= d.minute,
        0 <= d.second,
        call_ensures(iso_duration_to_hms, (&d,), r),
        call_ensures(duration_to_seconds, (&d,), n),
    ensures
        n == 3600 * d.hour + 60 * d.minute + d.second,
        r.0 == (3600 * d.hour + 60 * d.minute + d.second) / 3600,
        r.1 == (60 * d.minute + d.second) / 60 % 60,
        r.2 == d.second % 60,
{
    carrying_keeps_the_length(d);
    assert((60 * d.minute + d.second) / 60 == d.minute + d.second / 60);
}

/// A clock of a text that is no clock is refused; of one that is, the seconds are counted.
pub proof fn clocks_are_read_in_full(text: &str, h: nat, m: nat, s: nat, r: Result<u64, String>)
    requires
        call_ensures(parse_duration, (text,), r),
        ({
            let hours = crate::numerals::digits_of(h) + seq![':'];
            let minutes = crate::numerals::digits_of(m) + seq![':'];
            let long_minutes = crate::numerals::two_digits_of(m) + seq![':'];
            ||| text@ == hours + long_minutes + crate::numerals::two_digits_of(s)
            ||| h == 0 && text@ == minutes + crate::numerals::two_digits_of(s)
            ||| h == 0 && m == 0 && text@ == crate::numerals::digits_of(s)
        }),
        3600 * h + 60 * m + s <= u64::MAX,
    ensures
        r == Ok::<u64, String>((3600 * h + 60 * m + s) as u64),
{
    crate::numerals::lemma_digits_read_back(h);
    crate::numerals::lemma_digits_read_back(m);
    crate::numerals::lemma_digits_read_back(s);
    lemma_two_digits(m);
    lemma_two_digits(s);
    crate::numerals::written_numbers_are_read_back(h, u64::MAX as nat);
    crate::numerals::written_numbers_are_read_back(m, u64::MAX as nat);
    crate::numerals::written_numbers_are_read_back(s, u64::MAX as nat);
    let a = crate::numerals::digits_of(h);
    let (b1, b2) = (crate::numerals::digits_of(m), crate::numerals::two_digits_of(m));
    let (c1, c2) = (crate::numerals::digits_of(s), crate::numerals::two_digits_of(s));
    lemma_clock_of_three(a, b2, c2);
    lemma_clock_of_three(a, b1, c2);
    lemma_clock_of_three(a, b1, c1);
    assert(a + seq![':'] + (b2 + seq![':']) + c2 =~= a + seq![':'] + b2 + seq![':'] + c2);
}

/// The length that is read of what yt-dlp prints is all of it: sixty seconds to each minute
/// and sixty minutes to each hour.
pub proof fn printed_lengths_are_all_of_it(stdout: &[u8], h: nat, m: nat, s: nat, r: usize)
    requires
        call_ensures(read_printed_duration, (stdout,), r),
        3600 * h + 60 * m + s <= usize::MAX,
        ({
            let seconds = crate::numerals::two_digits_of(s);
            let minutes = crate::numerals::two_digits_of(m) + seq![':'];
            ||| prints(stdout@, crate::numerals::digits_of(h) + seq![':'] + minutes + seconds)
            ||| h == 0 && prints(stdout@, crate::numerals::digits_of(m) + seq![':'] + seconds)
            ||| h == 0 && m == 0 && prints(stdout@, crate::numerals::digits_of(s))
        }),
    ensures
        r == 3600 * h + 60 * m + s,
{
    let seconds = crate::numerals::two_digits_of(s);
    let minutes = crate::numerals::two_digits_of(m) + seq![':'];
    let long = crate::numerals::digits_of(h) + seq![':'] + minutes + seconds;
    let short = crate::numerals::digits_of(m) + seq![':'] + seconds;
    if prints(stdout@, long) {
        printed_clocks_are_read_in_full(stdout@, h, m, s, long);
    } else if h == 0 && prints(stdout@, short) {
        printed_clocks_are_read_in_full(stdout@, h, m, s, short);
    } else {
        printed_clocks_are_read_in_full(stdout@, h, m, s, crate::numerals::digits_of(s));
    }
}

proof fn lemma_minutes(n: nat)
    ensures
        n % 3600 / 60 == n / 60 % 60,
{
    let (h, m, x) = (n / 3600, n % 3600 / 60, n % 60);
    assert(n == 3600 * h + 60 * m + x);
    lemma_told_by_division(h, m, x);
}

/// A clock is written with two digits each for minutes and seconds and two or more for the
/// hours, and the one of a number of seconds is told by division.
pub proof fn clocks_are_written_in_full(n: u64, h: u64, m: u64, s: u64, clock: String, text: String)
    requires
        h == n / 3600,
        m == n % 3600 / 60,
        s == n % 60,
        call_ensures(write_seconds, (n,), text),
        call_ensures(write_clock, (h, m, s), clock),
    ensures
        text@ == clock@,
        h < 100 ==> text@.len() == 8 && text@[2] == ':' && text@[5] == ':',
        h < 100 ==> (text@[0] as int - 48) * 10 + (text@[1] as int - 48) == h,
        h < 100 ==> (text@[3] as int - 48) * 10 + (text@[4] as int - 48) == m,
        h < 100 ==> (text@[6] as int - 48) * 10 + (text@[7] as int - 48) == s,
{
    lemma_minutes(n as nat);
    if h < 100 {
        clocks_have_two_digits_each(n as nat);
    }
}

/// What is negative in a duration counts as nothing, and what is not is carried: seconds
/// over sixty into minutes, and those, with the minutes, into hours.
pub proof fn parts_are_carried_one_by_one(d: IsoDuration, r: (u64, u64, u64))
    requires
        call_ensures(iso_duration_to_hms, (&d,), r),
    ensures
        ({
            let seconds = if d.second > 0 {
                d.second as int
            } else {
                0
            };
            let carried = d.minute + seconds / 60;
            let minutes = if carried > 0 {
                carried
            } else {
                0
            };
            let hours = d.hour + minutes / 60;
            &&& r.2 == seconds % 60
            &&& r.1 == minutes % 60
            &&& r.0 == if hours > 0 {
                hours
            } else {
                0
            }
        }),
{
}

/// A clock of more than three parts is read by its last three; one whose hours, minutes or
/// seconds are no number is not read at all.
pub proof fn only_the_last_three_parts_count(
    before: Seq<char>,
    a: Seq<char>,
    b: Seq<char>,
    c: Seq<char>,
    long: &str,
    short: &str,
    r: Option<(u64, u64, u64)>,
    same: Option<(u64, u64, u64)>,
)
    requires
        forall|i: int| 0 <= i < before.len() ==> (#[trigger] before[i]) != ':',
        forall|i: int| 0 <= i < a.len() ==> (#[trigger] a[i]) != ':',
        forall|i: int| 0 <= i < b.len() ==> (#[trigger] b[i]) != ':',
        forall|i: int| 0 <= i < c.len() ==> (#[trigger] c[i]) != ':',
        short@ == a + seq![':'] + (b + seq![':'] + c),
        long@ == before + seq![':'] + short@,
        call_ensures(read_clock, (short,), same),
        call_ensures(read_clock, (long,), r),
    ensures
        r == same,
        r is Some <==> crate::numerals::number_in(a, u64::MAX as nat) is Some
            && crate::numerals::number_in(b, u64::MAX as nat) is Some && crate::numerals::number_in(
            c,
            u64::MAX as nat,
        ) is Some,
        r matches Some((h, m, s)) ==> {
            &&& crate::numerals::number_in(a, u64::MAX as nat) == Some(h as nat)
            &&& crate::numerals::number_in(b, u64::MAX as nat) == Some(m as nat)
            &&& crate::numerals::number_in(c, u64::MAX as nat) == Some(s as nat)
        },
{
    crate::text::parts_end_at_separators(c, ':', Seq::empty());
    crate::text::parts_end_at_separators(b, ':', c);
    crate::text::parts_end_at_separators(a, ':', b + seq![':'] + c);
    crate::text::parts_end_at_separators(before, ':', short@);
    let three = crate::text::parts(short@, ':');
    assert(three =~= seq![a, b, c]);
    assert(crate::text::parts(long@, ':') =~= seq![before, a, b, c]);
}

/// Where a part of what is printed is no number, there is no length; where what is printed is
/// a clock, there is the one that the clock is counted to.
pub proof fn printed_lengths_are_those_of_clocks(
    stdout: &[u8],
    text: &str,
    clock: Option<(u64, u64, u64)>,
    parsed: Result<u64, String>,
    counts: bool,
    r: usize,
)
    requires
        prints(stdout@, text@),
        text@.len() > 0,
        '!' <= text@[0] <= '~',
        '!' <= text@.last() <= '~',
        call_ensures(read_clock, (text,), clock),
        call_ensures(parse_duration, (text,), parsed),
        call_ensures(clock_counts, (text,), counts),
        call_ensures(read_printed_duration, (stdout,), r),
    ensures
        clock is None ==> r == 0 && parsed is Err && counts,
        clock matches Some((h, m, s)) ==> (counts <==> 3600 * h + 60 * m + s <= u64::MAX),
        clock matches Some((h, m, s)) ==> parsed is Ok && parsed->Ok_0 == 3600 * h + 60 * m + s,
        clock matches Some((h, m, s)) ==> 3600 * h + 60 * m + s <= usize::MAX ==> r == 3600 * h + 60
            * m + s,
{
    lemma_printed_text(stdout@, text@);
}

} // verus!

//! The `Range` header of a request for a stretch of a stream.
use vstd::prelude::*;

verus! {

/// Why a `Range` header was refused.
#[derive(Debug, PartialEq, Eq)]
pub enum RangeError {
    /// The header holds no number.
    NoRange,
    /// A number of the header does not fit the machine's word.
    TooLarge,
    /// The stream is empty, or the first byte asked for is also the last one. Holds
    /// the header.
    Empty(String),
}

impl DeepView for RangeError {
    type V = RangeErrorModel;

    open spec fn deep_view(&self) -> RangeErrorModel {
        match self {
            RangeError::NoRange => RangeErrorModel::NoRange,
            RangeError::TooLarge => RangeErrorModel::TooLarge,
            RangeError::Empty(header) => RangeErrorModel::Empty(header@),
        }
    }
}

/// A [`RangeError`] with the header as a sequence of characters.
pub enum RangeErrorModel {
    NoRange,
    TooLarge,
    Empty(Seq<char>),
}

impl RangeErrorModel {
    /// What is told to the one who asked.
    pub open spec fn message(self) -> Seq<char> {
        match self {
            RangeErrorModel::NoRange => "content range regex failed"@,
            RangeErrorModel::TooLarge => "number too large to fit in target type"@,
            RangeErrorModel::Empty(header) => {
                "The requested Rage header with a length of 0 is invalid: "@ + header
            },
        }
    }
}

impl RangeError {
    /// What is told to the one who asked.
    pub fn message(&self) -> (r: String)
        ensures
            r@ == self.deep_view().message(),
    {
        match self {
            RangeError::NoRange => "content range regex failed".to_string(),
            RangeError::TooLarge => "number too large to fit in target type".to_string(),
            RangeError::Empty(header) => crate::text::join(
                "The requested Rage header with a length of 0 is invalid: ",
                header.as_str(),
            ),
        }
    }
}

/// The first and the last byte that a header asks for, of a stream of `count`
/// bytes. The first number of the header is the first byte; the second one is the
/// last byte, or the stream's last byte if there is no second one.
pub open spec fn bounds_of(header: Seq<char>, count: nat) -> Result<(nat, nat), RangeErrorModel> {
    match crate::pattern::range_groups(header) {
        None => Err(RangeErrorModel::NoRange),
        Some((first, second)) => match crate::numerals::number_in(first, usize::MAX as nat) {
            None => Err(RangeErrorModel::TooLarge),
            Some(start) => if count == 0 {
                Err(RangeErrorModel::Empty(header))
            } else {
                let end = match second {
                    Some(digits) => crate::numerals::number_in(digits, usize::MAX as nat),
                    None => Some((count - 1) as nat),
                };
                match end {
                    None => Err(RangeErrorModel::TooLarge),
                    Some(last) => if last == start {
                        Err(RangeErrorModel::Empty(header))
                    } else {
                        Ok((start, last))
                    },
                }
            },
        },
    }
}

fn read_position(digits: &str) -> (r: Option<usize>)
    ensures
        match r {
            Some(n) => crate::numerals::number_in(digits@, usize::MAX as nat) == Some(n as nat),
            None => crate::numerals::number_in(digits@, usize::MAX as nat) is None,
        },
{
    match crate::numerals::read_number(digits, usize::MAX as u64) {
        Some(n) => Some(n as usize),
        None => None,
    }
}

/// Reads the first and the last byte that a header asks for.
pub fn range_bounds(content_range_str: &str, bytes_count: usize) -> (r: Result<
    (usize, usize),
    RangeError,
>)
    ensures
        match r {
            Ok((start, end)) => bounds_of(content_range_str@, bytes_count as nat) == Ok::<
                (nat, nat),
                RangeErrorModel,
            >((start as nat, end as nat)),
            Err(e) => bounds_of(content_range_str@, bytes_count as nat) == Err::<
                (nat, nat),
                RangeErrorModel,
            >(e.deep_view()),
        },
{
    let found = crate::pattern::first_groups(
        crate::pattern::RANGE,
        content_range_str,
        "start",
        "end",
    );
    let (first, second) = match found {
        Ok(Some((Some(first), second))) => (first, second),
        _ => return Err(RangeError::NoRange),
    };
    let start = match read_position(first.as_str()) {
        Some(n) => n,
        None => return Err(RangeError::TooLarge),
    };
    if bytes_count == 0 {
        return Err(RangeError::Empty(content_range_str.to_string()));
    }
    let end = match second {
        Some(digits) => match read_position(digits.as_str()) {
            Some(n) => n,
            None => return Err(RangeError::TooLarge),
        },
        None => bytes_count - 1,
    };
    if end == start {
        return Err(RangeError::Empty(content_range_str.to_string()));
    }
    Ok((start, end))
}

/// Whether the bytes from the first one asked for to the last one can be counted:
/// the last one is at most one before the first one, and is not the largest number.
pub open spec fn is_countable(header: Seq<char>, count: nat) -> bool {
    bounds_of(header, count) matches Ok((start, end)) ==> start <= end + 1 && end < usize::MAX
}

/// Reads a `Range` header: the first byte, the last byte and their number.
pub fn parse_range_header(content_range_str: &str, bytes_count: usize) -> (r: Result<
    (usize, usize, usize),
    RangeError,
>)
    requires
        is_countable(content_range_str@, bytes_count as nat),
    ensures
        match r {
            Ok((start, end, expected)) => {
                &&& bounds_of(content_range_str@, bytes_count as nat) == Ok::<
                    (nat, nat),
                    RangeErrorModel,
                >((start as nat, end as nat))
                &&& expected == end + 1 - start
            },
            Err(e) => bounds_of(content_range_str@, bytes_count as nat) == Err::<
                (nat, nat),
                RangeErrorModel,
            >(e.deep_view()),
        },
{
    match range_bounds(content_range_str, bytes_count) {
        Ok((start, end)) => Ok((start, end, (end + 1) - start)),
        Err(e) => Err(e),
    }
}

proof fn lemma_whole_run(digits: Seq<char>, rest: Seq<char>, limit: nat)
    requires
        crate::numerals::all_digits(digits),
        digits.len() <= limit,
        rest.len() == 0 || !crate::numerals::is_digit(rest[0]),
    ensures
        crate::pattern::digit_run(digits + rest, limit) == digits.len(),
    decreases digits.len(),
{
    let s = digits + rest;
    if digits.len() == 0 {
        assert(s =~= rest);
    } else {
        assert(s[0] == digits[0]);
        assert(crate::numerals::is_digit(digits[0]));
        assert(s.skip(1) =~= digits.skip(1) + rest);
        lemma_whole_run(digits.skip(1), rest, (limit - 1) as nat);
    }
}

proof fn lemma_unit_then_digit(rest: Seq<char>)
    requires
        rest.len() > 0,
        crate::numerals::is_digit(rest[0]),
    ensures
        crate::pattern::first_digit("bytes="@ + rest) == 6,
        ("bytes="@ + rest).skip(6) == rest,
{
    reveal_strlit("bytes=");
    let s = "bytes="@ + rest;
    assert(s.skip(6) =~= rest);
    assert(s.skip(1).skip(1).skip(1).skip(1).skip(1).skip(1) =~= rest);
    reveal_with_fuel(crate::pattern::first_digit, 7);
}

/// A header as clients write it, `bytes=FIRST-LAST`, asks for the bytes from the
/// first number to the last one.
pub proof fn closed_ranges_are_understood(first: usize, last: usize, count: nat)
    requires
        first != last,
        count > 0,
    ensures
        bounds_of(
            "bytes="@ + crate::numerals::digits_of(first as nat) + seq!['-']
                + crate::numerals::digits_of(last as nat),
            count,
        ) == Ok::<(nat, nat), RangeErrorModel>((first as nat, last as nat)),
{
    let a = crate::numerals::digits_of(first as nat);
    let b = crate::numerals::digits_of(last as nat);
    crate::numerals::lemma_digits_read_back(first as nat);
    crate::numerals::lemma_digits_read_back(last as nat);
    crate::numerals::lemma_at_most_twenty_digits(first as u64);
    crate::numerals::lemma_at_most_twenty_digits(last as u64);
    let tail = seq!['-'] + b;
    let from = a + tail;
    let header = "bytes="@ + a + seq!['-'] + b;
    assert(header =~= "bytes="@ + from);
    assert(crate::numerals::is_digit(a[0]));
    assert(from[0] == a[0]);
    lemma_unit_then_digit(from);
    lemma_whole_run(a, tail, 20);
    assert(from.take(a.len() as int) =~= a);
    assert(from.skip(a.len() as int) =~= tail);
    assert(tail.skip(1) =~= b);
    lemma_whole_run(b, Seq::empty(), 20);
    assert(b + Seq::<char>::empty() =~= b);
    assert(b.take(b.len() as int) =~= b);
    crate::numerals::written_numbers_are_read_back(first as nat, usize::MAX as nat);
    crate::numerals::written_numbers_are_read_back(last as nat, usize::MAX as nat);
}

/// A header `bytes=FIRST-` asks for the bytes from its number to the stream's end.
pub proof fn open_ranges_reach_the_end(first: usize, count: nat)
    requires
        count > 0,
        first != count - 1,
    ensures
        bounds_of(
            "bytes="@ + crate::numerals::digits_of(first as nat) + seq!['-'],
            count,
        ) == Ok::<(nat, nat), RangeErrorModel>((first as nat, (count - 1) as nat)),
{
    let a = crate::numerals::digits_of(first as nat);
    crate::numerals::lemma_digits_read_back(first as nat);
    crate::numerals::lemma_at_most_twenty_digits(first as u64);
    let tail = seq!['-'];
    let from = a + tail;
    let header = "bytes="@ + a + seq!['-'];
    assert(header =~= "bytes="@ + from);
    assert(crate::numerals::is_digit(a[0]));
    assert(from[0] == a[0]);
    lemma_unit_then_digit(from);
    lemma_whole_run(a, tail, 20);
    assert(from.take(a.len() as int) =~= a);
    assert(from.skip(a.len() as int) =~= tail);
    assert(tail.skip(1) =~= Seq::<char>::empty());
    crate::numerals::written_numbers_are_read_back(first as nat, usize::MAX as nat);
}

proof fn lemma_first_digit_after(before: Seq<char>, rest: Seq<char>)
    requires
        forall|i: int| 0 <= i < before.len() ==> !('0' <= #[trigger] before[i] <= '9'),
        rest.len() > 0,
        '0' <= rest[0] <= '9',
    ensures
        crate::pattern::first_digit(before + rest) == before.len(),
    decreases before.len(),
{
    if before.len() == 0 {
        assert(before + rest =~= rest);
    } else {
        assert((before + rest)[0] == before[0]);
        assert((before + rest).skip(1) =~= before.skip(1) + rest);
        lemma_first_digit_after(before.skip(1), rest);
    }
}

/// Wherever two numbers stand in a header with a hyphen between them, the first ones
/// there are its numbers, and it asks for the bytes from the one to the other. Two equal
/// numbers ask for nothing, and a stream without bytes has none to give.
pub proof fn first_and_last_byte_are_read(
    before: Seq<char>,
    first: usize,
    last: usize,
    after: Seq<char>,
    count: nat,
)
    requires
        forall|i: int| 0 <= i < before.len() ==> !('0' <= #[trigger] before[i] <= '9'),
        after.len() > 0 ==> !('0' <= after[0] <= '9'),
    ensures
        ({
            let header = before + crate::numerals::digits_of(first as nat) + seq!['-']
                + crate::numerals::digits_of(last as nat) + after;
            bounds_of(header, count) == if count == 0 || first == last {
                Err(RangeErrorModel::Empty(header))
            } else {
                Ok((first as nat, last as nat))
            }
        }),
{
    let a = crate::numerals::digits_of(first as nat);
    let b = crate::numerals::digits_of(last as nat);
    crate::numerals::lemma_digits_read_back(first as nat);
    crate::numerals::lemma_digits_read_back(last as nat);
    crate::numerals::lemma_at_most_twenty_digits(first as u64);
    crate::numerals::lemma_at_most_twenty_digits(last as u64);
    let tail = seq!['-'] + (b + after);
    let from = a + tail;
    let header = before + a + seq!['-'] + b + after;
    assert(header =~= before + from);
    assert(crate::numerals::is_digit(a[0]));
    assert(from[0] == a[0]);
    lemma_first_digit_after(before, from);
    assert(header.skip(before.len() as int) =~= from);
    lemma_whole_run(a, tail, 20);
    assert(from.take(a.len() as int) =~= a);
    assert(from.skip(a.len() as int) =~= tail);
    assert(tail.skip(1) =~= b + after);
    lemma_whole_run(b, after, 20);
    assert((b + after).take(b.len() as int) =~= b);
    crate::numerals::written_numbers_are_read_back(first as nat, usize::MAX as nat);
    crate::numerals::written_numbers_are_read_back(last as nat, usize::MAX as nat);
}

/// A header without a digit asks for nothing.
pub proof fn headers_without_a_digit_are_refused(header: Seq<char>, count: nat)
    requires
        forall|i: int| 0 <= i < header.len() ==> !('0' <= #[trigger] header[i] <= '9'),
    ensures
        bounds_of(header, count) == Err::<(nat, nat), RangeErrorModel>(RangeErrorModel::NoRange),
{
    lemma_no_digit(header);
    assert(header.skip(header.len() as int) =~= Seq::<char>::empty());
}

proof fn lemma_no_digit(header: Seq<char>)
    requires
        forall|i: int| 0 <= i < header.len() ==> !('0' <= #[trigger] header[i] <= '9'),
    ensures
        crate::pattern::first_digit(header) == header.len(),
    decreases header.len(),
{
    if header.len() > 0 {
        let rest = header.skip(1);
        assert(!('0' <= header[0] <= '9'));
        assert forall|i: int| 0 <= i < rest.len() implies !('0' <= #[trigger] rest[i] <= '9') by {
            assert(rest[i] == header[i + 1]);
        }
        lemma_no_digit(rest);
    }
}

/// A header with two numbers and a hyphen between them is read as the bytes from the one to
/// the other and their number; two equal numbers, or a stream without bytes, make it one
/// that is refused.
pub proof fn headers_are_read_in_full(
    header: &str,
    before: Seq<char>,
    first: usize,
    last: usize,
    after: Seq<char>,
    count: usize,
    bounds: Result<(usize, usize), RangeError>,
    r: Result<(usize, usize, usize), RangeError>,
)
    requires
        header@ == before + crate::numerals::digits_of(first as nat) + seq!['-']
            + crate::numerals::digits_of(last as nat) + after,
        forall|i: int| 0 <= i < before.len() ==> !('0' <= #[trigger] before[i] <= '9'),
        after.len() > 0 ==> !('0' <= after[0] <= '9'),
        call_ensures(range_bounds, (header, count), bounds),
        call_ensures(parse_range_header, (header, count), r),
    ensures
        count == 0 || first == last ==> bounds is Err && bounds->Err_0 is Empty
            && bounds->Err_0->Empty_0@ == header@ && r is Err && r->Err_0 is Empty
            && r->Err_0->Empty_0@ == header@,
        count > 0 && first != last ==> bounds == Ok::<(usize, usize), RangeError>((first, last)),
        count > 0 && first < last ==> r is Ok && r->Ok_0.0 == first && r->Ok_0.1 == last
            && r->Ok_0.2 == last - first + 1,
{
    first_and_last_byte_are_read(before, first, last, after, count as nat);
}

/// A header with one number and a hyphen behind it is read as the bytes from that one to
/// the last one of the stream.
pub proof fn open_headers_are_read_to_the_end(
    header: &str,
    first: usize,
    count: usize,
    bounds: Result<(usize, usize), RangeError>,
)
    requires
        header@ == "bytes="@ + crate::numerals::digits_of(first as nat) + seq!['-'],
        call_ensures(range_bounds, (header, count), bounds),
        count > 0,
        first != count - 1,
    ensures
        bounds == Ok::<(usize, usize), RangeError>((first, (count - 1) as usize)),
{
    open_ranges_reach_the_end(first, count as nat);
}

/// Why a header is refused is told in words, with the header if it asks for nothing.
pub proof fn refused_headers_are_told(e: &RangeError, r: String)
    requires
        call_ensures(RangeError::message, (e,), r),
    ensures
        e is NoRange ==> r@ == "content range regex failed"@,
        e is TooLarge ==> r@ == "number too large to fit in target type"@,
        e is Empty ==> r@ == "The requested Rage header with a length of 0 is invalid: "@
            + e->Empty_0@,
{
}

/// A header with one number, behind which stands no other one, with or without a hyphen
/// between, asks for the bytes from that one to the last one of the stream.
pub proof fn one_number_reaches_the_end(
    header: &str,
    before: Seq<char>,
    first: usize,
    after: Seq<char>,
    count: usize,
    r: Result<(usize, usize), RangeError>,
)
    requires
        header@ == before + crate::numerals::digits_of(first as nat) + after,
        forall|i: int| 0 <= i < before.len() ==> !('0' <= #[trigger] before[i] <= '9'),
        after.len() > 0 ==> !('0' <= after[0] <= '9'),
        after.len() > 1 && after[0] == '-' ==> !('0' <= after[1] <= '9'),
        call_ensures(range_bounds, (header, count), r),
    ensures
        count > 0 && first != count - 1 ==> r == Ok::<(usize, usize), RangeError>(
            (first, (count - 1) as usize),
        ),
        count == 0 || first == count - 1 ==> r is Err && r->Err_0 is Empty && r->Err_0->Empty_0@
            == header@,
{
    let a = crate::numerals::digits_of(first as nat);
    crate::numerals::lemma_digits_read_back(first as nat);
    crate::numerals::lemma_at_most_twenty_digits(first as u64);
    let from = a + after;
    assert(header@ =~= before + from);
    assert(crate::numerals::is_digit(a[0]));
    assert(from[0] == a[0]);
    lemma_first_digit_after(before, from);
    assert(header@.skip(before.len() as int) =~= from);
    lemma_whole_run(a, after, 20);
    assert(from.take(a.len() as int) =~= a);
    assert(from.skip(a.len() as int) =~= after);
    crate::numerals::written_numbers_are_read_back(first as nat, usize::MAX as nat);
}

/// A number of up to twenty digits that does not fit the machine's word is told to be too
/// large.
pub proof fn large_numbers_are_refused(
    header: &str,
    before: Seq<char>,
    n: nat,
    after: Seq<char>,
    count: usize,
    r: Result<(usize, usize), RangeError>,
)
    requires
        header@ == before + crate::numerals::digits_of(n) + after,
        n > usize::MAX,
        crate::numerals::digits_of(n).len() <= 20,
        forall|i: int| 0 <= i < before.len() ==> !('0' <= #[trigger] before[i] <= '9'),
        after.len() > 0 ==> !('0' <= after[0] <= '9'),
        call_ensures(range_bounds, (header, count), r),
    ensures
        r is Err && r->Err_0 is TooLarge,
{
    let a = crate::numerals::digits_of(n);
    crate::numerals::lemma_digits_read_back(n);
    let from = a + after;
    assert(header@ =~= before + from);
    assert(crate::numerals::is_digit(a[0]));
    assert(from[0] == a[0]);
    lemma_first_digit_after(before, from);
    assert(header@.skip(before.len() as int) =~= from);
    lemma_whole_run(a, after, 20);
    assert(from.take(a.len() as int) =~= a);
}

} // verus!

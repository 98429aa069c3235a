//! What a document must not hold if it is to be read: the `feed-rs` crate panics on
//! times that it cannot count, and on elements that are nested too deep.
use vstd::prelude::*;

verus! {

/// The namespace of the elements whose text `feed-rs` reads as a time.
pub const TIMED_NAMESPACE: &'static str = "http://www.itunes.com/dtds/podcast-1.0.dtd";

/// How deep elements may be nested.
pub const DEEPEST: usize = 65535;

/// How many bytes a time may have. The seconds of one that is no longer can be counted.
pub const LONGEST_TIME: usize = 15;

/// Whether a byte may stand in a document: the control characters that XML does not
/// know may not. Where none of them does, no encoding that the document may declare
/// writes an ASCII name in other bytes than its own.
pub open spec fn is_allowed(b: u8) -> bool {
    b >= 32 || b == 9 || b == 10 || b == 13
}

/// Whether a byte is white space.
pub open spec fn is_space(b: u8) -> bool {
    b == 32 || b == 9 || b == 10 || b == 13
}

/// Whether a byte is a quotation mark.
pub open spec fn is_quote(b: u8) -> bool {
    b == 34 || b == 39
}

/// Whether some bytes stand in a document at a position.
pub open spec fn stands_at(word: Seq<u8>, bytes: Seq<u8>, at: int) -> bool {
    0 <= at && at + word.len() <= bytes.len() && bytes.subrange(at, at + word.len()) == word
}

/// The first position from a position on at which there is no white space.
pub open spec fn after_space(bytes: Seq<u8>, at: int) -> int
    decreases bytes.len() - at,
{
    if 0 <= at < bytes.len() && is_space(bytes[at]) {
        after_space(bytes, at + 1)
    } else {
        at
    }
}

/// Where the value opens of an attribute whose name ends before a position, if one
/// does.
pub open spec fn value_after(bytes: Seq<u8>, at: int) -> Option<int> {
    let sign = after_space(bytes, at);
    let open = after_space(bytes, sign + 1);
    if sign < bytes.len() && bytes[sign] == 61 && open < bytes.len() && is_quote(bytes[open]) {
        Some(open)
    } else {
        None
    }
}

/// Whether a byte may stand in a time between such quotation marks: it is ASCII, and
/// begins no reference to another character.
pub open spec fn is_plain(b: u8, quote: u8) -> bool {
    b < 128 && b != 38 && b != quote
}

/// Whether a time stands between two positions.
pub open spec fn is_time(bytes: Seq<u8>, open: int, close: int) -> bool {
    &&& open < close < bytes.len()
    &&& close - open <= LONGEST_TIME + 1
    &&& bytes[close] == bytes[open]
    &&& forall|i: int| open < i < close ==> is_plain(#[trigger] bytes[i], bytes[open])
}

/// Whether a time opens at a position.
pub open spec fn is_time_at(bytes: Seq<u8>, open: int) -> bool {
    exists|close: int| is_time(bytes, open, close)
}

/// Whether an attribute of a name that stands at a position, if one does, is a time.
pub open spec fn is_timely(name: Seq<u8>, bytes: Seq<u8>, at: int) -> bool {
    0 < at && (is_space(bytes[at - 1]) || is_quote(bytes[at - 1])) && stands_at(name, bytes, at)
        ==> match value_after(bytes, at + name.len()) {
        Some(open) => is_time_at(bytes, open),
        None => true,
    }
}

/// Whether the attributes at a position that `feed-rs` reads as times are times.
pub open spec fn are_timely(bytes: Seq<u8>, at: int) -> bool {
    &&& is_timely(vstd::utf8::encode_utf8("time"@), bytes, at)
    &&& is_timely(vstd::utf8::encode_utf8("start"@), bytes, at)
    &&& is_timely(vstd::utf8::encode_utf8("end"@), bytes, at)
}

/// How many tags open in a document, at most.
pub open spec fn tags(bytes: Seq<u8>) -> nat
    decreases bytes.len(),
{
    if bytes.len() == 0 {
        0
    } else {
        tags(bytes.drop_last()) + if bytes.last() == 60 {
            1nat
        } else {
            0nat
        }
    }
}

/// Whether all is well at a position of a document.
pub open spec fn is_sound_at(bytes: Seq<u8>, at: int) -> bool {
    &&& is_allowed(bytes[at])
    &&& !stands_at(vstd::utf8::encode_utf8(TIMED_NAMESPACE@), bytes, at)
    &&& are_timely(bytes, at)
}

/// Whether a document can be read: it is free of control characters, its times are
/// short and plain, it holds nothing of the namespace whose texts are times, and its
/// elements cannot be nested too deep.
pub open spec fn is_parsable(bytes: Seq<u8>) -> bool {
    &&& forall|at: int| 0 <= at < bytes.len() ==> #[trigger] is_sound_at(bytes, at)
    &&& tags(bytes) <= DEEPEST
}

fn found_at(word: &[u8], bytes: &[u8], at: usize) -> (r: bool)
    requires
        at <= bytes.len(),
    ensures
        r == stands_at(word@, bytes@, at as int),
{
    if bytes.len() - at < word.len() {
        return false;
    }
    let mut i: usize = 0;
    while i < word.len()
        invariant
            i <= word.len(),
            at + word.len() <= bytes.len(),
            forall|j: int| 0 <= j < i ==> bytes@[at + j] == #[trigger] word@[j],
        decreases word.len() - i,
    {
        if bytes[at + i] != word[i] {
            assert(bytes@.subrange(at as int, at + word@.len())[i as int] != word@[i as int]);
            return false;
        }
        i += 1;
    }
    assert(bytes@.subrange(at as int, at + word@.len()) =~= word@);
    true
}

fn skip_space(bytes: &[u8], at: usize) -> (r: usize)
    requires
        at <= bytes.len(),
    ensures
        r == after_space(bytes@, at as int),
        at <= r <= bytes.len(),
{
    let mut i: usize = at;
    while i < bytes.len() && (bytes[i] == 32 || bytes[i] == 9 || bytes[i] == 10 || bytes[i] == 13)
        invariant
            at <= i <= bytes.len(),
            after_space(bytes@, i as int) == after_space(bytes@, at as int),
        decreases bytes.len() - i,
    {
        i += 1;
    }
    i
}

fn find_value(bytes: &[u8], at: usize) -> (r: Option<usize>)
    requires
        at <= bytes.len(),
    ensures
        match r {
            Some(open) => value_after(bytes@, at as int) == Some(open as int) && open < bytes.len(),
            None => value_after(bytes@, at as int) is None,
        },
{
    let sign = skip_space(bytes, at);
    if sign >= bytes.len() || bytes[sign] != 61 {
        return None;
    }
    let open = skip_space(bytes, sign + 1);
    if open < bytes.len() && (bytes[open] == 34 || bytes[open] == 39) {
        Some(open)
    } else {
        None
    }
}

fn opens_time(bytes: &[u8], open: usize) -> (r: bool)
    requires
        open < bytes.len(),
    ensures
        r == is_time_at(bytes@, open as int),
{
    let mut close: usize = open + 1;
    while close < bytes.len() && close - open <= LONGEST_TIME + 1
        invariant
            open < close <= bytes.len(),
            forall|i: int| open < i < close ==> is_plain(#[trigger] bytes@[i], bytes@[open as int]),
        decreases bytes.len() - close,
    {
        if bytes[close] == bytes[open] {
            assert(is_time(bytes@, open as int, close as int));
            return true;
        }
        if bytes[close] >= 128 || bytes[close] == 38 {
            assert forall|other: int| !is_time(bytes@, open as int, other) by {
                assert(!is_plain(bytes@[close as int], bytes@[open as int]));
                if open < other < close {
                    assert(is_plain(bytes@[other], bytes@[open as int]));
                }
            }
            return false;
        }
        close += 1;
    }
    assert forall|other: int| !is_time(bytes@, open as int, other) by {
        if open < other < close {
            assert(is_plain(bytes@[other], bytes@[open as int]));
        }
    }
    false
}

fn tells_time(name: &[u8], bytes: &[u8], at: usize) -> (r: bool)
    requires
        at <= bytes.len(),
    ensures
        r == is_timely(name@, bytes@, at as int),
{
    if at == 0 {
        return true;
    }
    let before = bytes[at - 1];
    let apart = before == 32 || before == 9 || before == 10 || before == 13 || before == 34 || before
        == 39;
    if !apart || !found_at(name, bytes, at) {
        return true;
    }
    match find_value(bytes, at + name.len()) {
        Some(open) => opens_time(bytes, open),
        None => true,
    }
}

/// Tests whether a document can be read.
pub fn can_parse(bytes: &[u8]) -> (r: bool)
    ensures
        r == is_parsable(bytes@),
{
    let namespace = TIMED_NAMESPACE.as_bytes();
    let time = "time".as_bytes();
    let start = "start".as_bytes();
    let end = "end".as_bytes();
    let mut opened: usize = 0;
    let mut i: usize = 0;
    while i < bytes.len()
        invariant
            i <= bytes.len(),
            namespace@ == vstd::utf8::encode_utf8(TIMED_NAMESPACE@),
            time@ == vstd::utf8::encode_utf8("time"@),
            start@ == vstd::utf8::encode_utf8("start"@),
            end@ == vstd::utf8::encode_utf8("end"@),
            opened == tags(bytes@.take(i as int)),
            opened <= i,
            forall|at: int| 0 <= at < i ==> #[trigger] is_sound_at(bytes@, at),
        decreases bytes.len() - i,
    {
        let b = bytes[i];
        let sound = (b >= 32 || b == 9 || b == 10 || b == 13) && !found_at(namespace, bytes, i)
            && tells_time(time, bytes, i) && tells_time(start, bytes, i) && tells_time(
            end,
            bytes,
            i,
        );
        assert(sound == is_sound_at(bytes@, i as int));
        if !sound {
            return false;
        }
        assert(bytes@.take(i + 1).drop_last() =~= bytes@.take(i as int));
        if b == 60 {
            opened += 1;
        }
        i += 1;
    }
    assert(bytes@.take(i as int) =~= bytes@);
    opened <= DEEPEST
}

/// A document that holds a control character other than tabs and line ends cannot be read.
pub proof fn control_characters_are_refused(bytes: &[u8], at: int, r: bool)
    requires
        call_ensures(can_parse, (bytes,), r),
        0 <= at < bytes@.len(),
        bytes@[at] < 32 && bytes@[at] != 9 && bytes@[at] != 10 && bytes@[at] != 13,
    ensures
        !r,
{
    assert(!is_sound_at(bytes@, at));
}

proof fn lemma_tags_are_counted(bytes: Seq<u8>)
    ensures
        tags(bytes) == bytes.filter(|b: u8| b == 60).len(),
        tags(bytes) <= bytes.len(),
    decreases bytes.len(),
{
    reveal(Seq::filter);
    if bytes.len() > 0 {
        lemma_tags_are_counted(bytes.drop_last());
    }
}

proof fn lemma_words()
    ensures
        vstd::utf8::encode_utf8(TIMED_NAMESPACE@).len() > 4,
        vstd::utf8::encode_utf8(TIMED_NAMESPACE@)[4] == 58,
        vstd::utf8::encode_utf8("time"@).len() == 4,
        vstd::utf8::encode_utf8("start"@).len() == 5,
        vstd::utf8::encode_utf8("end"@).len() == 3,
{
    reveal_strlit("http://www.itunes.com/dtds/podcast-1.0.dtd");
    reveal_strlit("time");
    reveal_strlit("start");
    reveal_strlit("end");
    vstd::utf8::is_ascii_chars_encode_utf8(TIMED_NAMESPACE@);
    vstd::utf8::is_ascii_chars_encode_utf8("time"@);
    vstd::utf8::is_ascii_chars_encode_utf8("start"@);
    vstd::utf8::is_ascii_chars_encode_utf8("end"@);
    assert(TIMED_NAMESPACE@[4] == ':');
}

proof fn lemma_after_space(bytes: Seq<u8>, at: int)
    requires
        0 <= at,
    ensures
        after_space(bytes, at) >= at,
    decreases bytes.len() - at,
{
    if at < bytes.len() && is_space(bytes[at]) {
        lemma_after_space(bytes, at + 1);
    }
}

/// A document without control characters, equals signs and colons, and with no more than
/// 65535 signs that open a tag, can be read; with more of these none can.
pub proof fn plain_documents_can_be_read(bytes: &[u8], r: bool)
    requires
        call_ensures(can_parse, (bytes,), r),
    ensures
        bytes@.filter(|b: u8| b == 60).len() > 65535 ==> !r,
        bytes@.filter(|b: u8| b == 60).len() <= 65535 && (forall|i: int|
            0 <= i < bytes@.len() ==> (#[trigger] bytes@[i]) >= 32 && bytes@[i] != 58 && bytes@[i]
                != 61) ==> r,
{
    lemma_tags_are_counted(bytes@);
    lemma_words();
    if forall|i: int|
        0 <= i < bytes@.len() ==> (#[trigger] bytes@[i]) >= 32 && bytes@[i] != 58 && bytes@[i]
            != 61 {
        assert forall|at: int| 0 <= at < bytes@.len() implies #[trigger] is_sound_at(
            bytes@,
            at,
        ) by {
            let word = vstd::utf8::encode_utf8(TIMED_NAMESPACE@);
            if stands_at(word, bytes@, at) {
                assert(bytes@.subrange(at, at + word.len())[4] == bytes@[at + 4]);
            }
            lemma_no_value(bytes@, at + 4);
            lemma_no_value(bytes@, at + 5);
            lemma_no_value(bytes@, at + 3);
        }
    }
}

proof fn lemma_no_value(bytes: Seq<u8>, at: int)
    requires
        0 <= at,
        forall|i: int| 0 <= i < bytes.len() ==> (#[trigger] bytes[i]) != 61,
    ensures
        value_after(bytes, at) is None,
{
    lemma_after_space(bytes, at);
    let sign = after_space(bytes, at);
    assert(sign < bytes.len() ==> bytes[sign] != 61);
}

/// A document in which the value of an attribute `time` runs on for more than fifteen bytes
/// without a quotation mark cannot be read.
pub proof fn long_times_are_refused(bytes: &[u8], at: int, r: bool)
    requires
        call_ensures(can_parse, (bytes,), r),
        0 < at,
        at + 22 <= bytes@.len(),
        bytes@[at - 1] == 32,
        bytes@.subrange(at, at + 4) == vstd::utf8::encode_utf8("time"@),
        bytes@[at + 4] == 61,
        bytes@[at + 5] == 34,
        forall|i: int| at + 6 <= i < at + 22 ==> (#[trigger] bytes@[i]) != 34,
    ensures
        !r,
{
    lemma_words();
    let b = bytes@;
    let name = vstd::utf8::encode_utf8("time"@);
    assert(stands_at(name, b, at));
    reveal_with_fuel(after_space, 2);
    let open = at + 5;
    assert(value_after(b, at + name.len()) == Some(open));
    assert forall|close: int| !is_time(b, open, close) by {
        if open < close < at + 22 {
            assert(b[close] != 34);
        }
    }
    assert(!is_timely(name, b, at));
    assert(!is_sound_at(b, at));
}

} // verus!

//! Text as sequences of characters: the searches, cuts and conversions that the
//! other modules share.
use vstd::prelude::*;

verus! {

/// `String::push` appends one character at the end of the text.
pub assume_specification[ String::push ](s: &mut String, c: char)
    ensures
        final(s)@ == old(s)@.push(c),
;

/// What `String::from_utf8_lossy` makes of a sequence of bytes.
pub uninterp spec fn lossy_text(bytes: Seq<u8>) -> Seq<char>;

/// Calls `String::from_utf8_lossy`. The text is a function of the bytes, and
/// where the bytes are valid UTF-8 it is what they encode. What stands in the
/// place of an invalid sequence is left to the name [`lossy_text`].
#[verifier::external_body]
pub(crate) fn utf8_lossy(bytes: &[u8]) -> (r: String)
    ensures
        r@ == lossy_text(bytes@),
        vstd::utf8::valid_utf8(bytes@) ==> r@ == vstd::utf8::decode_utf8(bytes@),
{
    String::from_utf8_lossy(bytes).into_owned()
}

/// Calls `std::str::from_utf8`: the text that the bytes encode if they are valid
/// UTF-8, and nothing otherwise.
#[verifier::external_body]
pub(crate) fn utf8_text(bytes: &[u8]) -> (r: Option<String>)
    ensures
        r is Some <==> vstd::utf8::valid_utf8(bytes@),
        r matches Some(text) ==> text@ == vstd::utf8::decode_utf8(bytes@),
{
    std::str::from_utf8(bytes).ok().map(str::to_string)
}

/// The text that the bytes encode, or the empty text if they are not UTF-8.
pub open spec fn strict_text(bytes: Seq<u8>) -> Seq<char> {
    if vstd::utf8::valid_utf8(bytes) {
        vstd::utf8::decode_utf8(bytes)
    } else {
        Seq::empty()
    }
}

/// Decodes UTF-8, with the empty text for bytes that are not UTF-8.
pub fn utf8_or_empty(bytes: &[u8]) -> (r: String)
    ensures
        r@ == strict_text(bytes@),
{
    match utf8_text(bytes) {
        Some(text) => text,
        None => String::new(),
    }
}

/// A text as Rust prints it for inspection: between double quotes, with escapes.
pub uninterp spec fn debug_text(s: Seq<char>) -> Seq<char>;

/// Whether a character is an ASCII letter, a digit, a hyphen or an underscore.
pub open spec fn is_plain(c: char) -> bool {
    'A' <= c <= 'Z' || 'a' <= c <= 'z' || '0' <= c <= '9' || c == '-' || c == '_'
}

/// Formats a text with `format!("{:?}", s)`, the `Debug` of `str`. The outcome
/// depends on the text alone. Letters, digits, hyphens and underscores are printed
/// as they are, between double quotes.
#[verifier::external_body]
pub(crate) fn shown(s: &str) -> (r: String)
    ensures
        r@ == debug_text(s@),
        (forall|i: int| 0 <= i < s@.len() ==> is_plain(#[trigger] s@[i])) ==> r@ == seq!['"'] + s@
            + seq!['"'],
{
    format!("{:?}", s)
}

/// A text, or the empty text where there is none.
pub open spec fn or_empty(text: Option<Seq<char>>) -> Seq<char> {
    match text {
        Some(s) => s,
        None => Seq::empty(),
    }
}

/// A text, or the empty text where there is none.
pub fn text_or_empty(text: Option<String>) -> (r: String)
    ensures
        r@ == or_empty(text.deep_view()),
{
    match text {
        Some(s) => s,
        None => String::new(),
    }
}

/// The characters of a text, one by one.
pub fn chars_of(s: &str) -> (r: Vec<char>)
    ensures
        r@ == s@,
{
    let mut out: Vec<char> = Vec::new();
    for c in it: s.chars()
        invariant
            out@ =~= it.seq().take(it.index()),
            it.seq() == s@,
    {
        out.push(c);
    }
    out
}

/// The text made of the characters `chars[from..to]`.
pub fn text_of(chars: &Vec<char>, from: usize, to: usize) -> (r: String)
    requires
        from <= to <= chars.len(),
    ensures
        r@ == chars@.subrange(from as int, to as int),
{
    let mut out = String::new();
    let mut i: usize = from;
    while i < to
        invariant
            from <= i <= to <= chars.len(),
            out@ =~= chars@.subrange(from as int, i as int),
        decreases to - i,
    {
        out.push(chars[i]);
        i += 1;
    }
    out
}

/// Whether two texts hold the same characters.
pub fn same(a: &str, b: &str) -> (r: bool)
    ensures
        r == (a@ == b@),
{
    a.to_string() == b.to_string()
}

/// One text after the other.
pub fn join(a: &str, b: &str) -> (r: String)
    ensures
        r@ == a@ + b@,
{
    let mut out = a.to_string();
    out.append(b);
    out
}

/// Whether `part` stands in `whole` at position `at`.
pub open spec fn occurs_at(part: Seq<char>, whole: Seq<char>, at: int) -> bool {
    0 <= at && at + part.len() <= whole.len() && whole.subrange(at, at + part.len()) == part
}

/// Whether `part` stands somewhere in `whole`.
pub open spec fn occurs(part: Seq<char>, whole: Seq<char>) -> bool {
    exists|at: int| occurs_at(part, whole, at)
}

fn found_at(part: &Vec<char>, whole: &Vec<char>, at: usize) -> (r: bool)
    requires
        at + part.len() <= whole.len(),
    ensures
        r == occurs_at(part@, whole@, at as int),
{
    let mut i: usize = 0;
    while i < part.len()
        invariant
            i <= part.len(),
            at + part.len() <= whole.len(),
            whole@.subrange(at as int, at + i) =~= part@.take(i as int),
        decreases part.len() - i,
    {
        if whole[at + i] != part[i] {
            assert(whole@.subrange(at as int, at + part.len())[i as int] != part@[i as int]);
            return false;
        }
        i += 1;
    }
    assert(part@.take(i as int) =~= part@);
    true
}

/// Whether `whole` begins with `part`.
pub fn starts_with(whole: &str, part: &str) -> (r: bool)
    ensures
        r == occurs_at(part@, whole@, 0),
{
    let w = chars_of(whole);
    let p = chars_of(part);
    p.len() <= w.len() && found_at(&p, &w, 0)
}

/// Whether `whole` ends with `part`.
pub fn ends_with(whole: &str, part: &str) -> (r: bool)
    ensures
        r == occurs_at(part@, whole@, whole@.len() - part@.len()),
{
    let w = chars_of(whole);
    let p = chars_of(part);
    p.len() <= w.len() && found_at(&p, &w, w.len() - p.len())
}

/// Whether `part` stands somewhere in `whole`.
pub fn contains(whole: &str, part: &str) -> (r: bool)
    ensures
        r == occurs(part@, whole@),
{
    let w = chars_of(whole);
    let p = chars_of(part);
    if w.len() < p.len() {
        return false;
    }
    let last: usize = w.len() - p.len();
    let mut at: usize = 0;
    while at <= last
        invariant
            at <= last + 1,
            last == w@.len() - p@.len(),
            w@ == whole@,
            p@ == part@,
            last < w.len() || p.len() == 0,
            forall|j: int| 0 <= j < at ==> !occurs_at(part@, whole@, j),
        decreases last + 1 - at,
    {
        if found_at(&p, &w, at) {
            return true;
        }
        if at == last {
            return false;
        }
        at += 1;
    }
    false
}

/// Unicode's white space characters.
pub open spec fn is_white(c: char) -> bool {
    ||| '\u{9}' <= c <= '\u{d}'
    ||| c == '\u{20}'
    ||| c == '\u{85}'
    ||| c == '\u{a0}'
    ||| c == '\u{1680}'
    ||| '\u{2000}' <= c <= '\u{200a}'
    ||| c == '\u{2028}'
    ||| c == '\u{2029}'
    ||| c == '\u{202f}'
    ||| c == '\u{205f}'
    ||| c == '\u{3000}'
}

fn white(c: char) -> (r: bool)
    ensures
        r == is_white(c),
{
    ('\u{9}' <= c && c <= '\u{d}') || c == '\u{20}' || c == '\u{85}' || c == '\u{a0}' || c
        == '\u{1680}' || ('\u{2000}' <= c && c <= '\u{200a}') || c == '\u{2028}' || c
        == '\u{2029}' || c == '\u{202f}' || c == '\u{205f}' || c == '\u{3000}'
}

/// A text without the white space that it begins with.
pub open spec fn trimmed_start(s: Seq<char>) -> Seq<char>
    decreases s.len(),
{
    if s.len() > 0 && is_white(s[0]) {
        trimmed_start(s.skip(1))
    } else {
        s
    }
}

/// A text without the white space that it ends with.
pub open spec fn trimmed_end(s: Seq<char>) -> Seq<char>
    decreases s.len(),
{
    if s.len() > 0 && is_white(s.last()) {
        trimmed_end(s.drop_last())
    } else {
        s
    }
}

/// A text without the white space at its two ends.
pub open spec fn trimmed(s: Seq<char>) -> Seq<char> {
    trimmed_end(trimmed_start(s))
}

/// Cuts the white space off both ends of a text.
pub fn trim(s: &str) -> (r: String)
    ensures
        r@ == trimmed(s@),
{
    let chars = chars_of(s);
    let mut from: usize = 0;
    assert(s@.skip(0) =~= s@);
    while from < chars.len() && white(chars[from])
        invariant
            from <= chars.len(),
            chars@ == s@,
            trimmed_start(s@) == trimmed_start(s@.skip(from as int)),
        decreases chars.len() - from,
    {
        assert(s@.skip(from as int).skip(1) =~= s@.skip(from + 1));
        from += 1;
    }
    assert(trimmed_start(s@) == s@.skip(from as int));
    let mut to: usize = chars.len();
    assert(s@.subrange(from as int, to as int) =~= s@.skip(from as int));
    while from < to && white(chars[to - 1])
        invariant
            from <= to <= chars.len(),
            chars@ == s@,
            trimmed_end(s@.skip(from as int)) == trimmed_end(s@.subrange(from as int, to as int)),
        decreases to,
    {
        assert(s@.subrange(from as int, to as int).drop_last() =~= s@.subrange(
            from as int,
            to - 1,
        ));
        to -= 1;
    }
    text_of(&chars, from, to)
}

/// A letter from `A` to `Z` in lower case; any other character as it is.
pub open spec fn ascii_lower(c: char) -> char {
    if 'A' <= c <= 'Z' {
        (c as u32 + 32) as char
    } else {
        c
    }
}

/// Whether two texts are the same but for the case of the letters `A` to `Z`.
pub open spec fn same_but_case(a: Seq<char>, b: Seq<char>) -> bool {
    a.len() == b.len() && forall|i: int|
        0 <= i < a.len() ==> ascii_lower(#[trigger] a[i]) == ascii_lower(b[i])
}

fn lower(c: char) -> (r: u32)
    ensures
        r == ascii_lower(c) as u32,
{
    if 'A' <= c && c <= 'Z' {
        c as u32 + 32
    } else {
        c as u32
    }
}

/// Compares two texts without regard to the case of the letters `A` to `Z`.
pub fn equal_but_case(a: &str, b: &str) -> (r: bool)
    ensures
        r == same_but_case(a@, b@),
{
    let x = chars_of(a);
    let y = chars_of(b);
    if x.len() != y.len() {
        return false;
    }
    let mut i: usize = 0;
    while i < x.len()
        invariant
            i <= x.len(),
            x@ == a@,
            y@ == b@,
            x.len() == y.len(),
            forall|j: int| 0 <= j < i ==> ascii_lower(#[trigger] a@[j]) == ascii_lower(b@[j]),
        decreases x.len() - i,
    {
        if lower(x[i]) != lower(y[i]) {
            assert(ascii_lower(a@[i as int]) != ascii_lower(b@[i as int]));
            return false;
        }
        i += 1;
    }
    true
}

/// The position of the first `c` in a text, or the text's length if there is none.
pub open spec fn first_of(s: Seq<char>, c: char) -> int
    decreases s.len(),
{
    if s.len() == 0 || s[0] == c {
        0
    } else {
        1 + first_of(s.skip(1), c)
    }
}

pub proof fn lemma_first_of(s: Seq<char>, c: char)
    ensures
        0 <= first_of(s, c) <= s.len(),
        first_of(s, c) < s.len() ==> s[first_of(s, c)] == c,
        forall|j: int| 0 <= j < first_of(s, c) ==> s[j] != c,
    decreases s.len(),
{
    if s.len() > 0 && s[0] != c {
        lemma_first_of(s.skip(1), c);
        assert forall|j: int| 0 <= j < first_of(s, c) implies s[j] != c by {
            if j > 0 {
                assert(s.skip(1)[j - 1] == s[j]);
            }
        }
    }
}

/// The parts of a text between the characters `sep`.
pub open spec fn parts(s: Seq<char>, sep: char) -> Seq<Seq<char>>
    decreases s.len(),
    via parts_decreases
{
    let at = first_of(s, sep);
    if 0 <= at < s.len() {
        seq![s.take(at)] + parts(s.skip(at + 1), sep)
    } else {
        seq![s]
    }
}

#[via_fn]
proof fn parts_decreases(s: Seq<char>, sep: char) {
    lemma_first_of(s, sep);
}

fn find_char(chars: &Vec<char>, from: usize, c: char) -> (r: usize)
    requires
        from <= chars.len(),
    ensures
        r == from + first_of(chars@.skip(from as int), c),
        from <= r <= chars.len(),
{
    let mut i: usize = from;
    let ghost rest = chars@.skip(from as int);
    proof {
        lemma_first_of(rest, c);
    }
    while i < chars.len() && chars[i] != c
        invariant
            from <= i <= chars.len(),
            rest == chars@.skip(from as int),
            i - from <= first_of(rest, c) <= rest.len(),
            first_of(rest, c) < rest.len() ==> rest[first_of(rest, c)] == c,
            forall|j: int| 0 <= j < first_of(rest, c) ==> rest[j] != c,
        decreases chars.len() - i,
    {
        i += 1;
    }
    assert(i < chars.len() ==> rest[i - from] == c);
    i
}

/// Splits a text at every `sep`.
pub fn split(s: &str, sep: char) -> (r: Vec<String>)
    ensures
        r.deep_view() == parts(s@, sep),
{
    let chars = chars_of(s);
    let mut out: Vec<String> = Vec::new();
    let mut from: usize = 0;
    assert(s@.skip(0) =~= s@);
    assert(out.deep_view() + parts(s@, sep) =~= parts(s@, sep));
    loop
        invariant
            from <= chars.len(),
            chars@ == s@,
            out.deep_view() + parts(s@.skip(from as int), sep) == parts(s@, sep),
        decreases chars.len() - from,
    {
        let at = find_char(&chars, from, sep);
        let ghost rest = s@.skip(from as int);
        let ghost before = out.deep_view();
        out.push(text_of(&chars, from, at));
        assert(out.deep_view() =~= before.push(s@.subrange(from as int, at as int)));
        assert(s@.subrange(from as int, at as int) =~= rest.take(at - from));
        if at == chars.len() {
            assert(rest.take(at - from) =~= rest);
            assert(out.deep_view() =~= before + parts(rest, sep));
            return out;
        }
        assert(rest.skip(at - from + 1) =~= s@.skip(at + 1));
        assert(before + parts(rest, sep) =~= out.deep_view() + parts(s@.skip(at + 1), sep));
        from = at + 1;
    }
}

/// A line that ended in a line feed, without the carriage return before it.
pub open spec fn without_return(line: Seq<char>) -> Seq<char> {
    if line.len() > 0 && line.last() == '\r' {
        line.drop_last()
    } else {
        line
    }
}

/// The lines of a text. A line ends at a line feed, which a carriage return may
/// precede; what follows the last line feed is a line too unless it is empty.
pub open spec fn lines_of(s: Seq<char>) -> Seq<Seq<char>>
    decreases s.len(),
    via lines_of_decreases
{
    let at = first_of(s, '\n');
    if s.len() == 0 {
        Seq::empty()
    } else if 0 <= at < s.len() {
        seq![without_return(s.take(at))] + lines_of(s.skip(at + 1))
    } else {
        seq![s]
    }
}

#[via_fn]
proof fn lines_of_decreases(s: Seq<char>) {
    lemma_first_of(s, '\n');
}

/// The lines of a text, without what ends them.
pub fn lines(s: &str) -> (r: Vec<String>)
    ensures
        r.deep_view() == lines_of(s@),
{
    let chars = chars_of(s);
    let mut out: Vec<String> = Vec::new();
    let mut from: usize = 0;
    assert(s@.skip(0) =~= s@);
    assert(out.deep_view() + lines_of(s@) =~= lines_of(s@));
    while from < chars.len()
        invariant
            from <= chars.len(),
            chars@ == s@,
            out.deep_view() + lines_of(s@.skip(from as int)) == lines_of(s@),
        decreases chars.len() - from,
    {
        let at = find_char(&chars, from, '\n');
        let ghost rest = s@.skip(from as int);
        let ghost before = out.deep_view();
        let mut to: usize = at;
        if at < chars.len() && from < at && chars[at - 1] == '\r' {
            to = at - 1;
        }
        out.push(text_of(&chars, from, to));
        let ghost line = s@.subrange(from as int, to as int);
        assert(out.deep_view() =~= before.push(line));
        if at == chars.len() {
            assert(line =~= rest);
            assert(s@.skip(at as int) =~= Seq::<char>::empty());
            assert(out.deep_view() + lines_of(s@.skip(at as int)) =~= before + lines_of(rest));
            from = at;
        } else {
            assert(line =~= without_return(rest.take(at - from)));
            assert(rest.skip(at - from + 1) =~= s@.skip(at + 1));
            assert(before + lines_of(rest) =~= out.deep_view() + lines_of(s@.skip(at + 1)));
            from = at + 1;
        }
    }
    assert(out.deep_view() + lines_of(s@.skip(from as int)) =~= out.deep_view());
    out
}

/// The first line that is more than white space, without the white space at its
/// two ends.
pub open spec fn filled_line(lines: Seq<Seq<char>>) -> Option<Seq<char>>
    decreases lines.len(),
{
    if lines.len() == 0 {
        None
    } else if trimmed(lines[0]).len() > 0 {
        Some(trimmed(lines[0]))
    } else {
        filled_line(lines.skip(1))
    }
}

/// The first line of a text that is more than white space, trimmed.
pub fn first_filled_line(s: &str) -> (r: Option<String>)
    ensures
        r.deep_view() == filled_line(lines_of(s@)),
{
    let all = lines(s);
    let ghost lines = all.deep_view();
    let mut i: usize = 0;
    assert(lines.skip(0) =~= lines);
    while i < all.len()
        invariant
            i <= all.len(),
            lines == all.deep_view(),
            lines == lines_of(s@),
            filled_line(lines) == filled_line(lines.skip(i as int)),
        decreases all.len() - i,
    {
        assert(lines[i as int] == all@[i as int]@);
        let line = trim(all[i].as_str());
        if !line.as_str().is_empty() {
            return Some(line);
        }
        assert(lines.skip(i as int).skip(1) =~= lines.skip(i + 1));
        i += 1;
    }
    None
}

/// Whether a text comes before another one when texts are put in order: at the
/// first place where they differ it has the lower character, or it ends there.
pub open spec fn lex_less(a: Seq<char>, b: Seq<char>) -> bool
    decreases a.len(),
{
    if b.len() == 0 {
        false
    } else if a.len() == 0 {
        true
    } else if a[0] != b[0] {
        a[0] < b[0]
    } else {
        lex_less(a.skip(1), b.skip(1))
    }
}

/// Whether a text comes before another one when texts are put in order.
pub fn comes_before(a: &str, b: &str) -> (r: bool)
    ensures
        r == lex_less(a@, b@),
{
    let x = chars_of(a);
    let y = chars_of(b);
    let mut i: usize = 0;
    assert(a@.skip(0) =~= a@ && b@.skip(0) =~= b@);
    while i < x.len() && i < y.len()
        invariant
            i <= x.len(),
            i <= y.len(),
            x@ == a@,
            y@ == b@,
            lex_less(a@, b@) == lex_less(a@.skip(i as int), b@.skip(i as int)),
        decreases x.len() - i,
    {
        if x[i] != y[i] {
            return x[i] < y[i];
        }
        assert(a@.skip(i as int).skip(1) =~= a@.skip(i + 1));
        assert(b@.skip(i as int).skip(1) =~= b@.skip(i + 1));
        i += 1;
    }
    i < y.len()
}

/// Of two texts exactly one comes before the other, unless they are the same.
pub proof fn lemma_lex_order(a: Seq<char>, b: Seq<char>)
    ensures
        !(lex_less(a, b) && lex_less(b, a)),
        a != b ==> lex_less(a, b) || lex_less(b, a),
        !lex_less(a, a),
    decreases a.len(),
{
    if a.len() > 0 {
        lemma_lex_order(a.skip(1), a.skip(1));
    }
    if a.len() > 0 && b.len() > 0 && a[0] == b[0] {
        lemma_lex_order(a.skip(1), b.skip(1));
        if a.skip(1) == b.skip(1) {
            assert(a =~= seq![a[0]] + a.skip(1));
            assert(b =~= seq![b[0]] + b.skip(1));
        }
    } else if a.len() == 0 && b.len() == 0 {
        assert(a =~= b);
    }
}

/// What comes before a text also comes before what that text comes before.
pub proof fn lemma_lex_chain(a: Seq<char>, b: Seq<char>, c: Seq<char>)
    requires
        lex_less(a, b),
        lex_less(b, c),
    ensures
        lex_less(a, c),
    decreases a.len(),
{
    if a.len() > 0 && a[0] == b[0] && b[0] == c[0] {
        lemma_lex_chain(a.skip(1), b.skip(1), c.skip(1));
    }
}

/// Whether a text holds nothing but blanks, tabs and what ends lines.
pub open spec fn is_blank(s: Seq<char>) -> bool {
    forall|i: int|
        0 <= i < s.len() ==> (#[trigger] s[i]) == ' ' || s[i] == '\t' || s[i] == '\n' || s[i] == '\r'
}

proof fn lemma_trimmed_start(before: Seq<char>, rest: Seq<char>)
    requires
        is_blank(before),
        rest.len() > 0 ==> !is_white(rest[0]),
    ensures
        trimmed_start(before + rest) == rest,
    decreases before.len(),
{
    if before.len() == 0 {
        assert(before + rest =~= rest);
    } else {
        assert((before + rest)[0] == before[0]);
        assert((before + rest).skip(1) =~= before.skip(1) + rest);
        lemma_trimmed_start(before.skip(1), rest);
    }
}

proof fn lemma_trimmed_end(rest: Seq<char>, after: Seq<char>)
    requires
        is_blank(after),
        rest.len() > 0 ==> !is_white(rest.last()),
    ensures
        trimmed_end(rest + after) == rest,
    decreases after.len(),
{
    if after.len() == 0 {
        assert(rest + after =~= rest);
    } else {
        assert((rest + after).last() == after[after.len() - 1]);
        assert((rest + after).drop_last() =~= rest + after.drop_last());
        lemma_trimmed_end(rest, after.drop_last());
    }
}

/// What a program prints between blanks and line ends comes out of trimming whole, and
/// of blanks alone nothing comes out.
pub proof fn trimming_leaves_what_is_printed(
    before: Seq<char>,
    printed: Seq<char>,
    after: Seq<char>,
)
    requires
        is_blank(before),
        is_blank(after),
        printed.len() > 0 ==> '!' <= printed[0] <= '~' && '!' <= printed.last() <= '~',
    ensures
        trimmed(before + printed + after) == printed,
{
    if printed.len() > 0 {
        assert(before + printed + after =~= before + (printed + after));
        assert((printed + after)[0] == printed[0]);
        lemma_trimmed_start(before, printed + after);
        lemma_trimmed_end(printed, after);
    } else {
        let all = before + printed + after;
        assert(is_blank(all)) by {
            assert forall|i: int| 0 <= i < all.len() implies (#[trigger] all[i]) == ' ' || all[i]
                == '\t' || all[i] == '\n' || all[i] == '\r' by {
                if i < before.len() {
                    assert(all[i] == before[i]);
                } else {
                    assert(all[i] == after[i - before.len()]);
                }
            }
        }
        lemma_trimmed_start(all, Seq::empty());
        assert(all + Seq::<char>::empty() =~= all);
        assert(printed =~= Seq::<char>::empty());
    }
}

proof fn lemma_first_after(a: Seq<char>, c: char, b: Seq<char>)
    requires
        forall|i: int| 0 <= i < a.len() ==> (#[trigger] a[i]) != c,
    ensures
        first_of(a + seq![c] + b, c) == a.len(),
        first_of(a, c) == a.len(),
{
    let s = a + seq![c] + b;
    lemma_first_of(s, c);
    lemma_first_of(a, c);
    assert(s[a.len() as int] == c);
    if first_of(s, c) < a.len() {
        assert(s[first_of(s, c)] == a[first_of(s, c)]);
    }
    if first_of(a, c) < a.len() {
        assert(a[first_of(a, c)] == c);
    }
}

/// A text is cut at every separator and nowhere else: what stands before the first one
/// is a part, and the parts of what follows it are the others.
pub proof fn parts_end_at_separators(part: Seq<char>, sep: char, rest: Seq<char>)
    requires
        forall|i: int| 0 <= i < part.len() ==> (#[trigger] part[i]) != sep,
    ensures
        parts(part, sep) == seq![part],
        parts(part + seq![sep] + rest, sep) == seq![part] + parts(rest, sep),
{
    lemma_first_after(part, sep, rest);
    let s = part + seq![sep] + rest;
    assert(s.take(part.len() as int) =~= part);
    assert(s.skip(part.len() as int + 1) =~= rest);
}

/// A line ends at a line feed, or at a carriage return and a line feed, and nowhere
/// else; no other character of it is lost.
pub proof fn lines_end_at_line_feeds(line: Seq<char>, rest: Seq<char>)
    requires
        forall|i: int| 0 <= i < line.len() ==> (#[trigger] line[i]) != '\n',
    ensures
        line.len() == 0 || line.last() != '\r' ==> lines_of(line + seq!['\n'] + rest) == seq![line]
            + lines_of(rest),
        lines_of(line + seq!['\r'] + seq!['\n'] + rest) == seq![line] + lines_of(rest),
        line.len() > 0 ==> lines_of(line) == seq![line],
        lines_of(Seq::empty()).len() == 0,
{
    lemma_first_after(line, '\n', rest);
    let s = line + seq!['\n'] + rest;
    assert(s.take(line.len() as int) =~= line);
    assert(s.skip(line.len() as int + 1) =~= rest);
    let returned = line + seq!['\r'];
    assert forall|i: int| 0 <= i < returned.len() implies (#[trigger] returned[i]) != '\n' by {
        if i < line.len() {
            assert(returned[i] == line[i]);
        }
    }
    lemma_first_after(returned, '\n', rest);
    let t = returned + seq!['\n'] + rest;
    assert(t.take(returned.len() as int) =~= returned);
    assert(t.skip(returned.len() as int + 1) =~= rest);
    assert(returned.drop_last() =~= line);
}

/// Of some lines the first one that is not blank is found, and none if all are.
pub proof fn the_first_filled_line_is_found(lines: Seq<Seq<char>>, at: int)
    ensures
        (forall|i: int| 0 <= i < lines.len() ==> trimmed(#[trigger] lines[i]).len() == 0)
            ==> filled_line(lines) is None,
        0 <= at < lines.len() && trimmed(lines[at]).len() > 0 && (forall|i: int|
            0 <= i < at ==> trimmed(#[trigger] lines[i]).len() == 0) ==> filled_line(lines) == Some(
            trimmed(lines[at]),
        ),
    decreases lines.len(),
{
    if lines.len() > 0 {
        let rest = lines.skip(1);
        the_first_filled_line_is_found(rest, at - 1);
        if forall|i: int| 0 <= i < lines.len() ==> trimmed(#[trigger] lines[i]).len() == 0 {
            assert(trimmed(lines[0]).len() == 0);
            assert forall|i: int| 0 <= i < rest.len() implies trimmed(#[trigger] rest[i]).len()
                == 0 by {
                assert(rest[i] == lines[i + 1]);
            }
        }
        if 0 < at < lines.len() && trimmed(lines[at]).len() > 0 && (forall|i: int|
            0 <= i < at ==> trimmed(#[trigger] lines[i]).len() == 0) {
            assert(trimmed(lines[0]).len() == 0);
            assert(rest[at - 1] == lines[at]);
            assert forall|i: int| 0 <= i < at - 1 implies trimmed(#[trigger] rest[i]).len()
                == 0 by {
                assert(rest[i] == lines[i + 1]);
            }
        }
    }
}

/// Texts are the same but for case if, place by place, their characters are the same or
/// one is the capital of the other, from `A` to `Z`.
pub proof fn case_is_that_of_ascii_letters(a: Seq<char>, b: Seq<char>)
    ensures
        same_but_case(a, b) <==> a.len() == b.len() && forall|i: int|
            0 <= i < a.len() ==> (#[trigger] a[i]) == b[i] || ('A' <= a[i] <= 'Z' && b[i] as int
                == a[i] as int + 32) || ('A' <= b[i] <= 'Z' && a[i] as int == b[i] as int + 32),
{
    assert forall|x: char| 'A' <= x <= 'Z' implies #[trigger] ascii_lower(x) as int == x as int
        + 32 by {}
    if same_but_case(a, b) {
        assert forall|i: int| 0 <= i < a.len() implies (#[trigger] a[i]) == b[i] || ('A' <= a[i]
            <= 'Z' && b[i] as int == a[i] as int + 32) || ('A' <= b[i] <= 'Z' && a[i] as int
            == b[i] as int + 32) by {
            assert(ascii_lower(a[i]) == ascii_lower(b[i]));
        }
    }
    if a.len() == b.len() && forall|i: int|
        0 <= i < a.len() ==> (#[trigger] a[i]) == b[i] || ('A' <= a[i] <= 'Z' && b[i] as int
            == a[i] as int + 32) || ('A' <= b[i] <= 'Z' && a[i] as int == b[i] as int + 32) {
        assert forall|i: int| 0 <= i < a.len() implies ascii_lower(#[trigger] a[i]) == ascii_lower(
            b[i],
        ) by {
            if a[i] != b[i] {
                if 'A' <= a[i] <= 'Z' && b[i] as int == a[i] as int + 32 {
                    assert(ascii_lower(a[i]) as int == b[i] as int);
                } else {
                    assert(ascii_lower(b[i]) as int == a[i] as int);
                }
            }
        }
    }
}

/// Whether two texts are the same up to a place at which the first one has ended or has
/// the lower character.
pub open spec fn falls_behind_at(a: Seq<char>, b: Seq<char>, at: int) -> bool {
    &&& 0 <= at <= a.len()
    &&& at < b.len()
    &&& forall|i: int| 0 <= i < at ==> (#[trigger] a[i]) == b[i]
    &&& at < a.len() ==> a[at] < b[at]
}

/// A text comes before another one exactly if there is a place at which it falls behind.
pub proof fn order_is_decided_at_the_first_difference(a: Seq<char>, b: Seq<char>)
    ensures
        lex_less(a, b) <==> exists|at: int| falls_behind_at(a, b, at),
    decreases a.len(),
{
    if b.len() > 0 && a.len() > 0 && a[0] == b[0] {
        let (x, y) = (a.skip(1), b.skip(1));
        order_is_decided_at_the_first_difference(x, y);
        if lex_less(x, y) {
            let at = choose|at: int| falls_behind_at(x, y, at);
            assert forall|i: int| 0 <= i < at + 1 implies (#[trigger] a[i]) == b[i] by {
                if i > 0 {
                    assert(x[i - 1] == y[i - 1]);
                }
            }
            assert(falls_behind_at(a, b, at + 1));
        }
        if exists|at: int| falls_behind_at(a, b, at) {
            let at = choose|at: int| falls_behind_at(a, b, at);
            assert(at > 0);
            assert forall|i: int| 0 <= i < at - 1 implies (#[trigger] x[i]) == y[i] by {
                assert(a[i + 1] == b[i + 1]);
            }
            assert(falls_behind_at(x, y, at - 1));
        }
    } else if b.len() > 0 {
        if lex_less(a, b) {
            assert(falls_behind_at(a, b, 0));
        }
        if exists|at: int| falls_behind_at(a, b, at) {
            let at = choose|at: int| falls_behind_at(a, b, at);
            if at > 0 {
                assert(a[0] == b[0]);
            }
        }
    }
}

proof fn lemma_occurs_between(before: Seq<char>, part: Seq<char>, after: Seq<char>)
    ensures
        occurs_at(part, before + part + after, before.len() as int),
{
    let whole = before + part + after;
    assert(whole.subrange(before.len() as int, (before.len() + part.len()) as int) =~= part);
}

/// A text begins with another one exactly if it is that one with something behind it, and
/// ends with it exactly if it is that one with something before it.
pub proof fn beginnings_and_ends_are_found(whole: &str, part: &str, begins: bool, ends: bool)
    requires
        call_ensures(starts_with, (whole, part), begins),
        call_ensures(ends_with, (whole, part), ends),
    ensures
        begins <==> exists|rest: Seq<char>| whole@ == #[trigger] (part@ + rest),
        ends <==> exists|rest: Seq<char>| whole@ == #[trigger] (rest + part@),
{
    let (w, p) = (whole@, part@);
    if begins {
        assert(w =~= w.subrange(0, p.len() as int) + w.skip(p.len() as int));
        assert(w == p + w.skip(p.len() as int));
    }
    if ends {
        assert(w =~= w.take(w.len() - p.len()) + w.subrange(w.len() - p.len(), w.len() as int));
        assert(w == w.take(w.len() - p.len()) + p);
    }
    if exists|rest: Seq<char>| w == #[trigger] (p + rest) {
        let rest = choose|rest: Seq<char>| w == #[trigger] (p + rest);
        lemma_occurs_between(Seq::empty(), p, rest);
        assert(Seq::<char>::empty() + p + rest =~= w);
    }
    if exists|rest: Seq<char>| w == #[trigger] (rest + p) {
        let rest = choose|rest: Seq<char>| w == #[trigger] (rest + p);
        lemma_occurs_between(rest, p, Seq::empty());
        assert(rest + p + Seq::<char>::empty() =~= w);
    }
}

/// A text holds another one exactly if it is that one between two texts.
pub proof fn texts_are_found_within(whole: &str, part: &str, r: bool)
    requires
        call_ensures(contains, (whole, part), r),
    ensures
        r <==> exists|before: Seq<char>, after: Seq<char>| whole@ == #[trigger] (before + part@
            + after),
{
    let (w, p) = (whole@, part@);
    if r {
        let at = choose|at: int| occurs_at(p, w, at);
        let (before, after) = (w.take(at), w.skip((at + p.len()) as int));
        assert(w =~= before + w.subrange(at, (at + p.len()) as int) + after);
        assert(w == before + p + after);
    }
    if exists|before: Seq<char>, after: Seq<char>| w == #[trigger] (before + p + after) {
        let (before, after) = choose|before: Seq<char>, after: Seq<char>| w == #[trigger] (before
            + p + after);
        lemma_occurs_between(before, p, after);
    }
}

/// What follows the last separator is the last part.
pub proof fn the_last_part_follows_the_last_separator(
    before: Seq<char>,
    sep: char,
    part: Seq<char>,
)
    requires
        forall|i: int| 0 <= i < part.len() ==> (#[trigger] part[i]) != sep,
    ensures
        parts(before + seq![sep] + part, sep).last() == part,
        parts(before + seq![sep] + part, sep).len() >= 2,
    decreases before.len(),
{
    let s = before + seq![sep] + part;
    let at = first_of(s, sep);
    lemma_first_of(s, sep);
    assert(s[before.len() as int] == sep);
    assert(at <= before.len());
    if at == before.len() {
        assert(s.skip(at + 1) =~= part);
        parts_end_at_separators(part, sep, Seq::empty());
    } else {
        let rest = before.skip(at + 1);
        assert(s.skip(at + 1) =~= rest + seq![sep] + part);
        the_last_part_follows_the_last_separator(rest, sep, part);
        assert(parts(s, sep).last() == parts(s.skip(at + 1), sep).last());
    }
}

/// Texts are compared, joined, filled in and cut character by character.
pub proof fn texts_are_handled_by_their_characters(
    a: &str,
    b: &str,
    told: Option<String>,
    equal: bool,
    joined: String,
    filled: String,
    before: bool,
    alike: bool,
)
    requires
        call_ensures(same, (a, b), equal),
        call_ensures(join, (a, b), joined),
        call_ensures(text_or_empty, (told,), filled),
        call_ensures(comes_before, (a, b), before),
        call_ensures(equal_but_case, (a, b), alike),
    ensures
        equal <==> a@.len() == b@.len() && forall|i: int|
            0 <= i < a@.len() ==> (#[trigger] a@[i]) == b@[i],
        joined@.len() == a@.len() + b@.len(),
        joined@.take(a@.len() as int) == a@ && joined@.skip(a@.len() as int) == b@,
        told is Some ==> filled@ == told->0@,
        told is None ==> filled@.len() == 0,
        before <==> exists|at: int| falls_behind_at(a@, b@, at),
        alike <==> a@.len() == b@.len() && forall|i: int|
            0 <= i < a@.len() ==> (#[trigger] a@[i]) == b@[i] || ('A' <= a@[i] <= 'Z' && b@[i]
                as int == a@[i] as int + 32) || ('A' <= b@[i] <= 'Z' && a@[i] as int == b@[i]
                as int + 32),
{
    if a@.len() == b@.len() && forall|i: int| 0 <= i < a@.len() ==> (#[trigger] a@[i]) == b@[i] {
        assert(a@ =~= b@);
    }
    assert(joined@.take(a@.len() as int) =~= a@);
    assert(joined@.skip(a@.len() as int) =~= b@);
    order_is_decided_at_the_first_difference(a@, b@);
    case_is_that_of_ascii_letters(a@, b@);
}

/// What is trimmed is what stands between the blanks, and the parts of a text are what stands
/// between the separators.
pub proof fn texts_are_trimmed_and_split(
    s: &str,
    before: Seq<char>,
    core: Seq<char>,
    after: Seq<char>,
    trimmed: String,
    part: Seq<char>,
    sep: char,
    rest: &str,
    cut: Vec<String>,
    others: Vec<String>,
)
    requires
        call_ensures(trim, (s,), trimmed),
        call_ensures(split, (s, sep), cut),
        call_ensures(split, (rest, sep), others),
    ensures
        s@ == before + core + after && is_blank(before) && is_blank(after) && (core.len() > 0
            ==> '!' <= core[0] <= '~' && '!' <= core.last() <= '~') ==> trimmed@ == core,
        s@ == part + seq![sep] + rest@ && (forall|i: int|
            0 <= i < part.len() ==> (#[trigger] part[i]) != sep) ==> cut.deep_view() == seq![part]
            + others.deep_view(),
        (forall|i: int| 0 <= i < s@.len() ==> (#[trigger] s@[i]) != sep) ==> cut@.len() == 1
            && cut@[0]@ == s@,
{
    if s@ == before + core + after && is_blank(before) && is_blank(after) && (core.len() > 0 ==> '!'
        <= core[0] <= '~' && '!' <= core.last() <= '~') {
        trimming_leaves_what_is_printed(before, core, after);
    }
    if forall|i: int| 0 <= i < part.len() ==> (#[trigger] part[i]) != sep {
        parts_end_at_separators(part, sep, rest@);
    }
    if forall|i: int| 0 <= i < s@.len() ==> (#[trigger] s@[i]) != sep {
        parts_end_at_separators(s@, sep, rest@);
        assert(cut.deep_view().len() == cut@.len());
        assert(cut.deep_view()[0] == cut@[0]@);
    }
}

/// The lines of a text end at its line feeds.
pub proof fn texts_are_cut_into_lines(
    s: &str,
    line: Seq<char>,
    rest: &str,
    r: Vec<String>,
    others: Vec<String>,
    first: Option<String>,
)
    requires
        call_ensures(lines, (s,), r),
        call_ensures(lines, (rest,), others),
        call_ensures(first_filled_line, (s,), first),
        s@ == line + seq!['\n'] + rest@,
        forall|i: int| 0 <= i < line.len() ==> (#[trigger] line[i]) != '\n',
        line.len() > 0,
        '!' <= line[0] <= '~',
        '!' <= line.last() <= '~',
    ensures
        r.deep_view() == seq![line] + others.deep_view(),
        first is Some && first->0@ == line,
{
    lines_end_at_line_feeds(line, rest@);
    trimming_leaves_what_is_printed(Seq::empty(), line, Seq::empty());
    assert(Seq::<char>::empty() + line + Seq::<char>::empty() =~= line);
}

/// White space, which is trimmed, is what Unicode calls so, and nothing else.
pub proof fn white_space_is_that_of_unicode(c: char)
    ensures
        ({
            let n = c as u32;
            trimmed(seq![c]).len() == 0 <==> {
                ||| 9 <= n <= 13
                ||| n == 32
                ||| n == 133
                ||| n == 160
                ||| n == 5760
                ||| 8192 <= n <= 8202
                ||| n == 8232
                ||| n == 8233
                ||| n == 8239
                ||| n == 8287
                ||| n == 12288
            }
        }),
{
    let one = seq![c];
    assert(one.skip(1) =~= Seq::<char>::empty());
    reveal_with_fuel(trimmed_start, 2);
    reveal_with_fuel(trimmed_end, 2);
}

/// What holds a character that prints is not blank.
pub proof fn what_prints_is_not_blank(s: Seq<char>, at: int)
    requires
        0 <= at < s.len(),
        '!' <= s[at] <= '~',
    ensures
        trimmed(s).len() > 0,
{
    lemma_start_is_kept(s, at);
    let rest = trimmed_start(s);
    let i = choose|i: int| 0 <= i < rest.len() && '!' <= (#[trigger] rest[i]) <= '~';
    lemma_end_is_kept(rest, i);
}

proof fn lemma_start_is_kept(s: Seq<char>, at: int)
    requires
        0 <= at < s.len(),
        '!' <= s[at] <= '~',
    ensures
        exists|i: int| 0 <= i < trimmed_start(s).len() && '!' <= (#[trigger] trimmed_start(s)[i])
            <= '~',
    decreases s.len(),
{
    if is_white(s[0]) {
        assert(s.skip(1)[at - 1] == s[at]);
        lemma_start_is_kept(s.skip(1), at - 1);
        let rest = trimmed_start(s.skip(1));
        let i = choose|i: int| 0 <= i < rest.len() && '!' <= (#[trigger] rest[i]) <= '~';
        assert(trimmed_start(s)[i] == rest[i]);
    } else {
        assert(trimmed_start(s)[at] == s[at]);
    }
}

proof fn lemma_end_is_kept(s: Seq<char>, at: int)
    requires
        0 <= at < s.len(),
        '!' <= s[at] <= '~',
    ensures
        trimmed_end(s).len() > 0,
    decreases s.len(),
{
    if is_white(s.last()) {
        assert(s.drop_last()[at] == s[at]);
        lemma_end_is_kept(s.drop_last(), at);
    }
}

} // verus!

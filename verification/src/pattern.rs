//! Regular expressions that this project matches against, and the two questions
//! that it asks of the `regex` crate.
use vstd::prelude::*;

verus! {

/// The error of `regex::Regex::new`, carried through.
#[verifier::external_type_specification]
#[verifier::external_body]
pub struct ExRegexError(regex::Error);

/// A byte range: a run of digits, an optional hyphen, an optional run of digits.
pub const RANGE: &'static str = r"(?P<start>[0-9]{1,20})-?(?P<end>[0-9]{1,20})?";

/// A channel or a user page of Rumble.
pub const RUMBLE_CHANNEL: &'static str =
    r"^https?://(www\.)?rumble\.com/(c|user)/[A-Za-z0-9._-]+(?:(?:/|\?).*)?$";

/// Any host under `youtube.com`.
pub const YOUTUBE_SUBDOMAIN: &'static str = r"^(https://)?.*\.youtube\.com/";

/// The host `youtube.com` itself.
pub const YOUTUBE: &'static str = r"^(https://)?youtube\.com/";

/// The host `youtu.be` itself.
pub const YOUTU_BE: &'static str = r"^(https://)?youtu\.be/";

/// Any host under `youtu.be`.
pub const YOUTU_BE_SUBDOMAIN: &'static str = r"^(https://)?.*\.youtu\.be/";

/// Any host under `googlevideo.com`.
pub const GOOGLEVIDEO: &'static str = r"^(https://)?.*\.googlevideo\.com/";

/// The length of the longest run of at most `limit` digits that a text begins with.
pub open spec fn digit_run(s: Seq<char>, limit: nat) -> int
    decreases limit,
{
    if limit == 0 || s.len() == 0 || !crate::numerals::is_digit(s[0]) {
        0
    } else {
        1 + digit_run(s.skip(1), (limit - 1) as nat)
    }
}

/// The position of the first digit in a text, or the text's length if it has none.
pub open spec fn first_digit(s: Seq<char>) -> int
    decreases s.len(),
{
    if s.len() == 0 || crate::numerals::is_digit(s[0]) {
        0
    } else {
        1 + first_digit(s.skip(1))
    }
}

/// The two runs of digits in a text that [`RANGE`] captures: the first one, and
/// the one that follows it directly or after one hyphen.
pub open spec fn range_groups(s: Seq<char>) -> Option<(Seq<char>, Option<Seq<char>>)> {
    let from = s.skip(first_digit(s));
    let start = from.take(digit_run(from, 20));
    let rest = from.skip(start.len() as int);
    let tail = if rest.len() > 0 && rest[0] == '-' {
        rest.skip(1)
    } else {
        rest
    };
    let end = tail.take(digit_run(tail, 20));
    if start.len() == 0 {
        None
    } else {
        Some((start, if end.len() == 0 { None } else { Some(end) }))
    }
}

/// The groups of [`RANGE`], of which the first one always takes part in a match.
pub open spec fn both_groups(groups: Option<(Seq<char>, Option<Seq<char>>)>) -> Option<
    (Option<Seq<char>>, Option<Seq<char>>),
> {
    match groups {
        Some((start, end)) => Some((Some(start), end)),
        None => None,
    }
}

/// Whether a text holds `host`, with no line feed before it.
pub open spec fn under_host(host: Seq<char>, s: Seq<char>) -> bool {
    exists|at: int| #[trigger]
        crate::text::occurs_at(host, s, at) && forall|i: int| 0 <= i < at ==> s[i] != '\n'
}

/// Whether a text begins with `host`, or with `https://` and then `host`.
pub open spec fn at_host(host: Seq<char>, s: Seq<char>) -> bool {
    crate::text::occurs_at(host, s, 0) || crate::text::occurs_at("https://"@ + host, s, 0)
}

/// What an address of a Rumble channel begins with, up to the channel's name.
pub open spec fn is_rumble_head(s: Seq<char>) -> bool {
    ||| s == "http://rumble.com/c/"@
    ||| s == "http://rumble.com/user/"@
    ||| s == "http://www.rumble.com/c/"@
    ||| s == "http://www.rumble.com/user/"@
    ||| s == "https://rumble.com/c/"@
    ||| s == "https://rumble.com/user/"@
    ||| s == "https://www.rumble.com/c/"@
    ||| s == "https://www.rumble.com/user/"@
}

/// Whether a character may stand in the name of a Rumble channel.
pub open spec fn is_name_char(c: char) -> bool {
    'A' <= c <= 'Z' || 'a' <= c <= 'z' || '0' <= c <= '9' || c == '.' || c == '_' || c == '-'
}

/// Whether a text is the address of a Rumble channel whose name stands from
/// `from` to `to`; what follows the name begins with a slash or a question mark
/// and holds no line feed.
pub open spec fn rumble_name_at(s: Seq<char>, from: int, to: int) -> bool {
    &&& 0 <= from < to <= s.len()
    &&& is_rumble_head(s.take(from))
    &&& forall|i: int| from <= i < to ==> is_name_char(#[trigger] s[i])
    &&& to < s.len() ==> (s[to] == '/' || s[to] == '?')
    &&& forall|i: int| to < i < s.len() ==> s[i] != '\n'
}

/// Whether a text is the address of a Rumble channel.
pub open spec fn is_rumble_channel(s: Seq<char>) -> bool {
    exists|from: int, to: int| rumble_name_at(s, from, to)
}

/// Whether a regular expression matches somewhere in a text; nothing if it is no
/// regular expression.
pub uninterp spec fn regex_match(pattern: Seq<char>, text: Seq<char>) -> Option<bool>;

/// The texts of two named groups in the first match of a regular expression;
/// inside, nothing if there is no match; outside, nothing if it is no regular
/// expression.
pub uninterp spec fn regex_groups(
    pattern: Seq<char>,
    text: Seq<char>,
    first: Seq<char>,
    second: Seq<char>,
) -> Option<Option<(Option<Seq<char>>, Option<Seq<char>>)>>;

/// Calls `regex::Regex::new` and `Regex::is_match`. The answer depends on the
/// expression and the text alone; for the expressions of this module it is what
/// the syntax of the crate says of them: `.` is any character but a line feed,
/// `^` and `$` are the two ends of the whole text.
#[verifier::external_body]
pub(crate) fn is_match(pattern: &str, text: &str) -> (r: Result<bool, regex::Error>)
    ensures
        r.ok() == regex_match(pattern@, text@),
        pattern@ == RUMBLE_CHANNEL@ ==> r.ok() == Some(is_rumble_channel(text@)),
        pattern@ == YOUTUBE_SUBDOMAIN@ ==> r.ok() == Some(under_host(".youtube.com/"@, text@)),
        pattern@ == YOUTUBE@ ==> r.ok() == Some(at_host("youtube.com/"@, text@)),
        pattern@ == YOUTU_BE@ ==> r.ok() == Some(at_host("youtu.be/"@, text@)),
        pattern@ == YOUTU_BE_SUBDOMAIN@ ==> r.ok() == Some(under_host(".youtu.be/"@, text@)),
        pattern@ == GOOGLEVIDEO@ ==> r.ok() == Some(under_host(".googlevideo.com/"@, text@)),
{
    regex::Regex::new(pattern).map(|re| re.is_match(text))
}

/// Calls `regex::Regex::new`, takes the first match that `Regex::captures_iter`
/// gives, and of it the two named groups. The answer depends on the arguments
/// alone; for [`RANGE`] and its groups it is [`range_groups`], as the crate's
/// leftmost and greedy matching has it.
#[verifier::external_body]
pub(crate) fn first_groups(pattern: &str, text: &str, first: &str, second: &str) -> (r: Result<
    Option<(Option<String>, Option<String>)>,
    regex::Error,
>)
    ensures
        r.ok().deep_view() == regex_groups(pattern@, text@, first@, second@),
        pattern@ == RANGE@ && first@ == "start"@ && second@ == "end"@ ==> r is Ok
            && r->Ok_0.deep_view() == both_groups(range_groups(text@)),
{
    let re = regex::Regex::new(pattern)?;
    let found = re.captures_iter(text).next();
    Ok(found.map(|c| (
        c.name(first).map(|m| m.as_str().to_string()),
        c.name(second).map(|m| m.as_str().to_string()),
    )))
}

} // verus!

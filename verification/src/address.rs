//! Addresses on the web, taken apart and put together by the `url` crate.
use vstd::prelude::*;

verus! {

/// The error of `url::Url::parse`, carried through.
#[verifier::external_type_specification]
#[verifier::external_body]
pub struct ExParseError(url::ParseError);

/// An address and its parts.
#[derive(Debug, PartialEq, Eq)]
pub struct Address {
    /// The whole address in its normal form.
    pub text: String,
    pub scheme: String,
    pub host: Option<String>,
    pub path: String,
    /// The parts of the path between slashes, if it begins with one.
    pub segments: Option<Vec<String>>,
    /// The decoded keys and values of the query.
    pub query: Vec<(String, String)>,
}

/// An [`Address`] with its texts as sequences of characters.
pub struct AddressModel {
    pub text: Seq<char>,
    pub scheme: Seq<char>,
    pub host: Option<Seq<char>>,
    pub path: Seq<char>,
    pub segments: Option<Seq<Seq<char>>>,
    pub query: Seq<(Seq<char>, Seq<char>)>,
}

impl DeepView for Address {
    type V = AddressModel;

    open spec fn deep_view(&self) -> AddressModel {
        AddressModel {
            text: self.text@,
            scheme: self.scheme@,
            host: self.host.deep_view(),
            path: self.path@,
            segments: self.segments.deep_view(),
            query: self.query.deep_view(),
        }
    }
}

/// An address with its texts as sequences, or the error.
pub open spec fn outcome(r: Result<Address, url::ParseError>) -> Result<
    AddressModel,
    url::ParseError,
> {
    match r {
        Ok(address) => Ok(address.deep_view()),
        Err(e) => Err(e),
    }
}

/// The parts of a path between slashes, if it begins with one.
pub open spec fn segments_of(path: Seq<char>) -> Option<Seq<Seq<char>>> {
    if path.len() > 0 && path[0] == '/' {
        Some(crate::text::parts(path.skip(1), '/'))
    } else {
        None
    }
}

/// The address that `url::Url::parse` reads from a text.
pub uninterp spec fn url_parse(text: Seq<char>) -> Result<AddressModel, url::ParseError>;

/// The words in which `url::ParseError` tells what is wrong.
pub uninterp spec fn url_error_text(e: url::ParseError) -> Seq<char>;

/// The address that results when a key and a value are appended to the query of
/// another one.
pub uninterp spec fn url_with_pair(base: Seq<char>, key: Seq<char>, value: Seq<char>) -> Result<
    Seq<char>,
    url::ParseError,
>;

/// Whether a text is the address at which YouTube shows a video whose identifier is
/// made of letters, digits, hyphens and underscores.
pub open spec fn is_watch_address(text: Seq<char>) -> bool {
    let head = "https://www.youtube.com/watch?v="@;
    &&& crate::text::occurs_at(head, text, 0)
    &&& forall|i: int| head.len() <= i < text.len() ==> crate::text::is_plain(#[trigger] text[i])
}

/// Calls `url::Url::parse` and asks the address for its parts. They depend on the
/// text alone; the segments are those of the path. The address of a video is in its
/// normal form already.
#[verifier::external_body]
fn parse_url(text: &str) -> (r: Result<Address, url::ParseError>)
    ensures
        outcome(r) == url_parse(text@),
        r is Ok ==> r->Ok_0.segments.deep_view() == segments_of(r->Ok_0.path@),
        is_watch_address(text@) ==> r is Ok && r->Ok_0.text@ == text@,
{
    url::Url::parse(text).map(|u| Address {
        text: u.to_string(),
        scheme: u.scheme().to_string(),
        host: u.host_str().map(str::to_string),
        path: u.path().to_string(),
        segments: u.path_segments().map(|s| s.map(str::to_string).collect()),
        query: u.query_pairs().into_owned().collect(),
    })
}

/// Calls `to_string` of `url::ParseError`. The words depend on the error alone.
#[verifier::external_body]
fn error_text(e: &url::ParseError) -> (r: String)
    ensures
        r@ == url_error_text(*e),
{
    e.to_string()
}

/// The address of YouTube's own feeds.
pub const YOUTUBE_FEEDS: &'static str = "https://www.youtube.com/feeds/videos.xml";

/// Whether a text reads as an address of YouTube's feeds with one pair in its query.
pub open spec fn is_feed_address(text: Seq<char>, key: Seq<char>, value: Seq<char>) -> bool {
    &&& url_parse(text) matches Ok(address)
    &&& address.text == text
    &&& address.scheme == "https"@
    &&& address.host == Some("www.youtube.com"@)
    &&& address.path == "/feeds/videos.xml"@
    &&& address.query == seq![(key, value)]
}

/// An address as a sequence, or the error.
pub open spec fn text_outcome(r: Result<String, url::ParseError>) -> Result<
    Seq<char>,
    url::ParseError,
> {
    match r {
        Ok(text) => Ok(text@),
        Err(e) => Err(e),
    }
}

/// Calls `url::Url::parse`, then `append_pair` on `Url::query_pairs_mut`, and takes
/// the text of the address. It depends on the three texts alone. Appended to the
/// address of YouTube's feeds, the pair is the whole query, and is read back as it
/// was.
#[verifier::external_body]
fn append_pair(base: &str, key: &str, value: &str) -> (r: Result<String, url::ParseError>)
    ensures
        text_outcome(r) == url_with_pair(base@, key@, value@),
        base@ == YOUTUBE_FEEDS@ ==> r is Ok && is_feed_address(r->Ok_0@, key@, value@),
{
    let mut address = url::Url::parse(base)?;
    address.query_pairs_mut().append_pair(key, value);
    Ok(address.to_string())
}

/// A text that is no address.
#[derive(Debug, PartialEq, Eq)]
pub struct BadAddress {
    /// What is wrong with it, in words.
    pub message: String,
}

/// Reads an address.
pub fn parse_address(text: &str) -> (r: Result<Address, BadAddress>)
    ensures
        match r {
            Ok(address) => {
                &&& url_parse(text@) == Ok::<AddressModel, url::ParseError>(address.deep_view())
                &&& address.deep_view().segments == segments_of(address.path@)
            },
            Err(bad) => url_parse(text@) matches Err(e) && bad.message@ == url_error_text(e),
        },
        is_watch_address(text@) ==> r is Ok && r->Ok_0.text@ == text@,
{
    match parse_url(text) {
        Ok(address) => Ok(address),
        Err(e) => Err(BadAddress { message: error_text(&e) }),
    }
}

/// The address of YouTube's feed for a key and a value.
pub fn youtube_feed(key: &str, value: &str) -> (r: String)
    ensures
        url_with_pair(YOUTUBE_FEEDS@, key@, value@) == Ok::<Seq<char>, url::ParseError>(r@),
        is_feed_address(r@, key@, value@),
{
    match append_pair(YOUTUBE_FEEDS, key, value) {
        Ok(text) => text,
        Err(_) => String::new(),
    }
}

/// The last segment of a path.
pub open spec fn last_segment(segments: Option<Seq<Seq<char>>>) -> Option<Seq<char>> {
    match segments {
        Some(all) => if all.len() > 0 {
            Some(all.last())
        } else {
            None
        },
        None => None,
    }
}

/// The value of the first pair with a key.
pub open spec fn value_of(query: Seq<(Seq<char>, Seq<char>)>, key: Seq<char>) -> Option<Seq<char>>
    decreases query.len(),
{
    if query.len() == 0 {
        None
    } else if query[0].0 == key {
        Some(query[0].1)
    } else {
        value_of(query.skip(1), key)
    }
}

impl Address {
    /// The last segment of the path.
    pub fn last_segment(&self) -> (r: Option<String>)
        ensures
            r.deep_view() == last_segment(self.deep_view().segments),
    {
        match &self.segments {
            Some(all) => if all.len() > 0 {
                Some(all[all.len() - 1].clone())
            } else {
                None
            },
            None => None,
        }
    }

    /// The value of the first pair of the query with a key.
    pub fn query_value(&self, key: &str) -> (r: Option<String>)
        ensures
            r.deep_view() == value_of(self.deep_view().query, key@),
    {
        let mut i: usize = 0;
        let ghost all = self.query.deep_view();
        assert(all.skip(0) =~= all);
        while i < self.query.len()
            invariant
                i <= self.query.len(),
                all == self.query.deep_view(),
                value_of(all, key@) == value_of(all.skip(i as int), key@),
            decreases self.query.len() - i,
        {
            assert(all[i as int] == (self.query@[i as int].0@, self.query@[i as int].1@));
            if crate::text::same(self.query[i].0.as_str(), key) {
                return Some(self.query[i].1.clone());
            }
            assert(all.skip(i as int).skip(1) =~= all.skip(i + 1));
            i += 1;
        }
        None
    }
}

/// Of several pairs with one key the first is taken, and nothing if there is none.
pub proof fn the_first_value_is_taken(address: &Address, key: &str, at: int, r: Option<String>)
    requires
        call_ensures(Address::query_value, (address, key), r),
    ensures
        0 <= at < address.query@.len() && address.query@[at].0@ == key@ && (forall|i: int|
            0 <= i < at ==> (#[trigger] address.query@[i]).0@ != key@) ==> r is Some && r->0@
            == address.query@[at].1@,
        (forall|i: int|
            0 <= i < address.query@.len() ==> (#[trigger] address.query@[i]).0@ != key@)
            ==> r is None,
{
    let query = address.query.deep_view();
    assert forall|i: int| 0 <= i < query.len() implies #[trigger] query[i] == (
        address.query@[i].0@,
        address.query@[i].1@,
    ) by {}
    if 0 <= at < query.len() && query[at].0 == key@ && (forall|i: int|
        0 <= i < at ==> (#[trigger] address.query@[i]).0@ != key@) {
        assert forall|i: int| 0 <= i < at implies (#[trigger] query[i]).0 != key@ by {
            assert(address.query@[i].0@ != key@);
        }
        lemma_first_value(query, key@, at);
    }
    if forall|i: int|
        0 <= i < address.query@.len() ==> (#[trigger] address.query@[i]).0@ != key@ {
        assert forall|i: int| 0 <= i < query.len() implies (#[trigger] query[i]).0 != key@ by {
            assert(address.query@[i].0@ != key@);
        }
        lemma_first_value(query, key@, query.len() as int);
    }
}

pub(crate) proof fn lemma_first_value(
    query: Seq<(Seq<char>, Seq<char>)>,
    key: Seq<char>,
    at: int,
)
    requires
        0 <= at <= query.len(),
        forall|i: int| 0 <= i < at ==> (#[trigger] query[i]).0 != key,
        at < query.len() ==> query[at].0 == key,
    ensures
        at < query.len() ==> value_of(query, key) == Some(query[at].1),
        at == query.len() ==> value_of(query, key) is None,
    decreases query.len(),
{
    if at > 0 {
        let rest = query.skip(1);
        assert(query[0].0 != key);
        assert forall|i: int| 0 <= i < at - 1 implies (#[trigger] rest[i]).0 != key by {
            assert(rest[i] == query[i + 1]);
        }
        lemma_first_value(rest, key, at - 1);
    }
}

/// The last segment of an address is what follows the last slash of its path.
pub proof fn the_last_segment_follows_the_last_slash(
    text: &str,
    address: Address,
    before: Seq<char>,
    name: Seq<char>,
    r: Option<String>,
)
    requires
        call_ensures(parse_address, (text,), Ok(address)),
        call_ensures(Address::last_segment, (&address,), r),
        address.path@ == before + seq!['/'] + name,
        before.len() == 0 || before[0] == '/',
        forall|i: int| 0 <= i < name.len() ==> (#[trigger] name[i]) != '/',
    ensures
        r is Some && r->0@ == name,
{
    let path = address.path@;
    assert(path[0] == '/');
    if before.len() == 0 {
        assert(path.skip(1) =~= name);
        crate::text::parts_end_at_separators(name, '/', Seq::empty());
    } else {
        assert(path[0] == before[0]);
        assert(path.skip(1) =~= before.skip(1) + seq!['/'] + name);
        crate::text::the_last_part_follows_the_last_separator(before.skip(1), '/', name);
    }
}

/// The feed of YouTube's for a key and a value is at an address of YouTube's that has them
/// for its query, and nothing else.
pub proof fn feeds_are_asked_for_by_one_pair(key: &str, value: &str, r: String)
    requires
        call_ensures(youtube_feed, (key, value), r),
    ensures
        url_parse(r@) matches Ok(address) && {
            &&& address.text == r@
            &&& address.scheme == "https"@
            &&& address.host == Some("www.youtube.com"@)
            &&& address.path == "/feeds/videos.xml"@
            &&& address.query.len() == 1
            &&& address.query[0] == (key@, value@)
        },
{
}

/// An address that can be read is read part by part, and of one that cannot what is wrong is
/// told.
pub proof fn addresses_are_read_part_by_part(text: &str, r: Result<Address, BadAddress>)
    requires
        call_ensures(parse_address, (text,), r),
    ensures
        match url_parse(text@) {
            Ok(read) => {
                &&& r is Ok
                &&& r->Ok_0.text@ == read.text
                &&& r->Ok_0.scheme@ == read.scheme
                &&& r->Ok_0.host.deep_view() == read.host
                &&& r->Ok_0.path@ == read.path
                &&& r->Ok_0.query.deep_view() == read.query
                &&& r->Ok_0.segments.deep_view() == read.segments
            },
            Err(e) => r is Err && r->Err_0.message@ == url_error_text(e),
        },
{
}

} // verus!

//! Replies to requests.
use vstd::prelude::*;

verus! {

/// A reply to a request.
#[derive(Debug, PartialEq, Eq)]
pub struct Reply {
    pub status: u16,
    pub content_type: Option<String>,
    /// The length that is told without a body to go with it.
    pub content_length: Option<usize>,
    pub body: Vec<u8>,
}

/// A [`Reply`] with its text and its body as sequences.
pub struct ReplyModel {
    pub status: u16,
    pub content_type: Option<Seq<char>>,
    pub content_length: Option<usize>,
    pub body: Seq<u8>,
}

impl DeepView for Reply {
    type V = ReplyModel;

    open spec fn deep_view(&self) -> ReplyModel {
        ReplyModel {
            status: self.status,
            content_type: self.content_type.deep_view(),
            content_length: self.content_length,
            body: self.body@,
        }
    }
}

/// All is well.
pub const OK: u16 = 200;

/// The request makes no sense.
pub const BAD_REQUEST: u16 = 400;

/// The request is refused.
pub const FORBIDDEN: u16 = 403;

/// What was asked for could not be made.
pub const CONFLICT: u16 = 409;

/// What was found is of no known kind.
pub const UNSUPPORTED_MEDIA_TYPE: u16 = 415;

/// The stretch that was asked for is not there.
pub const RANGE_NOT_SATISFIABLE: u16 = 416;

/// Something failed here.
pub const INTERNAL_SERVER_ERROR: u16 = 500;

/// Something failed elsewhere.
pub const BAD_GATEWAY: u16 = 502;

/// Thirty days in seconds: how long chapters, transcripts and pictures are kept.
pub const THIRTY_DAYS: u64 = 2_592_000;

/// A reply with a status and nothing else.
pub open spec fn bare(status: u16) -> ReplyModel {
    ReplyModel { status, content_type: None, content_length: None, body: Seq::empty() }
}

/// A reply with a status and a text.
pub open spec fn telling(status: u16, text: Seq<char>) -> ReplyModel {
    ReplyModel {
        status,
        content_type: None,
        content_length: None,
        body: vstd::utf8::encode_utf8(text),
    }
}

/// A reply with a payload of some type; for a request of the head only, with the
/// length of the payload in its place.
pub open spec fn holding(is_head: bool, content_type: Seq<char>, payload: Seq<u8>) -> ReplyModel {
    ReplyModel {
        status: OK,
        content_type: Some(content_type),
        content_length: if is_head {
            Some(payload.len() as usize)
        } else {
            None
        },
        body: if is_head {
            Seq::empty()
        } else {
            payload
        },
    }
}

/// Copies some bytes.
pub fn copy_of(bytes: &[u8]) -> (r: Vec<u8>)
    ensures
        r@ == bytes@,
{
    let mut r: Vec<u8> = Vec::new();
    let mut i: usize = 0;
    while i < bytes.len()
        invariant
            i <= bytes.len(),
            r@ == bytes@.take(i as int),
        decreases bytes.len() - i,
    {
        r.push(bytes[i]);
        assert(r@ =~= bytes@.take(i + 1));
        i += 1;
    }
    assert(r@ =~= bytes@);
    r
}

/// The bytes of a text.
pub fn bytes_of(text: &str) -> (r: Vec<u8>)
    ensures
        r@ == vstd::utf8::encode_utf8(text@),
{
    copy_of(text.as_bytes())
}

impl Reply {
    /// A reply with a status and nothing else.
    pub fn bare(status: u16) -> (r: Reply)
        ensures
            r.deep_view() == bare(status),
    {
        let r = Reply { status, content_type: None, content_length: None, body: Vec::new() };
        assert(r.body@ =~= Seq::<u8>::empty());
        r
    }

    /// A reply with a status and a text.
    pub fn telling(status: u16, text: &str) -> (r: Reply)
        ensures
            r.deep_view() == telling(status, text@),
    {
        Reply { status, content_type: None, content_length: None, body: bytes_of(text) }
    }

    /// A reply with a payload of some type; for a request of the head only, with the
    /// length of the payload in its place.
    pub fn holding(is_head: bool, content_type: &str, payload: Vec<u8>) -> (r: Reply)
        ensures
            r.deep_view() == holding(is_head, content_type@, payload@),
    {
        if is_head {
            let r = Reply {
                status: OK,
                content_type: Some(content_type.to_string()),
                content_length: Some(payload.len()),
                body: Vec::new(),
            };
            assert(r.body@ =~= Seq::<u8>::empty());
            r
        } else {
            Reply {
                status: OK,
                content_type: Some(content_type.to_string()),
                content_length: None,
                body: payload,
            }
        }
    }
}

/// A request of the head is told the length of the very body that a request of the
/// whole gets, with the same status and type.
pub proof fn heads_tell_the_length(content_type: Seq<char>, payload: Seq<u8>)
    requires
        payload.len() <= usize::MAX,
    ensures
        holding(true, content_type, payload).status == holding(false, content_type, payload).status,
        holding(true, content_type, payload).content_type == holding(
            false,
            content_type,
            payload,
        ).content_type,
        holding(true, content_type, payload).content_length matches Some(n) && n == holding(
            false,
            content_type,
            payload,
        ).body.len(),
        holding(true, content_type, payload).body.len() == 0,
{
}

/// A reply has the status, the text or the payload that it is made of, and nothing else;
/// with a payload its status is 200.
pub proof fn replies_hold_what_they_are_made_of(
    status: u16,
    text: &str,
    is_head: bool,
    content_type: &str,
    payload: Vec<u8>,
    empty: Reply,
    told: Reply,
    held: Reply,
)
    requires
        call_ensures(Reply::bare, (status,), empty),
        call_ensures(Reply::telling, (status, text), told),
        call_ensures(Reply::holding, (is_head, content_type, payload), held),
    ensures
        empty.status == status && empty.body@.len() == 0,
        empty.content_type is None && empty.content_length is None,
        told.status == status && told.body@ == vstd::utf8::encode_utf8(text@),
        told.content_type is None && told.content_length is None,
        held.status == 200,
        held.content_type is Some && held.content_type->0@ == content_type@,
        is_head ==> held.body@.len() == 0 && held.content_length == Some(payload@.len() as usize),
        !is_head ==> held.body@ == payload@ && held.content_length is None,
{
}

} // verus!

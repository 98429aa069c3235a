//! Payloads that are kept in a store between requests.
use crate::server::reply::{Reply, ReplyModel, INTERNAL_SERVER_ERROR};
use vstd::prelude::*;

verus! {

/// A request for a payload that the store may have.
#[derive(Debug, PartialEq, Eq)]
pub struct Ask {
    /// Whether the request is of the head only.
    pub is_head: bool,
    pub content_type: String,
    /// The key of the payload in the store.
    pub key: String,
    /// For how many seconds the store is to keep the payload.
    pub seconds: u64,
}

/// An [`Ask`] with its texts as sequences of characters.
pub struct AskModel {
    pub is_head: bool,
    pub content_type: Seq<char>,
    pub key: Seq<char>,
    pub seconds: u64,
}

impl DeepView for Ask {
    type V = AskModel;

    open spec fn deep_view(&self) -> AskModel {
        AskModel {
            is_head: self.is_head,
            content_type: self.content_type@,
            key: self.key@,
            seconds: self.seconds,
        }
    }
}

/// What the store said of a key.
#[derive(Debug, PartialEq, Eq)]
pub enum Lookup {
    /// The store cannot be reached.
    Unreachable,
    /// The store has nothing under the key.
    Missing,
    /// The store has a payload under the key.
    Found(Vec<u8>),
}

/// What the store is to keep.
#[derive(Debug, PartialEq, Eq)]
pub struct Stored {
    pub key: String,
    pub payload: Vec<u8>,
    /// For how many seconds.
    pub seconds: u64,
}

/// A [`Stored`] with its text and its payload as sequences.
pub struct StoredModel {
    pub key: Seq<char>,
    pub payload: Seq<u8>,
    pub seconds: u64,
}

impl DeepView for Stored {
    type V = StoredModel;

    open spec fn deep_view(&self) -> StoredModel {
        StoredModel { key: self.key@, payload: self.payload@, seconds: self.seconds }
    }
}

impl AskModel {
    /// The reply with a payload.
    pub open spec fn reply(self, payload: Seq<u8>) -> ReplyModel {
        crate::server::reply::holding(self.is_head, self.content_type, payload)
    }

    /// The reply that the store allows already; nothing if the payload has still to be
    /// made.
    pub open spec fn reply_from(self, lookup: Lookup) -> Option<ReplyModel> {
        match lookup {
            Lookup::Unreachable => Some(crate::server::reply::bare(INTERNAL_SERVER_ERROR)),
            Lookup::Missing => None,
            Lookup::Found(payload) => Some(self.reply(payload@)),
        }
    }

    /// What the store is to keep when the payload was made.
    pub open spec fn kept(self, payload: Seq<u8>) -> StoredModel {
        StoredModel { key: self.key, payload, seconds: self.seconds }
    }
}

impl Ask {
    /// The reply that the store allows already; nothing if the payload has still to be
    /// made.
    pub fn looked_up(&self, lookup: Lookup) -> (r: Option<Reply>)
        ensures
            r.deep_view() == self.deep_view().reply_from(lookup),
    {
        match lookup {
            Lookup::Unreachable => Some(Reply::bare(INTERNAL_SERVER_ERROR)),
            Lookup::Missing => None,
            Lookup::Found(payload) => Some(
                Reply::holding(self.is_head, self.content_type.as_str(), payload),
            ),
        }
    }

    /// The reply with a payload that was made, and what the store is to keep.
    pub fn made(self, payload: Vec<u8>) -> (r: (Reply, Stored))
        ensures
            r.0.deep_view() == self.deep_view().reply(payload@),
            r.1.deep_view() == self.deep_view().kept(payload@),
    {
        let copy = crate::server::reply::copy_of(payload.as_slice());
        (
            Reply::holding(self.is_head, self.content_type.as_str(), payload),
            Stored { key: self.key, payload: copy, seconds: self.seconds },
        )
    }
}

/// What was made is kept under the key at which it was looked for, and a later
/// request of the same kind that finds it there is answered as the first one was.
pub proof fn kept_payloads_are_served_alike(ask: AskModel, made: Seq<u8>, found: Vec<u8>)
    requires
        found@ == ask.kept(made).payload,
    ensures
        ask.kept(made).key == ask.key,
        ask.reply_from(Lookup::Found(found)) == Some(ask.reply(made)),
{
}

/// A store that has nothing, or cannot be reached, serves no payload.
pub proof fn nothing_is_served_from_nothing(ask: AskModel)
    ensures
        ask.reply_from(Lookup::Missing) is None,
        ask.reply_from(Lookup::Unreachable) matches Some(reply) && reply.body.len() == 0,
{
}

/// What is found under a key, and what was made, is served whole with status 200 and the
/// type that was asked for; what was made is kept whole, under the key and for the time
/// that were asked for. A store that cannot be reached is answered with 500.
pub proof fn payloads_are_served_and_kept_whole(
    ask: Ask,
    payload: Vec<u8>,
    found: Option<Reply>,
    missing: Option<Reply>,
    unreachable: Option<Reply>,
    made: (Reply, Stored),
)
    requires
        call_ensures(Ask::looked_up, (&ask, Lookup::Found(payload)), found),
        call_ensures(Ask::looked_up, (&ask, Lookup::Missing), missing),
        call_ensures(Ask::looked_up, (&ask, Lookup::Unreachable), unreachable),
        call_ensures(Ask::made, (ask, payload), made),
    ensures
        found is Some,
        found->0.status == 200 && made.0.status == 200,
        found->0.content_type is Some && found->0.content_type->0@ == ask.content_type@,
        made.0.content_type is Some && made.0.content_type->0@ == ask.content_type@,
        !ask.is_head ==> found->0.body@ == payload@ && made.0.body@ == payload@,
        ask.is_head ==> found->0.body@.len() == 0 && made.0.body@.len() == 0
            && found->0.content_length == Some(payload@.len() as usize) && made.0.content_length
            == Some(payload@.len() as usize),
        made.1.key@ == ask.key@,
        made.1.payload@ == payload@,
        made.1.seconds == ask.seconds,
        missing is None,
        unreachable is Some && unreachable->0.status == 500 && unreachable->0.body@.len() == 0,
{
}

} // verus!

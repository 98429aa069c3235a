//! Requests for a feed.
use crate::address::{Address, AddressModel};
use crate::configs::{Conf, ConfName};
use crate::server::reply::{Reply, BAD_REQUEST, CONFLICT, FORBIDDEN, OK};
use crate::server::store::{Ask, AskModel, Stored};
use crate::whitelist::BadPattern;
use vstd::prelude::*;

verus! {

/// The type of a feed.
pub const FEED_TYPE: &'static str = "application/xml";

/// What is told of an address that no provider may be asked for.
pub const NOT_LISTED: &'static str = "scheme and host not in whitelist";

/// The address that a request names, or the reply to one that needs no feed: a
/// request of the head, one without an address, and one whose address cannot be
/// read.
pub fn requested_address(is_head: bool, url: Option<&str>) -> (r: Result<Address, Reply>)
    ensures
        match r {
            Ok(address) => {
                &&& !is_head
                &&& url matches Some(text) && crate::address::url_parse(text@) == Ok::<
                    AddressModel,
                    url::ParseError,
                >(address.deep_view())
            },
            Err(reply) => if is_head {
                reply.deep_view() == crate::server::reply::bare(OK)
            } else {
                match url {
                    Some(text) => crate::address::url_parse(text@) matches Err(e)
                        && reply.deep_view() == crate::server::reply::telling(
                        BAD_REQUEST,
                        crate::address::url_error_text(e),
                    ),
                    None => reply.deep_view() == crate::server::reply::bare(BAD_REQUEST),
                }
            },
        },
{
    if is_head {
        return Err(Reply::bare(OK));
    }
    match url {
        Some(text) => match crate::address::parse_address(text) {
            Ok(address) => Ok(address),
            Err(bad) => Err(Reply::telling(BAD_REQUEST, bad.message.as_str())),
        },
        None => Err(Reply::bare(BAD_REQUEST)),
    }
}

/// The reply to a request for an address, by whether it is on the list: a refusal if
/// it is not.
pub fn refuse_unlisted(listed: bool) -> (r: Option<Reply>)
    ensures
        r.deep_view() == if listed {
            None
        } else {
            Some(crate::server::reply::telling(FORBIDDEN, NOT_LISTED@))
        },
{
    if listed {
        None
    } else {
        Some(Reply::telling(FORBIDDEN, NOT_LISTED))
    }
}

/// The reply to a request for an address that is on no list; nothing for one that is
/// on it.
pub fn refusal(patterns: &Vec<String>, address: &str) -> (r: Result<Option<Reply>, BadPattern>)
    ensures
        match r {
            Ok(None) => crate::whitelist::first_answer(patterns.deep_view(), address@, 0) == Ok::<
                bool,
                nat,
            >(true),
            Ok(Some(reply)) => {
                &&& crate::whitelist::first_answer(patterns.deep_view(), address@, 0) == Ok::<
                    bool,
                    nat,
                >(false)
                &&& reply.deep_view() == crate::server::reply::telling(FORBIDDEN, NOT_LISTED@)
            },
            Err(bad) => crate::whitelist::first_answer(patterns.deep_view(), address@, 0) == Err::<
                bool,
                nat,
            >(bad.index as nat),
        },
{
    match crate::whitelist::is_listed(patterns, address) {
        Ok(listed) => Ok(refuse_unlisted(listed)),
        Err(bad) => Err(bad),
    }
}

/// The request for a feed as the store sees it: the feed is kept under its address.
pub open spec fn feed_ask(address: Seq<char>, seconds: nat) -> AskModel {
    AskModel { is_head: false, content_type: FEED_TYPE@, key: address, seconds: seconds as u64 }
}

/// The request for a feed as the store sees it.
pub fn listed_ask<C: Conf>(conf: &C, address: &str) -> (r: Ask)
    ensures
        r.deep_view() == feed_ask(
            address@,
            crate::configs::number_or(conf.setting(ConfName::CacheTTL), u64::MAX as nat, 600),
        ),
{
    Ask {
        is_head: false,
        content_type: FEED_TYPE.to_string(),
        key: address.to_string(),
        seconds: crate::configs::cache_ttl(conf),
    }
}

/// Admits a request for an address that is on the list of its provider, and refuses
/// any other.
pub fn ask_for_feed<C: Conf>(conf: &C, patterns: &Vec<String>, address: &Address) -> (r: Result<
    Result<Ask, Reply>,
    BadPattern,
>)
    ensures
        match r {
            Ok(Ok(ask)) => {
                &&& crate::whitelist::first_answer(patterns.deep_view(), address.text@, 0) == Ok::<
                    bool,
                    nat,
                >(true)
                &&& ask.deep_view() == feed_ask(
                    address.text@,
                    crate::configs::number_or(
                        conf.setting(ConfName::CacheTTL),
                        u64::MAX as nat,
                        600,
                    ),
                )
            },
            Ok(Err(reply)) => {
                &&& crate::whitelist::first_answer(patterns.deep_view(), address.text@, 0) == Ok::<
                    bool,
                    nat,
                >(false)
                &&& reply.deep_view() == crate::server::reply::telling(FORBIDDEN, NOT_LISTED@)
            },
            Err(bad) => crate::whitelist::first_answer(patterns.deep_view(), address.text@, 0)
                == Err::<bool, nat>(bad.index as nat),
        },
{
    match refusal(patterns, address.text.as_str()) {
        Ok(None) => Ok(Ok(listed_ask(conf, address.text.as_str()))),
        Ok(Some(reply)) => Ok(Err(reply)),
        Err(bad) => Err(bad),
    }
}

/// The reply with a feed that was made, and what the store is to keep of it; to a
/// request for a feed that could not be made, a reply and nothing to keep.
pub fn answer(ask: Ask, made: Option<String>) -> (r: (Reply, Option<Stored>))
    ensures
        match made {
            Some(feed) => {
                &&& r.0.deep_view() == ask.deep_view().reply(vstd::utf8::encode_utf8(feed@))
                &&& r.1.deep_view() == Some(
                    ask.deep_view().kept(vstd::utf8::encode_utf8(feed@)),
                )
            },
            None => {
                &&& r.0.deep_view() == crate::server::reply::bare(CONFLICT)
                &&& r.1 is None
            },
        },
{
    match made {
        Some(feed) => {
            let (reply, stored) = ask.made(crate::server::reply::bytes_of(feed.as_str()));
            (reply, Some(stored))
        },
        None => (Reply::bare(CONFLICT), None),
    }
}

/// A request of the head is answered with 200, one without an address with 400, and so is
/// one whose address cannot be read; any other one is for the address that it names.
pub proof fn addresses_are_those_that_are_named(
    is_head: bool,
    text: &str,
    r: Result<Address, Reply>,
    none: Result<Address, Reply>,
)
    requires
        call_ensures(requested_address, (is_head, Some(text)), r),
        call_ensures(requested_address, (is_head, None::<&str>), none),
    ensures
        is_head ==> r is Err && r->Err_0.status == 200 && none is Err && none->Err_0.status == 200,
        !is_head ==> none is Err && none->Err_0.status == 400 && none->Err_0.body@.len() == 0,
        !is_head ==> match crate::address::url_parse(text@) {
            Ok(address) => r is Ok && r->Ok_0.deep_view() == address,
            Err(e) => r is Err && r->Err_0.status == 400 && r->Err_0.body@
                == vstd::utf8::encode_utf8(crate::address::url_error_text(e)),
        },
{
}

/// An address that is listed is looked for under itself, as XML, for as many seconds as are
/// set; one that is not is refused with 403.
pub proof fn listed_feeds_are_asked_for<C: Conf>(
    conf: &C,
    patterns: &Vec<String>,
    address: &Address,
    listed: Result<bool, BadPattern>,
    ttl: u64,
    r: Result<Result<Ask, Reply>, BadPattern>,
    refused: Result<Option<Reply>, BadPattern>,
    text: &str,
)
    requires
        call_ensures(crate::whitelist::is_listed, (patterns, text), listed),
        text@ == address.text@,
        call_ensures(crate::configs::cache_ttl::<C>, (conf,), ttl),
        call_ensures(ask_for_feed::<C>, (conf, patterns, address), r),
        call_ensures(refusal, (patterns, text), refused),
    ensures
        match listed {
            Ok(true) => {
                &&& r is Ok && r->Ok_0 is Ok
                &&& r->Ok_0->Ok_0.key@ == address.text@
                &&& r->Ok_0->Ok_0.content_type@ == "application/xml"@
                &&& r->Ok_0->Ok_0.seconds == ttl
                &&& !r->Ok_0->Ok_0.is_head
                &&& refused is Ok && refused->Ok_0 is None
            },
            Ok(false) => {
                &&& r is Ok && r->Ok_0 is Err && r->Ok_0->Err_0.status == 403
                &&& refused is Ok && refused->Ok_0 is Some && refused->Ok_0->0.status == 403
                &&& refused->Ok_0->0.body@ == vstd::utf8::encode_utf8(
                    "scheme and host not in whitelist"@,
                )
            },
            Err(bad) => {
                &&& r is Err && r->Err_0.index == bad.index
                &&& refused is Err && refused->Err_0.index == bad.index
            },
        },
{
}

/// A feed that was made is served whole and kept; one that was not is answered with 409,
/// and nothing is kept.
pub proof fn made_feeds_are_served(
    ask: Ask,
    feed: String,
    r: (Reply, Option<Stored>),
    none: (Reply, Option<Stored>),
)
    requires
        call_ensures(answer, (ask, Some(feed)), r),
        call_ensures(answer, (ask, None::<String>), none),
    ensures
        r.0.status == 200,
        !ask.is_head ==> r.0.body@ == vstd::utf8::encode_utf8(feed@),
        r.1 is Some && r.1->0.payload@ == vstd::utf8::encode_utf8(feed@) && r.1->0.key@ == ask.key@
            && r.1->0.seconds == ask.seconds,
        none.0.status == 409 && none.0.body@.len() == 0 && none.1 is None,
{
}

} // verus!

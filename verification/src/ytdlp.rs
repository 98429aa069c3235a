//! What yt-dlp prints.
use crate::address::{Address, AddressModel, BadAddress};
use crate::json::{Json, JsonTree};
use vstd::prelude::*;

verus! {

/// Where yt-dlp keeps its cache.
pub const YT_DLP_CACHE: &'static str = "/tmp/yt-dlp-cache";

/// The document that yt-dlp printed, if it succeeded and printed one.
pub open spec fn printed(success: bool, stdout: Seq<u8>) -> Option<JsonTree> {
    if success {
        crate::json::document_in(crate::text::trimmed(crate::text::lossy_text(stdout)))
    } else {
        None
    }
}

/// The document that yt-dlp printed, if it succeeded and printed one.
pub fn printed_document(success: bool, stdout: &[u8]) -> (r: Option<Json>)
    ensures
        crate::json::tree_of(r) == printed(success, stdout@),
{
    if success {
        let text = crate::text::trim(crate::text::utf8_lossy(stdout).as_str());
        crate::json::parse_json(text.as_str())
    } else {
        None
    }
}

/// Reads an address that yt-dlp printed.
pub fn parse_printed_address(printed: &str) -> (r: Result<Address, BadAddress>)
    ensures
        match r {
            Ok(address) => {
                &&& crate::address::url_parse(crate::text::trimmed(printed@)) == Ok::<
                    AddressModel,
                    url::ParseError,
                >(address.deep_view())
                &&& address.deep_view().segments == crate::address::segments_of(address.path@)
            },
            Err(bad) => crate::address::url_parse(crate::text::trimmed(printed@)) matches Err(e)
                && bad.message@ == crate::address::url_error_text(e),
        },
{
    crate::address::parse_address(crate::text::trim(printed).as_str())
}

/// A document that yt-dlp prints between blanks and line ends is read as it stands, but
/// only if yt-dlp succeeded.
pub proof fn printed_documents_are_read(
    success: bool,
    stdout: &[u8],
    before: Seq<char>,
    text: Seq<char>,
    after: Seq<char>,
    r: Option<Json>,
)
    requires
        call_ensures(printed_document, (success, stdout), r),
        crate::text::lossy_text(stdout@) == before + text + after,
        crate::text::is_blank(before),
        crate::text::is_blank(after),
        text.len() > 0,
        '!' <= text[0] <= '~',
        '!' <= text.last() <= '~',
    ensures
        !success ==> r is None,
        success ==> match crate::json::json_value(text) {
            Some(value) => r is Some && r->0.tree() == crate::json::json_tree(value),
            None => r is None,
        },
{
    crate::text::trimming_leaves_what_is_printed(before, text, after);
}

/// An address that yt-dlp prints between blanks and line ends is read as it stands.
pub proof fn printed_addresses_are_read(
    printed: &str,
    before: Seq<char>,
    text: Seq<char>,
    after: Seq<char>,
    r: Result<Address, BadAddress>,
)
    requires
        call_ensures(parse_printed_address, (printed,), r),
        printed@ == before + text + after,
        crate::text::is_blank(before),
        crate::text::is_blank(after),
        text.len() > 0,
        '!' <= text[0] <= '~',
        '!' <= text.last() <= '~',
    ensures
        r is Ok <==> crate::address::url_parse(text) is Ok,
        r matches Ok(address) ==> crate::address::url_parse(text) == Ok::<
            AddressModel,
            url::ParseError,
        >(address.deep_view()),
{
    crate::text::trimming_leaves_what_is_printed(before, text, after);
}

} // verus!

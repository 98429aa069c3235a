//! Requests for a square picture, which the `image` crate makes.
use crate::address::{Address, AddressModel};
use crate::server::reply::{
    Reply, ReplyModel, BAD_GATEWAY, BAD_REQUEST, FORBIDDEN, INTERNAL_SERVER_ERROR, OK, THIRTY_DAYS,
    UNSUPPORTED_MEDIA_TYPE,
};
use crate::server::store::{Ask, AskModel, Lookup};
use image::GenericImageView;
use sha2::Digest;
use vstd::prelude::*;

verus! {

/// A picture of the `image` crate, carried through.
#[verifier::external_type_specification]
#[verifier::external_body]
pub struct ExDynamicImage(image::DynamicImage);

/// The error of the `image` crate, carried through.
#[verifier::external_type_specification]
#[verifier::external_body]
pub struct ExImageError(image::ImageError);

/// The type of the picture.
pub const ART_TYPE: &'static str = "image/jpeg";

/// Whether a host is another one, or under it.
pub open spec fn is_at_or_under(host: Seq<char>, domain: Seq<char>) -> bool {
    ||| host == domain
    ||| crate::text::occurs_at("."@ + domain, host, host.len() - ("."@ + domain).len())
}

/// Whether pictures may be fetched from a host: one of those from which YouTube
/// serves pictures.
pub open spec fn is_art_host(host: Seq<char>) -> bool {
    ||| is_at_or_under(host, "ytimg.com"@)
    ||| is_at_or_under(host, "i.ytimg.com"@)
    ||| is_at_or_under(host, "img.youtube.com"@)
    ||| is_at_or_under(host, "googleusercontent.com"@)
    ||| is_at_or_under(host, "lh3.googleusercontent.com"@)
}

fn stands_at_or_under(host: &str, domain: &str) -> (r: bool)
    ensures
        r == is_at_or_under(host@, domain@),
{
    crate::text::same(host, domain) || crate::text::ends_with(
        host,
        crate::text::join(".", domain).as_str(),
    )
}

fn serves_art(host: &str) -> (r: bool)
    ensures
        r == is_art_host(host@),
{
    stands_at_or_under(host, "ytimg.com") || stands_at_or_under(host, "i.ytimg.com")
        || stands_at_or_under(host, "img.youtube.com") || stands_at_or_under(
        host,
        "googleusercontent.com",
    ) || stands_at_or_under(host, "lh3.googleusercontent.com")
}

/// Why no picture is fetched from an address: the status and the words of the
/// refusal.
pub open spec fn art_refusal(address: AddressModel) -> Option<(u16, Seq<char>)> {
    if address.scheme != "http"@ && address.scheme != "https"@ {
        Some((BAD_REQUEST, "invalid scheme"@))
    } else if !is_art_host(crate::text::or_empty(address.host)) {
        Some((FORBIDDEN, "host not allowed"@))
    } else {
        None
    }
}

/// The reply to a request for a picture at an address from which none is fetched.
pub fn refused_art(address: &Address) -> (r: Option<Reply>)
    ensures
        match (r, art_refusal(address.deep_view())) {
            (Some(reply), Some((status, words))) => reply.deep_view()
                == crate::server::reply::telling(status, words),
            (None, None) => true,
            _ => false,
        },
{
    if !crate::text::same(address.scheme.as_str(), "http") && !crate::text::same(
        address.scheme.as_str(),
        "https",
    ) {
        return Some(Reply::telling(BAD_REQUEST, "invalid scheme"));
    }
    if !serves_art(crate::text::text_or_empty(address.host.clone()).as_str()) {
        return Some(Reply::telling(FORBIDDEN, "host not allowed"));
    }
    None
}

/// The address of the picture that a request names, or the reply to a request whose
/// picture is not fetched.
pub fn requested_art(src: &str) -> (r: Result<Address, Reply>)
    ensures
        match r {
            Ok(address) => {
                &&& crate::address::url_parse(src@) == Ok::<AddressModel, url::ParseError>(
                    address.deep_view(),
                )
                &&& art_refusal(address.deep_view()) is None
            },
            Err(reply) => match crate::address::url_parse(src@) {
                Ok(address) => art_refusal(address) matches Some((status, words))
                    && reply.deep_view() == crate::server::reply::telling(status, words),
                Err(_) => reply.deep_view() == crate::server::reply::telling(
                    BAD_REQUEST,
                    "invalid src url"@,
                ),
            },
        },
{
    let address = match crate::address::parse_address(src) {
        Ok(address) => address,
        Err(_) => return Err(Reply::telling(BAD_REQUEST, "invalid src url")),
    };
    match refused_art(&address) {
        Some(reply) => Err(reply),
        None => Ok(address),
    }
}

/// The SHA-256 digest of some bytes.
pub uninterp spec fn sha256_digest(bytes: Seq<u8>) -> Seq<u8>;

/// Calls `sha2::Sha256::new`, `update` and `finalize`. The digest is 32 bytes long
/// and depends on the bytes alone.
#[verifier::external_body]
fn sha256(bytes: &[u8]) -> (r: Vec<u8>)
    ensures
        r@ == sha256_digest(bytes@),
        r@.len() == 32,
{
    let mut hasher = sha2::Sha256::new();
    hasher.update(bytes);
    hasher.finalize().to_vec()
}

/// Two hexadecimal digits for each byte.
pub open spec fn hex_text(bytes: Seq<u8>) -> Seq<char> {
    Seq::new(
        2 * bytes.len(),
        |i: int|
            crate::json::hex_digit(
                if i % 2 == 0 {
                    bytes[i / 2] as nat / 16
                } else {
                    bytes[i / 2] as nat % 16
                },
            ),
    )
}

/// Calls `hex::encode`: two lower-case hexadecimal digits for each byte, the higher
/// one first.
#[verifier::external_body]
fn hex_encode(bytes: &[u8]) -> (r: String)
    ensures
        r@ == hex_text(bytes@),
{
    hex::encode(bytes)
}

/// The request for a picture as the store sees it, given the digest of its address.
pub open spec fn digest_ask_of(is_head: bool, digest: Seq<u8>) -> AskModel {
    AskModel {
        is_head,
        content_type: ART_TYPE@,
        key: "img:square:"@ + hex_text(digest),
        seconds: THIRTY_DAYS,
    }
}

/// The request for a picture as the store sees it, given the digest of its address.
pub fn digest_ask(is_head: bool, digest: &[u8]) -> (r: Ask)
    ensures
        r.deep_view() == digest_ask_of(is_head, digest@),
{
    Ask {
        is_head,
        content_type: ART_TYPE.to_string(),
        key: crate::text::join("img:square:", hex_encode(digest).as_str()),
        seconds: THIRTY_DAYS,
    }
}

/// The request for the picture at an address as the store sees it.
pub fn art_ask(is_head: bool, address: &str) -> (r: Ask)
    ensures
        r.deep_view() == digest_ask_of(
            is_head,
            sha256_digest(vstd::utf8::encode_utf8(address@)),
        ),
{
    digest_ask(is_head, sha256(crate::server::reply::bytes_of(address).as_slice()).as_slice())
}

/// A request of the head of a picture is told the length of the very JPEG that a
/// request of the whole gets, found in the store or just made, and looks for it under
/// the same key.
pub proof fn picture_heads_tell_the_length(digest: Seq<u8>, art: Seq<u8>, found: Vec<u8>)
    requires
        art.len() <= usize::MAX,
        found@ == art,
    ensures
        digest_ask_of(true, digest).key == digest_ask_of(false, digest).key,
        digest_ask_of(true, digest).kept(art) == digest_ask_of(false, digest).kept(art),
        digest_ask_of(true, digest).reply(art) == (ReplyModel {
            status: OK,
            content_type: Some("image/jpeg"@),
            content_length: Some(digest_ask_of(false, digest).reply(art).body.len() as usize),
            body: Seq::empty(),
        }),
        digest_ask_of(false, digest).reply(art).body == art,
        digest_ask_of(true, digest).reply_from(Lookup::Found(found)) == Some(
            digest_ask_of(true, digest).reply(art),
        ),
{
}

/// Why a picture was not fetched, in the words of those who know.
#[derive(Debug, PartialEq, Eq)]
pub enum FetchError {
    /// There was no reply.
    Failed(String),
    /// The reply was no success; its status is given.
    Status(String),
    /// The body of the reply did not arrive.
    Body(String),
}

/// What is told of a picture that was not fetched.
pub open spec fn fetch_words(e: FetchError) -> Seq<char> {
    match e {
        FetchError::Failed(why) => "fetch failed: "@ + why@,
        FetchError::Status(status) => "fetch status "@ + status@,
        FetchError::Body(why) => "fetch body failed: "@ + why@,
    }
}

/// The reply to a request for a picture that was not fetched.
pub fn unfetched(e: &FetchError) -> (r: Reply)
    ensures
        r.deep_view() == crate::server::reply::telling(BAD_GATEWAY, fetch_words(*e)),
{
    let words = match e {
        FetchError::Failed(why) => crate::text::join("fetch failed: ", why.as_str()),
        FetchError::Status(status) => crate::text::join("fetch status ", status.as_str()),
        FetchError::Body(why) => crate::text::join("fetch body failed: ", why.as_str()),
    };
    Reply::telling(BAD_GATEWAY, words.as_str())
}

/// The width and the height of a picture.
pub uninterp spec fn image_size(img: image::DynamicImage) -> (u32, u32);

/// A rectangle cut out of a picture.
pub uninterp spec fn image_part(
    img: image::DynamicImage,
    x: u32,
    y: u32,
    width: u32,
    height: u32,
) -> image::DynamicImage;

/// Whether the `image` crate may scale a picture, without its transparency, to
/// another one of some width and height. Its arithmetic may round differently from
/// one machine to the next.
pub uninterp spec fn is_scaled(
    img: image::DynamicImage,
    width: u32,
    height: u32,
    scaled: image::DynamicImage,
) -> bool;

/// Whether the `image` crate may encode a picture as a JPEG of some quality in these
/// bytes.
pub uninterp spec fn is_jpeg(img: image::DynamicImage, quality: u8, bytes: Seq<u8>) -> bool;

/// Whether a picture can be a JPEG: it has pixels, and at most 65535 on a side.
pub open spec fn fits_jpeg(img: image::DynamicImage) -> bool {
    1 <= image_size(img).0 <= 65535 && 1 <= image_size(img).1 <= 65535
}

/// Whether the `image` crate may read this picture from some bytes, or none.
pub uninterp spec fn is_decoded(bytes: Seq<u8>, img: Option<image::DynamicImage>) -> bool;

/// The words in which the error of the `image` crate tells what is wrong.
pub uninterp spec fn image_error_text(e: image::ImageError) -> Seq<char>;

/// Calls `dimensions` of `image::DynamicImage`. They depend on the picture alone.
#[verifier::external_body]
fn dimensions(img: &image::DynamicImage) -> (r: (u32, u32))
    ensures
        r == image_size(*img),
{
    img.dimensions()
}

/// Calls `image::DynamicImage::crop_imm`. The part depends on the picture and the
/// rectangle alone, and is as large as the rectangle if that lies in the picture.
#[verifier::external_body]
fn crop(img: &image::DynamicImage, x: u32, y: u32, width: u32, height: u32) -> (r:
    image::DynamicImage)
    ensures
        r == image_part(*img, x, y, width, height),
        x + width <= image_size(*img).0 && y + height <= image_size(*img).1 ==> image_size(r) == (
            width,
            height,
        ),
{
    img.crop_imm(x, y, width, height)
}

/// Calls `image::DynamicImage::to_rgb8`, then `image::imageops::resize` with the
/// filter `Lanczos3`. The outcome has the width and the height that were asked for.
#[verifier::external_body]
fn scale(img: &image::DynamicImage, width: u32, height: u32) -> (r: image::DynamicImage)
    ensures
        is_scaled(*img, width, height, r),
        image_size(r) == (width, height),
{
    image::DynamicImage::ImageRgb8(image::imageops::resize(
        &img.to_rgb8(),
        width,
        height,
        image::imageops::FilterType::Lanczos3,
    ))
}

/// Calls `image::codecs::jpeg::JpegEncoder::new_with_quality` and `encode_image`,
/// writing to a vector of bytes, which does not fail. It succeeds for the pictures
/// that can be a JPEG. Which bytes come out is not said beyond that they are an
/// encoding of the picture in that quality.
#[verifier::external_body]
fn encode_jpeg(img: &image::DynamicImage, quality: u8) -> (r: Result<Vec<u8>, image::ImageError>)
    ensures
        r is Ok <==> fits_jpeg(*img),
        r is Ok ==> is_jpeg(*img, quality, r->Ok_0@),
{
    let mut out = Vec::new();
    image::codecs::jpeg::JpegEncoder::new_with_quality(&mut out, quality).encode_image(img)?;
    Ok(out)
}

/// Calls `image::load_from_memory`. Which picture comes out is not said beyond that
/// it is a decoding of the bytes.
#[verifier::external_body]
fn decode(bytes: &[u8]) -> (r: Result<image::DynamicImage, image::ImageError>)
    ensures
        is_decoded(bytes@, r.ok()),
{
    image::load_from_memory(bytes)
}

/// Calls `to_string` of `image::ImageError`. The words depend on the error alone.
#[verifier::external_body]
fn error_text(e: &image::ImageError) -> (r: String)
    ensures
        r@ == image_error_text(*e),
{
    e.to_string()
}

/// The square in the middle of a picture: its left edge, its upper edge and its
/// side, which is the shorter one of the picture's.
pub open spec fn middle_square(width: u32, height: u32) -> (u32, u32, u32) {
    let side = if width <= height {
        width
    } else {
        height
    };
    (((width - side) / 2) as u32, ((height - side) / 2) as u32, side)
}

/// Finds the square in the middle of a picture.
pub fn square_crop(width: u32, height: u32) -> (r: (u32, u32, u32))
    ensures
        r == middle_square(width, height),
{
    let side: u32 = if width <= height {
        width
    } else {
        height
    };
    ((width - side) / 2, (height - side) / 2, side)
}

/// The square in the middle lies in the picture, reaches from edge to edge in one
/// direction, and leaves as much on one side as on the other, but for one line of an
/// odd number.
pub proof fn squares_lie_in_the_middle(width: u32, height: u32)
    ensures
        ({
            let (x, y, side) = middle_square(width, height);
            &&& x + side <= width
            &&& y + side <= height
            &&& side == width || side == height
            &&& 0 <= (width - side - x) - x <= 1
            &&& 0 <= (height - side - y) - y <= 1
        }),
{
}

/// The side of a square picture.
pub const ART_SIDE: u32 = 3000;

/// The quality of a square picture.
pub const ART_QUALITY: u8 = 90;

/// The middle of a picture.
pub open spec fn middle_of(img: image::DynamicImage) -> image::DynamicImage {
    let (x, y, side) = middle_square(image_size(img).0, image_size(img).1);
    image_part(img, x, y, side, side)
}

/// Whether some bytes are the square picture that is made of another one: the middle
/// of the picture, scaled and encoded.
pub open spec fn is_square_art(img: image::DynamicImage, bytes: Seq<u8>) -> bool {
    exists|scaled: image::DynamicImage| #[trigger]
        is_scaled(middle_of(img), ART_SIDE, ART_SIDE, scaled) && image_size(scaled) == (
            ART_SIDE,
            ART_SIDE,
        ) && is_jpeg(scaled, ART_QUALITY, bytes)
}

/// Makes a square JPEG of a picture, which always succeeds.
pub fn render_square_jpeg(img: &image::DynamicImage) -> (r: Result<Vec<u8>, String>)
    ensures
        r matches Ok(bytes) && is_square_art(*img, bytes@),
{
    let (width, height) = dimensions(img);
    let (x, y, side) = square_crop(width, height);
    let scaled = scale(&crop(img, x, y, side, side), ART_SIDE, ART_SIDE);
    assert(is_scaled(middle_of(*img), ART_SIDE, ART_SIDE, scaled));
    match encode_jpeg(&scaled, ART_QUALITY) {
        Ok(bytes) => Ok(bytes),
        Err(e) => Err(error_text(&e)),
    }
}

/// Whether a reply is the one to bytes that are no picture.
pub open spec fn tells_undecoded(reply: ReplyModel) -> bool {
    exists|e: image::ImageError|
        reply == crate::server::reply::telling(
            UNSUPPORTED_MEDIA_TYPE,
            "decode failed: "@ + #[trigger] image_error_text(e),
        )
}

/// Makes a square JPEG of the bytes of a picture, or the reply to a request for one
/// whose bytes are no picture.
pub fn square_art(bytes: &[u8]) -> (r: Result<Vec<u8>, Reply>)
    ensures
        match r {
            Ok(art) => exists|img: image::DynamicImage| #[trigger]
                is_decoded(bytes@, Some(img)) && is_square_art(img, art@),
            Err(reply) => is_decoded(bytes@, None) && tells_undecoded(reply.deep_view()),
        },
{
    let img = match decode(bytes) {
        Ok(img) => img,
        Err(e) => {
            let words = crate::text::join("decode failed: ", error_text(&e).as_str());
            return Err(Reply::telling(UNSUPPORTED_MEDIA_TYPE, words.as_str()));
        },
    };
    match render_square_jpeg(&img) {
        Ok(art) => Ok(art),
        Err(e) => {
            let words = crate::text::join("render failed: ", e.as_str());
            Err(Reply::telling(INTERNAL_SERVER_ERROR, words.as_str()))
        },
    }
}

/// Whether a host is one from which YouTube serves pictures, or under one.
pub open spec fn serves_pictures(host: Seq<char>, before: Seq<char>) -> bool {
    &&& before.len() > 0 ==> before.last() == '.'
    &&& {
        ||| host == before + "ytimg.com"@
        ||| host == before + "img.youtube.com"@
        ||| host == before + "googleusercontent.com"@
    }
}

proof fn lemma_at_or_under(host: Seq<char>, before: Seq<char>, domain: Seq<char>)
    requires
        host == before + domain,
        before.len() > 0 ==> before.last() == '.',
    ensures
        is_at_or_under(host, domain),
{
    reveal_strlit(".");
    if before.len() == 0 {
        assert(host =~= domain);
    } else {
        let part = "."@ + domain;
        let at = host.len() - part.len();
        assert(host[before.len() - 1] == before.last());
        assert(host.subrange(at, at + part.len()) =~= part);
    }
}

proof fn lemma_what_is_before(host: Seq<char>, domain: Seq<char>) -> (before: Seq<char>)
    requires
        is_at_or_under(host, domain),
    ensures
        host == before + domain,
        before.len() > 0 ==> before.last() == '.',
{
    reveal_strlit(".");
    if host == domain {
        assert(host =~= Seq::<char>::empty() + domain);
        Seq::empty()
    } else {
        let part = "."@ + domain;
        let at = host.len() - part.len();
        let before = host.take(at + 1);
        let held = host.subrange(at, at + part.len());
        assert(held[0] == '.');
        assert(host[at] == held[0]);
        assert(held.skip(1) =~= domain);
        assert(host.skip(at + 1) =~= held.skip(1));
        assert(host =~= before + host.skip(at + 1));
        before
    }
}

/// Pictures are fetched by HTTP and HTTPS, and from the hosts from which YouTube serves
/// them and those under them. Another scheme is refused with 400, another host with 403.
pub proof fn pictures_are_fetched_from_youtube(address: &Address, host: Seq<char>, r: Option<Reply>)
    requires
        call_ensures(refused_art, (address,), r),
        address.host matches Some(told) ==> host == told@,
        address.host is None ==> host.len() == 0,
    ensures
        ({
            let web = address.scheme@ == "http"@ || address.scheme@ == "https"@;
            &&& !web ==> r is Some && r->0.status == 400 && r->0.body@ == vstd::utf8::encode_utf8(
                "invalid scheme"@,
            )
            &&& web && (exists|before: Seq<char>| serves_pictures(host, before)) ==> r is None
            &&& web && !(exists|before: Seq<char>| serves_pictures(host, before)) ==> r is Some
                && r->0.status == 403 && r->0.body@ == vstd::utf8::encode_utf8(
                "host not allowed"@,
            )
        }),
{
    assert(address.host is None ==> host =~= Seq::<char>::empty());
    assert(host == crate::text::or_empty(address.host.deep_view()));
    if exists|before: Seq<char>| serves_pictures(host, before) {
        let before = choose|before: Seq<char>| serves_pictures(host, before);
        if host == before + "ytimg.com"@ {
            lemma_at_or_under(host, before, "ytimg.com"@);
        } else if host == before + "img.youtube.com"@ {
            lemma_at_or_under(host, before, "img.youtube.com"@);
        } else {
            lemma_at_or_under(host, before, "googleusercontent.com"@);
        }
    }
    if is_art_host(host) {
        reveal_strlit(".");
        reveal_strlit("ytimg.com");
        reveal_strlit("i.ytimg.com");
        reveal_strlit("googleusercontent.com");
        reveal_strlit("lh3.googleusercontent.com");
        if is_at_or_under(host, "ytimg.com"@) {
            let before = lemma_what_is_before(host, "ytimg.com"@);
            assert(serves_pictures(host, before));
        } else if is_at_or_under(host, "i.ytimg.com"@) {
            let longer = lemma_what_is_before(host, "i.ytimg.com"@);
            let before = longer + seq!['i', '.'];
            assert("i.ytimg.com"@ =~= seq!['i', '.'] + "ytimg.com"@);
            assert(host =~= before + "ytimg.com"@);
            assert(serves_pictures(host, before));
        } else if is_at_or_under(host, "img.youtube.com"@) {
            let before = lemma_what_is_before(host, "img.youtube.com"@);
            assert(serves_pictures(host, before));
        } else if is_at_or_under(host, "googleusercontent.com"@) {
            let before = lemma_what_is_before(host, "googleusercontent.com"@);
            assert(serves_pictures(host, before));
        } else {
            let longer = lemma_what_is_before(host, "lh3.googleusercontent.com"@);
            let before = longer + seq!['l', 'h', '3', '.'];
            assert("lh3.googleusercontent.com"@ =~= seq!['l', 'h', '3', '.']
                + "googleusercontent.com"@);
            assert(host =~= before + "googleusercontent.com"@);
            assert(serves_pictures(host, before));
        }
    }
}

/// A request names the address that is read from it, unless a picture at that address is
/// refused; what cannot be read is answered with 400.
pub proof fn requested_pictures_are_those_that_are_named(
    src: &str,
    parsed: Result<Address, crate::address::BadAddress>,
    refused: Option<Reply>,
    r: Result<Address, Reply>,
)
    requires
        call_ensures(requested_art, (src,), r),
        call_ensures(crate::address::parse_address, (src,), parsed),
        parsed is Ok ==> call_ensures(refused_art, (&parsed->Ok_0,), refused),
    ensures
        parsed is Err ==> r is Err && r->Err_0.status == 400 && r->Err_0.body@
            == vstd::utf8::encode_utf8("invalid src url"@),
        parsed is Ok && refused is None ==> r is Ok && r->Ok_0.deep_view()
            == parsed->Ok_0.deep_view(),
        parsed is Ok && refused is Some ==> r is Err && r->Err_0.deep_view()
            == refused->0.deep_view(),
{
}

/// A picture is kept for thirty days as a JPEG, under a key that spells the digest of its
/// address: two hexadecimal digits for each byte, the higher one first.
pub proof fn pictures_are_kept_by_their_digests(is_head: bool, digest: &[u8], i: int, r: Ask)
    requires
        call_ensures(digest_ask, (is_head, digest), r),
        0 <= i < digest@.len(),
    ensures
        r.is_head == is_head,
        r.content_type@ == "image/jpeg"@,
        r.seconds == 30 * 24 * 60 * 60,
        r.key@.len() == 11 + 2 * digest@.len(),
        r.key@.take(11) == "img:square:"@,
        ({
            let value = |c: char|
                if c <= '9' {
                    c as int - 48
                } else {
                    c as int - 87
                };
            value(r.key@[11 + 2 * i]) * 16 + value(r.key@[12 + 2 * i]) == digest@[i]
        }),
{
    reveal_strlit("img:square:");
    assert(r.key@.take(11) =~= "img:square:"@);
    let hex = hex_text(digest@);
    let (high, low) = (digest@[i] as nat / 16, digest@[i] as nat % 16);
    crate::json::hexadecimal_digits_count(high);
    crate::json::hexadecimal_digits_count(low);
    assert((2 * i) / 2 == i && (2 * i) % 2 == 0);
    assert((2 * i + 1) / 2 == i && (2 * i + 1) % 2 == 1);
    assert(r.key@[11 + 2 * i] == hex[2 * i]);
    assert(r.key@[12 + 2 * i] == hex[2 * i + 1]);
}

/// The picture at an address is kept by the digest of that address.
pub proof fn pictures_are_kept_by_their_addresses(
    is_head: bool,
    address: &str,
    digest: &[u8],
    r: Ask,
    other: Ask,
)
    requires
        call_ensures(art_ask, (is_head, address), r),
        digest@ == sha256_digest(vstd::utf8::encode_utf8(address@)),
        call_ensures(digest_ask, (is_head, digest), other),
    ensures
        r.key@ == other.key@,
        r.is_head == is_head,
        r.content_type@ == other.content_type@,
        r.seconds == other.seconds,
{
}

/// A picture that was not fetched is answered with 502 and the reason.
pub proof fn unfetched_pictures_are_told(e: &FetchError, r: Reply)
    requires
        call_ensures(unfetched, (e,), r),
    ensures
        r.status == 502,
        e matches FetchError::Failed(why) ==> r.body@ == vstd::utf8::encode_utf8(
            "fetch failed: "@ + why@,
        ),
        e matches FetchError::Status(status) ==> r.body@ == vstd::utf8::encode_utf8(
            "fetch status "@ + status@,
        ),
        e matches FetchError::Body(why) ==> r.body@ == vstd::utf8::encode_utf8(
            "fetch body failed: "@ + why@,
        ),
{
}

/// The square that is cut out of a picture is as large as the picture allows, and lies in
/// its middle.
pub proof fn the_largest_square_is_cut_out(width: u32, height: u32, r: (u32, u32, u32))
    requires
        call_ensures(square_crop, (width, height), r),
    ensures
        r.2 <= width && r.2 <= height,
        r.2 == width || r.2 == height,
        0 <= width - r.2 - 2 * r.0 <= 1,
        0 <= height - r.2 - 2 * r.1 <= 1,
{
}

/// A square picture is a JPEG of quality 90 and 3000 pixels on a side, of the largest
/// square in the middle of the picture; bytes that are no picture are answered with 415.
pub proof fn square_pictures_show_the_middle(
    img: &image::DynamicImage,
    square: (u32, u32, u32),
    r: Result<Vec<u8>, String>,
    bytes: &[u8],
    art: Result<Vec<u8>, Reply>,
)
    requires
        call_ensures(square_crop, (image_size(*img).0, image_size(*img).1), square),
        call_ensures(render_square_jpeg, (img,), r),
        call_ensures(square_art, (bytes,), art),
    ensures
        r is Ok,
        exists|scaled: image::DynamicImage| #[trigger]
            is_scaled(
                image_part(*img, square.0, square.1, square.2, square.2),
                3000,
                3000,
                scaled,
            ) && is_jpeg(scaled, 90, r->Ok_0@) && image_size(scaled) == (3000u32, 3000u32),
        art is Err ==> art->Err_0.status == 415,
        art is Ok ==> exists|from: image::DynamicImage, scaled: image::DynamicImage|
            #![trigger is_decoded(bytes@, Some(from)), is_jpeg(scaled, 90, art->Ok_0@)]
            is_decoded(bytes@, Some(from)) && is_jpeg(scaled, 90, art->Ok_0@) && image_size(scaled)
                == (3000u32, 3000u32),
{
    if art is Ok {
        let from = choose|from: image::DynamicImage| #[trigger]
            is_decoded(bytes@, Some(from)) && is_square_art(from, art->Ok_0@);
        let scaled = choose|scaled: image::DynamicImage| #[trigger]
            is_scaled(middle_of(from), ART_SIDE, ART_SIDE, scaled) && image_size(scaled) == (
                ART_SIDE,
                ART_SIDE,
            ) && is_jpeg(scaled, ART_QUALITY, art->Ok_0@);
        assert(is_decoded(bytes@, Some(from)) && is_jpeg(scaled, 90, art->Ok_0@));
    }
}

} // verus!

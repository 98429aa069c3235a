//! Requests for a stretch of a transcoded stream.
use crate::configs::{AudioCodec, Conf, ConfName};
use crate::server::feeds::NOT_LISTED;
use crate::server::reply::{
    Reply, ReplyModel, BAD_REQUEST, FORBIDDEN, OK, RANGE_NOT_SATISFIABLE,
};
use crate::whitelist::BadPattern;
use vstd::prelude::*;

verus! {

/// Whether the bits of a stream, counted from its thousands of bits per second, fit
/// the machine's word.
pub open spec fn is_streamable(duration_secs: usize, bitrate: usize) -> bool {
    duration_secs * bitrate * 1000 <= usize::MAX
}

/// Tests whether the bits of a stream fit the machine's word.
pub fn can_stream(duration_secs: usize, bitrate: usize) -> (r: bool)
    ensures
        r == is_streamable(duration_secs, bitrate),
{
    match duration_secs.checked_mul(bitrate) {
        Some(thousands) => thousands.checked_mul(1000).is_some(),
        None => {
            assert(duration_secs * bitrate * 1000 > usize::MAX) by (nonlinear_arith)
                requires
                    duration_secs * bitrate > usize::MAX,
            ;
            false
        },
    }
}

/// How many bytes a stream has that lasts some seconds, at some thousands of bits
/// per second.
pub fn streamable_bytes(duration_secs: usize, bitrate: usize) -> (r: usize)
    requires
        is_streamable(duration_secs, bitrate),
    ensures
        r == duration_secs * bitrate * 1000 / 8,
{
    assert(duration_secs * bitrate <= duration_secs * bitrate * 1000) by (nonlinear_arith);
    (duration_secs * bitrate * 1000) / 8
}

/// What a request without a `Range` header asks for.
pub const WHOLE_STREAM: &'static str = "0-";

/// What a request asks for.
pub open spec fn asked(header: Option<&str>) -> Seq<char> {
    match header {
        Some(text) => text@,
        None => WHOLE_STREAM@,
    }
}

/// The first and the last byte of the stretch that a request asks for, or the reply
/// to one that asks for none that there is.
pub open spec fn stretch(header: Option<&str>, total: nat) -> Result<(nat, nat), ReplyModel> {
    match crate::range::bounds_of(asked(header), total) {
        Err(e) => Err(crate::server::reply::telling(BAD_REQUEST, e.message())),
        Ok((start, end)) => if start > end || start > total {
            Err(crate::server::reply::bare(RANGE_NOT_SATISFIABLE))
        } else {
            Ok((start, end))
        },
    }
}

/// Whether the bytes of the stretch that is asked for, and thirty times the bit
/// rate, fit the machine's word.
pub open spec fn is_plannable(header: Option<&str>, total: usize, bitrate: usize) -> bool {
    stretch(header, total as nat) matches Ok((start, end)) ==> end < usize::MAX && bitrate * 30
        <= usize::MAX
}

/// A stretch of a stream.
#[derive(Debug, PartialEq, Eq)]
pub struct StreamPlan {
    pub start: usize,
    pub end: usize,
    /// How many bytes it has.
    pub expected: usize,
    /// The largest bit rate, in thousands of bits per second.
    pub max_rate: usize,
    /// The stretch as a header tells it.
    pub content_range: String,
}

/// A stretch as a header tells it.
pub open spec fn range_text(start: nat, end: nat, total: nat) -> Seq<char> {
    "bytes "@ + crate::numerals::digits_of(start) + "-"@ + crate::numerals::digits_of(end) + "/"@
        + crate::numerals::digits_of(total)
}

fn write_range(start: usize, end: usize, total: usize) -> (r: String)
    ensures
        r@ == range_text(start as nat, end as nat, total as nat),
{
    let mut text = "bytes ".to_string();
    text.append(crate::numerals::write_number(start as u64).as_str());
    text.append("-");
    text.append(crate::numerals::write_number(end as u64).as_str());
    text.append("/");
    text.append(crate::numerals::write_number(total as u64).as_str());
    text
}

fn requested_stretch(header: Option<&str>, total: usize) -> (r: Result<(usize, usize), Reply>)
    ensures
        match r {
            Ok((start, end)) => stretch(header, total as nat) == Ok::<(nat, nat), ReplyModel>(
                (start as nat, end as nat),
            ),
            Err(reply) => stretch(header, total as nat) == Err::<(nat, nat), ReplyModel>(
                reply.deep_view(),
            ),
        },
{
    let text = match header {
        Some(text) => text,
        None => WHOLE_STREAM,
    };
    match crate::range::range_bounds(text, total) {
        Err(e) => Err(Reply::telling(BAD_REQUEST, e.message().as_str())),
        Ok((start, end)) => if start > end || start > total {
            Err(Reply::bare(RANGE_NOT_SATISFIABLE))
        } else {
            Ok((start, end))
        },
    }
}

/// Tests whether the stretch that is asked for can be planned.
pub fn can_plan(header: Option<&str>, total: usize, bitrate: usize) -> (r: bool)
    ensures
        r == is_plannable(header, total, bitrate),
{
    match requested_stretch(header, total) {
        Ok((_, end)) => end < usize::MAX && bitrate.checked_mul(30).is_some(),
        Err(_) => true,
    }
}

/// Plans the stretch that a request asks for, of a stream of some bytes, or replies
/// to one that asks for none that there is.
pub fn plan_stretch(header: Option<&str>, total: usize, bitrate: usize) -> (r: Result<
    StreamPlan,
    Reply,
>)
    requires
        is_plannable(header, total, bitrate),
    ensures
        match r {
            Ok(plan) => {
                &&& stretch(header, total as nat) == Ok::<(nat, nat), ReplyModel>(
                    (plan.start as nat, plan.end as nat),
                )
                &&& plan.expected == plan.end + 1 - plan.start
                &&& plan.max_rate == bitrate * 30
                &&& plan.content_range@ == range_text(
                    plan.start as nat,
                    plan.end as nat,
                    total as nat,
                )
            },
            Err(reply) => stretch(header, total as nat) == Err::<(nat, nat), ReplyModel>(
                reply.deep_view(),
            ),
        },
{
    match requested_stretch(header, total) {
        Ok((start, end)) => Ok(
            StreamPlan {
                start,
                end,
                expected: (end + 1) - start,
                max_rate: bitrate * 30,
                content_range: write_range(start, end, total),
            },
        ),
        Err(reply) => Err(reply),
    }
}

/// A request for a stretch of a transcoded stream.
#[derive(Debug, PartialEq, Eq)]
pub struct MediaRequest<'a> {
    /// The address of what is to be transcoded.
    pub address: &'a str,
    /// The `Range` header, if there is one.
    pub range: Option<&'a str>,
    /// How long the stream lasts.
    pub duration_secs: usize,
    /// In thousands of bits per second.
    pub bitrate: usize,
}

impl MediaRequest<'_> {
    /// How many bytes the whole stream has.
    pub open spec fn total(self) -> int {
        self.duration_secs * self.bitrate * 1000 / 8
    }

    /// Whether the bytes of the whole stream can be counted.
    pub open spec fn is_streamable(self) -> bool {
        is_streamable(self.duration_secs, self.bitrate)
    }

    /// Whether the stretch that is asked for can be planned.
    pub open spec fn is_plannable(self) -> bool {
        is_plannable(self.range, self.total() as usize, self.bitrate)
    }
}

/// Whether a plan is that of the stretch from a first to a last byte.
pub open spec fn is_plan(plan: StreamPlan, request: MediaRequest, start: nat, end: nat) -> bool {
    &&& plan.start == start
    &&& plan.end == end
    &&& plan.expected == end + 1 - start
    &&& plan.max_rate == request.bitrate * 30
    &&& plan.content_range@ == range_text(start, end, request.total() as nat)
}

/// Whether a request is refused or planned as it should be: refused where streams are
/// not transcoded, if the address is not listed, and if there is no such stretch.
pub open spec fn is_answer(
    transcodes: bool,
    listed: bool,
    request: MediaRequest,
    r: Result<StreamPlan, Reply>,
) -> bool {
    if !transcodes {
        r matches Err(reply) && reply.deep_view() == crate::server::reply::bare(FORBIDDEN)
    } else if !listed {
        r matches Err(reply) && reply.deep_view() == crate::server::reply::telling(
            FORBIDDEN,
            NOT_LISTED@,
        )
    } else {
        match stretch(request.range, request.total() as nat) {
            Err(why) => r matches Err(reply) && reply.deep_view() == why,
            Ok((start, end)) => r matches Ok(plan) && is_plan(plan, request, start, end),
        }
    }
}

/// Plans the answer to a request for a stream, or refuses it, given whether streams are
/// transcoded and whether the address is on the list of its provider.
pub fn plan_listed(transcodes: bool, listed: bool, request: &MediaRequest) -> (r: Result<
    StreamPlan,
    Reply,
>)
    requires
        request.is_streamable(),
        transcodes && listed ==> request.is_plannable(),
    ensures
        is_answer(transcodes, listed, *request, r),
{
    let total = streamable_bytes(request.duration_secs, request.bitrate);
    if !transcodes {
        return Err(Reply::bare(FORBIDDEN));
    }
    match crate::server::feeds::refuse_unlisted(listed) {
        Some(reply) => Err(reply),
        None => plan_stretch(request.range, total, request.bitrate),
    }
}

/// Whether a request is answered as it should be, by the settings and the list of its
/// provider. Where streams are not transcoded the list does not count.
pub open spec fn is_media_answer<C: Conf>(
    conf: &C,
    patterns: Seq<Seq<char>>,
    request: MediaRequest,
    r: Result<Result<StreamPlan, Reply>, BadPattern>,
) -> bool {
    let transcodes = crate::configs::transcodes(conf.setting(ConfName::TranscodingEnabled));
    match crate::whitelist::first_answer(patterns, request.address@, 0) {
        Err(index) if transcodes => r matches Err(bad) && bad.index == index,
        listed => r matches Ok(answer) && is_answer(
            transcodes,
            listed == Ok::<bool, nat>(true),
            request,
            answer,
        ),
    }
}

/// Whether a request for a stream is granted but for the stretch that it asks for.
pub open spec fn is_admitted<C: Conf>(
    conf: &C,
    patterns: Seq<Seq<char>>,
    request: MediaRequest,
) -> bool {
    &&& crate::configs::transcodes(conf.setting(ConfName::TranscodingEnabled))
    &&& crate::whitelist::first_answer(patterns, request.address@, 0) == Ok::<bool, nat>(true)
}

/// Plans the answer to a request for a stream, or refuses it.
pub fn plan_media<C: Conf>(conf: &C, patterns: &Vec<String>, request: &MediaRequest) -> (r: Result<
    Result<StreamPlan, Reply>,
    BadPattern,
>)
    requires
        request.is_streamable(),
        is_admitted(conf, patterns.deep_view(), *request) ==> request.is_plannable(),
    ensures
        is_media_answer(conf, patterns.deep_view(), *request, r),
{
    if !crate::configs::transcoding_enabled(conf) {
        return Ok(plan_listed(false, false, request));
    }
    match crate::whitelist::is_listed(patterns, request.address) {
        Ok(listed) => Ok(plan_listed(true, listed, request)),
        Err(bad) => Err(bad),
    }
}

/// Plans the answer to a request for a stream, or refuses it; nothing where the numbers
/// that it takes do not fit the machine's word.
pub fn answer_media<C: Conf>(conf: &C, patterns: &Vec<String>, request: &MediaRequest) -> (r: Option<
    Result<Result<StreamPlan, Reply>, BadPattern>,
>)
    ensures
        match r {
            Some(answer) => {
                &&& request.is_streamable()
                &&& is_admitted(conf, patterns.deep_view(), *request) ==> request.is_plannable()
                &&& is_media_answer(conf, patterns.deep_view(), *request, answer)
            },
            None => {
                ||| !request.is_streamable()
                ||| is_admitted(conf, patterns.deep_view(), *request) && !request.is_plannable()
            },
        },
{
    if !can_stream(request.duration_secs, request.bitrate) {
        return None;
    }
    let total = streamable_bytes(request.duration_secs, request.bitrate);
    if !can_plan(request.range, total, request.bitrate) && crate::configs::transcoding_enabled(conf)
        && matches!(crate::whitelist::is_listed(patterns, request.address), Ok(true)) {
        return None;
    }
    Some(plan_media(conf, patterns, request))
}

/// The head of the reply with a stretch of a stream.
#[derive(Debug, PartialEq, Eq)]
pub struct StreamHead {
    pub status: u16,
    pub accept_ranges: String,
    pub content_range: String,
    pub content_type: String,
}

/// Whether a head is that of the reply with a planned stretch.
pub open spec fn is_head_of(head: StreamHead, plan: StreamPlan, codec: AudioCodec) -> bool {
    &&& head.status == OK
    &&& head.accept_ranges@ == "bytes"@
    &&& head.content_range@ == plan.content_range@
    &&& head.content_type@ == codec.mime_type()
}

/// The head of the reply with a planned stretch.
pub fn stream_head(plan: &StreamPlan, codec: AudioCodec) -> (r: StreamHead)
    ensures
        is_head_of(r, *plan, codec),
{
    StreamHead {
        status: OK,
        accept_ranges: "bytes".to_string(),
        content_range: plan.content_range.clone(),
        content_type: codec.get_mime_type_str().to_string(),
    }
}

/// What is done about a planned stretch.
#[derive(Debug, PartialEq, Eq)]
pub enum StreamStep {
    /// The head is all that is sent; nothing is transcoded.
    Head(StreamHead),
    /// The stretch is transcoded and sent.
    Transcode,
}

/// Decides what is done about a planned stretch: a request of the head only starts no
/// transcoding.
pub fn stream_step(is_head: bool, plan: &StreamPlan, codec: AudioCodec) -> (r: StreamStep)
    ensures
        match r {
            StreamStep::Head(head) => is_head && is_head_of(head, *plan, codec),
            StreamStep::Transcode => !is_head,
        },
{
    if is_head {
        StreamStep::Head(stream_head(plan, codec))
    } else {
        StreamStep::Transcode
    }
}

/// A request of the head of a whole stream that has more than one byte is told how
/// many bytes it has, and that they can be had in stretches.
pub proof fn heads_tell_the_whole_stream(
    request: MediaRequest,
    answer: Result<StreamPlan, Reply>,
    head: StreamHead,
    codec: AudioCodec,
)
    requires
        request.range is None,
        request.total() > 1,
        is_answer(true, true, request, answer),
        answer is Ok ==> is_head_of(head, answer->Ok_0, codec),
    ensures
        answer is Ok,
        head.status == 200,
        head.accept_ranges@ == "bytes"@,
        head.content_range@ == range_text(
            0,
            (request.total() - 1) as nat,
            request.total() as nat,
        ),
        head.content_type@ == codec.mime_type(),
{
    whole_streams_by_default(request.total() as nat);
}

/// A request without a `Range` header asks for the whole stream, if that has more
/// than one byte.
pub proof fn whole_streams_by_default(total: nat)
    requires
        total > 1,
    ensures
        stretch(None, total) == Ok::<(nat, nat), ReplyModel>((0, (total - 1) as nat)),
{
    reveal_strlit("0-");
    let s = WHOLE_STREAM@;
    assert(s.len() == 2 && s[0] == '0' && s[1] == '-');
    assert(crate::numerals::digits_of(0) =~= seq!['0']);
    crate::numerals::written_numbers_are_read_back(0, usize::MAX as nat);
    assert(s.skip(0) =~= s);
    reveal_with_fuel(crate::pattern::digit_run, 3);
    assert(crate::pattern::digit_run(s, 20) == 1);
    assert(s.take(1) =~= seq!['0']);
    assert(s.skip(1).skip(1) =~= Seq::<char>::empty());
}

/// What a client that follows up where it stopped is sent fits what it has: a
/// stretch from a byte to the end has all the bytes but those before it.
pub proof fn stretches_to_the_end_fit(first: usize, total: usize, header: &str)
    requires
        first < total - 1,
        header@ == "bytes="@ + crate::numerals::digits_of(first as nat) + seq!['-'],
    ensures
        stretch(Some(header), total as nat) matches Ok((start, end)) && start == first && end + 1
            - start == total - first,
{
    crate::range::open_ranges_reach_the_end(first, total as nat);
}

/// The stretch that is planned is the one that the header is read to ask for, to the
/// byte. One that ends before it begins, or begins behind the stream, is refused with
/// 416, and a header that cannot be read with 400.
pub proof fn stretches_are_those_that_are_read(header: &str, total: nat)
    ensures
        match crate::range::bounds_of(header@, total) {
            Ok((first, last)) => if first <= last && first <= total {
                stretch(Some(header), total) == Ok::<(nat, nat), ReplyModel>((first, last))
            } else {
                stretch(Some(header), total) matches Err(reply) && reply.status == 416
                    && reply.body.len() == 0
            },
            Err(e) => stretch(Some(header), total) matches Err(reply) && reply.status == 400
                && reply.body == vstd::utf8::encode_utf8(e.message()),
        },
{
}

/// A request for the bytes from a first to a last one of a stream, `bytes=FIRST-LAST`,
/// is planned as exactly those: the plan begins and ends with them, counts them all, and
/// tells them, with the length of the stream, in its `Content-Range`.
pub proof fn closed_ranges_are_planned(
    request: MediaRequest,
    answer: Result<StreamPlan, Reply>,
    first: usize,
    last: usize,
)
    requires
        request.range matches Some(header) && header@ == "bytes="@ + crate::numerals::digits_of(
            first as nat,
        ) + seq!['-'] + crate::numerals::digits_of(last as nat),
        first < last < request.duration_secs * request.bitrate * 125,
        is_answer(true, true, request, answer),
    ensures
        answer matches Ok(plan) && {
            &&& plan.start == first
            &&& plan.end == last
            &&& plan.expected == last - first + 1
            &&& plan.max_rate == 30 * request.bitrate
            &&& plan.content_range@ == "bytes "@ + crate::numerals::digits_of(first as nat) + "-"@
                + crate::numerals::digits_of(last as nat) + "/"@ + crate::numerals::digits_of(
                (request.duration_secs * request.bitrate * 125) as nat,
            )
        },
{
    let bits = request.duration_secs * request.bitrate;
    assert(bits * 1000 / 8 == bits * 125) by (nonlinear_arith);
    crate::range::closed_ranges_are_understood(first, last, request.total() as nat);
}

/// The same of a plan for a stream of some bytes.
pub proof fn closed_stretches_are_kept(header: &str, first: usize, last: usize, total: nat)
    requires
        first < last < total,
        header@ == "bytes="@ + crate::numerals::digits_of(first as nat) + seq!['-']
            + crate::numerals::digits_of(last as nat),
    ensures
        stretch(Some(header), total) == Ok::<(nat, nat), ReplyModel>((first as nat, last as nat)),
{
    crate::range::closed_ranges_are_understood(first, last, total);
}

/// Where streams are not transcoded every request is refused, and so is one for an
/// address that is not listed; any other one is planned or told why it has no stretch.
pub proof fn streams_are_refused_or_planned(
    transcodes: bool,
    listed: bool,
    request: MediaRequest,
    answer: Result<StreamPlan, Reply>,
)
    requires
        is_answer(transcodes, listed, request, answer),
    ensures
        !transcodes ==> (answer matches Err(reply) && reply.status == 403 && reply.body.len() == 0),
        transcodes && !listed ==> (answer matches Err(reply) && reply.status == 403 && reply.body@
            == vstd::utf8::encode_utf8("scheme and host not in whitelist"@)),
        transcodes && listed ==> match answer {
            Ok(plan) => plan.start <= plan.end && plan.expected == plan.end - plan.start + 1
                && plan.max_rate == 30 * request.bitrate && plan.start <= request.duration_secs
                * request.bitrate * 125,
            Err(reply) => reply.status == 400 || reply.status == 416,
        },
{
    let bits = request.duration_secs * request.bitrate;
    assert(bits * 1000 / 8 == bits * 125) by (nonlinear_arith);
}

/// A request that is granted without a `Range` header is planned as the whole stream.
pub proof fn whole_streams_are_planned(request: MediaRequest, answer: Result<StreamPlan, Reply>)
    requires
        request.range is None,
        request.duration_secs * request.bitrate > 0,
        is_answer(true, true, request, answer),
    ensures
        answer matches Ok(plan) && plan.start == 0 && plan.expected == request.duration_secs
            * request.bitrate * 125 && plan.end + 1 == plan.expected,
{
    let bits = request.duration_secs * request.bitrate;
    assert(bits * 1000 / 8 == bits * 125) by (nonlinear_arith);
    whole_streams_by_default(request.total() as nat);
}

/// A stream has 125 bytes for each second and each thousand bits per second.
pub proof fn streams_are_counted_in_bytes(duration_secs: usize, bitrate: usize, n: usize, fits: bool)
    requires
        call_ensures(streamable_bytes, (duration_secs, bitrate), n),
        call_ensures(can_stream, (duration_secs, bitrate), fits),
    ensures
        n == duration_secs * bitrate * 125,
        fits <==> duration_secs * bitrate * 1000 <= usize::MAX,
{
    let bits = duration_secs * bitrate;
    assert(bits * 1000 / 8 == bits * 125) by (nonlinear_arith);
}

/// Where streams are transcoded and the address is listed, a request for the bytes from a
/// first to a last one of a stream is answered with the plan of exactly those.
pub proof fn requests_are_planned_to_the_byte<C: Conf>(
    conf: &C,
    patterns: &Vec<String>,
    request: &MediaRequest,
    enabled: bool,
    listed: Result<bool, BadPattern>,
    first: usize,
    last: usize,
    r: Option<Result<Result<StreamPlan, Reply>, BadPattern>>,
)
    requires
        call_ensures(crate::configs::transcoding_enabled::<C>, (conf,), enabled),
        call_ensures(crate::whitelist::is_listed, (patterns, request.address), listed),
        call_ensures(answer_media::<C>, (conf, patterns, request), r),
        request.range matches Some(header) && header@ == "bytes="@ + crate::numerals::digits_of(
            first as nat,
        ) + seq!['-'] + crate::numerals::digits_of(last as nat),
        first < last < request.duration_secs * request.bitrate * 125,
        request.duration_secs * request.bitrate * 1000 <= usize::MAX,
        request.bitrate * 30 <= usize::MAX,
    ensures
        enabled && listed == Ok::<bool, BadPattern>(true) ==> (r matches Some(Ok(Ok(plan))) && {
            &&& plan.start == first
            &&& plan.end == last
            &&& plan.expected == last - first + 1
            &&& plan.max_rate == 30 * request.bitrate
        }),
        enabled && listed == Ok::<bool, BadPattern>(false) ==> (r matches Some(Ok(Err(reply)))
            && reply.status == 403),
        enabled && listed is Err ==> (r matches Some(Err(bad)) && bad.index
            == listed->Err_0.index),
        !enabled ==> (r matches Some(Ok(Err(reply))) && reply.status == 403 && reply.body@.len()
            == 0),
{
    let bits = request.duration_secs * request.bitrate;
    assert(bits * 1000 / 8 == bits * 125) by (nonlinear_arith);
    crate::range::closed_ranges_are_understood(first, last, request.total() as nat);
}

/// A stretch is planned from the first to the last byte that the header is read to ask for.
pub proof fn plans_are_those_of_their_stretches(
    header: &str,
    first: usize,
    last: usize,
    total: usize,
    bitrate: usize,
    fits: bool,
    r: Result<StreamPlan, Reply>,
)
    requires
        call_ensures(plan_stretch, (Some(header), total, bitrate), r),
        call_ensures(can_plan, (Some(header), total, bitrate), fits),
        header@ == "bytes="@ + crate::numerals::digits_of(first as nat) + seq!['-']
            + crate::numerals::digits_of(last as nat),
        total > 0,
        first != last,
    ensures
        first < last && first <= total ==> (fits <==> last < usize::MAX && bitrate * 30
            <= usize::MAX),
        first < last && first <= total ==> r is Ok && r->Ok_0.start == first && r->Ok_0.end == last
            && r->Ok_0.expected == last - first + 1 && r->Ok_0.max_rate == 30 * bitrate,
        first > last || first > total ==> fits && r is Err && r->Err_0.status == 416,
{
    crate::range::closed_ranges_are_understood(first, last, total as nat);
}

/// The head of a reply tells the planned stretch with status 200 and the media type of the
/// codec; a request of the head only gets that and no stream, any other one the stream.
pub proof fn heads_tell_the_planned_stretch(
    plan: &StreamPlan,
    codec: AudioCodec,
    media: &'static str,
    head: StreamHead,
    step: StreamStep,
    other: StreamStep,
)
    requires
        call_ensures(AudioCodec::get_mime_type_str, (&codec,), media),
        call_ensures(stream_head, (plan, codec), head),
        call_ensures(stream_step, (true, plan, codec), step),
        call_ensures(stream_step, (false, plan, codec), other),
    ensures
        head.status == 200,
        head.accept_ranges@ == "bytes"@,
        head.content_range@ == plan.content_range@,
        head.content_type@ == media@,
        step matches StreamStep::Head(sent) && sent.status == 200 && sent.content_range@
            == plan.content_range@ && sent.content_type@ == media@ && sent.accept_ranges@
            == "bytes"@,
        other is Transcode,
{
}

/// A stream without bytes has no stretch, whatever is asked for.
pub proof fn empty_streams_have_no_stretch(
    header: Option<&str>,
    bitrate: usize,
    r: Result<StreamPlan, Reply>,
)
    requires
        call_ensures(plan_stretch, (header, 0usize, bitrate), r),
    ensures
        r is Err && r->Err_0.status == 400,
{
}

} // verus!

//! Requests for the transcript of a video.
use crate::server::reply::THIRTY_DAYS;
use crate::server::store::{Ask, AskModel};
use vstd::prelude::*;

verus! {

/// The type of a transcript.
pub const TRANSCRIPT_TYPE: &'static str = "text/vtt";

/// A transcript that says nothing.
pub const EMPTY_TRANSCRIPT: &'static str = "WEBVTT\n\n";

/// The request for the transcript of a video as the store sees it.
pub open spec fn transcript_ask_of(is_head: bool, video_id: Seq<char>) -> AskModel {
    AskModel {
        is_head,
        content_type: TRANSCRIPT_TYPE@,
        key: "yt:transcript:"@ + video_id + ":en"@,
        seconds: THIRTY_DAYS,
    }
}

/// The request for the transcript of a video as the store sees it.
pub fn transcript_ask(is_head: bool, video_id: &str) -> (r: Ask)
    ensures
        r.deep_view() == transcript_ask_of(is_head, video_id@),
{
    let mut key = crate::text::join("yt:transcript:", video_id);
    key.append(":en");
    Ask { is_head, content_type: TRANSCRIPT_TYPE.to_string(), key, seconds: THIRTY_DAYS }
}

/// What yt-dlp is asked, to print what is known of a video with its captions.
pub fn transcript_arguments(video_id: &str) -> (r: Vec<String>)
    ensures
        r.deep_view() == seq![
            "--cache-dir"@,
            crate::ytdlp::YT_DLP_CACHE@,
            "-j"@,
            "--no-playlist"@,
            crate::playlist::watch_address(video_id@),
        ],
{
    let r: Vec<String> = vec![
        "--cache-dir".to_string(),
        crate::ytdlp::YT_DLP_CACHE.to_string(),
        "-j".to_string(),
        "--no-playlist".to_string(),
        crate::text::join("https://www.youtube.com/watch?v=", video_id),
    ];
    assert(r.deep_view() =~= seq![
        "--cache-dir"@,
        crate::ytdlp::YT_DLP_CACHE@,
        "-j"@,
        "--no-playlist"@,
        crate::playlist::watch_address(video_id@),
    ]);
    r
}

/// The transcript to answer: the captions that were fetched, or one that says
/// nothing.
pub fn transcript_payload(fetched: Option<String>) -> (r: String)
    ensures
        r@ == match fetched {
            Some(captions) => captions@,
            None => EMPTY_TRANSCRIPT@,
        },
{
    match fetched {
        Some(captions) => captions,
        None => EMPTY_TRANSCRIPT.to_string(),
    }
}

/// The keys of chapters and of transcripts tell the videos apart, and the one from
/// the other.
pub proof fn keys_tell_payloads_apart(is_head: bool, a: Seq<char>, b: Seq<char>)
    ensures
        crate::server::chapters::chapters_ask_of(is_head, a).key
            == crate::server::chapters::chapters_ask_of(is_head, b).key ==> a == b,
        transcript_ask_of(is_head, a).key == transcript_ask_of(is_head, b).key ==> a == b,
        crate::server::chapters::chapters_ask_of(is_head, a).key != transcript_ask_of(
            is_head,
            b,
        ).key,
{
    reveal_strlit("yt:chapters:");
    reveal_strlit("yt:transcript:");
    reveal_strlit(":en");
    let (c, d) = ("yt:chapters:"@ + a, "yt:chapters:"@ + b);
    if c == d {
        assert(a =~= c.skip(12));
        assert(b =~= d.skip(12));
    }
    let (e, f) = ("yt:transcript:"@ + a + ":en"@, "yt:transcript:"@ + b + ":en"@);
    if e == f {
        assert(a =~= e.subrange(14, e.len() - 3));
        assert(b =~= f.subrange(14, f.len() - 3));
    }
    assert(c[3] == 'c');
    assert(f[3] == 't');
}

/// A transcript is kept for thirty days under a key that ends in its video and the
/// language, is of the type `text/vtt`, and is the captions that were fetched, as they
/// are, or else an empty list of them.
pub proof fn transcripts_are_the_captions(
    is_head: bool,
    video_id: &str,
    captions: String,
    ask: Ask,
    fetched: String,
    none: String,
    words: Vec<String>,
)
    requires
        call_ensures(transcript_ask, (is_head, video_id), ask),
        call_ensures(transcript_payload, (Some(captions),), fetched),
        call_ensures(transcript_payload, (None::<String>,), none),
        call_ensures(transcript_arguments, (video_id,), words),
    ensures
        ask.is_head == is_head,
        ask.content_type@ == "text/vtt"@,
        ask.key@ == "yt:transcript:"@ + video_id@ + ":en"@,
        ask.seconds == 30 * 24 * 60 * 60,
        fetched@ == captions@,
        none@ == "WEBVTT\n\n"@,
        words@.len() == 5,
        words@[2]@ == "-j"@ && words@[3]@ == "--no-playlist"@,
        words@[4]@ == "https://www.youtube.com/watch?v="@ + video_id@,
{
    let seen = words.deep_view();
    assert(seen.len() == words@.len());
    assert(seen[2] == words@[2]@ && seen[3] == words@[3]@ && seen[4] == words@[4]@);
}

} // verus!

use image::GenericImageView;
use vod2pod_rss::configs::{conf, AudioCodec, EnvConf, EnvValue, EnvVar};
use vod2pod_rss::json::parse_json;
use vod2pod_rss::address::parse_address;
use vod2pod_rss::server::art::{
    art_ask, digest_ask, refused_art, render_square_jpeg, requested_art, square_art, square_crop,
    unfetched, FetchError,
};
use vod2pod_rss::server::chapters::{
    chapter_starts, chapters_arguments, chapters_ask, chapters_payload, second_of, StartTime,
};
use vod2pod_rss::server::feeds::{
    answer, ask_for_feed, listed_ask, refusal, refuse_unlisted, requested_address,
};
use vod2pod_rss::server::media::{
    answer_media, can_plan, can_stream, plan_listed, plan_media, plan_stretch, stream_head,
    stream_step, streamable_bytes, MediaRequest, StreamHead, StreamStep,
};
use vod2pod_rss::server::reply::Reply;
use vod2pod_rss::server::store::{Ask, Lookup, Stored};
use vod2pod_rss::server::transcript::{transcript_arguments, transcript_ask, transcript_payload};
use vod2pod_rss::whitelist::BadPattern;
use vod2pod_rss::youtube::YoutubeProvider;

fn with(vars: &[(&str, &str)]) -> EnvConf {
    conf(
        vars.iter()
            .map(|(name, value)| EnvVar {
                name: name.to_string(),
                value: EnvValue::Text(value.to_string()),
            })
            .collect(),
    )
}

fn text(reply: &Reply) -> &str {
    std::str::from_utf8(&reply.body).unwrap()
}

#[test]
fn requests_for_feeds_are_checked() {
    assert_eq!(requested_address(true, None), Err(Reply::bare(200)));
    assert_eq!(requested_address(false, None), Err(Reply::bare(400)));
    let bad = requested_address(false, Some("nowhere")).unwrap_err();
    assert_eq!((bad.status, text(&bad)), (400, "relative URL without a base"));
    let good = requested_address(false, Some("https://www.youtube.com/@x")).unwrap();
    assert_eq!(good.text, "https://www.youtube.com/@x");
}

#[test]
fn addresses_that_are_not_listed_are_refused() {
    let patterns = YoutubeProvider.domain_whitelist_regexes();
    let other = requested_address(false, Some("https://example.com/")).unwrap();
    let refused = ask_for_feed(&with(&[]), &patterns, &other).unwrap().unwrap_err();
    assert_eq!((refused.status, text(&refused)), (403, "scheme and host not in whitelist"));
    assert_eq!(refusal(&patterns, "https://www.youtube.com/@x"), Ok(None));
    assert_eq!(refuse_unlisted(true), None);
    assert_eq!(refuse_unlisted(false), Some(refused));
    let faulty = vec!["(".to_string()];
    assert_eq!(ask_for_feed(&with(&[]), &faulty, &other), Err(BadPattern { index: 0 }));
}

fn feed_ask(vars: &[(&str, &str)]) -> Ask {
    let patterns = YoutubeProvider.domain_whitelist_regexes();
    let address = requested_address(false, Some("https://www.youtube.com/@x")).unwrap();
    ask_for_feed(&with(vars), &patterns, &address).unwrap().unwrap()
}

#[test]
fn feeds_are_kept_under_their_address() {
    let ask = feed_ask(&[("CACHE_TTL", "60")]);
    assert_eq!(ask.key, "https://www.youtube.com/@x");
    assert_eq!(ask.seconds, 60);
    let (reply, stored) = answer(ask, Some("<rss/>".to_string()));
    assert_eq!((reply.status, text(&reply)), (200, "<rss/>"));
    assert_eq!(reply.content_type.as_deref(), Some("application/xml"));
    assert_eq!(
        stored,
        Some(Stored {
            key: "https://www.youtube.com/@x".to_string(),
            payload: b"<rss/>".to_vec(),
            seconds: 60,
        })
    );
    let found = Lookup::Found(stored.unwrap().payload);
    assert_eq!(feed_ask(&[]).looked_up(found), Some(reply));
    assert_eq!(feed_ask(&[]).seconds, 600);
    assert_eq!(feed_ask(&[]), listed_ask(&with(&[]), "https://www.youtube.com/@x"));
}

#[test]
fn feeds_that_cannot_be_made_are_not_kept() {
    assert_eq!(answer(feed_ask(&[]), None), (Reply::bare(409), None));
}

#[test]
fn stores_answer_or_not() {
    let ask = feed_ask(&[]);
    assert_eq!(ask.looked_up(Lookup::Unreachable), Some(Reply::bare(500)));
    assert_eq!(ask.looked_up(Lookup::Missing), None);
}

#[test]
fn heads_tell_the_length_of_the_body() {
    let payload = "caf\u{e9}".as_bytes().to_vec();
    let (head, kept) = chapters_ask(true, "abc").made(payload.clone());
    let (whole, _) = chapters_ask(false, "abc").made(payload.clone());
    assert_eq!(head.content_length, Some(5));
    assert_eq!(head.body, Vec::<u8>::new());
    assert_eq!(whole.content_length, None);
    assert_eq!(whole.body.len(), 5);
    assert_eq!((head.status, &head.content_type), (whole.status, &whole.content_type));
    assert_eq!(kept.payload, payload);
}

#[test]
fn chapters_are_kept_for_thirty_days() {
    let ask = chapters_ask(false, "abc");
    assert_eq!(
        ask,
        Ask {
            is_head: false,
            content_type: "application/json+chapters".to_string(),
            key: "yt:chapters:abc".to_string(),
            seconds: 60 * 60 * 24 * 30,
        }
    );
    assert_eq!(
        chapters_arguments("abc"),
        ["-j", "--no-playlist", "https://www.youtube.com/watch?v=abc"]
    );
}

#[test]
fn chapters_start_at_their_times() {
    let info = parse_json(
        r#"{"chapters":[{"start_time":0,"title":"Intro"},{"start_time":12.5},{"start_time":"x","title":1},
            {"start_time":3725},{"start_time":9007199254740993},{"start_time":-1}]}"#,
    );
    let starts = chapter_starts(info.as_ref());
    assert_eq!(starts[0], StartTime::Exact(0));
    assert!(matches!(&starts[1], StartTime::Other(n) if n.as_f64() == Some(12.5)));
    assert_eq!(starts[2], StartTime::Exact(0));
    assert_eq!(starts[3], StartTime::Exact(3725));
    assert_eq!(starts[4], StartTime::Large(9007199254740993));
    assert!(matches!(&starts[5], StartTime::Other(n) if n.as_i64() == Some(-1)));
    assert_eq!(starts.len(), 6);
    let seconds: Vec<Option<u64>> = starts.iter().map(second_of).collect();
    assert_eq!(seconds, [Some(0), None, Some(0), Some(3725), None, None]);
}

#[test]
fn whole_starts_of_chapters_are_kept() {
    let info = parse_json(r#"{"chapters":[{"start_time":5},{"start_time":7.5},{}]}"#);
    assert_eq!(
        chapters_payload(info.as_ref(), &vec![9, 7, 9]),
        r#"{"chapters":[{"startTime":"00:00:05","title":""},{"startTime":"00:00:07","title":""},{"startTime":"00:00:00","title":""}],"version":"1.2.0"}"#
    );
}

#[test]
fn chapters_are_listed() {
    let info = parse_json(
        r#"{"chapters":[{"start_time":0,"title":"In\"tro"},{"start_time":3725.9}]}"#,
    );
    assert_eq!(
        chapters_payload(info.as_ref(), &vec![0, 3725]),
        r#"{"chapters":[{"startTime":"00:00:00","title":"In\"tro"},{"startTime":"01:02:05","title":""}],"version":"1.2.0"}"#
    );
    let empty = r#"{"chapters":[],"version":"1.2.0"}"#;
    assert_eq!(chapters_payload(None, &vec![]), empty);
    assert_eq!(chapters_payload(parse_json(r#"{"chapters":null}"#).as_ref(), &vec![]), empty);
    assert_eq!(chapter_starts(None), Vec::<StartTime>::new());
}

#[test]
fn transcripts_are_kept_for_thirty_days() {
    assert_eq!(
        transcript_ask(true, "abc"),
        Ask {
            is_head: true,
            content_type: "text/vtt".to_string(),
            key: "yt:transcript:abc:en".to_string(),
            seconds: 60 * 60 * 24 * 30,
        }
    );
    assert_eq!(
        transcript_arguments("abc"),
        ["--cache-dir", "/tmp/yt-dlp-cache", "-j", "--no-playlist", "https://www.youtube.com/watch?v=abc"]
    );
    assert_eq!(transcript_payload(Some("WEBVTT\n\nhi".to_string())), "WEBVTT\n\nhi");
    assert_eq!(transcript_payload(None), "WEBVTT\n\n");
}

#[test]
fn keys_tell_payloads_apart() {
    let keys = ["a", "b", "a:en"].map(|id| [chapters_ask(false, id).key, transcript_ask(false, id).key]);
    let all: Vec<&String> = keys.iter().flatten().collect();
    for (i, key) in all.iter().enumerate() {
        assert!(!all[..i].contains(key), "{key}");
    }
}

#[test]
fn pictures_come_from_known_hosts_only() {
    let refused = |src: &str| {
        let reply = requested_art(src).unwrap_err();
        (reply.status, text(&reply).to_string())
    };
    assert_eq!(refused("nowhere"), (400, "invalid src url".to_string()));
    assert_eq!(refused("ftp://i.ytimg.com/a.jpg"), (400, "invalid scheme".to_string()));
    assert_eq!(refused("https://example.com/a.jpg"), (403, "host not allowed".to_string()));
    assert_eq!(refused("https://notytimg.com/a.jpg"), (403, "host not allowed".to_string()));
    for host in ["ytimg.com", "i.ytimg.com", "i9.ytimg.com", "img.youtube.com", "yt3.googleusercontent.com"] {
        let src = format!("https://{host}/a.jpg");
        assert_eq!(requested_art(&src).unwrap().text, src);
    }
    assert_eq!(refused("https://www.youtube.com/a.jpg"), (403, "host not allowed".to_string()));
    assert_eq!(refused_art(&parse_address("https://i.ytimg.com/").unwrap()), None);
    let hostless = refused_art(&parse_address("http://[::1]/").unwrap()).unwrap();
    assert_eq!(hostless.status, 403);
}

#[test]
fn pictures_are_kept_under_a_digest() {
    let ask = art_ask(false, "abc");
    assert_eq!(
        ask.key,
        "img:square:ba7816bf8f01cfea414140de5dae2223b00361a396177a9cb410ff61f20015ad"
    );
    assert_eq!((ask.content_type.as_str(), ask.is_head, ask.seconds), ("image/jpeg", false, 2_592_000));
    assert_eq!(digest_ask(false, &[0x00, 0x9f, 0xa0]).key, "img:square:009fa0");
}

#[test]
fn heads_of_pictures_tell_their_length() {
    let mut png = std::io::Cursor::new(Vec::new());
    picture().write_to(&mut png, image::ImageFormat::Png).unwrap();
    let art = square_art(&png.into_inner()).unwrap();
    let told = Reply {
        status: 200,
        content_type: Some("image/jpeg".to_string()),
        content_length: Some(art.len()),
        body: Vec::new(),
    };
    assert!(!art.is_empty());
    let head = art_ask(true, "https://i.ytimg.com/a.jpg");
    let whole = art_ask(false, "https://i.ytimg.com/a.jpg");
    assert_eq!((head.is_head, head.key.as_str()), (true, whole.key.as_str()));
    assert_eq!(head.looked_up(Lookup::Found(art.clone())), Some(told));
    assert_eq!(whole.looked_up(Lookup::Found(art.clone())).unwrap().body, art);
    let (made, kept) = head.made(art.clone());
    assert_eq!((made.status, made.content_length, made.body.len()), (200, Some(art.len()), 0));
    assert_eq!(kept.payload, art);
}

#[test]
fn pictures_that_are_not_fetched_are_told() {
    let said = |e: FetchError| {
        let reply = unfetched(&e);
        (reply.status, text(&reply).to_string())
    };
    assert_eq!(said(FetchError::Failed("x".to_string())), (502, "fetch failed: x".to_string()));
    assert_eq!(
        said(FetchError::Status("404 Not Found".to_string())),
        (502, "fetch status 404 Not Found".to_string())
    );
    assert_eq!(said(FetchError::Body("y".to_string())), (502, "fetch body failed: y".to_string()));
}

#[test]
fn squares_are_cut_from_the_middle() {
    assert_eq!(square_crop(1280, 720), (280, 0, 720));
    assert_eq!(square_crop(100, 301), (0, 100, 100));
    assert_eq!(square_crop(7, 7), (0, 0, 7));
    assert_eq!(square_crop(0, 5), (0, 2, 0));
}

/// A picture that is blue but for a green square in its middle.
fn picture() -> image::DynamicImage {
    image::DynamicImage::ImageRgb8(image::RgbImage::from_fn(30, 10, |x, _| {
        if (10..20).contains(&x) {
            image::Rgb([0, 255, 0])
        } else {
            image::Rgb([0, 0, 255])
        }
    }))
}

#[test]
fn square_pictures_show_the_middle() {
    let jpeg = render_square_jpeg(&picture()).unwrap();
    let made = image::load_from_memory(&jpeg).unwrap();
    assert_eq!(made.dimensions(), (3000, 3000));
    for (x, y) in [(10, 10), (1500, 1500), (2990, 2990)] {
        let pixel = made.get_pixel(x, y);
        assert!(pixel[1] > 200 && pixel[2] < 60, "{pixel:?}");
    }
}

#[test]
fn bytes_become_square_pictures() {
    let mut png = std::io::Cursor::new(Vec::new());
    picture().write_to(&mut png, image::ImageFormat::Png).unwrap();
    let art = square_art(png.get_ref()).unwrap();
    assert_eq!(image::load_from_memory(&art).unwrap().dimensions(), (3000, 3000));
    let reply = square_art(b"no picture").unwrap_err();
    assert_eq!(reply.status, 415);
    assert!(text(&reply).starts_with("decode failed: "));
}

#[test]
fn streams_are_measured() {
    assert_eq!(streamable_bytes(60, 192), 1_440_000);
    assert_eq!(streamable_bytes(1, 1), 125);
    assert!(can_stream(0, usize::MAX));
    assert!(!can_stream(usize::MAX, 2));
    assert!(!can_stream(usize::MAX / 100, 1));
}

#[test]
fn stretches_are_planned() {
    let plan = plan_stretch(Some("bytes=100-199"), 1000, 192).unwrap();
    assert_eq!((plan.start, plan.end, plan.expected), (100, 199, 100));
    assert_eq!(plan.max_rate, 5760);
    assert_eq!(plan.content_range, "bytes 100-199/1000");
    let whole = plan_stretch(None, 1000, 192).unwrap();
    assert_eq!((whole.start, whole.end, whole.expected), (0, 999, 1000));
    let rest = plan_stretch(Some("bytes=400-"), 1000, 192).unwrap();
    assert_eq!((rest.start, rest.end, rest.expected), (400, 999, 600));
}

#[test]
fn stretches_that_are_not_there_are_refused() {
    assert_eq!(plan_stretch(Some("bytes=70-60"), 100, 1), Err(Reply::bare(416)));
    assert_eq!(plan_stretch(Some("bytes=101-200"), 100, 1), Err(Reply::bare(416)));
    let none = plan_stretch(Some(""), 100, 1).unwrap_err();
    assert_eq!((none.status, text(&none)), (400, "content range regex failed"));
    let empty = plan_stretch(None, 0, 1).unwrap_err();
    assert_eq!(
        (empty.status, text(&empty)),
        (400, "The requested Rage header with a length of 0 is invalid: 0-")
    );
    assert!(can_plan(Some("bytes=0-18446744073709551614"), 100, 1));
    assert!(!can_plan(Some("bytes=0-18446744073709551615"), 100, 1));
    assert!(!can_plan(None, 100, usize::MAX / 2));
}

#[test]
fn media_is_planned_or_refused() {
    let patterns = YoutubeProvider.domain_whitelist_regexes();
    let request = |address| MediaRequest { address, range: None, duration_secs: 10, bitrate: 192 };
    let good = request("https://www.youtube.com/watch?v=abc");
    let plan = plan_media(&with(&[]), &patterns, &good).unwrap().unwrap();
    assert_eq!(plan.expected, 240_000);
    assert_eq!(plan.content_range, "bytes 0-239999/240000");

    let off = with(&[("TRANSCODE", "false")]);
    assert_eq!(plan_media(&off, &patterns, &good), Ok(Err(Reply::bare(403))));
    let other = plan_media(&with(&[]), &patterns, &request("https://example.com/")).unwrap().unwrap_err();
    assert_eq!((other.status, text(&other)), (403, "scheme and host not in whitelist"));
    let faulty = vec!["(".to_string()];
    assert_eq!(plan_media(&with(&[]), &faulty, &good), Err(BadPattern { index: 0 }));
    let beyond = MediaRequest { range: Some("bytes=240001-240009"), ..good };
    assert_eq!(plan_media(&with(&[]), &patterns, &beyond), Ok(Err(Reply::bare(416))));
    assert_eq!(plan_listed(false, true, &good), Err(Reply::bare(403)));
    assert_eq!(plan_listed(true, false, &good), Err(other));
    assert_eq!(plan_listed(true, true, &good), Ok(plan));
}

#[test]
fn requests_are_refused_before_their_stretch_counts() {
    let patterns = YoutubeProvider.domain_whitelist_regexes();
    let request = |address, duration_secs, bitrate| MediaRequest {
        address,
        range: Some("bytes=0-18446744073709551615"),
        duration_secs,
        bitrate,
    };
    let listed = "https://www.youtube.com/watch?v=abc";
    let off = with(&[("TRANSCODE", "false")]);
    let huge = request(listed, 10, 192);
    assert_eq!(answer_media(&with(&[]), &patterns, &huge), None);
    assert_eq!(answer_media(&off, &patterns, &huge), Some(Ok(Err(Reply::bare(403)))));
    let other = request("https://example.com/", 10, 192);
    let refused = answer_media(&with(&[]), &patterns, &other).unwrap().unwrap().unwrap_err();
    assert_eq!((refused.status, text(&refused)), (403, "scheme and host not in whitelist"));
    assert_eq!(answer_media(&off, &patterns, &request(listed, 10, usize::MAX)), None);
    let whole = MediaRequest { range: None, ..huge };
    assert_eq!(
        answer_media(&with(&[]), &patterns, &whole),
        Some(plan_media(&with(&[]), &patterns, &whole))
    );
}

#[test]
fn heads_of_streams_tell_their_length() {
    let patterns = YoutubeProvider.domain_whitelist_regexes();
    let request = MediaRequest {
        address: "https://www.youtube.com/watch?v=abc",
        range: None,
        duration_secs: 100,
        bitrate: 128,
    };
    let plan = answer_media(&with(&[]), &patterns, &request).unwrap().unwrap().unwrap();
    let head = StreamHead {
        status: 200,
        accept_ranges: "bytes".to_string(),
        content_range: "bytes 0-1599999/1600000".to_string(),
        content_type: "audio/mpeg".to_string(),
    };
    assert_eq!(stream_step(true, &plan, AudioCodec::MP3), StreamStep::Head(stream_head(&plan, AudioCodec::MP3)));
    assert_eq!(stream_head(&plan, AudioCodec::MP3), head);
    assert_eq!(stream_step(false, &plan, AudioCodec::MP3), StreamStep::Transcode);
}

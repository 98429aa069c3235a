use vod2pod_rss::address::parse_address;
use vod2pod_rss::atom::{build_podcast, convert_atom_to_rss, read_atom, video_links};
use vod2pod_rss::configs::{conf, EnvConf, EnvValue, EnvVar};
use vod2pod_rss::duration::IsoDuration;
use vod2pod_rss::feed::feed_namespaces;
use vod2pod_rss::json::{parse_json, Json};
use vod2pod_rss::markup::can_parse;
use vod2pod_rss::playlist::{playlist_source, ItemSnippet, Playlist, PlaylistItem, ResourceId};
use vod2pod_rss::rumble::{describe_episode, RumbleProvider, NO_ITEMS};
use vod2pod_rss::videos::{collect_infos, Video};
use vod2pod_rss::whitelist::{is_listed, BadPattern};
use vod2pod_rss::youtube::{
    api_source, atom_source, channel_id, channel_url_arguments, duration_arguments,
    feed_route, feed_url_for_yt_atom, feed_url_for_yt_channel, feed_url_for_yt_playlist, first_returned,
    printed_channel_url, printed_stream_url, stream_url_arguments, stream_url_command, video_duration,
    write_source_feed, ApiSource, AtomSource, BadSource, FeedRoute, YoutubeProvider,
    BAD_EXTRA_ARGUMENTS,
};
use vod2pod_rss::ytdlp::{parse_printed_address, printed_document};

fn with(vars: &[(&str, &str)]) -> EnvConf {
    conf(
        vars.iter()
            .map(|(name, value)| EnvVar {
                name: name.to_string(),
                value: EnvValue::Text(value.to_string()),
            })
            .collect(),
    )
}

fn words(expected: &[&str]) -> Vec<String> {
    expected.iter().map(|w| w.to_string()).collect()
}

#[test]
fn youtube_addresses_are_served() {
    let patterns = YoutubeProvider.domain_whitelist_regexes();
    assert_eq!(patterns.len(), 5);
    for (address, served) in [
        ("https://www.youtube.com/@channel", true),
        ("https://www.youtube.com/c/channelname", true),
        ("https://youtube.com/x", true),
        ("youtube.com/x", true),
        ("https://youtu.be/x", true),
        ("https://m.youtu.be/x", true),
        ("https://r1.googlevideo.com/x", true),
        ("http://www.youtube.com/x", true),
        ("http://youtube.com/x", false),
        ("https://googlevideo.com/x", false),
        ("https://www.youtube.com", false),
        ("https://example.com/", false),
        ("\n.youtube.com/", false),
    ] {
        assert_eq!(YoutubeProvider.serves(address), served, "{address}");
        assert_eq!(is_listed(&patterns, address), Ok(served), "{address}");
    }
}

#[test]
fn rumble_channels_are_served() {
    let provider = RumbleProvider::default();
    let patterns = provider.domain_whitelist_regexes();
    assert_eq!(patterns, RumbleProvider::channel_url_regexes());
    for (address, served) in [
        ("https://rumble.com/c/channelname", true),
        ("http://www.rumble.com/user/a.b_c-d", true),
        ("https://rumble.com/c/x/y?z", true),
        ("https://rumble.com/c/x?page=2", true),
        ("https://rumble.com/c/", false),
        ("https://rumble.com/v123.html", false),
        ("https://rumble.com/c/x#f", false),
        ("https://rumble.com/c/x/\n", false),
        ("ftp://rumble.com/c/x", false),
    ] {
        assert_eq!(provider.serves(address), served, "{address}");
        assert_eq!(is_listed(&patterns, address), Ok(served), "{address}");
    }
}

#[test]
fn lists_stop_at_the_first_match_or_fault() {
    let list = words(&["^a", "(", "^b"]);
    assert_eq!(is_listed(&list, "abc"), Ok(true));
    assert_eq!(is_listed(&list, "bcd"), Err(BadPattern { index: 1 }));
    assert_eq!(is_listed(&vec![], "abc"), Ok(false));
}

fn api(address: &str) -> Result<ApiSource, BadSource> {
    api_source(&parse_address(address).unwrap())
}

#[test]
fn addresses_name_what_to_ask_the_interface_for() {
    assert_eq!(
        api("https://www.youtube.com/playlist?x=1&list=PL1"),
        Ok(ApiSource::Playlist("PL1".to_string()))
    );
    for path in ["channel/UC1", "user/u", "c/n", "@n"] {
        assert_eq!(api(&format!("https://www.youtube.com/{path}")), Ok(ApiSource::Channel));
    }
    let unnamed = api("https://www.youtube.com/playlist?x=1").unwrap_err();
    assert_eq!(
        unnamed.message(),
        "Failed to parse playlist ID from URL: https://www.youtube.com/playlist?x=1"
    );
    for path in ["watch?v=1", "feeds/videos.xml?channel_id=1", ""] {
        let e = api(&format!("https://www.youtube.com/{path}")).unwrap_err();
        assert_eq!(e.message(), "unsupported youtube url");
    }
}

fn atom(address: &str) -> Result<AtomSource, BadSource> {
    atom_source(&parse_address(address).unwrap())
}

#[test]
fn addresses_name_where_the_atom_feed_is() {
    assert_eq!(
        atom("https://www.youtube.com/playlist?list=P%201"),
        Ok(AtomSource::At(
            "https://www.youtube.com/feeds/videos.xml?playlist_id=P+1".to_string()
        ))
    );
    let itself = "https://www.youtube.com/feeds/videos.xml?channel_id=UC1";
    assert_eq!(atom(itself), Ok(AtomSource::At(itself.to_string())));
    let odd = "https://www.youtube.com/c/feeds/videos.xml";
    assert_eq!(atom(odd), Ok(AtomSource::At(odd.to_string())));
    for path in ["channel/UC1", "user/u", "c/n", "@n"] {
        assert_eq!(atom(&format!("https://www.youtube.com/{path}")), Ok(AtomSource::Channel));
    }
    assert_eq!(atom("https://www.youtube.com/watch?v=1"), Err(BadSource::Unsupported));
    assert_eq!(
        atom("https://www.youtube.com/playlist"),
        Err(BadSource::NoPlaylistId("https://www.youtube.com/playlist".to_string()))
    );
}

#[test]
fn feeds_come_from_the_interface_if_there_is_a_key() {
    let address = parse_address("https://www.youtube.com/@n").unwrap();
    let keyed = with(&[("YT_API_KEY", "SECRET-REDACTED")]);
    assert_eq!(
        feed_route(&keyed, &address),
        Ok(FeedRoute::Interface {
            api_key: "SECRET-REDACTED".to_string(),
            source: ApiSource::Channel,
        })
    );
    assert_eq!(feed_route(&with(&[]), &address), Ok(FeedRoute::Atom(AtomSource::Channel)));
    assert_eq!(
        feed_route(&with(&[("YT_API_KEY", "")]), &address),
        Ok(FeedRoute::Atom(AtomSource::Channel))
    );
    let feed = parse_address("https://www.youtube.com/feeds/videos.xml").unwrap();
    assert_eq!(feed_route(&keyed, &feed), Err(BadSource::Unsupported));
    assert_eq!(
        feed_route(&with(&[]), &feed),
        Ok(FeedRoute::Atom(AtomSource::At(feed.text.clone())))
    );
}

#[test]
fn found_channels_name_their_feed() {
    let found = parse_address("https://www.youtube.com/channel/UC1").unwrap();
    assert_eq!(channel_id(&found), Ok("UC1".to_string()));
    assert_eq!(
        feed_url_for_yt_channel(&found),
        Ok("https://www.youtube.com/feeds/videos.xml?channel_id=UC1".to_string())
    );
    let none = parse_address("mailto:x").unwrap();
    assert_eq!(feed_url_for_yt_channel(&none), Err(BadSource::NoChannelId));
    assert_eq!(BadSource::NoChannelId.message(), "could not parse channel id");
    assert_eq!(feed_url_for_yt_atom(&found), found.text);
    let list = parse_address("https://www.youtube.com/playlist?list=PL1").unwrap();
    assert_eq!(
        feed_url_for_yt_playlist(&list),
        Ok("https://www.youtube.com/feeds/videos.xml?playlist_id=PL1".to_string())
    );
}

#[test]
fn ytdlp_is_asked_about_channels_and_lengths() {
    assert_eq!(
        channel_url_arguments("A"),
        words(&[
            "--cache-dir", "/tmp/yt-dlp-cache", "--playlist-items", "0", "-O", "playlist:channel_url", "A"
        ])
    );
    assert_eq!(
        duration_arguments("A"),
        words(&["--cache-dir", "/tmp/yt-dlp-cache", "--get-duration", "A"])
    );
    assert_eq!(printed_channel_url(b" https://x \n"), "https://x");
    assert_eq!(printed_channel_url(&[0xff]), "");
    assert_eq!(parse_printed_address(" https://x \n").unwrap().text, "https://x/");
    assert_eq!(parse_printed_address(" ").unwrap_err().message, "relative URL without a base");
    assert_eq!(video_duration(Some(b"1:00\n")), Some(60));
    assert_eq!(video_duration(None), Some(0));
}

#[test]
fn ytdlp_is_asked_about_streams() {
    let base = ["-f", "bestaudio/best", "--get-url", "--cache-dir", "/tmp/yt-dlp-cache", "--no-playlist", "A"];
    assert_eq!(stream_url_arguments(&with(&[]), "A"), Ok(words(&base)));
    let extra = with(&[("YOUTUBE_YT_DLP_GET_URL_EXTRA_ARGS", r#"["--x","y z"]"#)]);
    let mut expected = words(&base);
    expected.extend(words(&["--x", "y z"]));
    assert_eq!(stream_url_arguments(&extra, "A"), Ok(expected));
    assert_eq!(stream_url_command("A", vec![]), words(&base));
    let bad = with(&[("YOUTUBE_YT_DLP_GET_URL_EXTRA_ARGS", "--x")]);
    assert_eq!(stream_url_arguments(&bad, "A"), Err(BAD_EXTRA_ARGUMENTS.to_string()));
    assert_eq!(
        BAD_EXTRA_ARGUMENTS,
        r#"failed to parse YOUTUBE_YT_DLP_GET_URL_EXTRA_ARGS allowed syntax is ["arg1", "arg2", "arg3", ...]"#
    );
}

#[test]
fn printed_streams_are_read() {
    assert_eq!(printed_stream_url(true, b"\n https://a \nhttps://b", b""), Ok("https://a".to_string()));
    assert_eq!(
        printed_stream_url(true, b" \n", b"x"),
        Err("yt-dlp returned empty stdout for --get-url".to_string())
    );
    assert_eq!(
        printed_stream_url(false, b"https://a", b" ERROR: gone \n"),
        Err("yt-dlp --get-url failed: ERROR: gone".to_string())
    );
}

#[test]
fn the_first_of_what_was_returned_is_taken() {
    assert_eq!(first_returned(Some(vec![1, 2]), "channel", "UC1"), Ok(1));
    assert_eq!(
        first_returned::<u8>(Some(vec![]), "channel", "UC1"),
        Err("youtube returned no channel with id \"UC1\"".to_string())
    );
    assert_eq!(
        first_returned::<u8>(None, "playlist", "a\"b"),
        Err("youtube returned no playlist with id \"a\\\"b\"".to_string())
    );
}

#[test]
fn sources_become_feeds() {
    let item = |id: &str| PlaylistItem {
        snippet: Some(ItemSnippet {
            title: Some(id.to_string()),
            description: None,
            published_at: None,
            channel_title: None,
            thumbnails: None,
            resource_id: Some(ResourceId { video_id: Some(id.to_string()) }),
        }),
    };
    let video = |id: &str, second| Video {
        id: Some(id.to_string()),
        duration: Some(IsoDuration { hour: 0, minute: 0, second }),
        category_id: None,
    };
    let text = |vars: &[(&str, &str)]| {
        let source = playlist_source(Playlist { id: Some("PL1".to_string()), snippet: None }).unwrap();
        let infos = collect_infos(vec![video("short", 60), video("long", 61)]);
        write_source_feed(&with(vars), source, vec![item("short"), item("long")], &infos)
    };
    let titles = |text: String| -> Vec<String> {
        let channel = rss::Channel::read_from(text.as_bytes()).unwrap();
        channel.items.into_iter().map(|i| i.title.unwrap()).collect()
    };
    assert_eq!(titles(text(&[])), ["short", "long"]);
    assert_eq!(titles(text(&[("YOUTUBE_EXCLUDE_SHORTS", "true")])), ["long"]);
    assert_eq!(titles(text(&[("YOUTUBE_MIN_SECONDS", "62")])), Vec::<String>::new());
}

const ATOM: &str = r#"<?xml version="1.0" encoding="UTF-8"?>
<feed xmlns:yt="http://www.youtube.com/xml/schemas/2015" xmlns:media="http://search.yahoo.com/mrss/"
 xmlns="http://www.w3.org/2005/Atom">
 <link rel="self" href="https://www.youtube.com/feeds/videos.xml?channel_id=UC1"/>
 <id>yt:channel:1</id>
 <title>Channel</title>
 <icon>https://example.com/icon.png</icon>
 <entry>
  <id>yt:video:v1</id>
  <title>One</title>
  <link rel="alternate" href="https://www.youtube.com/watch?v=v1"/>
  <media:group>
   <media:title>One</media:title>
   <media:thumbnail url="https://i.ytimg.com/vi/v1/hq.jpg" width="480" height="360"/>
   <media:description>About one</media:description>
  </media:group>
 </entry>
 <entry>
  <title>Two</title>
 </entry>
</feed>"#;

#[test]
fn atom_feeds_are_read() {
    let feed = read_atom(ATOM.as_bytes()).unwrap();
    assert_eq!(feed.head.title.as_deref(), Some("Channel"));
    assert_eq!(feed.head.icon.as_deref(), Some("https://example.com/icon.png"));
    assert_eq!(feed.head.links, ["https://www.youtube.com/feeds/videos.xml?channel_id=UC1"]);
    assert_eq!(feed.entries.len(), 2);
    assert_eq!(feed.entries[0].id, "yt:video:v1");
    assert_eq!(feed.entries[0].media[0].description.as_deref(), Some("About one"));
    assert_eq!(feed.entries[0].media[0].thumbnails, ["https://i.ytimg.com/vi/v1/hq.jpg"]);
    assert_eq!(video_links(&feed), ["https://www.youtube.com/watch?v=v1"]);
}

#[test]
fn feeds_are_read_alike_but_for_made_up_identifiers() {
    let first = read_atom(ATOM.as_bytes()).unwrap();
    let mut second = read_atom(ATOM.as_bytes()).unwrap();
    assert_eq!(first.entries[0], second.entries[0]);
    assert!(first.entries[1].links.is_empty());
    assert_ne!(first.entries[1].id, second.entries[1].id);
    second.entries[1].id = first.entries[1].id.clone();
    assert_eq!(first, second);
}

#[test]
fn addresses_of_videos_are_in_normal_form() {
    let long = "aB-_9".repeat(100);
    for id in ["", "dQw4w9WgXcQ", "-_-_-", "0", long.as_str()] {
        let text = format!("https://www.youtube.com/watch?v={id}");
        assert_eq!(parse_address(&text).unwrap().text, text);
    }
}

#[test]
fn what_is_no_feed_is_told_in_words() {
    assert_eq!(
        read_atom(b"nothing"),
        Err("failed to parse atom feed: unable to parse feed: no root element".to_string())
    );
}

#[test]
fn atom_feeds_become_podcasts() {
    let feed = read_atom(ATOM.as_bytes()).unwrap();
    let link = "https://www.youtube.com/watch?v=v1".to_string();
    let durations = vec![(link.clone(), Some(1)), (link.clone(), Some(3725)), ("x".to_string(), None)];
    let made = build_podcast(feed, &durations);
    assert_eq!(made.head.title, "Channel");
    assert_eq!(made.head.description, "");
    assert_eq!(made.head.link, "https://www.youtube.com/feeds/videos.xml?channel_id=UC1");
    assert_eq!(made.head.image.as_deref(), Some("https://example.com/icon.png"));
    assert_eq!(made.items.len(), 2);
    let one = &made.items[0];
    assert_eq!(one.title.as_deref(), Some("One"));
    assert_eq!(one.link, Some(link));
    assert_eq!(one.description.as_deref(), Some("About one"));
    assert_eq!(one.guid.as_ref().unwrap().value, "yt:video:v1");
    assert!(one.guid.as_ref().unwrap().permalink);
    let itunes = one.itunes.as_ref().unwrap();
    assert_eq!(itunes.duration.as_deref(), Some("01:02:05"));
    assert_eq!(itunes.image.as_deref(), Some("https://i.ytimg.com/vi/v1/hq.jpg"));
    let two = &made.items[1];
    assert_eq!((&two.link, &two.description), (&None, &None));
    assert_eq!(two.itunes.as_ref().unwrap().duration, None);
}

#[test]
fn atom_podcasts_are_written() {
    let text = convert_atom_to_rss(read_atom(ATOM.as_bytes()).unwrap(), &vec![]);
    let channel = rss::Channel::read_from(text.as_bytes()).unwrap();
    assert_eq!(channel.items[0].title.as_deref(), Some("One"));
    let names = [
        ("itunes", "http://www.itunes.com/dtds/podcast-1.0.dtd"),
        ("podcast", "https://podcastindex.org/namespace/1.0"),
    ];
    for (prefix, name) in names {
        assert!(text.contains(&format!("xmlns:{prefix}=\"{name}\"")), "{prefix}");
    }
    assert_eq!(feed_namespaces(), names.map(|(prefix, name)| (prefix.to_string(), name.to_string())));
}

/// A feed whose one entry holds some markup under the media namespace.
fn feed_with(markup: &str) -> String {
    format!(
        r#"<feed xmlns:media="http://search.yahoo.com/mrss/"><entry><id>i</id>{markup}</entry></feed>"#
    )
}

#[test]
fn times_that_can_be_counted_are_read() {
    let good = [
        "",
        r#"<media:thumbnail url="u" time="12:05:35.123"/>"#,
        r#"<media:thumbnail url="u" time = '999999999999999'/>"#,
        r#"<media:thumbnail url="u" time=''/>"#,
        r#"<media:text start="00:00:01" end="99999999:59:59">t</media:text>"#,
        r#"<media:thumbnail url="u" datetime="99999999999999999999"/>"#,
        r#"<media:thumbnail url="u" time=99999999999999999999 />"#,
        "<title>99999999999999999999 and \u{ff15}, at the end start=9 time: 99999999999999999999</title>",
        "<media:title>\u{0665}</media:title>",
    ];
    for markup in good {
        let text = feed_with(markup);
        assert!(can_parse(text.as_bytes()), "{markup}");
        assert_eq!(read_atom(text.as_bytes()).unwrap().entries[0].id, "i", "{markup}");
    }
    assert!(can_parse(ATOM.as_bytes()));
    assert!(can_parse(b""));
}

#[test]
fn times_that_cannot_be_counted_are_told() {
    let bad = [
        r#"<media:thumbnail url="u" time="99999999999999999999"/>"#,
        "<media:thumbnail url='u' time='\u{0665}'/>",
        "<media:thumbnail url='u'time\n=\t'1.\u{ff15}'/>",
        r#"<media:thumbnail url="u" time="&#1637;"/>"#,
        r#"<media:text start="9999999999999999:00:00">t</media:text>"#,
        r#"<media:text type="plain" end="99999999999999999999">t</media:text>"#,
        r#"<media:thumbnail url="u" time="99999999999999999999"#,
    ];
    for markup in bad {
        assert!(!can_parse(feed_with(markup).as_bytes()), "{markup}");
    }
    let podcast = r#"<rss version="2.0" xmlns:itunes="http://www.itunes.com/dtds/podcast-1.0.dtd"/>"#;
    assert!(!can_parse(podcast.as_bytes()));
    assert!(!can_parse("<\0f\0e\0e\0d\0".as_bytes()));
    assert!(!can_parse(b"<feed>\x1b(B</feed>"));
}

#[test]
fn elements_may_be_nested_so_deep() {
    let nested = |depth: usize| ["<feed>", &"<a>".repeat(depth - 1)].concat();
    assert!(can_parse(nested(65535).as_bytes()));
    assert!(read_atom(nested(65535).as_bytes()).is_err());
    assert!(!can_parse(nested(65536).as_bytes()));
}

#[test]
fn ytdlp_is_asked_about_rumble() {
    let none = with(&[]);
    assert_eq!(
        RumbleProvider::list_arguments(&none, "A", 25),
        words(&["--no-warnings", "--flat-playlist", "--dump-json", "--playlist-end", "25", "A"])
    );
    assert_eq!(
        RumbleProvider::get_url_arguments(&none, "A"),
        words(&["-g", "--no-warnings", "-f", "bestaudio/best", "--no-playlist", "A"])
    );
    let extra = with(&[
        ("RUMBLE_YT_DLP_LIST_EXTRA_ARGS", r#"["--l"]"#),
        ("RUMBLE_YT_DLP_GET_URL_EXTRA_ARGS", r#"["--g"]"#),
    ]);
    assert_eq!(RumbleProvider::list_extra_args(&extra), words(&["--l"]));
    assert_eq!(RumbleProvider::get_url_extra_args(&extra), words(&["--g"]));
    assert_eq!(
        RumbleProvider::list_arguments(&extra, "A", 1),
        words(&["--no-warnings", "--flat-playlist", "--dump-json", "--playlist-end", "1", "--l", "A"])
    );
    assert_eq!(
        RumbleProvider::get_url_arguments(&extra, "A"),
        words(&["-g", "--no-warnings", "-f", "bestaudio/best", "--no-playlist", "--g", "A"])
    );
    assert_eq!(
        RumbleProvider::list_command("A", 1, words(&["--l"])),
        RumbleProvider::list_arguments(&extra, "A", 1)
    );
    assert_eq!(
        RumbleProvider::get_url_command("A", words(&["--g"])),
        RumbleProvider::get_url_arguments(&extra, "A")
    );
    let bad = with(&[("RUMBLE_YT_DLP_LIST_EXTRA_ARGS", "--l")]);
    assert_eq!(RumbleProvider::list_extra_args(&bad), words(&[]));
}

#[test]
fn printed_entries_are_read_line_by_line() {
    let printed = b"{\"id\":\"1\"}\n  \nnot json\n{\"id\":\"2\"}";
    let entries = RumbleProvider::printed_entries(true, printed, b"").unwrap();
    let names: Vec<Option<String>> = entries.iter().map(|e| e.str_at("id")).collect();
    assert_eq!(names, [Some("1".to_string()), Some("2".to_string())]);
    assert_eq!(RumbleProvider::entries_in("1\r\n\n2"), vec![Json::UInt(1), Json::UInt(2)]);
    assert_eq!(
        RumbleProvider::printed_entries(false, printed, b"gone\xff"),
        Err("yt-dlp list failed: gone\u{fffd}".to_string())
    );
}

fn entries(texts: &[&str]) -> Vec<Json> {
    texts.iter().map(|t| parse_json(t).unwrap()).collect()
}

#[test]
fn rumble_videos_become_episodes() {
    let list = entries(&[
        r#"{"channel":"C","uploader_id":"U","webpage_url":"w","url":"u","title":"T","timestamp":0,
            "id":"i","description":"d","duration":90}"#,
        r#"{"url":"u2","duration":30}"#,
        r#"{"original_url":"o3"}"#,
        r#"{"title":"nowhere","duration":90}"#,
    ]);
    let feed = RumbleProvider::build_feed("https://rumble.com/c/x", &list, 0).unwrap();
    assert_eq!(feed.head.title, "C");
    assert_eq!(feed.head.link, "https://rumble.com/c/x");
    let links: Vec<&str> = feed.items.iter().map(|i| i.link.as_deref().unwrap()).collect();
    assert_eq!(links, ["w", "u2", "o3"]);
    let one = &feed.items[0];
    assert_eq!(one.title.as_deref(), Some("T"));
    assert_eq!(one.description.as_deref(), Some("d"));
    assert_eq!(one.pub_date.as_deref(), Some("Thu, 1 Jan 1970 00:00:00 +0000"));
    let guid = one.guid.as_ref().unwrap();
    assert_eq!((guid.value.as_str(), guid.permalink), ("i", false));
    assert_eq!(feed.items[1].title.as_deref(), Some("u2"));
    assert_eq!(feed.items[1].guid, None);

    let long = RumbleProvider::build_feed("A", &list, 60).unwrap();
    assert_eq!(long.items.len(), 1);
    assert_eq!(long.head.title, "C");
}

#[test]
fn rumble_episodes_are_described() {
    let made = describe_episode(&parse_json("{}").unwrap(), "L".to_string(), Some("D".to_string()));
    assert_eq!(made.title.as_deref(), Some("L"));
    assert_eq!(made.pub_date.as_deref(), Some("D"));
    assert_eq!((made.guid, made.description), (None, None));
}

#[test]
fn rumble_channels_have_a_name() {
    let title = |text: &str| RumbleProvider::build_feed("A", &entries(&[text]), 0).unwrap().head.title;
    assert_eq!(title(r#"{"uploader":"N","channel":"C"}"#), "N");
    assert_eq!(title(r#"{"uploader_id":"U"}"#), "U");
    assert_eq!(title("{}"), "Rumble");
}

#[test]
fn rumble_feeds_are_written() {
    let list = entries(&[r#"{"url":"https://rumble.com/v1","title":"T"}"#]);
    let text = RumbleProvider::build_rss("https://rumble.com/c/x", &list, 0).unwrap();
    let channel = rss::Channel::read_from(text.as_bytes()).unwrap();
    assert_eq!(channel.title, "Rumble");
    assert_eq!(channel.items[0].link.as_deref(), Some("https://rumble.com/v1"));
    assert_eq!(RumbleProvider::build_rss("A", &vec![], 0), Err(NO_ITEMS.to_string()));
    assert_eq!(
        NO_ITEMS,
        "No items returned for Rumble URL (expected /c/<name> or /user/<name>)"
    );
}

#[test]
fn far_rumble_dates_are_told() {
    let far = entries(&[r#"{"url":"u","timestamp":253402300800}"#]);
    assert!(!RumbleProvider::dates_can_be_written(&far, 0));
    assert!(RumbleProvider::dates_can_be_written(&far, 1));
    let beyond = entries(&[r#"{"url":"u","timestamp":9000000000000}"#]);
    assert!(RumbleProvider::dates_can_be_written(&beyond, 0));
    let feed = RumbleProvider::build_feed("A", &beyond, 0).unwrap();
    assert_eq!(feed.items[0].pub_date, None);
    let wrapped = entries(&[r#"{"url":"u","timestamp":18446744073709551615}"#]);
    let feed = RumbleProvider::build_feed("A", &wrapped, 0).unwrap();
    assert_eq!(feed.items[0].pub_date.as_deref(), Some("Wed, 31 Dec 1969 23:59:59 +0000"));
}

#[test]
fn printed_rumble_streams_are_read() {
    assert_eq!(
        RumbleProvider::printed_media_url(true, b"\n https://a \n", b""),
        Ok("https://a".to_string())
    );
    assert_eq!(
        RumbleProvider::printed_media_url(true, b"", b""),
        Err("yt-dlp did not return a URL".to_string())
    );
    assert_eq!(
        RumbleProvider::printed_media_url(false, b"", b" gone"),
        Err("yt-dlp get-url failed:  gone".to_string())
    );
}

#[test]
fn printed_documents_are_read() {
    assert_eq!(
        printed_document(true, b" {\"a\":1}\n").unwrap().u64_at("a"),
        Some(1)
    );
    assert_eq!(printed_document(true, b"x"), None);
    assert_eq!(printed_document(false, b"{}"), None);
}

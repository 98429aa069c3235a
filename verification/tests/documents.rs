use vod2pod_rss::address::{parse_address, youtube_feed};
use vod2pod_rss::captions::pick_best_vtt_url;
use vod2pod_rss::feed::{
    render, try_render, Category, Feed, FeedHead, FeedItem, Guid, ItunesChannel, ItunesItem,
};
use vod2pod_rss::json::{parse_json, write_json, Json};

#[test]
fn addresses_are_taken_apart() {
    let a = parse_address("HTTPS://Example.com:443/a/b?list=x%20y&list=z#f").unwrap();
    assert_eq!(a.text, "https://example.com/a/b?list=x%20y&list=z#f");
    assert_eq!(a.scheme, "https");
    assert_eq!(a.host, Some("example.com".to_string()));
    assert_eq!(a.path, "/a/b");
    assert_eq!(a.segments, Some(vec!["a".to_string(), "b".to_string()]));
    assert_eq!(a.query_value("list"), Some("x y".to_string()));
    assert_eq!(a.query_value("other"), None);
    assert_eq!(a.last_segment(), Some("b".to_string()));
}

#[test]
fn addresses_without_a_path_have_no_segments() {
    let a = parse_address("mailto:someone@example.com").unwrap();
    assert_eq!(a.segments, None);
    assert_eq!(a.last_segment(), None);
    assert_eq!(a.host, None);
    assert_eq!(parse_address("https://a").unwrap().last_segment(), Some(String::new()));
}

#[test]
fn what_is_no_address_is_told_in_words() {
    assert_eq!(
        parse_address("nowhere").unwrap_err().message,
        "relative URL without a base"
    );
    assert_eq!(parse_address("https://").unwrap_err().message, "empty host");
}

#[test]
fn feed_addresses_carry_their_pair() {
    let feed = youtube_feed("playlist_id", "a&b =\u{e9}");
    assert_eq!(
        feed,
        "https://www.youtube.com/feeds/videos.xml?playlist_id=a%26b+%3D%C3%A9"
    );
    let back = parse_address(&feed).unwrap();
    assert_eq!(back.text, feed);
    assert_eq!(back.query, vec![("playlist_id".to_string(), "a&b =\u{e9}".to_string())]);
}

#[test]
fn documents_are_read() {
    let doc = parse_json(r#"{"a":[1,-1,2.5,null,true],"s":"x","n":18446744073709551615}"#).unwrap();
    assert_eq!(doc.str_at("s"), Some("x".to_string()));
    assert_eq!(doc.str_at("n"), None);
    assert_eq!(doc.u64_at("n"), Some(u64::MAX));
    assert_eq!(doc.u64_at("a"), None);
    let Some(Json::Array(items)) = doc.get("a") else { panic!("no list") };
    assert_eq!(items.len(), 5);
    assert_eq!(items[0], Json::UInt(1));
    assert!(matches!(items[1], Json::Number(_)));
    assert!(matches!(items[2], Json::Number(_)));
    assert_eq!(items[3], Json::Null);
    assert_eq!(items[4], Json::Bool(true));
    assert_eq!(parse_json("{"), None);
}

#[test]
fn the_last_member_of_a_name_counts() {
    assert_eq!(parse_json(r#"{"a":1,"a":2}"#).unwrap().u64_at("a"), Some(2));
}

#[test]
fn documents_are_written_in_the_compact_form() {
    let doc = Json::Object(vec![
        ("a".to_string(), Json::Array(vec![Json::UInt(10), Json::Null, Json::Bool(false)])),
        ("b".to_string(), Json::Str("\"\\\n\u{1}\u{1f}\u{7f}\u{e9}/".to_string())),
        ("c".to_string(), Json::Object(vec![])),
    ]);
    assert_eq!(
        write_json(&doc),
        "{\"a\":[10,null,false],\"b\":\"\\\"\\\\\\n\\u0001\\u001f\u{7f}\u{e9}/\",\"c\":{}}"
    );
}

#[test]
fn members_are_written_in_the_order_of_their_names() {
    let doc = Json::Object(vec![
        ("b".to_string(), Json::UInt(2)),
        ("a".to_string(), parse_json("-1.5").unwrap()),
    ]);
    assert_eq!(write_json(&doc), "{\"a\":-1.5,\"b\":2}");
}

fn captions(text: &str) -> Option<String> {
    pick_best_vtt_url(parse_json(text).as_ref())
}

#[test]
fn english_subtitles_come_first() {
    let info = r#"{"subtitles":{
        "de":[{"ext":"vtt","url":"de"}],
        "en-US":[{"ext":"vtt","url":"us"}],
        "en-GB":[{"ext":"srv1","url":"gb1"},{"ext":"vtt","url":"gb"}]},
        "automatic_captions":{"en":[{"ext":"vtt","url":"auto"}]}}"#;
    assert_eq!(captions(info), Some("gb".to_string()));
}

#[test]
fn any_language_and_format_will_do() {
    let info = r#"{"subtitles":{"fr":[{"ext":"vtt"},{"ext":"srv1","url":"fr"}],"it":[]}}"#;
    assert_eq!(captions(info), Some("fr".to_string()));
}

#[test]
fn automatic_captions_are_the_last_resort() {
    let auto = r#""automatic_captions":{"en":[{"ext":"vtt","url":"auto"}]}"#;
    assert_eq!(captions(&format!("{{{auto}}}")), Some("auto".to_string()));
    assert_eq!(captions(&format!("{{\"subtitles\":{{}},{auto}}}")), Some("auto".to_string()));
    assert_eq!(
        captions(&format!("{{\"subtitles\":{{\"en\":[]}},{auto}}}")),
        Some("auto".to_string())
    );
    assert_eq!(captions("{}"), None);
    assert_eq!(pick_best_vtt_url(None), None);
}

fn sample_feed() -> Feed {
    Feed {
        head: FeedHead {
            title: "Show & tell".to_string(),
            link: "https://example.com/".to_string(),
            description: "About".to_string(),
            language: Some("en".to_string()),
            image: Some("https://example.com/a.jpg".to_string()),
            itunes: Some(ItunesChannel {
                image: Some("https://example.com/b.jpg".to_string()),
                explicit: Some("no".to_string()),
                categories: vec![Category {
                    primary: "Leisure".to_string(),
                    secondary: Some("Video Games".to_string()),
                }],
            }),
            namespaces: vec![("itunes".to_string(), "http://www.itunes.com/dtds/podcast-1.0.dtd".to_string())],
        },
        items: vec![FeedItem {
            title: Some("One".to_string()),
            link: Some("https://example.com/1".to_string()),
            description: Some("First".to_string()),
            author: Some("Me".to_string()),
            pub_date: Some("Thu, 1 Jan 1970 00:00:00 +0000".to_string()),
            guid: Some(Guid { value: "g1".to_string(), permalink: false }),
            itunes: Some(ItunesItem {
                summary: Some("Sum".to_string()),
                duration: Some("00:01:00".to_string()),
                image: Some("https://example.com/c.jpg".to_string()),
            }),
        }],
    }
}

#[test]
fn feeds_are_read_back_by_the_rss_crate() {
    let text = render(sample_feed());
    let channel = rss::Channel::read_from(text.as_bytes()).unwrap();
    assert_eq!(channel.title, "Show & tell");
    assert_eq!(channel.link, "https://example.com/");
    assert_eq!(channel.description, "About");
    assert_eq!(channel.language.as_deref(), Some("en"));
    assert_eq!(channel.image.as_ref().unwrap().url, "https://example.com/a.jpg");
    let itunes = channel.itunes_ext.as_ref().unwrap();
    assert_eq!(itunes.image.as_deref(), Some("https://example.com/b.jpg"));
    assert_eq!(itunes.explicit.as_deref(), Some("no"));
    assert_eq!(itunes.categories[0].text, "Leisure");
    assert_eq!(itunes.categories[0].subcategory.as_ref().unwrap().text, "Video Games");
    let item = &channel.items[0];
    assert_eq!(item.title.as_deref(), Some("One"));
    assert_eq!(item.link.as_deref(), Some("https://example.com/1"));
    assert_eq!(item.description.as_deref(), Some("First"));
    assert_eq!(item.author.as_deref(), Some("Me"));
    assert_eq!(item.pub_date.as_deref(), Some("Thu, 1 Jan 1970 00:00:00 +0000"));
    assert_eq!(item.guid.as_ref().unwrap().value, "g1");
    assert!(!item.guid.as_ref().unwrap().permalink);
    let extra = item.itunes_ext.as_ref().unwrap();
    assert_eq!(extra.summary.as_deref(), Some("Sum"));
    assert_eq!(extra.duration.as_deref(), Some("00:01:00"));
    assert_eq!(extra.image.as_deref(), Some("https://example.com/c.jpg"));
}

#[test]
fn both_ways_of_writing_a_feed_agree() {
    assert_eq!(try_render(sample_feed()), Ok(render(sample_feed())));
    assert!(render(sample_feed()).contains("http://www.itunes.com/dtds/podcast-1.0.dtd"));
}

use vod2pod_rss::batches::video_id_batches;
use vod2pod_rss::dates::Moment;
use vod2pod_rss::duration::IsoDuration;
use vod2pod_rss::episodes::{
    build_channel_items_from_playlist, build_feed, can_measure, describe_episode,
    without_short_items,
};
use vod2pod_rss::feed::{feed_namespaces, FeedHead, ItunesChannel};
use vod2pod_rss::order::sort_by_date;
use vod2pod_rss::paging::{PageRequest, Paging};
use vod2pod_rss::playlist::{
    build_channel_from_playlist, build_channel_from_yt_channel, channel_source, playlist_source,
    uploads_of, ContentDetails, ItemSnippet, NoUploads, Playlist, PlaylistItem, RelatedPlaylists,
    ResourceId, SourceSnippet, Thumbnail, Thumbnails, YoutubeChannel,
};
use vod2pod_rss::videos::{
    apply_best_fit_itunes_category, collect_infos, map_yt_category_to_itunes,
    most_common_category, Video, VideoInfos,
};

fn snippet(id: Option<&str>, secs: Option<i64>) -> ItemSnippet {
    ItemSnippet {
        title: Some(format!("title of {}", id.unwrap_or("none"))),
        description: None,
        published_at: secs.map(|secs| Moment { secs, nanos: 0 }),
        channel_title: Some("Channel".to_string()),
        thumbnails: None,
        resource_id: Some(ResourceId { video_id: id.map(str::to_string) }),
    }
}

fn item(id: &str, secs: Option<i64>) -> PlaylistItem {
    PlaylistItem { snippet: Some(snippet(Some(id), secs)) }
}

fn ids(items: &[PlaylistItem]) -> Vec<String> {
    items
        .iter()
        .map(|i| match &i.snippet {
            Some(s) => match &s.resource_id {
                Some(r) => r.video_id.clone().unwrap_or("-".to_string()),
                None => "-".to_string(),
            },
            None => "?".to_string(),
        })
        .collect()
}

fn video(id: &str, second: i64, category: Option<&str>) -> Video {
    Video {
        id: Some(id.to_string()),
        duration: Some(IsoDuration { hour: 0, minute: 0, second }),
        category_id: category.map(str::to_string),
    }
}

fn picture(url: &str) -> Option<Thumbnail> {
    Some(Thumbnail { url: Some(url.to_string()) })
}

fn pictures() -> Thumbnails {
    Thumbnails {
        maxres: None,
        high: picture("high"),
        medium: picture("medium"),
        standard: picture("standard"),
        default: picture("default"),
    }
}

fn source_snippet() -> SourceSnippet {
    SourceSnippet {
        title: Some("Title".to_string()),
        description: Some("Description".to_string()),
        default_language: Some("de".to_string()),
        thumbnails: Some(pictures()),
    }
}

#[test]
fn channels_make_shows() {
    let show = build_channel_from_yt_channel(YoutubeChannel {
        id: Some("UC1".to_string()),
        snippet: Some(source_snippet()),
        content_details: None,
    });
    assert_eq!(
        show,
        FeedHead {
            title: "Title".to_string(),
            link: "https://www.youtube.com/channel/UC1".to_string(),
            description: "Description".to_string(),
            language: Some("de".to_string()),
            image: None,
            itunes: Some(ItunesChannel {
                image: Some("high".to_string()),
                explicit: Some("no".to_string()),
                categories: vec![],
            }),
            namespaces: vec![],
        }
    );
}

#[test]
fn channels_that_say_nothing_make_blank_shows() {
    let show = build_channel_from_yt_channel(YoutubeChannel {
        id: None,
        snippet: None,
        content_details: None,
    });
    assert_eq!(show.link, "https://www.youtube.com/channel/");
    assert_eq!(show.title, "");
    assert_eq!(
        show.itunes,
        Some(ItunesChannel { image: None, explicit: None, categories: vec![] })
    );
}

#[test]
fn playlists_make_shows() {
    let show = build_channel_from_playlist(Playlist {
        id: Some("PL1".to_string()),
        snippet: Some(source_snippet()),
    });
    assert_eq!(show.link, "https://www.youtube.com/playlist?list=PL1");
    assert_eq!(show.itunes.unwrap().explicit, None);
    let blank = build_channel_from_playlist(Playlist { id: Some("PL1".to_string()), snippet: None });
    assert_eq!(blank.link, "");
}

#[test]
fn larger_pictures_are_better() {
    let show = |thumbnails: Thumbnails| {
        build_channel_from_playlist(Playlist {
            id: None,
            snippet: Some(SourceSnippet { thumbnails: Some(thumbnails), ..source_snippet() }),
        })
        .itunes
        .unwrap()
        .image
    };
    assert_eq!(show(Thumbnails { maxres: picture("max"), ..pictures() }), Some("max".to_string()));
    assert_eq!(show(Thumbnails { high: None, ..pictures() }), Some("medium".to_string()));
    assert_eq!(
        show(Thumbnails { high: None, medium: None, ..pictures() }),
        Some("standard".to_string())
    );
    assert_eq!(show(Thumbnails { maxres: Some(Thumbnail { url: None }), ..pictures() }), None);
}

#[test]
fn uploads_are_found_or_missed() {
    let with = |content_details| YoutubeChannel { id: None, snippet: None, content_details };
    let related = |uploads| ContentDetails { related_playlists: Some(RelatedPlaylists { uploads }) };
    assert_eq!(
        uploads_of(&with(Some(related(Some("UU1".to_string()))))),
        Ok("UU1".to_string())
    );
    let said = |details| uploads_of(&with(details)).unwrap_err().message();
    assert_eq!(said(None), "content_details is None");
    assert_eq!(said(Some(ContentDetails { related_playlists: None })), "related_playlists is None");
    assert_eq!(said(Some(related(None))), "uploads is None");
}

#[test]
fn sources_come_from_channels_and_playlists() {
    let source = channel_source(YoutubeChannel {
        id: Some("UC1".to_string()),
        snippet: None,
        content_details: Some(ContentDetails {
            related_playlists: Some(RelatedPlaylists { uploads: Some("UU1".to_string()) }),
        }),
    })
    .unwrap();
    assert_eq!(source.playlist_id, "UU1");
    assert_eq!(source.show.link, "https://www.youtube.com/channel/UC1");
    let none = YoutubeChannel { id: None, snippet: None, content_details: None };
    assert_eq!(channel_source(none), Err(NoUploads::NoContentDetails));

    let list = Playlist { id: Some("PL1".to_string()), snippet: Some(source_snippet()) };
    let source = playlist_source(list).unwrap();
    assert_eq!(source.playlist_id, "PL1");
    assert_eq!(source.show.link, "https://www.youtube.com/playlist?list=");
    assert_eq!(
        playlist_source(Playlist { id: None, snippet: None }),
        Err("playlist has no id".to_string())
    );
}

/// Fetches from an endless playlist, and tells what was asked for each time.
fn fetch(max: usize) -> (Vec<usize>, usize) {
    let mut paging = Paging::new(max);
    let mut asked = vec![];
    loop {
        let request = paging.next_request();
        asked.push(request.max_results);
        let page = (0..request.max_results).map(|_| item("v", None)).collect();
        if paging.receive(Some(page), Some("more".to_string())).unwrap() {
            return (asked, paging.finish().len());
        }
    }
}

#[test]
fn as_many_items_arrive_as_are_wanted() {
    assert_eq!(fetch(13), (vec![13, 0], 13));
    assert_eq!(fetch(50), (vec![50, 0, 0], 50));
    assert_eq!(fetch(120), (vec![50, 50, 20, 0], 120));
    assert_eq!(fetch(600).1, 600);
    assert_eq!(fetch(600).0.len(), 14);
}

#[test]
fn fetching_ends_with_the_playlist() {
    let mut paging = Paging::new(300);
    assert_eq!(paging.next_request(), PageRequest { max_results: 50, page_token: None });
    let page = vec![item("b", Some(2))];
    assert_eq!(paging.receive(Some(page), Some("t".to_string())), Ok(false));
    assert_eq!(
        paging.next_request(),
        PageRequest { max_results: 50, page_token: Some("t".to_string()) }
    );
    assert_eq!(paging.receive(Some(vec![item("a", Some(1))]), None), Ok(true));
    assert_eq!(ids(&paging.finish()), ["a", "b"]);
}

#[test]
fn pages_without_items_are_refused() {
    let mut paging = Paging::new(5);
    assert_eq!(
        paging.receive(None, None),
        Err("playlist object has no items field".to_string())
    );
    assert_eq!(paging, Paging::new(5));
}

#[test]
fn items_are_sorted_by_date_and_keep_their_order() {
    let items = vec![
        item("c", Some(3)),
        item("a1", Some(1)),
        item("n1", None),
        item("b", Some(2)),
        item("a2", Some(1)),
        PlaylistItem { snippet: None },
        item("a3", Some(1)),
    ];
    assert_eq!(ids(&sort_by_date(items)), ["n1", "?", "a1", "a2", "a3", "b", "c"]);
}

#[test]
fn videos_are_asked_for_in_batches_of_fifty() {
    let mut items: Vec<PlaylistItem> = (0..120).map(|i| item(&format!("v{i}"), None)).collect();
    items[3] = PlaylistItem { snippet: None };
    items[60] = PlaylistItem { snippet: Some(snippet(None, None)) };
    let batches = video_id_batches(&items);
    let sizes: Vec<usize> = batches.iter().map(|b| b.len()).collect();
    assert_eq!(sizes, [49, 49, 20]);
    assert_eq!(batches[0][3], "v4");
    assert_eq!(batches[2][19], "v119");
    assert_eq!(video_id_batches(&vec![]), Vec::<Vec<String>>::new());
    assert_eq!(video_id_batches(&vec![PlaylistItem { snippet: None }]), vec![Vec::<String>::new()]);
}

#[test]
fn the_last_word_on_a_video_counts() {
    let infos = collect_infos(vec![
        video("a", 1, Some("10")),
        video("a", 2, None),
        Video { id: None, ..video("b", 1, None) },
        Video { duration: None, ..video("c", 1, None) },
    ]);
    assert_eq!(infos.entries.len(), 1);
    let known = infos.get("a").unwrap();
    assert_eq!((known.duration.second, &known.yt_category_id), (2, &None));
    assert_eq!(infos.get("b"), None);
    assert_eq!(infos.get("c"), None);
}

#[test]
fn categories_have_counterparts() {
    let pair = |a: &str, b: &str| Some((a.to_string(), Some(b.to_string())));
    let one = |a: &str| Some((a.to_string(), None));
    let expected = [
        ("1", pair("TV & Film", "Film Reviews")),
        ("2", pair("Leisure", "Automotive")),
        ("10", one("Music")),
        ("15", pair("Kids & Family", "Pets & Animals")),
        ("17", one("Sports")),
        ("19", pair("Society & Culture", "Places & Travel")),
        ("20", pair("Leisure", "Video Games")),
        ("21", pair("Society & Culture", "Personal Journals")),
        ("22", one("Society & Culture")),
        ("23", one("Comedy")),
        ("24", pair("TV & Film", "After Shows")),
        ("25", one("News")),
        ("26", pair("Arts", "Fashion & Beauty")),
        ("27", one("Education")),
        ("28", one("Technology")),
        ("29", pair("Society & Culture", "Philanthropy")),
        ("30", None),
        ("", None),
    ];
    for (id, category) in expected {
        assert_eq!(map_yt_category_to_itunes(id), category, "{id}");
    }
}

#[test]
fn shows_are_filed_under_the_most_common_category() {
    let infos = collect_infos(vec![
        video("a", 1, Some("10")),
        video("b", 1, Some("20")),
        video("c", 1, Some("20")),
        video("d", 1, Some("99")),
        video("e", 1, Some("99")),
        video("f", 1, Some("99")),
        video("g", 1, None),
    ]);
    let best = most_common_category(&infos).unwrap();
    assert_eq!((best.primary.as_str(), best.secondary.as_deref()), ("Leisure", Some("Video Games")));
    let mut show = build_channel_from_playlist(Playlist { id: None, snippet: None });
    apply_best_fit_itunes_category(&mut show, &infos);
    assert_eq!(show.itunes.unwrap().categories, vec![best]);
}

#[test]
fn shows_without_known_categories_stay_as_they_are() {
    let infos = collect_infos(vec![video("a", 1, Some("99"))]);
    assert_eq!(most_common_category(&infos), None);
    let blank = || build_channel_from_playlist(Playlist { id: None, snippet: None });
    let mut show = blank();
    apply_best_fit_itunes_category(&mut show, &infos);
    assert_eq!(show, blank());
}

#[test]
fn short_items_are_left_out() {
    let items = || {
        vec![
            item("short", None),
            item("long", None),
            item("unknown", None),
            PlaylistItem { snippet: Some(snippet(None, None)) },
            PlaylistItem { snippet: None },
        ]
    };
    let infos = collect_infos(vec![video("short", 60, None), video("long", 61, None)]);
    assert_eq!(ids(&without_short_items(items(), &infos, 61)), ["long", "unknown", "-"]);
    assert_eq!(ids(&without_short_items(items(), &infos, 0)), ["short", "long", "unknown", "-", "?"]);
}

#[test]
fn items_make_episodes() {
    let full = PlaylistItem {
        snippet: Some(ItemSnippet {
            description: Some("About".to_string()),
            thumbnails: Some(pictures()),
            ..snippet(Some("abc"), Some(0))
        }),
    };
    let infos = collect_infos(vec![video("abc", 3725, None)]);
    let made = build_channel_items_from_playlist(
        vec![full, item("unknown", None), PlaylistItem { snippet: None }],
        &infos,
    );
    assert_eq!(made.len(), 1);
    let one = &made[0];
    assert_eq!(one.title.as_deref(), Some("title of abc"));
    assert_eq!(one.link.as_deref(), Some("https://www.youtube.com/watch?v=abc"));
    assert_eq!(one.description.as_deref(), Some("About"));
    assert_eq!(one.author.as_deref(), Some("Channel"));
    assert_eq!(one.pub_date.as_deref(), Some("Thu, 1 Jan 1970 00:00:00 +0000"));
    let guid = one.guid.as_ref().unwrap();
    assert_eq!((guid.value.as_str(), guid.permalink), ("https://www.youtube.com/watch?v=abc", true));
    let itunes = one.itunes.as_ref().unwrap();
    assert_eq!(itunes.summary.as_deref(), Some("About"));
    assert_eq!(itunes.duration.as_deref(), Some("01:02:05"));
    assert_eq!(itunes.image.as_deref(), Some("high"));
}

#[test]
fn episodes_are_described() {
    let made = describe_episode(
        snippet(Some("abc"), None),
        "A".to_string(),
        Some("D".to_string()),
        &IsoDuration { hour: 0, minute: 61, second: 1 },
    );
    assert_eq!(made.title.as_deref(), Some("title of abc"));
    assert_eq!(made.link.as_deref(), Some("A"));
    assert_eq!(made.guid.unwrap().value, "A");
    assert_eq!(made.description.as_deref(), Some(""));
    assert_eq!(made.pub_date.as_deref(), Some("D"));
    assert_eq!(made.itunes.unwrap().duration.as_deref(), Some("01:01:01"));
}

#[test]
fn names_of_episodes_last() {
    let infos = collect_infos(vec![video("abc", 1, None)]);
    let guid = |i: PlaylistItem| build_channel_items_from_playlist(vec![i], &infos).remove(0).guid;
    let renamed = PlaylistItem {
        snippet: Some(ItemSnippet { title: Some("new".to_string()), ..snippet(Some("abc"), Some(9)) }),
    };
    assert_eq!(guid(item("abc", None)), guid(renamed));
}

#[test]
fn feeds_hold_the_show_and_the_long_episodes() {
    let infos = collect_infos(vec![video("a", 10, Some("10")), video("b", 100, Some("10"))]);
    let show = build_channel_from_playlist(Playlist {
        id: Some("PL1".to_string()),
        snippet: Some(source_snippet()),
    });
    let items = vec![item("a", None), item("b", None)];
    assert!(can_measure(&items, &infos, 61));
    let feed = build_feed(show, items, &infos, 61);
    assert_eq!(feed.head.image.as_deref(), Some("high"));
    assert_eq!(feed.head.namespaces, feed_namespaces());
    assert_eq!(feed.head.itunes.unwrap().categories[0].primary, "Music");
    assert_eq!(feed.items.len(), 1);
    assert_eq!(feed.items[0].link.as_deref(), Some("https://www.youtube.com/watch?v=b"));
}

#[test]
fn lengths_that_overflow_are_told() {
    let endless = |hour| Video {
        duration: Some(IsoDuration { hour, minute: 0, second: 0 }),
        ..video("a", 0, None)
    };
    let items = vec![item("a", None)];
    let infos = collect_infos(vec![endless(i64::MAX)]);
    assert!(!can_measure(&items, &infos, 1));
    assert!(can_measure(&items, &infos, 0));
    let far = vec![item("a", Some(253_402_300_800))];
    assert!(!can_measure(&far, &collect_infos(vec![endless(1)]), 0));
    assert!(can_measure(&far, &collect_infos(vec![endless(1)]), 3601));
    assert!(can_measure(&vec![], &VideoInfos::new(), 5));
}

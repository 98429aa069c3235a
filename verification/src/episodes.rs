//! The episodes that the items of a playlist make, and the feed that holds them.
use crate::dates::Moment;
use crate::duration::IsoDuration;
use crate::feed::{
    Feed, FeedHead, FeedHeadModel, FeedItem, FeedItemModel, FeedModel, Guid, GuidModel, ItunesItem,
    ItunesItemModel,
};
use crate::playlist::{
    ItemSnippet, ItemSnippetModel, Playlist, PlaylistItem, PlaylistItemModel, YoutubeChannel,
};
use crate::videos::{Entries, VideoInfos};
use vstd::prelude::*;

verus! {

/// What is known of the video that an item stands for.
pub open spec fn item_info(item: PlaylistItemModel, entries: Entries) -> Option<
    crate::videos::VideoExtraInfoModel,
> {
    match item.video() {
        Some(id) => crate::videos::info_of(entries, id),
        None => None,
    }
}

/// Whether an item is long enough to stay. One that says nothing of itself does
/// not stay; one of which the length is not known does.
pub open spec fn stays(item: PlaylistItemModel, entries: Entries, min_seconds: u64) -> bool {
    item.snippet is Some && match item_info(item, entries) {
        Some(info) => {
            let (h, m, s) = info.duration.hms();
            crate::duration::seconds_in(h, m, s) >= min_seconds
        },
        None => true,
    }
}

/// The items that are long enough; all of them if no length is demanded.
pub open spec fn long_enough(
    items: Seq<PlaylistItemModel>,
    entries: Entries,
    min_seconds: u64,
) -> Seq<PlaylistItemModel> {
    if min_seconds > 0 {
        items.filter(|item: PlaylistItemModel| stays(item, entries, min_seconds))
    } else {
        items
    }
}

/// Whether the seconds of every item's video can be counted.
pub open spec fn are_countable(items: Seq<PlaylistItemModel>, entries: Entries) -> bool {
    forall|i: int|
        0 <= i < items.len() ==> match item_info(#[trigger] items[i], entries) {
            Some(info) => info.duration.is_countable(),
            None => true,
        }
}

fn is_long_enough(item: &PlaylistItem, infos: &VideoInfos, min_seconds: u64) -> (r: bool)
    requires
        crate::videos::distinct(infos.entries.deep_view()),
        item_info(item.deep_view(), infos.entries.deep_view()) matches Some(info)
            ==> info.duration.is_countable(),
    ensures
        r == stays(item.deep_view(), infos.entries.deep_view(), min_seconds),
{
    if item.snippet.is_none() {
        return false;
    }
    match crate::playlist::video_of(item) {
        Some(id) => match infos.get(id.as_str()) {
            Some(info) => crate::duration::duration_to_seconds(&info.duration) >= min_seconds,
            None => true,
        },
        None => true,
    }
}

fn durations_count(items: &Vec<PlaylistItem>, infos: &VideoInfos) -> (r: bool)
    requires
        crate::videos::distinct(infos.entries.deep_view()),
    ensures
        r == are_countable(items.deep_view(), infos.entries.deep_view()),
{
    let mut i: usize = 0;
    let ghost all = items.deep_view();
    let ghost entries = infos.entries.deep_view();
    while i < items.len()
        invariant
            i <= items.len(),
            all == items.deep_view(),
            entries == infos.entries.deep_view(),
            crate::videos::distinct(entries),
            forall|j: int|
                0 <= j < i ==> match item_info(#[trigger] all[j], entries) {
                    Some(info) => info.duration.is_countable(),
                    None => true,
                },
        decreases items.len() - i,
    {
        assert(all[i as int] == items@[i as int].deep_view());
        if let Some(id) = crate::playlist::video_of(&items[i]) {
            if let Some(info) = infos.get(id.as_str()) {
                if !info.duration.counts() {
                    return false;
                }
            }
        }
        i += 1;
    }
    true
}

/// Leaves out the items that are too short.
pub fn without_short_items(items: Vec<PlaylistItem>, infos: &VideoInfos, min_seconds: u64) -> (r: Vec<
    PlaylistItem,
>)
    requires
        crate::videos::distinct(infos.entries.deep_view()),
        min_seconds > 0 ==> are_countable(items.deep_view(), infos.entries.deep_view()),
    ensures
        r.deep_view() == long_enough(items.deep_view(), infos.entries.deep_view(), min_seconds),
{
    if min_seconds == 0 {
        return items;
    }
    let mut kept: Vec<PlaylistItem> = Vec::new();
    let ghost all = items.deep_view();
    let ghost entries = infos.entries.deep_view();
    let ghost keep = |item: PlaylistItemModel| stays(item, entries, min_seconds);
    proof {
        reveal(Seq::filter);
        assert(kept.deep_view() =~= all.take(0).filter(keep));
    }
    for item in it: items
        invariant
            all == items.deep_view(),
            it.seq() == items@,
            entries == infos.entries.deep_view(),
            crate::videos::distinct(entries),
            are_countable(all, entries),
            keep == (|item: PlaylistItemModel| stays(item, entries, min_seconds)),
            kept.deep_view() == all.take(it.index()).filter(keep),
    {
        assert(all[it.index()] == item.deep_view());
        let ghost before = kept.deep_view();
        let ghost model = item.deep_view();
        proof {
            reveal(Seq::filter);
            let next = all.take(it.index() + 1);
            assert(next.drop_last() =~= all.take(it.index()));
            assert(next.last() == model);
        }
        if is_long_enough(&item, infos, min_seconds) {
            kept.push(item);
            assert(kept.deep_view() =~= before.push(model));
        }
    }
    assert(all.take(all.len() as int) =~= all);
    kept
}

/// The date of an episode.
pub open spec fn date_text(published_at: Option<Moment>) -> Option<Seq<char>> {
    match published_at {
        Some(moment) => moment.date(),
        None => None,
    }
}

/// The episode that an item makes which describes itself, given the address and the
/// length of its video and its date. Its link and its lasting name are the address.
pub open spec fn described_episode(
    snippet: ItemSnippetModel,
    address: Seq<char>,
    date: Option<Seq<char>>,
    duration: IsoDuration,
) -> FeedItemModel {
    let (h, m, s) = duration.hms();
    FeedItemModel {
        title: Some(crate::text::or_empty(snippet.title)),
        link: Some(address),
        description: Some(crate::text::or_empty(snippet.description)),
        author: snippet.channel_title,
        pub_date: date,
        guid: Some(GuidModel { value: address, permalink: true }),
        itunes: Some(
            ItunesItemModel {
                summary: Some(crate::text::or_empty(snippet.description)),
                duration: Some(crate::duration::clock_text(h, m, s)),
                image: crate::playlist::picture(snippet.thumbnails),
            },
        ),
    }
}

/// The episode that an item makes, if it stands for a video of which the length is
/// known.
pub open spec fn episode(item: PlaylistItemModel, entries: Entries) -> Option<FeedItemModel> {
    match (item.snippet, item.video()) {
        (Some(snippet), Some(id)) => match (
            crate::address::url_parse(crate::playlist::watch_address(id)),
            crate::videos::info_of(entries, id),
        ) {
            (Ok(address), Some(info)) => Some(
                described_episode(
                    snippet,
                    address.text,
                    date_text(snippet.published_at),
                    info.duration,
                ),
            ),
            _ => None,
        },
        _ => None,
    }
}

/// Whether an item stands for a video whose identifier is made of letters, digits,
/// hyphens and underscores.
pub open spec fn has_plain_video(item: PlaylistItemModel) -> bool {
    item.video() matches Some(id) && forall|i: int|
        0 <= i < id.len() ==> crate::text::is_plain(#[trigger] id[i])
}

/// The episode that an item makes if its video is of that kind and its length is
/// known: its link and its lasting name are where the video is watched.
pub open spec fn watch_episode(item: PlaylistItemModel, entries: Entries) -> Option<FeedItemModel> {
    match (item.snippet, item.video(), item_info(item, entries)) {
        (Some(snippet), Some(id), Some(info)) => Some(
            described_episode(
                snippet,
                crate::playlist::watch_address(id),
                date_text(snippet.published_at),
                info.duration,
            ),
        ),
        _ => None,
    }
}

/// Whether the items whose videos are of that kind make the episodes that link to
/// where the videos are watched.
pub open spec fn link_to_videos(items: Seq<PlaylistItemModel>, entries: Entries) -> bool {
    forall|i: int|
        0 <= i < items.len() && has_plain_video(items[i]) ==> episode(#[trigger] items[i], entries)
            == watch_episode(items[i], entries)
}

/// The episodes that some items make, in their order.
pub open spec fn episodes(items: Seq<PlaylistItemModel>, entries: Entries) -> Seq<FeedItemModel>
    decreases items.len(),
{
    if items.len() == 0 {
        Seq::empty()
    } else {
        match episode(items.last(), entries) {
            Some(made) => episodes(items.drop_last(), entries).push(made),
            None => episodes(items.drop_last(), entries),
        }
    }
}

/// Whether the date and the length of an item's video can be written.
pub open spec fn is_writable(item: PlaylistItemModel, entries: Entries) -> bool {
    item.video() is Some ==> {
        &&& item.date() matches Some(moment) ==> moment.is_datable()
        &&& item_info(item, entries) matches Some(info) ==> info.duration.carries()
    }
}

/// Whether the date and the length of every item's video can be written.
pub open spec fn are_writable(items: Seq<PlaylistItemModel>, entries: Entries) -> bool {
    forall|i: int| 0 <= i < items.len() ==> is_writable(#[trigger] items[i], entries)
}

fn can_be_written(item: &PlaylistItem, infos: &VideoInfos) -> (r: bool)
    requires
        crate::videos::distinct(infos.entries.deep_view()),
    ensures
        r == is_writable(item.deep_view(), infos.entries.deep_view()),
{
    match crate::playlist::video_of(item) {
        Some(id) => {
            let dated = match crate::playlist::date_of(item) {
                Some(moment) => moment.dates(),
                None => true,
            };
            dated && match infos.get(id.as_str()) {
                Some(info) => info.duration.carrying_fits(),
                None => true,
            }
        },
        None => true,
    }
}

/// Makes an episode of what an item says of itself, given the address and the length
/// of its video and its date.
pub fn describe_episode(
    snippet: ItemSnippet,
    address: String,
    date: Option<String>,
    duration: &IsoDuration,
) -> (r: FeedItem)
    requires
        duration.carries(),
    ensures
        r.deep_view() == described_episode(
            snippet.deep_view(),
            address@,
            date.deep_view(),
            *duration,
        ),
{
    let (h, m, s) = crate::duration::iso_duration_to_hms(duration);
    let description = crate::text::text_or_empty(snippet.description);
    FeedItem {
        title: Some(crate::text::text_or_empty(snippet.title)),
        link: Some(address.clone()),
        description: Some(description.clone()),
        author: snippet.channel_title,
        pub_date: date,
        guid: Some(Guid { value: address, permalink: true }),
        itunes: Some(
            ItunesItem {
                summary: Some(description),
                duration: Some(crate::duration::write_clock(h, m, s)),
                image: crate::playlist::best_picture(snippet.thumbnails),
            },
        ),
    }
}

proof fn lemma_watch_address(id: Seq<char>)
    ensures
        (forall|i: int| 0 <= i < id.len() ==> crate::text::is_plain(#[trigger] id[i]))
            ==> crate::address::is_watch_address(crate::playlist::watch_address(id)),
{
    let head = "https://www.youtube.com/watch?v="@;
    let text = crate::playlist::watch_address(id);
    assert(text.subrange(0, head.len() as int) =~= head);
    if forall|i: int| 0 <= i < id.len() ==> crate::text::is_plain(#[trigger] id[i]) {
        assert forall|i: int| head.len() <= i < text.len() implies crate::text::is_plain(
            #[trigger] text[i],
        ) by {
            assert(text[i] == id[i - head.len()]);
        }
    }
}

fn build_episode(item: PlaylistItem, infos: &VideoInfos) -> (r: Option<FeedItem>)
    requires
        crate::videos::distinct(infos.entries.deep_view()),
        is_writable(item.deep_view(), infos.entries.deep_view()),
    ensures
        r.deep_view() == episode(item.deep_view(), infos.entries.deep_view()),
        has_plain_video(item.deep_view()) ==> episode(
            item.deep_view(),
            infos.entries.deep_view(),
        ) == watch_episode(item.deep_view(), infos.entries.deep_view()),
{
    let id = match crate::playlist::video_of(&item) {
        Some(id) => id,
        None => return None,
    };
    let snippet = match item.snippet {
        Some(snippet) => snippet,
        None => return None,
    };
    let watch = crate::text::join("https://www.youtube.com/watch?v=", id.as_str());
    proof {
        lemma_watch_address(id@);
    }
    let address = match crate::address::parse_address(watch.as_str()) {
        Ok(address) => address,
        Err(_) => return None,
    };
    let date = match &snippet.published_at {
        Some(moment) => moment.write_date(),
        None => None,
    };
    match infos.get(id.as_str()) {
        Some(info) => Some(describe_episode(snippet, address.text, date, &info.duration)),
        None => None,
    }
}

/// Makes episodes of the items of a playlist.
pub fn build_channel_items_from_playlist(
    items: Vec<PlaylistItem>,
    videos_infos: &VideoInfos,
) -> (r: Vec<FeedItem>)
    requires
        crate::videos::distinct(videos_infos.entries.deep_view()),
        are_writable(items.deep_view(), videos_infos.entries.deep_view()),
    ensures
        r.deep_view() == episodes(items.deep_view(), videos_infos.entries.deep_view()),
        link_to_videos(items.deep_view(), videos_infos.entries.deep_view()),
{
    let mut made: Vec<FeedItem> = Vec::new();
    let ghost all = items.deep_view();
    let ghost entries = videos_infos.entries.deep_view();
    assert(all.take(0) =~= Seq::<PlaylistItemModel>::empty());
    assert(made.deep_view() =~= Seq::<FeedItemModel>::empty());
    for item in it: items
        invariant
            all == items.deep_view(),
            it.seq() == items@,
            entries == videos_infos.entries.deep_view(),
            crate::videos::distinct(entries),
            are_writable(all, entries),
            made.deep_view() == episodes(all.take(it.index()), entries),
            link_to_videos(all.take(it.index()), entries),
    {
        assert(all[it.index()] == item.deep_view());
        assert(all.take(it.index() + 1).drop_last() =~= all.take(it.index()));
        let ghost before = made.deep_view();
        let ghost seen = all.take(it.index());
        let ghost now = all.take(it.index() + 1);
        match build_episode(item, videos_infos) {
            Some(one) => {
                let ghost model = one.deep_view();
                made.push(one);
                assert(made.deep_view() =~= before.push(model));
            },
            None => {},
        }
        assert forall|i: int| 0 <= i < now.len() && has_plain_video(now[i]) implies episode(
            #[trigger] now[i],
            entries,
        ) == watch_episode(now[i], entries) by {
            if i < seen.len() {
                assert(now[i] == seen[i]);
            }
        }
    }
    assert(all.take(all.len() as int) =~= all);
    made
}

/// The lasting name of an episode depends on its video alone: whatever else of an
/// item changes, its name stays.
pub proof fn names_last(
    item: PlaylistItemModel,
    entries: Entries,
    later: PlaylistItemModel,
    later_entries: Entries,
)
    requires
        item.video() == later.video(),
    ensures
        episode(item, entries) is Some && episode(later, later_entries) is Some ==> {
            &&& episode(item, entries)->0.guid == episode(later, later_entries)->0.guid
            &&& episode(item, entries)->0.guid is Some
        },
{
}

/// The head of a feed of YouTube's: the show with its picture, and the namespaces
/// that the feed declares.
pub open spec fn show_head(show: FeedHeadModel) -> FeedHeadModel {
    FeedHeadModel {
        image: Some(
            match show.itunes {
                Some(itunes) => crate::text::or_empty(itunes.image),
                None => Seq::empty(),
            },
        ),
        namespaces: crate::feed::podcast_namespaces(),
        ..show
    }
}

/// Whether a feed is made of a show and the items of its playlist: the show is filed
/// as its videos are, and the episodes are those of the items that are long enough,
/// which link to where the videos are watched.
pub open spec fn is_feed_of(
    show: FeedHeadModel,
    items: Seq<PlaylistItemModel>,
    entries: Entries,
    min_seconds: u64,
    feed: FeedModel,
) -> bool {
    &&& feed.items == episodes(long_enough(items, entries, min_seconds), entries)
    &&& link_to_videos(long_enough(items, entries, min_seconds), entries)
    &&& exists|filed: FeedHeadModel|
        #![trigger show_head(filed)]
        crate::videos::is_filed(entries, show, filed) && feed.head == show_head(filed)
}

/// Whether the lengths that are compared and the lengths and dates that are written
/// can be.
pub open spec fn is_measurable(
    items: Seq<PlaylistItemModel>,
    entries: Entries,
    min_seconds: u64,
) -> bool {
    &&& min_seconds > 0 ==> are_countable(items, entries)
    &&& are_writable(long_enough(items, entries, min_seconds), entries)
}

/// Makes a feed of a show and the items of its playlist.
pub fn build_feed(
    show: FeedHead,
    items: Vec<PlaylistItem>,
    infos: &VideoInfos,
    min_seconds: u64,
) -> (r: Feed)
    requires
        crate::videos::distinct(infos.entries.deep_view()),
        is_measurable(items.deep_view(), infos.entries.deep_view(), min_seconds),
    ensures
        is_feed_of(
            show.deep_view(),
            items.deep_view(),
            infos.entries.deep_view(),
            min_seconds,
            r.deep_view(),
        ),
{
    let kept = without_short_items(items, infos, min_seconds);
    let mut head = show;
    crate::videos::apply_best_fit_itunes_category(&mut head, infos);
    let ghost filed = head.deep_view();
    let episodes = build_channel_items_from_playlist(kept, infos);
    let image = match &head.itunes {
        Some(itunes) => crate::text::text_or_empty(itunes.image.clone()),
        None => String::new(),
    };
    head.image = Some(image);
    head.namespaces = crate::feed::feed_namespaces();
    assert(head.deep_view() == show_head(filed));
    Feed { head, items: episodes }
}

/// Whether an item makes an episode and its video lasts long enough.
pub open spec fn makes(
    item: PlaylistItemModel,
    entries: Entries,
    min_seconds: u64,
    made: FeedItemModel,
) -> bool {
    &&& episode(item, entries) == Some(made)
    &&& item_info(item, entries) matches Some(info)
    &&& crate::duration::seconds_in(
        info.duration.hms().0,
        info.duration.hms().1,
        info.duration.hms().2,
    ) >= min_seconds
}

/// A feed holds exactly the episodes of the videos that last long enough: no
/// shorter one, and all of those.
pub proof fn short_videos_make_no_episodes(
    items: Seq<PlaylistItemModel>,
    entries: Entries,
    min_seconds: u64,
)
    ensures
        forall|made: FeedItemModel| #[trigger]
            episodes(long_enough(items, entries, min_seconds), entries).contains(made) <==> exists|
                i: int,
            |
                0 <= i < items.len() && makes(#[trigger] items[i], entries, min_seconds, made),
    decreases items.len(),
{
    reveal(Seq::filter);
    let all = episodes(long_enough(items, entries, min_seconds), entries);
    if items.len() == 0 {
        assert(long_enough(items, entries, min_seconds) =~= Seq::empty());
        assert(all =~= Seq::empty());
    } else {
        let rest = items.drop_last();
        let item = items.last();
        let earlier = episodes(long_enough(rest, entries, min_seconds), entries);
        short_videos_make_no_episodes(rest, entries, min_seconds);
        let kept = long_enough(items, entries, min_seconds);
        if min_seconds == 0 || stays(item, entries, min_seconds) {
            assert(kept =~= long_enough(rest, entries, min_seconds).push(item));
            assert(kept.drop_last() =~= long_enough(rest, entries, min_seconds));
        } else {
            assert(kept =~= long_enough(rest, entries, min_seconds));
        }
        assert forall|made: FeedItemModel| #[trigger] all.contains(made) implies exists|i: int|
            0 <= i < items.len() && makes(#[trigger] items[i], entries, min_seconds, made) by {
            if earlier.contains(made) {
                let i = choose|i: int|
                    0 <= i < rest.len() && makes(#[trigger] rest[i], entries, min_seconds, made);
                assert(items[i] == rest[i]);
            } else {
                let at = choose|at: int| 0 <= at < all.len() && all[at] == made;
                if at < earlier.len() {
                    assert(earlier[at] == made);
                }
                assert(makes(items[items.len() - 1], entries, min_seconds, made));
            }
        }
        assert forall|made: FeedItemModel|
            (exists|i: int|
                0 <= i < items.len() && makes(
                    #[trigger] items[i],
                    entries,
                    min_seconds,
                    made,
                )) implies #[trigger] all.contains(made) by {
            let i = choose|i: int|
                0 <= i < items.len() && makes(#[trigger] items[i], entries, min_seconds, made);
            if i < rest.len() {
                assert(makes(rest[i], entries, min_seconds, made));
                assert(earlier.contains(made));
                let at = choose|at: int| 0 <= at < earlier.len() && earlier[at] == made;
                assert(all[at] == made);
            } else {
                assert(all.last() == made);
            }
        }
    }
}

/// Every video of known length that lasts long enough makes an episode, which links to
/// where the video is watched and has that address for its lasting name.
pub proof fn known_videos_make_episodes(
    show: FeedHeadModel,
    items: Seq<PlaylistItemModel>,
    entries: Entries,
    min_seconds: u64,
    feed: FeedModel,
    at: int,
)
    requires
        is_feed_of(show, items, entries, min_seconds, feed),
        0 <= at < items.len(),
        has_plain_video(items[at]),
        item_info(items[at], entries) is Some,
        stays(items[at], entries, min_seconds),
    ensures
        watch_episode(items[at], entries) matches Some(made) && {
            &&& feed.items.contains(made)
            &&& made.link == Some(crate::playlist::watch_address(items[at].video()->0))
            &&& made.guid == Some(
                GuidModel {
                    value: crate::playlist::watch_address(items[at].video()->0),
                    permalink: true,
                },
            )
        },
{
    let kept = long_enough(items, entries, min_seconds);
    let keep = |item: PlaylistItemModel| stays(item, entries, min_seconds);
    assert(kept.contains(items[at])) by {
        if min_seconds > 0 {
            assert(keep(items[at]));
            items.lemma_filter_contains(keep, at);
        }
    }
    let i = choose|i: int| 0 <= i < kept.len() && kept[i] == items[at];
    assert(episode(kept[i], entries) == watch_episode(kept[i], entries));
    let made = watch_episode(items[at], entries)->0;
    short_videos_make_no_episodes(items, entries, min_seconds);
    assert(makes(items[at], entries, min_seconds, made));
    assert(episodes(kept, entries).contains(made));
}

/// Every feed declares the namespaces of iTunes and of the Podcast Index.
pub proof fn feeds_declare_namespaces(
    show: FeedHeadModel,
    items: Seq<PlaylistItemModel>,
    entries: Entries,
    min_seconds: u64,
    feed: FeedModel,
)
    requires
        is_feed_of(show, items, entries, min_seconds, feed),
    ensures
        crate::feed::declares_both(feed),
{
    crate::feed::lemma_both_are_declared(feed);
}

proof fn lemma_all_kept(
    items: Seq<PlaylistItemModel>,
    keep: spec_fn(PlaylistItemModel) -> bool,
    entries: Entries,
)
    ensures
        are_writable(items.filter(keep), entries) <==> forall|i: int|
            0 <= i < items.len() && keep(items[i]) ==> is_writable(#[trigger] items[i], entries),
    decreases items.len(),
{
    reveal(Seq::filter);
    let kept = items.filter(keep);
    if items.len() > 0 {
        let rest = items.drop_last();
        let last = items.len() - 1;
        let earlier = rest.filter(keep);
        lemma_all_kept(rest, keep, entries);
        if are_writable(kept, entries) {
            assert forall|i: int| 0 <= i < earlier.len() implies is_writable(
                #[trigger] earlier[i],
                entries,
            ) by {
                assert(earlier[i] == kept[i]);
            }
            assert forall|i: int| 0 <= i < items.len() && keep(items[i]) implies is_writable(
                #[trigger] items[i],
                entries,
            ) by {
                if i < last {
                    assert(items[i] == rest[i]);
                } else {
                    assert(kept[kept.len() - 1] == items[i]);
                }
            }
        }
        if forall|i: int|
            0 <= i < items.len() && keep(items[i]) ==> is_writable(#[trigger] items[i], entries) {
            assert forall|i: int| 0 <= i < rest.len() && keep(rest[i]) implies is_writable(
                #[trigger] rest[i],
                entries,
            ) by {
                assert(rest[i] == items[i]);
            }
            assert forall|i: int| 0 <= i < kept.len() implies is_writable(
                #[trigger] kept[i],
                entries,
            ) by {
                if i < earlier.len() {
                    assert(kept[i] == earlier[i]);
                } else {
                    assert(kept[i] == items[last]);
                }
            }
        }
    }
}

/// Tests whether the lengths that are compared and the lengths and dates that are
/// written can be.
pub fn can_measure(items: &Vec<PlaylistItem>, infos: &VideoInfos, min_seconds: u64) -> (r: bool)
    requires
        crate::videos::distinct(infos.entries.deep_view()),
    ensures
        r == is_measurable(items.deep_view(), infos.entries.deep_view(), min_seconds),
{
    if min_seconds > 0 && !durations_count(items, infos) {
        return false;
    }
    let ghost all = items.deep_view();
    let ghost entries = infos.entries.deep_view();
    let ghost keep = |item: PlaylistItemModel| min_seconds == 0 || stays(item, entries, min_seconds);
    proof {
        lemma_all_kept(all, keep, entries);
        let strict = |item: PlaylistItemModel| stays(item, entries, min_seconds);
        if min_seconds > 0 {
            assert(keep =~= strict);
        } else {
            lemma_keeping_all(all, keep);
        }
        assert(all.filter(keep) == long_enough(all, entries, min_seconds));
    }
    let mut i: usize = 0;
    while i < items.len()
        invariant
            i <= items.len(),
            all == items.deep_view(),
            entries == infos.entries.deep_view(),
            crate::videos::distinct(entries),
            min_seconds > 0 ==> are_countable(all, entries),
            keep == (|item: PlaylistItemModel|
                min_seconds == 0 || stays(item, entries, min_seconds)),
            all.filter(keep) == long_enough(all, entries, min_seconds),
            are_writable(all.filter(keep), entries) <==> forall|j: int|
                0 <= j < all.len() && keep(all[j]) ==> is_writable(#[trigger] all[j], entries),
            forall|j: int|
                0 <= j < i && keep(all[j]) ==> is_writable(#[trigger] all[j], entries),
        decreases items.len() - i,
    {
        assert(all[i as int] == items@[i as int].deep_view());
        if (min_seconds == 0 || is_long_enough(&items[i], infos, min_seconds)) && !can_be_written(
            &items[i],
            infos,
        ) {
            assert(keep(all[i as int]) && !is_writable(all[i as int], entries));
            return false;
        }
        i += 1;
    }
    true
}

proof fn lemma_keeping_all(
    items: Seq<PlaylistItemModel>,
    keep: spec_fn(PlaylistItemModel) -> bool,
)
    requires
        forall|item: PlaylistItemModel| #[trigger] keep(item),
    ensures
        items.filter(keep) == items,
    decreases items.len(),
{
    reveal(Seq::filter);
    if items.len() > 0 {
        lemma_keeping_all(items.drop_last(), keep);
        assert(keep(items.last()));
        assert(items.filter(keep) =~= items);
    } else {
        assert(items.filter(keep) =~= items);
    }
}

/// Whether a text is the one that is told, or empty if none is.
pub open spec fn tells(shown: Option<String>, told: Option<String>) -> bool {
    &&& shown is Some
    &&& told is Some ==> shown->0@ == told->0@
    &&& told is None ==> shown->0@.len() == 0
}

/// Whether an episode is the one of a video: its title, its description, its author, its
/// date and its picture are those of the item, its link and its lasting name are the address
/// of the video, and its clock shows the length of the video.
pub open spec fn is_episode_of(
    made: FeedItem,
    told: ItemSnippet,
    address: Seq<char>,
    duration: IsoDuration,
) -> bool {
    &&& tells(made.title, told.title)
    &&& tells(made.description, told.description)
    &&& made.author.deep_view() == told.channel_title.deep_view()
    &&& made.link is Some && made.link->0@ == address
    &&& made.guid is Some && made.guid->0.value@ == address && made.guid->0.permalink
    &&& told.published_at matches Some(moment) ==> made.pub_date.deep_view()
        == crate::dates::rfc2822_date(moment.secs, moment.nanos)
    &&& told.published_at is None ==> made.pub_date is None
    &&& made.itunes matches Some(itunes) && {
        &&& tells(itunes.summary, told.description)
        &&& duration.hour >= 0 && duration.minute >= 0 && duration.second >= 0
            ==> itunes.duration is Some && itunes.duration->0@ == crate::duration::seconds_text(
            (3600 * duration.hour + 60 * duration.minute + duration.second) as nat,
        )
        &&& match told.thumbnails {
            Some(all) => crate::playlist::is_picture_of(itunes.image.deep_view(), all),
            None => itunes.image is None,
        }
    }
}

proof fn lemma_described(
    snippet: ItemSnippet,
    address: Seq<char>,
    duration: IsoDuration,
    made: FeedItem,
)
    requires
        made.deep_view() == described_episode(
            snippet.deep_view(),
            address,
            date_text(snippet.published_at),
            duration,
        ),
    ensures
        is_episode_of(made, snippet, address, duration),
{
    if duration.hour >= 0 && duration.minute >= 0 && duration.second >= 0 {
        crate::duration::lengths_add_up(duration);
    }
    if snippet.thumbnails is Some {
        crate::playlist::the_best_picture_is_shown(snippet.thumbnails->0);
    }
}

/// A feed of one item whose video has a known length holds the one episode of that video if
/// the video lasts as long as is demanded, and none otherwise. The episode links to where the
/// video is watched: to that very address if the identifier is made of letters, digits,
/// hyphens and underscores, and else to its normal form, if it can be read at all.
pub proof fn one_video_makes_one_episode(
    show: FeedHead,
    items: Vec<PlaylistItem>,
    infos: &VideoInfos,
    min_seconds: u64,
    feed: Feed,
    at: int,
)
    requires
        call_ensures(build_feed, (show, items, infos, min_seconds), feed),
        items@.len() == 1,
        items@[0].snippet matches Some(told) && told.resource_id matches Some(resource)
            && resource.video_id matches Some(id) && infos.entries@[at].0@ == id@,
        0 <= at < infos.entries@.len(),
        forall|i: int, j: int|
            0 <= i < j < infos.entries@.len() ==> (#[trigger] infos.entries@[i]).0@ != (
            #[trigger] infos.entries@[j]).0@,
        infos.entries@[at].1.duration.hour >= 0,
        infos.entries@[at].1.duration.minute >= 0,
        infos.entries@[at].1.duration.second >= 0,
    ensures
        ({
            let told = items@[0].snippet->0;
            let id = told.resource_id->0.video_id->0@;
            let watch = "https://www.youtube.com/watch?v="@ + id;
            let length = infos.entries@[at].1.duration;
            let plain = forall|i: int|
                0 <= i < id.len() ==> {
                    ||| 'a' <= #[trigger] id[i] <= 'z'
                    ||| 'A' <= id[i] <= 'Z'
                    ||| '0' <= id[i] <= '9'
                    ||| id[i] == '-'
                    ||| id[i] == '_'
                };
            if 3600 * length.hour + 60 * length.minute + length.second < min_seconds {
                feed.items@.len() == 0
            } else if plain {
                feed.items@.len() == 1 && is_episode_of(feed.items@[0], told, watch, length)
            } else {
                match crate::address::url_parse(watch) {
                    Ok(address) => feed.items@.len() == 1 && is_episode_of(
                        feed.items@[0],
                        told,
                        address.text,
                        length,
                    ),
                    Err(_) => feed.items@.len() == 0,
                }
            }
        }),
{
    let told = items@[0].snippet->0;
    let id = told.resource_id->0.video_id->0@;
    let length = infos.entries@[at].1.duration;
    let entries = infos.entries.deep_view();
    let models = items.deep_view();
    let item = items@[0].deep_view();
    assert(models[0] == item);
    assert(models.len() == 1);
    assert forall|i: int, j: int| 0 <= i < j < entries.len() implies (#[trigger] entries[i]).0 != (
    #[trigger] entries[j]).0 by {
        assert(entries[i].0 == infos.entries@[i].0@);
        assert(entries[j].0 == infos.entries@[j].0@);
    }
    assert(entries[at].0 == infos.entries@[at].0@);
    assert(entries[at].1 == infos.entries@[at].1.deep_view());
    crate::videos::entries_tell_of_their_videos(entries, id, at);
    assert(item.video() == Some(id));
    assert(item_info(item, entries) == Some(entries[at].1));
    crate::duration::lengths_add_up(length);
    let kept = long_enough(models, entries, min_seconds);
    reveal(Seq::filter);
    reveal_with_fuel(Seq::filter, 2);
    reveal_with_fuel(episodes, 2);
    assert(models.drop_last() =~= Seq::<PlaylistItemModel>::empty());
    assert(feed.items.deep_view().len() == feed.items@.len());
    if 3600 * length.hour + 60 * length.minute + length.second >= min_seconds {
        assert(kept =~= models);
        assert(kept.drop_last() =~= Seq::<PlaylistItemModel>::empty());
        assert(has_plain_video(item) ==> episode(kept[0], entries) == watch_episode(
            kept[0],
            entries,
        ));
        if let Some(made) = episode(item, entries) {
            assert(feed.items.deep_view() =~= seq![made]);
            assert(feed.items.deep_view()[0] == feed.items@[0].deep_view());
            lemma_described(told, made.link->0, length, feed.items@[0]);
        }
    } else {
        assert(kept =~= Seq::<PlaylistItemModel>::empty());
    }
}

/// An item that says nothing of itself, or stands for no video, or for one of which
/// nothing is known, makes no episode, whatever length is demanded.
pub proof fn unknown_videos_make_no_episode(
    show: FeedHead,
    items: Vec<PlaylistItem>,
    infos: &VideoInfos,
    min_seconds: u64,
    feed: Feed,
)
    requires
        call_ensures(build_feed, (show, items, infos, min_seconds), feed),
        items@.len() == 1,
        items@[0].snippet matches Some(told) ==> match told.resource_id {
            Some(resource) => match resource.video_id {
                Some(id) => forall|i: int|
                    0 <= i < infos.entries@.len() ==> (#[trigger] infos.entries@[i]).0@ != id@,
                None => true,
            },
            None => true,
        },
    ensures
        feed.items@.len() == 0,
{
    let entries = infos.entries.deep_view();
    let models = items.deep_view();
    let item = items@[0].deep_view();
    assert(models[0] == item);
    reveal_with_fuel(Seq::filter, 2);
    reveal_with_fuel(episodes, 2);
    assert(models.drop_last() =~= Seq::<PlaylistItemModel>::empty());
    assert(episode(item, entries) is None) by {
        if item.video() is Some {
            let id = item.video()->0;
            assert forall|i: int| 0 <= i < entries.len() implies (#[trigger] entries[i]).0
                != id by {
                assert(entries[i].0 == infos.entries@[i].0@);
            }
            crate::videos::lemma_no_info(entries, id);
        }
    }
    let kept = long_enough(models, entries, min_seconds);
    assert(kept =~= models || kept =~= Seq::<PlaylistItemModel>::empty());
    assert(kept.len() == 1 ==> kept.drop_last() =~= Seq::<PlaylistItemModel>::empty());
    assert(feed.items.deep_view().len() == feed.items@.len());
}

proof fn lemma_episodes_of_parts(
    first: Seq<PlaylistItemModel>,
    others: Seq<PlaylistItemModel>,
    entries: Entries,
)
    ensures
        episodes(first + others, entries) == episodes(first, entries) + episodes(others, entries),
    decreases others.len(),
{
    if others.len() == 0 {
        assert(first + others =~= first);
        assert(episodes(first, entries) + episodes(others, entries) =~= episodes(first, entries));
    } else {
        let all = first + others;
        assert(all.drop_last() =~= first + others.drop_last());
        assert(all.last() == others.last());
        lemma_episodes_of_parts(first, others.drop_last(), entries);
        assert(episodes(all, entries) =~= episodes(first, entries) + episodes(others, entries));
    }
}

/// The episodes of a feed follow the items of the playlist: those of the first items come
/// first, then those of the others, and each item makes the same episode wherever it
/// stands.
pub proof fn episodes_follow_the_playlist(
    shows: (FeedHeadModel, FeedHeadModel, FeedHeadModel),
    first: Seq<PlaylistItemModel>,
    others: Seq<PlaylistItemModel>,
    entries: Entries,
    min_seconds: u64,
    feeds: (FeedModel, FeedModel, FeedModel),
)
    requires
        is_feed_of(shows.0, first, entries, min_seconds, feeds.0),
        is_feed_of(shows.1, others, entries, min_seconds, feeds.1),
        is_feed_of(shows.2, first + others, entries, min_seconds, feeds.2),
    ensures
        feeds.2.items == feeds.0.items + feeds.1.items,
{
    let keep = |item: PlaylistItemModel| stays(item, entries, min_seconds);
    if min_seconds > 0 {
        Seq::filter_distributes_over_add(first, others, keep);
    }
    lemma_episodes_of_parts(
        long_enough(first, entries, min_seconds),
        long_enough(others, entries, min_seconds),
        entries,
    );
}

/// A feed is headed by its show: it has the show's title, link, description and language,
/// and what Apple's directory shows of it but for the categories. Its picture is that of
/// Apple's directory.
pub proof fn feeds_are_headed_by_their_shows(
    show: FeedHead,
    items: Vec<PlaylistItem>,
    infos: &VideoInfos,
    min_seconds: u64,
    feed: Feed,
)
    requires
        call_ensures(build_feed, (show, items, infos, min_seconds), feed),
    ensures
        feed.head.title@ == show.title@,
        feed.head.link@ == show.link@,
        feed.head.description@ == show.description@,
        feed.head.language.deep_view() == show.language.deep_view(),
        show.itunes is None ==> feed.head.itunes is None && feed.head.image is Some
            && feed.head.image->0@.len() == 0,
        show.itunes matches Some(itunes) ==> {
            &&& feed.head.itunes is Some
            &&& feed.head.itunes->0.image.deep_view() == itunes.image.deep_view()
            &&& feed.head.itunes->0.explicit.deep_view() == itunes.explicit.deep_view()
            &&& itunes.image is Some ==> feed.head.image is Some && feed.head.image->0@
                == itunes.image->0@
            &&& itunes.image is None ==> feed.head.image is Some && feed.head.image->0@.len() == 0
        },
{
}

/// The feed of a playlist has the playlist's title and description, in their places.
pub proof fn playlists_name_their_feeds(
    playlist: Playlist,
    show: FeedHead,
    items: Vec<PlaylistItem>,
    infos: &VideoInfos,
    min_seconds: u64,
    feed: Feed,
    t: Seq<char>,
    d: Seq<char>,
)
    requires
        playlist.snippet matches Some(told) && told.title.deep_view() == Some(t)
            && told.description.deep_view() == Some(d),
        call_ensures(crate::playlist::build_channel_from_playlist, (playlist,), show),
        call_ensures(build_feed, (show, items, infos, min_seconds), feed),
    ensures
        show.title@ == t,
        show.description@ == d,
        feed.head.title@ == t,
        feed.head.description@ == d,
{
    crate::playlist::playlists_name_their_shows(playlist, show);
    feeds_are_headed_by_their_shows(show, items, infos, min_seconds, feed);
}

/// The feed of a channel has the channel's title and description, in their places.
pub proof fn channels_name_their_feeds(
    channel: YoutubeChannel,
    show: FeedHead,
    items: Vec<PlaylistItem>,
    infos: &VideoInfos,
    min_seconds: u64,
    feed: Feed,
    t: Seq<char>,
    d: Seq<char>,
)
    requires
        channel.snippet matches Some(told) && told.title.deep_view() == Some(t)
            && told.description.deep_view() == Some(d),
        call_ensures(crate::playlist::build_channel_from_yt_channel, (channel,), show),
        call_ensures(build_feed, (show, items, infos, min_seconds), feed),
    ensures
        show.title@ == t,
        show.description@ == d,
        feed.head.title@ == t,
        feed.head.description@ == d,
{
    crate::playlist::channels_name_their_shows(channel, show);
    feeds_are_headed_by_their_shows(show, items, infos, min_seconds, feed);
}

/// Items whose dates are of the years 0 to 9999, and whose videos last no more than a
/// million million hours, minutes and seconds, can always be measured and written.
pub proof fn ordinary_items_are_measurable(
    items: Seq<PlaylistItemModel>,
    entries: Entries,
    min_seconds: u64,
)
    requires
        forall|i: int|
            0 <= i < items.len() ==> match (#[trigger] items[i]).snippet {
                Some(told) => told.published_at matches Some(moment) ==> -62167219200
                    <= moment.secs <= 253402300799,
                None => true,
            },
        forall|i: int|
            0 <= i < entries.len() ==> {
                let length = (#[trigger] entries[i]).1.duration;
                &&& 0 <= length.hour <= 1_000_000_000_000
                &&& 0 <= length.minute <= 1_000_000_000_000
                &&& 0 <= length.second <= 1_000_000_000_000
            },
    ensures
        is_measurable(items, entries, min_seconds),
{
    assert forall|i: int| 0 <= i < items.len() implies is_writable(#[trigger] items[i], entries)
        && match item_info(items[i], entries) {
        Some(info) => info.duration.is_countable(),
        None => true,
    } by {
        if items[i].date() is Some {
            crate::dates::ordinary_dates_can_be_written(items[i].date()->0);
        }
        if item_info(items[i], entries) is Some {
            let at = lemma_info_is_somewhere(entries, items[i].video()->0);
            crate::duration::ordinary_durations_count(entries[at].1.duration);
        }
    }
    if min_seconds > 0 {
        lemma_all_kept(items, |item: PlaylistItemModel| stays(item, entries, min_seconds), entries);
    }
}

proof fn lemma_info_is_somewhere(entries: Entries, id: Seq<char>) -> (at: int)
    requires
        crate::videos::info_of(entries, id) is Some,
    ensures
        0 <= at < entries.len(),
        crate::videos::info_of(entries, id) == Some(entries[at].1),
    decreases entries.len(),
{
    if entries.last().0 == id {
        entries.len() - 1
    } else {
        lemma_info_is_somewhere(entries.drop_last(), id)
    }
}

/// The feed of a show most of whose videos are in one of YouTube's categories is filed under
/// that category's counterpart, alone.
pub proof fn feeds_are_filed_as_their_videos_are(
    show: FeedHead,
    items: Vec<PlaylistItem>,
    infos: &VideoInfos,
    min_seconds: u64,
    feed: Feed,
    id: &str,
    wanted: (String, Option<String>),
)
    requires
        call_ensures(build_feed, (show, items, infos, min_seconds), feed),
        call_ensures(crate::videos::map_yt_category_to_itunes, (id,), Some(wanted)),
        show.itunes is Some,
        2 * infos.entries.deep_view().filter(
            |entry: (Seq<char>, crate::videos::VideoExtraInfoModel)|
                entry.1.yt_category_id == Some(id@),
        ).len() > infos.entries@.len(),
    ensures
        feed.head.itunes is Some,
        feed.head.itunes->0.categories@.len() == 1,
        feed.head.itunes->0.categories@[0].primary@ == wanted.0@,
        feed.head.itunes->0.categories@[0].secondary.deep_view() == wanted.1.deep_view(),
{
    let entries = infos.entries.deep_view();
    assert(entries.len() == infos.entries@.len());
    let before = show.deep_view();
    let filed = choose|filed: FeedHeadModel|
        #![trigger show_head(filed)]
        crate::videos::is_filed(entries, before, filed) && feed.deep_view().head == show_head(filed);
    let category = crate::videos::itunes_category(id@)->0;
    crate::videos::most_videos_decide_the_category(entries, before, filed, id@, category);
    let categories = feed.head.itunes->0.categories;
    assert(categories.deep_view() == seq![category]);
    assert(categories.deep_view().len() == categories@.len());
    assert(categories.deep_view()[0] == categories@[0].deep_view());
}

/// An episode says what its item says, at the address, the date and with the clock of the
/// length that it is given.
pub proof fn episodes_are_described_by_their_items(
    snippet: ItemSnippet,
    address: String,
    duration: &IsoDuration,
    r: FeedItem,
)
    requires
        snippet.published_at is None,
        call_ensures(describe_episode, (snippet, address, None::<String>, duration), r),
    ensures
        is_episode_of(r, snippet, address@, *duration),
{
    lemma_described(snippet, address@, *duration, r);
}

/// Where no length is demanded no item is left out.
pub proof fn nothing_is_too_short_without_a_minimum(
    items: Vec<PlaylistItem>,
    infos: &VideoInfos,
    r: Vec<PlaylistItem>,
)
    requires
        call_ensures(without_short_items, (items, infos, 0u64), r),
    ensures
        r.deep_view() == items.deep_view(),
{
}

} // verus!

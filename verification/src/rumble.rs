//! The provider for Rumble: which addresses it serves, what yt-dlp is asked and
//! answers, and the feeds that are made of its answers.
use crate::configs::{Conf, ConfErrorModel, ConfName};
use crate::dates::Moment;
use crate::feed::{Feed, FeedHead, FeedHeadModel, FeedItem, FeedItemModel, FeedModel, Guid, GuidModel};
use crate::json::{Json, JsonTree};
use vstd::prelude::*;

verus! {

/// The provider for Rumble.
#[derive(Debug, PartialEq, Eq)]
pub struct RumbleProvider;

impl Default for RumbleProvider {
    fn default() -> (r: RumbleProvider)
        ensures
            r == RumbleProvider,
    {
        RumbleProvider
    }
}

/// The patterns of the addresses that Rumble's provider may be asked for.
pub open spec fn rumble_patterns() -> Seq<Seq<char>> {
    seq![crate::pattern::RUMBLE_CHANNEL@]
}

/// The extra arguments that a setting gives; none if it cannot be read.
pub open spec fn extra_words(setting: Result<Seq<char>, ConfErrorModel>) -> Seq<Seq<char>> {
    match setting {
        Ok(text) => match crate::json::json_strings(text) {
            Some(words) => words,
            None => Seq::empty(),
        },
        Err(_) => Seq::empty(),
    }
}

fn read_extra_words<C: Conf>(conf: &C, key: ConfName) -> (r: Vec<String>)
    ensures
        r.deep_view() == extra_words(conf.setting(key)),
{
    let none: Vec<String> = Vec::new();
    assert(none.deep_view() =~= Seq::<Seq<char>>::empty());
    match conf.get(key) {
        Ok(text) => match crate::json::parse_strings(text.as_str()) {
            Some(words) => words,
            None => none,
        },
        Err(_) => none,
    }
}

/// What yt-dlp is asked, to list the videos of a channel.
pub open spec fn list_words(
    address: Seq<char>,
    max_results: nat,
    extra: Seq<Seq<char>>,
) -> Seq<Seq<char>> {
    seq![
        "--no-warnings"@,
        "--flat-playlist"@,
        "--dump-json"@,
        "--playlist-end"@,
        crate::numerals::digits_of(max_results),
    ] + extra + seq![address]
}

/// What yt-dlp is asked, to print where the sound of a video is.
pub open spec fn get_url_words(address: Seq<char>, extra: Seq<Seq<char>>) -> Seq<Seq<char>> {
    seq!["-g"@, "--no-warnings"@, "-f"@, "bestaudio/best"@, "--no-playlist"@] + extra + seq![
        address,
    ]
}

/// The documents in some lines: one in each line, but for lines that are only white
/// space or no JSON.
pub open spec fn documents_in(lines: Seq<Seq<char>>) -> Seq<JsonTree>
    decreases lines.len(),
{
    if lines.len() == 0 {
        Seq::empty()
    } else {
        let rest = documents_in(lines.drop_last());
        match crate::json::document_in(lines.last()) {
            Some(document) if crate::text::trimmed(lines.last()).len() > 0 => rest.push(document),
            _ => rest,
        }
    }
}

/// The first text that a document has under one of three names.
pub open spec fn text_under(
    document: JsonTree,
    first: Seq<char>,
    second: Seq<char>,
    third: Seq<char>,
) -> Option<Seq<char>> {
    match document.str_at(first) {
        Some(text) => Some(text),
        None => match document.str_at(second) {
            Some(text) => Some(text),
            None => document.str_at(third),
        },
    }
}

fn find_text(document: &Json, first: &str, second: &str, third: &str) -> (r: Option<String>)
    ensures
        r.deep_view() == text_under(document.tree(), first@, second@, third@),
{
    match document.str_at(first) {
        Some(text) => Some(text),
        None => match document.str_at(second) {
            Some(text) => Some(text),
            None => document.str_at(third),
        },
    }
}

/// The name of the channel of a video.
pub open spec fn channel_title(document: JsonTree) -> Seq<char> {
    match text_under(document, "uploader"@, "channel"@, "uploader_id"@) {
        Some(title) => title,
        None => "Rumble"@,
    }
}

/// The address of a video.
pub open spec fn video_link(document: JsonTree) -> Option<Seq<char>> {
    text_under(document, "webpage_url"@, "url"@, "original_url"@)
}

/// Whether a video lasts long enough. If a length is demanded, a video without one
/// does not.
pub open spec fn is_long_enough(document: JsonTree, min_seconds: u64) -> bool {
    match document.u64_at("duration"@) {
        Some(seconds) => seconds >= min_seconds,
        None => min_seconds == 0,
    }
}

/// A number of 64 bits, taken as one with a sign.
pub open spec fn signed(n: u64) -> i64 {
    if n <= i64::MAX {
        n as i64
    } else {
        (n - u64::MAX - 1) as i64
    }
}

fn with_sign(n: u64) -> (r: i64)
    ensures
        r == signed(n),
{
    if n <= i64::MAX as u64 {
        n as i64
    } else {
        -((u64::MAX - n) as i64) - 1
    }
}

/// When a video was published.
pub open spec fn published(document: JsonTree) -> Option<Moment> {
    match document.u64_at("timestamp"@) {
        Some(secs) => Some(Moment { secs: signed(secs), nanos: 0 }),
        None => None,
    }
}

/// The episode that a video makes, given its address and its date.
pub open spec fn described_episode(
    document: JsonTree,
    link: Seq<char>,
    date: Option<Seq<char>>,
) -> FeedItemModel {
    FeedItemModel {
        title: Some(
            match document.str_at("title"@) {
                Some(title) => title,
                None => link,
            },
        ),
        link: Some(link),
        description: document.str_at("description"@),
        author: None,
        pub_date: date,
        guid: match document.str_at("id"@) {
            Some(id) => Some(GuidModel { value: id, permalink: false }),
            None => None,
        },
        itunes: None,
    }
}

/// The episode that a video makes, if it lasts long enough and has an address.
pub open spec fn episode(document: JsonTree, min_seconds: u64) -> Option<FeedItemModel> {
    match video_link(document) {
        Some(link) if is_long_enough(document, min_seconds) => Some(
            described_episode(
                document,
                link,
                match published(document) {
                    Some(moment) => moment.date(),
                    None => None,
                },
            ),
        ),
        _ => None,
    }
}

/// The episodes that some videos make, in their order.
pub open spec fn episodes(documents: Seq<JsonTree>, min_seconds: u64) -> Seq<FeedItemModel>
    decreases documents.len(),
{
    if documents.len() == 0 {
        Seq::empty()
    } else {
        match episode(documents.last(), min_seconds) {
            Some(made) => episodes(documents.drop_last(), min_seconds).push(made),
            None => episodes(documents.drop_last(), min_seconds),
        }
    }
}

/// The feed that the videos of a channel make.
pub open spec fn podcast(address: Seq<char>, documents: Seq<JsonTree>, min_seconds: u64) -> FeedModel {
    FeedModel {
        head: FeedHeadModel {
            title: channel_title(documents[0]),
            link: address,
            description: Seq::empty(),
            language: None,
            image: None,
            itunes: None,
            namespaces: Seq::empty(),
        },
        items: episodes(documents, min_seconds),
    }
}

/// Whether the date of a video can be written, if it makes an episode.
pub open spec fn is_writable(document: JsonTree, min_seconds: u64) -> bool {
    is_long_enough(document, min_seconds) && video_link(document) is Some ==> match published(
        document,
    ) {
        Some(moment) => moment.is_datable(),
        None => true,
    }
}

/// Whether the dates of all the videos that make episodes can be written.
pub open spec fn are_writable(documents: Seq<JsonTree>, min_seconds: u64) -> bool {
    forall|i: int| 0 <= i < documents.len() ==> is_writable(#[trigger] documents[i], min_seconds)
}

/// What is said of a channel without videos.
pub const NO_ITEMS: &'static str =
    "No items returned for Rumble URL (expected /c/<name> or /user/<name>)";

fn published_at(document: &Json) -> (r: Option<Moment>)
    ensures
        r == published(document.tree()),
{
    match document.u64_at("timestamp") {
        Some(secs) => Some(Moment { secs: with_sign(secs), nanos: 0 }),
        None => None,
    }
}

fn lasts_long_enough(document: &Json, min_seconds: u64) -> (r: bool)
    ensures
        r == is_long_enough(document.tree(), min_seconds),
{
    match document.u64_at("duration") {
        Some(seconds) => seconds >= min_seconds,
        None => min_seconds == 0,
    }
}

/// Makes an episode of a video, given its address and its date.
pub fn describe_episode(document: &Json, link: String, date: Option<String>) -> (r: FeedItem)
    ensures
        r.deep_view() == described_episode(document.tree(), link@, date.deep_view()),
{
    let title = match document.str_at("title") {
        Some(title) => title,
        None => link.clone(),
    };
    let guid = match document.str_at("id") {
        Some(id) => Some(Guid { value: id, permalink: false }),
        None => None,
    };
    FeedItem {
        title: Some(title),
        link: Some(link),
        description: document.str_at("description"),
        author: None,
        pub_date: date,
        guid,
        itunes: None,
    }
}

fn build_episode(document: &Json, min_seconds: u64) -> (r: Option<FeedItem>)
    requires
        is_writable(document.tree(), min_seconds),
    ensures
        r.deep_view() == episode(document.tree(), min_seconds),
{
    if !lasts_long_enough(document, min_seconds) {
        return None;
    }
    let link = match find_text(document, "webpage_url", "url", "original_url") {
        Some(link) => link,
        None => return None,
    };
    let date = match published_at(document) {
        Some(moment) => moment.write_date(),
        None => None,
    };
    Some(describe_episode(document, link, date))
}

impl RumbleProvider {
    /// The patterns of the addresses of channels.
    pub fn channel_url_regexes() -> (r: Vec<String>)
        ensures
            r.deep_view() == rumble_patterns(),
    {
        let r: Vec<String> = vec![crate::pattern::RUMBLE_CHANNEL.to_string()];
        assert(r.deep_view() =~= rumble_patterns());
        r
    }

    /// The patterns of the addresses that the provider may be asked for.
    pub fn domain_whitelist_regexes(&self) -> (r: Vec<String>)
        ensures
            r.deep_view() == rumble_patterns(),
    {
        Self::channel_url_regexes()
    }

    /// Whether the provider may be asked for an address: it is that of a channel, and
    /// the pattern matches it.
    pub fn serves(&self, address: &str) -> (r: bool)
        ensures
            r == crate::pattern::is_rumble_channel(address@),
            crate::whitelist::first_answer(rumble_patterns(), address@, 0) == Ok::<bool, nat>(r),
    {
        proof {
            reveal_with_fuel(crate::whitelist::first_answer, 2);
        }
        matches!(crate::pattern::is_match(crate::pattern::RUMBLE_CHANNEL, address), Ok(true))
    }

    /// The extra arguments for listing the videos of a channel.
    pub fn list_extra_args<C: Conf>(conf: &C) -> (r: Vec<String>)
        ensures
            r.deep_view() == extra_words(conf.setting(ConfName::RumbleYtDlpListExtraArgs)),
    {
        read_extra_words(conf, ConfName::RumbleYtDlpListExtraArgs)
    }

    /// The extra arguments for finding the sound of a video.
    pub fn get_url_extra_args<C: Conf>(conf: &C) -> (r: Vec<String>)
        ensures
            r.deep_view() == extra_words(conf.setting(ConfName::RumbleYtDlpGetUrlExtraArgs)),
    {
        read_extra_words(conf, ConfName::RumbleYtDlpGetUrlExtraArgs)
    }

    /// What yt-dlp is asked, to list the videos of a channel, with extra arguments.
    pub fn list_command(address: &str, max_results: usize, extra: Vec<String>) -> (r: Vec<String>)
        ensures
            r.deep_view() == list_words(address@, max_results as nat, extra.deep_view()),
    {
        let mut extra = extra;
        let ghost told = extra.deep_view();
        let mut words: Vec<String> = vec![
            "--no-warnings".to_string(),
            "--flat-playlist".to_string(),
            "--dump-json".to_string(),
            "--playlist-end".to_string(),
            crate::numerals::write_number(max_results as u64),
        ];
        words.append(&mut extra);
        words.push(address.to_string());
        assert(words.deep_view() =~= list_words(address@, max_results as nat, told));
        words
    }

    /// What yt-dlp is asked, to list the videos of a channel.
    pub fn list_arguments<C: Conf>(conf: &C, address: &str, max_results: usize) -> (r: Vec<String>)
        ensures
            r.deep_view() == list_words(
                address@,
                max_results as nat,
                extra_words(conf.setting(ConfName::RumbleYtDlpListExtraArgs)),
            ),
    {
        Self::list_command(address, max_results, Self::list_extra_args(conf))
    }

    /// What yt-dlp is asked, to print where the sound of a video is, with extra
    /// arguments.
    pub fn get_url_command(address: &str, extra: Vec<String>) -> (r: Vec<String>)
        ensures
            r.deep_view() == get_url_words(address@, extra.deep_view()),
    {
        let mut extra = extra;
        let ghost told = extra.deep_view();
        let mut words: Vec<String> = vec![
            "-g".to_string(),
            "--no-warnings".to_string(),
            "-f".to_string(),
            "bestaudio/best".to_string(),
            "--no-playlist".to_string(),
        ];
        words.append(&mut extra);
        words.push(address.to_string());
        assert(words.deep_view() =~= get_url_words(address@, told));
        words
    }

    /// What yt-dlp is asked, to print where the sound of a video is.
    pub fn get_url_arguments<C: Conf>(conf: &C, address: &str) -> (r: Vec<String>)
        ensures
            r.deep_view() == get_url_words(
                address@,
                extra_words(conf.setting(ConfName::RumbleYtDlpGetUrlExtraArgs)),
            ),
    {
        Self::get_url_command(address, Self::get_url_extra_args(conf))
    }

    /// The documents in the lines of a text.
    pub fn entries_in(text: &str) -> (r: Vec<Json>)
        ensures
            crate::json::trees(r@) == documents_in(crate::text::lines_of(text@)),
    {
        let lines = crate::text::lines(text);
        let mut entries: Vec<Json> = Vec::new();
        let mut i: usize = 0;
        let ghost all = lines.deep_view();
        assert(all.take(0) =~= Seq::<Seq<char>>::empty());
        assert(crate::json::trees(entries@) =~= Seq::<JsonTree>::empty());
        while i < lines.len()
            invariant
                i <= lines.len(),
                all == lines.deep_view(),
                crate::json::trees(entries@) == documents_in(all.take(i as int)),
            decreases lines.len() - i,
        {
            assert(all[i as int] == lines@[i as int]@);
            assert(all.take(i + 1).drop_last() =~= all.take(i as int));
            let ghost before = crate::json::trees(entries@);
            if !crate::text::trim(lines[i].as_str()).as_str().is_empty() {
                if let Some(document) = crate::json::parse_json(lines[i].as_str()) {
                    let ghost told = document.tree();
                    entries.push(document);
                    assert(crate::json::trees(entries@) =~= before.push(told));
                }
            }
            i += 1;
        }
        assert(all.take(i as int) =~= all);
        entries
    }

    /// The videos of a channel, from what yt-dlp printed.
    pub fn printed_entries(success: bool, stdout: &[u8], stderr: &[u8]) -> (r: Result<
        Vec<Json>,
        String,
    >)
        ensures
            match r {
                Ok(entries) => success && crate::json::trees(entries@) == documents_in(
                    crate::text::lines_of(crate::text::lossy_text(stdout@)),
                ),
                Err(e) => !success && e@ == "yt-dlp list failed: "@ + crate::text::lossy_text(
                    stderr@,
                ),
            },
    {
        if !success {
            return Err(
                crate::text::join(
                    "yt-dlp list failed: ",
                    crate::text::utf8_lossy(stderr).as_str(),
                ),
            );
        }
        Ok(Self::entries_in(crate::text::utf8_lossy(stdout).as_str()))
    }

    /// Tests whether the dates of all the videos that make episodes can be written.
    pub fn dates_can_be_written(entries: &Vec<Json>, min_seconds: u64) -> (r: bool)
        ensures
            r == are_writable(crate::json::trees(entries@), min_seconds),
    {
        let mut i: usize = 0;
        let ghost all = crate::json::trees(entries@);
        while i < entries.len()
            invariant
                i <= entries.len(),
                all == crate::json::trees(entries@),
                forall|j: int| 0 <= j < i ==> is_writable(#[trigger] all[j], min_seconds),
            decreases entries.len() - i,
        {
            assert(all[i as int] == entries@[i as int].tree());
            if lasts_long_enough(&entries[i], min_seconds) && find_text(
                &entries[i],
                "webpage_url",
                "url",
                "original_url",
            ).is_some() {
                if let Some(moment) = published_at(&entries[i]) {
                    if !moment.dates() {
                        return false;
                    }
                }
            }
            i += 1;
        }
        true
    }

    /// Makes a feed of the videos of a channel; there must be some.
    pub fn build_feed(address: &str, entries: &Vec<Json>, min_seconds: u64) -> (r: Result<
        Feed,
        String,
    >)
        requires
            are_writable(crate::json::trees(entries@), min_seconds),
        ensures
            match r {
                Ok(feed) => entries.len() > 0 && feed.deep_view() == podcast(
                    address@,
                    crate::json::trees(entries@),
                    min_seconds,
                ),
                Err(e) => entries.len() == 0 && e@ == NO_ITEMS@,
            },
    {
        if entries.len() == 0 {
            return Err(NO_ITEMS.to_string());
        }
        let title = match find_text(&entries[0], "uploader", "channel", "uploader_id") {
            Some(title) => title,
            None => "Rumble".to_string(),
        };
        let mut items: Vec<FeedItem> = Vec::new();
        let mut i: usize = 0;
        let ghost all = crate::json::trees(entries@);
        assert(all[0] == entries@[0].tree());
        assert(all.take(0) =~= Seq::<JsonTree>::empty());
        assert(items.deep_view() =~= Seq::<FeedItemModel>::empty());
        while i < entries.len()
            invariant
                i <= entries.len(),
                all == crate::json::trees(entries@),
                are_writable(all, min_seconds),
                items.deep_view() == episodes(all.take(i as int), min_seconds),
            decreases entries.len() - i,
        {
            assert(all[i as int] == entries@[i as int].tree());
            assert(all.take(i + 1).drop_last() =~= all.take(i as int));
            let ghost before = items.deep_view();
            if let Some(item) = build_episode(&entries[i], min_seconds) {
                let ghost made = item.deep_view();
                items.push(item);
                assert(items.deep_view() =~= before.push(made));
            }
            i += 1;
        }
        assert(all.take(i as int) =~= all);
        let head = FeedHead {
            title,
            link: address.to_string(),
            description: String::new(),
            language: None,
            image: None,
            itunes: None,
            namespaces: Vec::new(),
        };
        assert(head.namespaces.deep_view() =~= Seq::empty());
        Ok(Feed { head, items })
    }

    /// Writes a feed of the videos of a channel.
    pub fn build_rss(address: &str, entries: &Vec<Json>, min_seconds: u64) -> (r: Result<
        String,
        String,
    >)
        requires
            are_writable(crate::json::trees(entries@), min_seconds),
        ensures
            match r {
                Ok(text) => {
                    let feed = podcast(address@, crate::json::trees(entries@), min_seconds);
                    &&& entries.len() > 0
                    &&& crate::feed::rss_bytes(crate::feed::channel_of(feed)) is Some
                    &&& text@ == crate::feed::feed_text(feed)
                },
                Err(e) => if entries.len() == 0 {
                    e@ == NO_ITEMS@
                } else {
                    &&& crate::feed::rss_bytes(
                        crate::feed::channel_of(podcast(address@, crate::json::trees(entries@), min_seconds)),
                    ) is None
                    &&& exists|why: rss::Error|
                        e@ == "failed writing rss: "@ + #[trigger] crate::feed::rss_error_text(why)
                },
            },
    {
        match Self::build_feed(address, entries, min_seconds) {
            Ok(feed) => crate::feed::try_render(feed),
            Err(e) => Err(e),
        }
    }

    /// Where the sound of a video is, from what yt-dlp printed: the first line that is
    /// more than white space.
    pub fn printed_media_url(success: bool, stdout: &[u8], stderr: &[u8]) -> (r: Result<
        String,
        String,
    >)
        ensures
            match r {
                Ok(line) => success && crate::text::filled_line(
                    crate::text::lines_of(crate::text::lossy_text(stdout@)),
                ) == Some(line@),
                Err(e) => if success {
                    &&& crate::text::filled_line(
                        crate::text::lines_of(crate::text::lossy_text(stdout@)),
                    ) is None
                    &&& e@ == "yt-dlp did not return a URL"@
                } else {
                    e@ == "yt-dlp get-url failed: "@ + crate::text::lossy_text(stderr@)
                },
            },
    {
        if !success {
            return Err(
                crate::text::join(
                    "yt-dlp get-url failed: ",
                    crate::text::utf8_lossy(stderr).as_str(),
                ),
            );
        }
        match crate::text::first_filled_line(crate::text::utf8_lossy(stdout).as_str()) {
            Some(line) => Ok(line),
            None => Err("yt-dlp did not return a URL".to_string()),
        }
    }
}

/// If a length is demanded, every episode is that of a video that lasts as long, and
/// every such video with an address makes one.
pub proof fn short_videos_make_no_episodes(documents: Seq<JsonTree>, min_seconds: u64)
    ensures
        forall|made: FeedItemModel| #[trigger]
            episodes(documents, min_seconds).contains(made) <==> exists|i: int|
                0 <= i < documents.len() && is_long_enough(#[trigger] documents[i], min_seconds)
                    && episode(documents[i], min_seconds) == Some(made),
    decreases documents.len(),
{
    let all = episodes(documents, min_seconds);
    if documents.len() > 0 {
        let rest = documents.drop_last();
        let earlier = episodes(rest, min_seconds);
        short_videos_make_no_episodes(rest, min_seconds);
        assert forall|made: FeedItemModel| #[trigger] all.contains(made) implies exists|i: int|
            0 <= i < documents.len() && is_long_enough(#[trigger] documents[i], min_seconds)
                && episode(documents[i], min_seconds) == Some(made) by {
            let at = choose|at: int| 0 <= at < all.len() && all[at] == made;
            if at < earlier.len() {
                assert(earlier[at] == made);
                assert(earlier.contains(made));
                let i = choose|i: int|
                    0 <= i < rest.len() && is_long_enough(#[trigger] rest[i], min_seconds)
                        && episode(rest[i], min_seconds) == Some(made);
                assert(documents[i] == rest[i]);
            } else {
                assert(episode(documents[documents.len() - 1], min_seconds) == Some(made));
            }
        }
        assert forall|made: FeedItemModel|
            (exists|i: int|
                0 <= i < documents.len() && is_long_enough(#[trigger] documents[i], min_seconds)
                    && episode(documents[i], min_seconds) == Some(made)) implies
            #[trigger] all.contains(made) by {
            let i = choose|i: int|
                0 <= i < documents.len() && is_long_enough(#[trigger] documents[i], min_seconds)
                    && episode(documents[i], min_seconds) == Some(made);
            if i < rest.len() {
                assert(rest[i] == documents[i]);
                assert(earlier.contains(made));
                let at = choose|at: int| 0 <= at < earlier.len() && earlier[at] == made;
                assert(all[at] == made);
            } else {
                assert(all.last() == made);
            }
        }
    }
}

/// Whether a video has an address: a text under `webpage_url`, `url` or `original_url`.
pub open spec fn has_address(document: JsonTree) -> bool {
    ||| document.get("webpage_url"@) matches Some(JsonTree::Str(_))
    ||| document.get("url"@) matches Some(JsonTree::Str(_))
    ||| document.get("original_url"@) matches Some(JsonTree::Str(_))
}

/// A video makes an episode exactly if it has an address and the number of seconds under
/// `duration` is the minimum or more. Without a minimum every video with an address makes
/// one; with one, a video without such a number makes none.
pub proof fn videos_are_listed_by_their_length(document: JsonTree, min_seconds: u64)
    ensures
        document.get("duration"@) matches Some(JsonTree::UInt(seconds)) ==> (episode(
            document,
            min_seconds,
        ) is Some <==> has_address(document) && seconds >= min_seconds),
        !(document.get("duration"@) matches Some(JsonTree::UInt(_))) ==> (episode(
            document,
            min_seconds,
        ) is Some <==> has_address(document) && min_seconds == 0),
        min_seconds == 0 ==> (episode(document, min_seconds) is Some <==> has_address(document)),
{
}

/// An episode has the title of its video, or its address if there is no title, links to
/// the first of its addresses, and keeps its description and its identifier.
pub proof fn episodes_say_what_videos_say(document: JsonTree, min_seconds: u64)
    ensures
        episode(document, min_seconds) matches Some(made) ==> {
            &&& made.link == match document.get("webpage_url"@) {
                Some(JsonTree::Str(address)) => Some(address),
                _ => match document.get("url"@) {
                    Some(JsonTree::Str(address)) => Some(address),
                    _ => match document.get("original_url"@) {
                        Some(JsonTree::Str(address)) => Some(address),
                        _ => None,
                    },
                },
            }
            &&& made.link is Some
            &&& made.title == match document.get("title"@) {
                Some(JsonTree::Str(title)) => Some(title),
                _ => made.link,
            }
            &&& made.description == match document.get("description"@) {
                Some(JsonTree::Str(text)) => Some(text),
                _ => None,
            }
            &&& made.guid == match document.get("id"@) {
                Some(JsonTree::Str(id)) => Some(GuidModel { value: id, permalink: false }),
                _ => None,
            }
            &&& match document.get("timestamp"@) {
                Some(JsonTree::UInt(n)) => made.pub_date == crate::dates::rfc2822_date(
                    if n < 0x8000_0000_0000_0000 {
                        n as i64
                    } else {
                        (n - 0x1_0000_0000_0000_0000) as i64
                    },
                    0,
                ),
                _ => made.pub_date is None,
            }
            &&& made.author is None && made.itunes is None
        },
{
}

/// The episodes of some videos are those of the first ones followed by those of the
/// others, and one video makes one episode or none: none is lost, made twice or moved.
pub proof fn episodes_follow_their_videos(
    first: Seq<JsonTree>,
    others: Seq<JsonTree>,
    document: JsonTree,
    min_seconds: u64,
)
    ensures
        episodes(first + others, min_seconds) == episodes(first, min_seconds) + episodes(
            others,
            min_seconds,
        ),
        episodes(seq![document], min_seconds) == match episode(document, min_seconds) {
            Some(made) => seq![made],
            None => Seq::empty(),
        },
    decreases others.len(),
{
    let one = seq![document];
    assert(one.drop_last() =~= Seq::<JsonTree>::empty());
    reveal_with_fuel(episodes, 2);
    assert(episodes(one, min_seconds) =~= match episode(document, min_seconds) {
        Some(made) => seq![made],
        None => Seq::empty(),
    });
    if others.len() == 0 {
        assert(first + others =~= first);
        assert(episodes(first, min_seconds) + episodes(others, min_seconds) =~= episodes(
            first,
            min_seconds,
        ));
    } else {
        assert((first + others).drop_last() =~= first + others.drop_last());
        episodes_follow_their_videos(first, others.drop_last(), document, min_seconds);
        assert(episodes(first + others, min_seconds) =~= episodes(first, min_seconds) + episodes(
            others,
            min_seconds,
        ));
    }
}

/// The feed of a channel holds an episode of every video that has an address and lasts
/// the minimum or longer, and of no video that is shorter.
pub proof fn feeds_hold_the_long_videos(
    address: Seq<char>,
    documents: Seq<JsonTree>,
    min_seconds: u64,
    at: int,
    seconds: u64,
)
    requires
        0 <= at < documents.len(),
        documents[at].get("duration"@) == Some(JsonTree::UInt(seconds)),
    ensures
        has_address(documents[at]) && seconds >= min_seconds ==> episode(
            documents[at],
            min_seconds,
        ) is Some && podcast(address, documents, min_seconds).items.contains(
            episode(documents[at], min_seconds)->0,
        ),
        seconds < min_seconds ==> podcast(address, documents, min_seconds).items == podcast(
            address,
            documents.take(at) + documents.skip(at + 1),
            min_seconds,
        ).items,
{
    let items = podcast(address, documents, min_seconds).items;
    if has_address(documents[at]) && seconds >= min_seconds {
        let made = episode(documents[at], min_seconds)->0;
        short_videos_make_no_episodes(documents, min_seconds);
        assert(items.contains(made));
    }
    if seconds < min_seconds {
        let one = seq![documents[at]];
        assert(documents =~= documents.take(at) + one + documents.skip(at + 1));
        episodes_follow_their_videos(
            documents.take(at) + one,
            documents.skip(at + 1),
            documents[at],
            min_seconds,
        );
        episodes_follow_their_videos(documents.take(at), one, documents[at], min_seconds);
        episodes_follow_their_videos(
            documents.take(at),
            documents.skip(at + 1),
            documents[at],
            min_seconds,
        );
        assert(items =~= episodes(documents.take(at), min_seconds) + episodes(
            documents.skip(at + 1),
            min_seconds,
        ));
    }
}

/// A feed links to the address that was asked for, and has the name that the first video
/// gives its channel: its `uploader`, its `channel` or its `uploader_id`.
pub proof fn feeds_are_named_after_the_channel(
    address: Seq<char>,
    documents: Seq<JsonTree>,
    min_seconds: u64,
)
    requires
        documents.len() > 0,
    ensures
        ({
            let head = podcast(address, documents, min_seconds).head;
            &&& head.link == address
            &&& head.title == match documents[0].get("uploader"@) {
                Some(JsonTree::Str(name)) => name,
                _ => match documents[0].get("channel"@) {
                    Some(JsonTree::Str(name)) => name,
                    _ => match documents[0].get("uploader_id"@) {
                        Some(JsonTree::Str(name)) => name,
                        _ => "Rumble"@,
                    },
                },
            }
        }),
{
}

/// Every line that yt-dlp prints and that is JSON is a video, in the order in which they
/// are printed; other lines are passed over.
pub proof fn printed_lines_are_videos(
    first: Seq<Seq<char>>,
    others: Seq<Seq<char>>,
    line: Seq<char>,
)
    ensures
        documents_in(first + others) == documents_in(first) + documents_in(others),
        crate::json::json_value(line) is None ==> documents_in(seq![line]).len() == 0,
        crate::json::json_value(line) is Some && (exists|i: int|
            0 <= i < line.len() && '!' <= (#[trigger] line[i]) <= '~') ==> documents_in(seq![line])
            == seq![crate::json::json_tree(crate::json::json_value(line)->0)],
    decreases others.len(),
{
    let one = seq![line];
    assert(one.drop_last() =~= Seq::<Seq<char>>::empty());
    reveal_with_fuel(documents_in, 2);
    if exists|i: int| 0 <= i < line.len() && '!' <= (#[trigger] line[i]) <= '~' {
        let i = choose|i: int| 0 <= i < line.len() && '!' <= (#[trigger] line[i]) <= '~';
        crate::text::what_prints_is_not_blank(line, i);
        if let Some(value) = crate::json::json_value(line) {
            assert(documents_in(one) =~= seq![crate::json::json_tree(value)]);
        }
    }
    if others.len() == 0 {
        assert(first + others =~= first);
        assert(documents_in(first) + documents_in(others) =~= documents_in(first));
    } else {
        assert((first + others).drop_last() =~= first + others.drop_last());
        printed_lines_are_videos(first, others.drop_last(), line);
        assert(documents_in(first + others) =~= documents_in(first) + documents_in(others));
    }
}

/// yt-dlp is asked for the videos at the address, which comes last, and for no more of
/// them than are wanted; extra arguments stand before the address.
pub proof fn listings_are_limited(address: Seq<char>, most: nat, extra: Seq<Seq<char>>)
    ensures
        ({
            let words = list_words(address, most, extra);
            &&& words.last() == address
            &&& words[3] == "--playlist-end"@ && words[4] == crate::numerals::digits_of(most)
            &&& words.subrange(5, words.len() - 1) == extra
            &&& words.take(3) == seq!["--no-warnings"@, "--flat-playlist"@, "--dump-json"@]
        }),
        ({
            let words = get_url_words(address, extra);
            &&& words.last() == address
            &&& words.subrange(5, words.len() - 1) == extra
            &&& words.take(5) == seq![
                "-g"@,
                "--no-warnings"@,
                "-f"@,
                "bestaudio/best"@,
                "--no-playlist"@,
            ]
        }),
{
    let words = list_words(address, most, extra);
    assert(words.subrange(5, words.len() - 1) =~= extra);
    assert(words.take(3) =~= seq!["--no-warnings"@, "--flat-playlist"@, "--dump-json"@]);
    let asked = get_url_words(address, extra);
    assert(asked.subrange(5, asked.len() - 1) =~= extra);
    assert(asked.take(5) =~= seq![
        "-g"@,
        "--no-warnings"@,
        "-f"@,
        "bestaudio/best"@,
        "--no-playlist"@,
    ]);
}

/// A feed of one video with an address holds its episode exactly if the number of seconds
/// under `duration` is the minimum or more, however long that is; with no such number,
/// exactly if there is no minimum. A feed of a video without an address holds none.
pub proof fn a_video_is_listed_by_its_length(
    address: &str,
    entries: &Vec<Json>,
    min_seconds: u64,
    r: Result<Feed, String>,
)
    requires
        call_ensures(RumbleProvider::build_feed, (address, entries, min_seconds), r),
        entries@.len() == 1,
    ensures
        r is Ok,
        ({
            let video = entries@[0].tree();
            let count = r->Ok_0.items@.len();
            &&& !has_address(video) ==> count == 0
            &&& has_address(video) && (video.get("duration"@) matches Some(JsonTree::UInt(_))) ==> (
            if video.get("duration"@)->0->UInt_0 >= min_seconds {
                count == 1
            } else {
                count == 0
            })
            &&& has_address(video) && !(video.get("duration"@) matches Some(JsonTree::UInt(_)))
                ==> (if min_seconds == 0 {
                count == 1
            } else {
                count == 0
            })
        }),
{
    let trees = crate::json::trees(entries@);
    assert(trees =~= seq![entries@[0].tree()]);
    videos_are_listed_by_their_length(trees[0], min_seconds);
    episodes_follow_their_videos(Seq::empty(), Seq::empty(), trees[0], min_seconds);
    assert(r->Ok_0.items.deep_view().len() == r->Ok_0.items@.len());
}

/// The episodes of a feed follow the videos of the channel: those of the first videos come
/// first, then those of the others, and none is lost, made twice or changed.
pub proof fn feeds_follow_their_videos(
    address: &str,
    entries: (&Vec<Json>, &Vec<Json>, &Vec<Json>),
    min_seconds: u64,
    feeds: (Feed, Feed, Feed),
)
    requires
        call_ensures(RumbleProvider::build_feed, (address, entries.0, min_seconds), Ok(feeds.0)),
        call_ensures(RumbleProvider::build_feed, (address, entries.1, min_seconds), Ok(feeds.1)),
        call_ensures(RumbleProvider::build_feed, (address, entries.2, min_seconds), Ok(feeds.2)),
        entries.2@ == entries.0@ + entries.1@,
    ensures
        feeds.2.items.deep_view() == feeds.0.items.deep_view() + feeds.1.items.deep_view(),
        feeds.2.head.title@ == feeds.0.head.title@,
        feeds.2.head.link@ == address@,
        feeds.2.head.description@.len() == 0,
{
    let (a, b, c) = (
        crate::json::trees(entries.0@),
        crate::json::trees(entries.1@),
        crate::json::trees(entries.2@),
    );
    assert(c =~= a + b);
    episodes_follow_their_videos(a, b, JsonTree::Null, min_seconds);
}

/// A feed is made of any videos there are; of none, none is made.
pub proof fn feeds_need_a_video(
    address: &str,
    entries: &Vec<Json>,
    min_seconds: u64,
    r: Result<Feed, String>,
    text: Result<String, String>,
)
    requires
        call_ensures(RumbleProvider::build_feed, (address, entries, min_seconds), r),
        call_ensures(RumbleProvider::build_rss, (address, entries, min_seconds), text),
    ensures
        r is Ok <==> entries@.len() > 0,
        entries@.len() == 0 ==> text is Err && text->Err_0@ == r->Err_0@,
        text is Ok ==> text->Ok_0@ == crate::feed::feed_text(r->Ok_0.deep_view()),
{
}

/// An episode is told what its video tells: its title, or the address if it has none, its
/// description, its identifier, and the address and the date that were found.
pub proof fn episodes_are_described_by_their_videos(
    document: &Json,
    link: String,
    date: Option<String>,
    r: FeedItem,
)
    requires
        call_ensures(describe_episode, (document, link, date), r),
    ensures
        r.title is Some,
        match document.tree().get("title"@) {
            Some(JsonTree::Str(title)) => r.title->0@ == title,
            _ => r.title->0@ == link@,
        },
        r.link is Some && r.link->0@ == link@,
        match document.tree().get("description"@) {
            Some(JsonTree::Str(text)) => r.description is Some && r.description->0@ == text,
            _ => r.description is None,
        },
        match document.tree().get("id"@) {
            Some(JsonTree::Str(id)) => r.guid is Some && r.guid->0.value@ == id
                && !r.guid->0.permalink,
            _ => r.guid is None,
        },
        r.pub_date.deep_view() == date.deep_view(),
        r.author is None && r.itunes is None,
{
}

/// The provider serves a channel or a user of Rumble's by a name of letters, digits, dots,
/// hyphens and underscores, alone or with a path or a query behind it.
pub proof fn channels_are_served(
    provider: &RumbleProvider,
    address: &str,
    head: Seq<char>,
    name: Seq<char>,
    rest: Seq<char>,
    r: bool,
)
    requires
        call_ensures(RumbleProvider::serves, (provider, address), r),
        address@ == head + name + rest,
        head == "https://rumble.com/c/"@ || head == "https://rumble.com/user/"@ || head
            == "https://www.rumble.com/c/"@ || head == "https://www.rumble.com/user/"@ || head
            == "http://rumble.com/c/"@ || head == "http://rumble.com/user/"@ || head
            == "http://www.rumble.com/c/"@ || head == "http://www.rumble.com/user/"@,
        name.len() > 0,
        forall|i: int|
            0 <= i < name.len() ==> 'a' <= (#[trigger] name[i]) <= 'z' || 'A' <= name[i] <= 'Z'
                || '0' <= name[i] <= '9' || name[i] == '.' || name[i] == '-' || name[i] == '_',
        rest.len() > 0 ==> rest[0] == '/' || rest[0] == '?',
        forall|i: int| 0 <= i < rest.len() ==> (#[trigger] rest[i]) != '\n',
    ensures
        r,
{
    let s = address@;
    let (from, to) = (head.len() as int, (head.len() + name.len()) as int);
    assert(s.take(from) =~= head);
    assert forall|i: int| from <= i < to implies crate::pattern::is_name_char(#[trigger] s[i]) by {
        assert(s[i] == name[i - from]);
    }
    assert(to < s.len() ==> s[to] == rest[0]);
    assert forall|i: int| to < i < s.len() implies s[i] != '\n' by {
        assert(s[i] == rest[i - to]);
    }
    assert(crate::pattern::rumble_name_at(s, from, to));
}

/// The provider serves nothing else: what it serves begins with the address of a channel or
/// a user of Rumble's and a character of the name.
pub proof fn only_channels_are_served(provider: &RumbleProvider, address: &str, r: bool)
    requires
        call_ensures(RumbleProvider::serves, (provider, address), r),
        r,
    ensures
        exists|head: Seq<char>, rest: Seq<char>|
            {
                &&& address@ == #[trigger] (head + rest)
                &&& head == "https://rumble.com/c/"@ || head == "https://rumble.com/user/"@ || head
                    == "https://www.rumble.com/c/"@ || head == "https://www.rumble.com/user/"@
                    || head == "http://rumble.com/c/"@ || head == "http://rumble.com/user/"@ || head
                    == "http://www.rumble.com/c/"@ || head == "http://www.rumble.com/user/"@
                &&& rest.len() > 0
                &&& rest[0] != '/' && rest[0] != '?'
            },
{
    let s = address@;
    let (from, to) = choose|from: int, to: int| crate::pattern::rumble_name_at(s, from, to);
    assert(s =~= s.take(from) + s.skip(from));
    assert(crate::pattern::is_name_char(s[from]));
    assert(s == s.take(from) + s.skip(from));
}

/// The first line that yt-dlp prints is where the sound of a video is, if it succeeds; if it
/// fails, what it prints as its error is told. The same holds of a list of videos.
pub proof fn printed_addresses_are_taken(
    success: bool,
    stdout: &[u8],
    stderr: &[u8],
    line: Seq<char>,
    rest: Seq<char>,
    r: Result<String, String>,
    entries: Result<Vec<Json>, String>,
)
    requires
        call_ensures(RumbleProvider::printed_media_url, (success, stdout, stderr), r),
        call_ensures(RumbleProvider::printed_entries, (success, stdout, stderr), entries),
    ensures
        success && crate::text::lossy_text(stdout@) == line + seq!['\n'] + rest && line.len() > 0
            && '!' <= line[0] <= '~' && '!' <= line.last() <= '~' && (forall|i: int|
            0 <= i < line.len() ==> (#[trigger] line[i]) != '\n') ==> r is Ok && r->Ok_0@ == line,
        success <==> entries is Ok,
        !success ==> r is Err && r->Err_0@ == "yt-dlp get-url failed: "@ + crate::text::lossy_text(
            stderr@,
        ),
        !success ==> entries->Err_0@ == "yt-dlp list failed: "@ + crate::text::lossy_text(stderr@),
{
    if crate::text::lossy_text(stdout@) == line + seq!['\n'] + rest && line.len() > 0 && '!'
        <= line[0] <= '~' && '!' <= line.last() <= '~' && (forall|i: int|
        0 <= i < line.len() ==> (#[trigger] line[i]) != '\n') {
        crate::text::lines_end_at_line_feeds(line, rest);
        crate::text::trimming_leaves_what_is_printed(Seq::empty(), line, Seq::empty());
        assert(Seq::<char>::empty() + line + Seq::<char>::empty() =~= line);
    }
}

/// A line that is JSON and ends in a line feed is the first video, and the lines behind it
/// are the others; a line that is no JSON is passed over.
pub proof fn videos_are_printed_line_by_line(
    text: &str,
    line: Seq<char>,
    rest: &str,
    r: Vec<Json>,
    others: Vec<Json>,
)
    requires
        call_ensures(RumbleProvider::entries_in, (text,), r),
        call_ensures(RumbleProvider::entries_in, (rest,), others),
        text@ == line + seq!['\n'] + rest@,
        line.len() > 0,
        line.last() != '\r',
        exists|i: int| 0 <= i < line.len() && '!' <= (#[trigger] line[i]) <= '~',
        forall|i: int| 0 <= i < line.len() ==> (#[trigger] line[i]) != '\n',
    ensures
        crate::json::json_value(line) matches Some(value) ==> crate::json::trees(r@) == seq![
            crate::json::json_tree(value),
        ] + crate::json::trees(others@),
        crate::json::json_value(line) is None ==> crate::json::trees(r@) == crate::json::trees(
            others@,
        ),
{
    crate::text::lines_end_at_line_feeds(line, rest@);
    printed_lines_are_videos(seq![line], crate::text::lines_of(rest@), line);
    if crate::json::json_value(line) is None {
        assert(crate::json::trees(r@) =~= crate::json::trees(others@));
    }
}

/// The dates of videos of the years 1970 to 9999 can always be written.
pub proof fn ordinary_dates_can_be_written(
    entries: &Vec<Json>,
    min_seconds: u64,
    r: bool,
)
    requires
        call_ensures(RumbleProvider::dates_can_be_written, (entries, min_seconds), r),
        forall|i: int|
            0 <= i < entries@.len() ==> match (#[trigger] entries@[i]).tree().get("timestamp"@) {
                Some(JsonTree::UInt(n)) => n <= 253402300799,
                _ => true,
            },
    ensures
        r,
{
    let all = crate::json::trees(entries@);
    assert forall|i: int| 0 <= i < all.len() implies is_writable(
        #[trigger] all[i],
        min_seconds,
    ) by {
        assert(all[i] == entries@[i].tree());
        if published(all[i]) is Some {
            crate::dates::ordinary_dates_can_be_written(published(all[i])->0);
        }
    }
}

/// yt-dlp is asked for no more videos than are wanted, and for those at the address, which
/// comes last; the words of the setting stand before it, and none where it cannot be read.
pub proof fn settings_add_arguments<C: Conf>(
    conf: &C,
    address: &str,
    most: usize,
    list: Vec<String>,
    url: Vec<String>,
    text: Seq<char>,
    i: int,
)
    requires
        call_ensures(RumbleProvider::list_arguments::<C>, (conf, address, most), list),
        call_ensures(RumbleProvider::get_url_arguments::<C>, (conf, address), url),
    ensures
        list@.last()@ == address@ && url@.last()@ == address@,
        list@.len() >= 6 && list@[3]@ == "--playlist-end"@ && list@[4]@
            == crate::numerals::digits_of(most as nat),
        list@[0]@ == "--no-warnings"@ && list@[1]@ == "--flat-playlist"@ && list@[2]@
            == "--dump-json"@,
        url@.len() >= 6 && url@[0]@ == "-g"@ && url@[1]@ == "--no-warnings"@ && url@[2]@ == "-f"@
            && url@[3]@ == "bestaudio/best"@ && url@[4]@ == "--no-playlist"@,
        conf.setting(ConfName::RumbleYtDlpListExtraArgs) is Err ==> list@.len() == 6,
        conf.setting(ConfName::RumbleYtDlpGetUrlExtraArgs) is Err ==> url@.len() == 6,
        conf.setting(ConfName::RumbleYtDlpListExtraArgs) == Ok::<Seq<char>, ConfErrorModel>(text)
            ==> match crate::json::json_strings(text) {
            Some(words) => list@.len() == 6 + words.len() && (0 <= i < words.len() ==> list@[5
                + i]@ == words[i]),
            None => list@.len() == 6,
        },
        conf.setting(ConfName::RumbleYtDlpGetUrlExtraArgs) == Ok::<Seq<char>, ConfErrorModel>(text)
            ==> match crate::json::json_strings(text) {
            Some(words) => url@.len() == 6 + words.len() && (0 <= i < words.len() ==> url@[5 + i]@
                == words[i]),
            None => url@.len() == 6,
        },
{
    let (a, b) = (list.deep_view(), url.deep_view());
    assert(a.len() == list@.len() && b.len() == url@.len());
    assert forall|j: int| 0 <= j < a.len() implies #[trigger] a[j] == list@[j]@ by {}
    assert forall|j: int| 0 <= j < b.len() implies #[trigger] b[j] == url@[j]@ by {}
    assert(a.last() == list@.last()@ && b.last() == url@.last()@);
    assert(a[0] == "--no-warnings"@ && a[1] == "--flat-playlist"@ && a[2] == "--dump-json"@);
    assert(a[3] == "--playlist-end"@ && a[4] == crate::numerals::digits_of(most as nat));
    assert(b[0] == "-g"@ && b[1] == "--no-warnings"@ && b[2] == "-f"@);
    assert(b[3] == "bestaudio/best"@ && b[4] == "--no-playlist"@);
    let words = extra_words(conf.setting(ConfName::RumbleYtDlpListExtraArgs));
    assert(0 <= i < words.len() ==> a[5 + i] == words[i]);
    let words = extra_words(conf.setting(ConfName::RumbleYtDlpGetUrlExtraArgs));
    assert(0 <= i < words.len() ==> b[5 + i] == words[i]);
}

} // verus!

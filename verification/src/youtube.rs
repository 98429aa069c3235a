//! The provider for YouTube: which addresses it serves, where a feed comes from,
//! and what yt-dlp is asked and answers.
use crate::address::{Address, AddressModel};
use crate::configs::{Conf, ConfErrorModel, ConfName};
use crate::feed::{FeedHeadModel, FeedModel};
use crate::playlist::{PlaylistItem, PlaylistItemModel, Source};
use crate::videos::{Entries, VideoInfos};
use vstd::prelude::*;

verus! {

/// The provider for YouTube.
#[derive(Debug, PartialEq, Eq)]
pub struct YoutubeProvider;

/// The patterns of the addresses that YouTube's provider may be asked for.
pub open spec fn youtube_patterns() -> Seq<Seq<char>> {
    seq![
        crate::pattern::YOUTUBE_SUBDOMAIN@,
        crate::pattern::YOUTUBE@,
        crate::pattern::YOUTU_BE@,
        crate::pattern::YOUTU_BE_SUBDOMAIN@,
        crate::pattern::GOOGLEVIDEO@,
    ]
}

impl YoutubeProvider {
    /// The patterns of the addresses that the provider may be asked for.
    pub fn domain_whitelist_regexes(&self) -> (r: Vec<String>)
        ensures
            r.deep_view() == youtube_patterns(),
    {
        let r: Vec<String> = vec![
            crate::pattern::YOUTUBE_SUBDOMAIN.to_string(),
            crate::pattern::YOUTUBE.to_string(),
            crate::pattern::YOUTU_BE.to_string(),
            crate::pattern::YOUTU_BE_SUBDOMAIN.to_string(),
            crate::pattern::GOOGLEVIDEO.to_string(),
        ];
        assert(r.deep_view() =~= youtube_patterns());
        r
    }

    /// Whether the provider may be asked for an address: it is one of YouTube's, and
    /// one of the patterns matches it.
    pub fn serves(&self, address: &str) -> (r: bool)
        ensures
            r == crate::whitelist::is_youtube_address(address@),
            crate::whitelist::first_answer(youtube_patterns(), address@, 0) == Ok::<bool, nat>(r),
    {
        proof {
            reveal_with_fuel(crate::whitelist::first_answer, 6);
        }
        matches!(crate::pattern::is_match(crate::pattern::YOUTUBE_SUBDOMAIN, address), Ok(true))
            || matches!(crate::pattern::is_match(crate::pattern::YOUTUBE, address), Ok(true))
            || matches!(crate::pattern::is_match(crate::pattern::YOUTU_BE, address), Ok(true))
            || matches!(
                crate::pattern::is_match(crate::pattern::YOUTU_BE_SUBDOMAIN, address),
                Ok(true)
            )
            || matches!(crate::pattern::is_match(crate::pattern::GOOGLEVIDEO, address), Ok(true))
    }
}

/// Whether a path begins with a text.
pub open spec fn begins(path: Seq<char>, with: Seq<char>) -> bool {
    crate::text::occurs_at(with, path, 0)
}

/// Whether a path is that of a channel.
pub open spec fn is_channel_path(path: Seq<char>) -> bool {
    ||| begins(path, "/channel/"@)
    ||| begins(path, "/user/"@)
    ||| begins(path, "/c/"@)
    ||| begins(path, "/@"@)
}

fn leads_to_channel(path: &str) -> (r: bool)
    ensures
        r == is_channel_path(path@),
{
    crate::text::starts_with(path, "/channel/") || crate::text::starts_with(path, "/user/")
        || crate::text::starts_with(path, "/c/") || crate::text::starts_with(path, "/@")
}

/// Why no feed can be made of an address.
#[derive(Debug, PartialEq, Eq)]
pub enum BadSource {
    /// The address is of no kind that is known.
    Unsupported,
    /// The address, which is given, is that of a playlist but names none.
    NoPlaylistId(String),
    /// The address that was found for a channel names none.
    NoChannelId,
}

/// A [`BadSource`] with its text as a sequence of characters.
pub enum BadSourceModel {
    Unsupported,
    NoPlaylistId(Seq<char>),
    NoChannelId,
}

impl DeepView for BadSource {
    type V = BadSourceModel;

    open spec fn deep_view(&self) -> BadSourceModel {
        match self {
            BadSource::Unsupported => BadSourceModel::Unsupported,
            BadSource::NoPlaylistId(address) => BadSourceModel::NoPlaylistId(address@),
            BadSource::NoChannelId => BadSourceModel::NoChannelId,
        }
    }
}

impl BadSourceModel {
    /// The reason in words.
    pub open spec fn message(self) -> Seq<char> {
        match self {
            BadSourceModel::Unsupported => "unsupported youtube url"@,
            BadSourceModel::NoPlaylistId(address) => "Failed to parse playlist ID from URL: "@
                + address,
            BadSourceModel::NoChannelId => "could not parse channel id"@,
        }
    }
}

impl BadSource {
    /// The reason in words.
    pub fn message(&self) -> (r: String)
        ensures
            r@ == self.deep_view().message(),
    {
        match self {
            BadSource::Unsupported => "unsupported youtube url".to_string(),
            BadSource::NoPlaylistId(address) => crate::text::join(
                "Failed to parse playlist ID from URL: ",
                address.as_str(),
            ),
            BadSource::NoChannelId => "could not parse channel id".to_string(),
        }
    }
}

/// The playlist that an address names.
pub open spec fn playlist_named(address: AddressModel) -> Result<Seq<char>, BadSourceModel> {
    match crate::address::value_of(address.query, "list"@) {
        Some(id) => Ok(id),
        None => Err(BadSourceModel::NoPlaylistId(address.text)),
    }
}

/// The channel that an address names.
pub open spec fn channel_named(address: AddressModel) -> Result<Seq<char>, BadSourceModel> {
    match crate::address::last_segment(address.segments) {
        Some(id) => Ok(id),
        None => Err(BadSourceModel::NoChannelId),
    }
}

/// A text as a sequence of characters, or why there is none.
pub open spec fn named(r: Result<String, BadSource>) -> Result<Seq<char>, BadSourceModel> {
    match r {
        Ok(text) => Ok(text@),
        Err(e) => Err(e.deep_view()),
    }
}

/// The playlist that an address names.
pub fn playlist_id(address: &Address) -> (r: Result<String, BadSource>)
    ensures
        named(r) == playlist_named(address.deep_view()),
{
    match address.query_value("list") {
        Some(id) => Ok(id),
        None => Err(BadSource::NoPlaylistId(address.text.clone())),
    }
}

/// The channel that an address names, which yt-dlp found for another one.
pub fn channel_id(found: &Address) -> (r: Result<String, BadSource>)
    ensures
        named(r) == channel_named(found.deep_view()),
{
    match found.last_segment() {
        Some(id) => Ok(id),
        None => Err(BadSource::NoChannelId),
    }
}

/// What YouTube's own interface is asked for.
#[derive(Debug, PartialEq, Eq)]
pub enum ApiSource {
    Playlist(String),
    /// A channel, whose address with its identifier yt-dlp has to find.
    Channel,
}

/// An [`ApiSource`] with its text as a sequence of characters.
pub enum ApiSourceModel {
    Playlist(Seq<char>),
    Channel,
}

/// What YouTube's own interface is asked for, by the path of an address.
pub open spec fn api_source_of(address: AddressModel) -> Result<ApiSourceModel, BadSourceModel> {
    if begins(address.path, "/playlist"@) {
        match playlist_named(address) {
            Ok(id) => Ok(ApiSourceModel::Playlist(id)),
            Err(e) => Err(e),
        }
    } else if is_channel_path(address.path) {
        Ok(ApiSourceModel::Channel)
    } else {
        Err(BadSourceModel::Unsupported)
    }
}

/// An [`ApiSource`] with its text as a sequence, or why there is none.
pub open spec fn api_outcome(r: Result<ApiSource, BadSource>) -> Result<
    ApiSourceModel,
    BadSourceModel,
> {
    match r {
        Ok(ApiSource::Playlist(id)) => Ok(ApiSourceModel::Playlist(id@)),
        Ok(ApiSource::Channel) => Ok(ApiSourceModel::Channel),
        Err(e) => Err(e.deep_view()),
    }
}

/// Decides what YouTube's own interface is asked for.
pub fn api_source(address: &Address) -> (r: Result<ApiSource, BadSource>)
    ensures
        api_outcome(r) == api_source_of(address.deep_view()),
{
    let path = address.path.as_str();
    if crate::text::starts_with(path, "/playlist") {
        match playlist_id(address) {
            Ok(id) => Ok(ApiSource::Playlist(id)),
            Err(e) => Err(e),
        }
    } else if leads_to_channel(path) {
        Ok(ApiSource::Channel)
    } else {
        Err(BadSource::Unsupported)
    }
}

/// Where YouTube's Atom feed for an address is.
#[derive(Debug, PartialEq, Eq)]
pub enum AtomSource {
    At(String),
    /// At the address of a channel, whose address with its identifier yt-dlp has to
    /// find.
    Channel,
}

/// Whether the Atom feed for an address is where it should be: the feed of the
/// playlist that the address names, or the address itself if it is that of a feed.
pub open spec fn is_atom_source(address: AddressModel, source: AtomSource) -> bool {
    if begins(address.path, "/playlist"@) {
        match (source, playlist_named(address)) {
            (AtomSource::At(feed), Ok(id)) => crate::address::is_feed_address(
                feed@,
                "playlist_id"@,
                id,
            ),
            _ => false,
        }
    } else if begins(address.path, "/feeds/"@) || (is_channel_path(address.path)
        && crate::text::occurs("feeds/videos.xml"@, address.text)) {
        source matches AtomSource::At(feed) && feed@ == address.text
    } else {
        is_channel_path(address.path) && source is Channel
    }
}

/// Why there is no Atom feed for an address.
pub open spec fn no_atom_source(address: AddressModel) -> Option<BadSourceModel> {
    if begins(address.path, "/playlist"@) {
        match playlist_named(address) {
            Ok(_) => None,
            Err(e) => Some(e),
        }
    } else if begins(address.path, "/feeds/"@) || is_channel_path(address.path) {
        None
    } else {
        Some(BadSourceModel::Unsupported)
    }
}

/// The address of YouTube's feed for the playlist that an address names.
pub fn feed_url_for_yt_playlist(address: &Address) -> (r: Result<String, BadSource>)
    ensures
        match r {
            Ok(feed) => playlist_named(address.deep_view()) matches Ok(id)
                && crate::address::is_feed_address(feed@, "playlist_id"@, id),
            Err(e) => playlist_named(address.deep_view()) == Err::<Seq<char>, BadSourceModel>(
                e.deep_view(),
            ),
        },
{
    match playlist_id(address) {
        Ok(id) => Ok(crate::address::youtube_feed("playlist_id", id.as_str())),
        Err(e) => Err(e),
    }
}

/// The address of YouTube's feed for the channel that an address names.
pub fn feed_url_for_yt_channel(found: &Address) -> (r: Result<String, BadSource>)
    ensures
        match r {
            Ok(feed) => channel_named(found.deep_view()) matches Ok(id)
                && crate::address::is_feed_address(feed@, "channel_id"@, id),
            Err(e) => channel_named(found.deep_view()) == Err::<Seq<char>, BadSourceModel>(
                e.deep_view(),
            ),
        },
{
    match channel_id(found) {
        Ok(id) => Ok(crate::address::youtube_feed("channel_id", id.as_str())),
        Err(e) => Err(e),
    }
}

/// The address of a feed is that feed's.
pub fn feed_url_for_yt_atom(address: &Address) -> (r: String)
    ensures
        r@ == address.text@,
{
    address.text.clone()
}

/// Decides where YouTube's Atom feed for an address is.
pub fn atom_source(address: &Address) -> (r: Result<AtomSource, BadSource>)
    ensures
        match r {
            Ok(source) => no_atom_source(address.deep_view()) is None && is_atom_source(
                address.deep_view(),
                source,
            ),
            Err(e) => no_atom_source(address.deep_view()) == Some(e.deep_view()),
        },
{
    let path = address.path.as_str();
    if crate::text::starts_with(path, "/playlist") {
        match feed_url_for_yt_playlist(address) {
            Ok(feed) => Ok(AtomSource::At(feed)),
            Err(e) => Err(e),
        }
    } else if crate::text::starts_with(path, "/feeds/") {
        Ok(AtomSource::At(feed_url_for_yt_atom(address)))
    } else if leads_to_channel(path) {
        if crate::text::contains(address.text.as_str(), "feeds/videos.xml") {
            Ok(AtomSource::At(feed_url_for_yt_atom(address)))
        } else {
            Ok(AtomSource::Channel)
        }
    } else {
        Err(BadSource::Unsupported)
    }
}

/// Where the feed of an address comes from.
#[derive(Debug, PartialEq, Eq)]
pub enum FeedRoute {
    /// From YouTube's own interface, with the key that is set.
    Interface { api_key: String, source: ApiSource },
    /// From YouTube's Atom feeds, if no key is set.
    Atom(AtomSource),
}

/// Decides where the feed of an address comes from: from YouTube's own interface if a
/// key is set, else from its Atom feeds.
pub fn feed_route<C: Conf>(conf: &C, address: &Address) -> (r: Result<FeedRoute, BadSource>)
    ensures
        match conf.setting(ConfName::YoutubeApiKey) {
            Ok(key) => match api_source_of(address.deep_view()) {
                Ok(source) => r matches Ok(FeedRoute::Interface { api_key, source: found })
                    && api_key@ == key && api_outcome(Ok(found)) == Ok::<
                    ApiSourceModel,
                    BadSourceModel,
                >(source),
                Err(e) => r matches Err(bad) && bad.deep_view() == e,
            },
            Err(_) => match no_atom_source(address.deep_view()) {
                None => r matches Ok(FeedRoute::Atom(found)) && is_atom_source(
                    address.deep_view(),
                    found,
                ),
                Some(e) => r matches Err(bad) && bad.deep_view() == e,
            },
        },
{
    match conf.get(ConfName::YoutubeApiKey) {
        Ok(api_key) => match api_source(address) {
            Ok(source) => Ok(FeedRoute::Interface { api_key, source }),
            Err(e) => Err(e),
        },
        Err(_) => match atom_source(address) {
            Ok(source) => Ok(FeedRoute::Atom(source)),
            Err(e) => Err(e),
        },
    }
}

/// What yt-dlp is asked, to find the address of a channel with its identifier.
pub fn channel_url_arguments(address: &str) -> (r: Vec<String>)
    ensures
        r.deep_view() == seq![
            "--cache-dir"@,
            crate::ytdlp::YT_DLP_CACHE@,
            "--playlist-items"@,
            "0"@,
            "-O"@,
            "playlist:channel_url"@,
            address@,
        ],
{
    let r: Vec<String> = vec![
        "--cache-dir".to_string(),
        crate::ytdlp::YT_DLP_CACHE.to_string(),
        "--playlist-items".to_string(),
        "0".to_string(),
        "-O".to_string(),
        "playlist:channel_url".to_string(),
        address.to_string(),
    ];
    assert(r.deep_view() =~= seq![
        "--cache-dir"@,
        crate::ytdlp::YT_DLP_CACHE@,
        "--playlist-items"@,
        "0"@,
        "-O"@,
        "playlist:channel_url"@,
        address@,
    ]);
    r
}

/// The address that yt-dlp printed for a channel.
pub fn printed_channel_url(stdout: &[u8]) -> (r: String)
    ensures
        r@ == crate::text::trimmed(crate::text::strict_text(stdout@)),
{
    crate::text::trim(crate::text::utf8_or_empty(stdout).as_str())
}

/// What yt-dlp is asked, to print the length of a video.
pub fn duration_arguments(address: &str) -> (r: Vec<String>)
    ensures
        r.deep_view() == seq!["--cache-dir"@, crate::ytdlp::YT_DLP_CACHE@, "--get-duration"@, address@],
{
    let r: Vec<String> = vec![
        "--cache-dir".to_string(),
        crate::ytdlp::YT_DLP_CACHE.to_string(),
        "--get-duration".to_string(),
        address.to_string(),
    ];
    assert(r.deep_view() =~= seq![
        "--cache-dir"@,
        crate::ytdlp::YT_DLP_CACHE@,
        "--get-duration"@,
        address@,
    ]);
    r
}

/// The length of a video in seconds, from what yt-dlp printed; zero if it did not
/// run.
pub fn video_duration(stdout: Option<&[u8]>) -> (r: Option<usize>)
    requires
        stdout matches Some(printed) ==> crate::duration::clock_is_countable(
            crate::text::trimmed(crate::text::strict_text(printed@)),
        ),
    ensures
        r == Some(
            match stdout {
                Some(printed) => crate::duration::printed_duration(printed@) as usize,
                None => 0usize,
            },
        ),
{
    match stdout {
        Some(printed) => Some(crate::duration::read_printed_duration(printed)),
        None => Some(0),
    }
}

/// What yt-dlp is always asked, to print where the sound of a video is.
pub open spec fn stream_url_words(address: Seq<char>) -> Seq<Seq<char>> {
    seq![
        "-f"@,
        "bestaudio/best"@,
        "--get-url"@,
        "--cache-dir"@,
        crate::ytdlp::YT_DLP_CACHE@,
        "--no-playlist"@,
        address,
    ]
}

/// What yt-dlp is asked, to print where the sound of a video is, with extra arguments.
pub fn stream_url_command(address: &str, extra: Vec<String>) -> (r: Vec<String>)
    ensures
        r.deep_view() == stream_url_words(address@) + extra.deep_view(),
{
    let mut extra = extra;
    let ghost told = extra.deep_view();
    let mut words: Vec<String> = vec![
        "-f".to_string(),
        "bestaudio/best".to_string(),
        "--get-url".to_string(),
        "--cache-dir".to_string(),
        crate::ytdlp::YT_DLP_CACHE.to_string(),
        "--no-playlist".to_string(),
        address.to_string(),
    ];
    assert(words.deep_view() =~= stream_url_words(address@));
    words.append(&mut extra);
    assert(words.deep_view() =~= stream_url_words(address@) + told);
    words
}

/// What is said of extra arguments that cannot be read.
pub const BAD_EXTRA_ARGUMENTS: &'static str =
    "failed to parse YOUTUBE_YT_DLP_GET_URL_EXTRA_ARGS allowed syntax is [\"arg1\", \"arg2\", \"arg3\", ...]";

/// What yt-dlp is asked, to print where the sound of a video is: the words that it
/// is always asked, then those of the setting.
pub fn stream_url_arguments<C: Conf>(conf: &C, address: &str) -> (r: Result<Vec<String>, String>)
    ensures
        match (r, conf.setting(ConfName::YoutubeYtDlpExtraArgs)) {
            (Ok(words), Ok(text)) => crate::json::json_strings(text) matches Some(extra)
                && words.deep_view() == stream_url_words(address@) + extra,
            (Err(e), Ok(text)) => crate::json::json_strings(text) is None && e@
                == BAD_EXTRA_ARGUMENTS@,
            (Err(e), Err(missing)) => e@ == missing.message(),
            (Ok(_), Err(_)) => false,
        },
{
    let text = match conf.get(ConfName::YoutubeYtDlpExtraArgs) {
        Ok(text) => text,
        Err(e) => return Err(e.message()),
    };
    match crate::json::parse_strings(text.as_str()) {
        Some(extra) => Ok(stream_url_command(address, extra)),
        None => Err(BAD_EXTRA_ARGUMENTS.to_string()),
    }
}

/// Where the sound of a video is, from what yt-dlp printed: the first line that is
/// more than white space.
pub fn printed_stream_url(success: bool, stdout: &[u8], stderr: &[u8]) -> (r: Result<
    String,
    String,
>)
    ensures
        match r {
            Ok(line) => success && crate::text::filled_line(
                crate::text::lines_of(crate::text::strict_text(stdout@)),
            ) == Some(line@),
            Err(e) => if success {
                &&& crate::text::filled_line(
                    crate::text::lines_of(crate::text::strict_text(stdout@)),
                ) is None
                &&& e@ == "yt-dlp returned empty stdout for --get-url"@
            } else {
                e@ == "yt-dlp --get-url failed: "@ + crate::text::trimmed(
                    crate::text::strict_text(stderr@),
                )
            },
        },
{
    if !success {
        let said = crate::text::trim(crate::text::utf8_or_empty(stderr).as_str());
        return Err(crate::text::join("yt-dlp --get-url failed: ", said.as_str()));
    }
    match crate::text::first_filled_line(crate::text::utf8_or_empty(stdout).as_str()) {
        Some(line) => Ok(line),
        None => Err("yt-dlp returned empty stdout for --get-url".to_string()),
    }
}

/// What YouTube's interface is said not to know.
pub open spec fn unknown(what: Seq<char>, id: Seq<char>) -> Seq<char> {
    "youtube returned no "@ + what + " with id "@ + crate::text::debug_text(id)
}

/// The first of the channels or playlists that YouTube's interface returned for an
/// identifier.
pub fn first_returned<T>(items: Option<Vec<T>>, what: &str, id: &str) -> (r: Result<T, String>)
    ensures
        match r {
            Ok(first) => items is Some && items->0.len() > 0 && first == items->0@[0],
            Err(e) => (items is Some ==> items->0.len() == 0) && e@ == unknown(what@, id@),
        },
{
    match items {
        Some(mut all) if all.len() > 0 => Ok(all.remove(0)),
        _ => {
            let mut e = "youtube returned no ".to_string();
            e.append(what);
            e.append(" with id ");
            e.append(crate::text::shown(id).as_str());
            Err(e)
        },
    }
}

/// The fewest seconds that the settings demand of a video.
pub open spec fn demanded_seconds<C: Conf>(conf: &C) -> u64 {
    crate::configs::least_youtube_seconds(
        conf.setting(ConfName::YoutubeMinSeconds),
        conf.setting(ConfName::YoutubeExcludeShorts),
    ) as u64
}

/// Writes the feed of a source: of its show, the items of its playlist and what is
/// known of their videos. Videos that are shorter than the settings demand are left
/// out.
pub fn write_source_feed<C: Conf>(
    conf: &C,
    source: Source,
    items: Vec<PlaylistItem>,
    infos: &VideoInfos,
) -> (r: String)
    requires
        crate::videos::distinct(infos.entries.deep_view()),
        crate::episodes::is_measurable(
            items.deep_view(),
            infos.entries.deep_view(),
            demanded_seconds(conf),
        ),
    ensures
        exists|feed: FeedModel|
            crate::episodes::is_feed_of(
                source.show.deep_view(),
                items.deep_view(),
                infos.entries.deep_view(),
                demanded_seconds(conf),
                feed,
            ) && r@ == #[trigger] crate::feed::feed_text(feed),
{
    let min_seconds = crate::configs::youtube_min_seconds(conf);
    crate::feed::render(
        crate::episodes::build_feed(source.show, items, infos, min_seconds),
    )
}

/// With Shorts excluded, no feed holds an episode of less than 61 seconds.
pub proof fn feeds_hold_no_shorts<C: Conf>(
    conf: &C,
    show: FeedHeadModel,
    items: Seq<PlaylistItemModel>,
    entries: Entries,
    feed: FeedModel,
    at: int,
)
    requires
        crate::configs::is_true(conf.setting(ConfName::YoutubeExcludeShorts)),
        crate::episodes::is_feed_of(show, items, entries, demanded_seconds(conf), feed),
        0 <= at < feed.items.len(),
    ensures
        exists|i: int|
            0 <= i < items.len() && crate::episodes::makes(
                #[trigger] items[i],
                entries,
                61,
                feed.items[at],
            ),
{
    let least = demanded_seconds(conf);
    crate::configs::excluding_shorts_forces_a_minimum(
        conf.setting(ConfName::YoutubeMinSeconds),
        conf.setting(ConfName::YoutubeExcludeShorts)->Ok_0,
    );
    crate::episodes::short_videos_make_no_episodes(items, entries, least);
    assert(feed.items.contains(feed.items[at]));
    let i = choose|i: int|
        0 <= i < items.len() && crate::episodes::makes(
            #[trigger] items[i],
            entries,
            least,
            feed.items[at],
        );
    assert(crate::episodes::makes(items[i], entries, 61, feed.items[at]));
}

/// Whether an address is under `youtube.com`, `youtu.be` or `googlevideo.com`, or at one of
/// the first two, as an address of HTTPS.
pub open spec fn is_at_youtube(text: Seq<char>, before: Seq<char>, rest: Seq<char>) -> bool {
    ||| text == "https://youtube.com/"@ + rest
    ||| text == "https://youtu.be/"@ + rest
    ||| {
        &&& forall|i: int| 0 <= i < before.len() ==> (#[trigger] before[i]) != '\n'
        &&& {
            ||| text == before + ".youtube.com/"@ + rest
            ||| text == before + ".youtu.be/"@ + rest
            ||| text == before + ".googlevideo.com/"@ + rest
        }
    }
}

proof fn lemma_under_host(host: Seq<char>, before: Seq<char>, rest: Seq<char>)
    requires
        forall|i: int| 0 <= i < before.len() ==> (#[trigger] before[i]) != '\n',
    ensures
        crate::pattern::under_host(host, before + host + rest),
{
    let text = before + host + rest;
    assert(text.subrange(before.len() as int, (before.len() + host.len()) as int) =~= host);
    assert(crate::text::occurs_at(host, text, before.len() as int));
    assert forall|i: int| 0 <= i < before.len() implies text[i] != '\n' by {
        assert(text[i] == before[i]);
    }
}

proof fn lemma_at_host(host: Seq<char>, rest: Seq<char>)
    ensures
        crate::pattern::at_host(host, "https://"@ + host + rest),
{
    let text = "https://"@ + host + rest;
    let head = "https://"@ + host;
    assert(text.subrange(0, head.len() as int) =~= head);
}

/// The provider serves every address under YouTube's hosts, and at the first two of them.
pub proof fn youtube_is_served(
    provider: &YoutubeProvider,
    address: &str,
    before: Seq<char>,
    rest: Seq<char>,
    r: bool,
)
    requires
        call_ensures(YoutubeProvider::serves, (provider, address), r),
        is_at_youtube(address@, before, rest),
    ensures
        r,
{
    reveal_strlit("https://youtube.com/");
    reveal_strlit("https://youtu.be/");
    reveal_strlit("https://");
    reveal_strlit("youtube.com/");
    reveal_strlit("youtu.be/");
    assert("https://youtube.com/"@ =~= "https://"@ + "youtube.com/"@);
    assert("https://youtu.be/"@ =~= "https://"@ + "youtu.be/"@);
    lemma_at_host("youtube.com/"@, rest);
    lemma_at_host("youtu.be/"@, rest);
    if forall|i: int| 0 <= i < before.len() ==> (#[trigger] before[i]) != '\n' {
        lemma_under_host(".youtube.com/"@, before, rest);
        lemma_under_host(".youtu.be/"@, before, rest);
        lemma_under_host(".googlevideo.com/"@, before, rest);
    }
}

/// The provider serves no address that names none of YouTube's hosts.
pub proof fn only_youtube_is_served(provider: &YoutubeProvider, address: &str, r: bool)
    requires
        call_ensures(YoutubeProvider::serves, (provider, address), r),
        r,
    ensures
        exists|before: Seq<char>, host: Seq<char>, after: Seq<char>|
            (host == "youtube.com/"@ || host == "youtu.be/"@ || host == ".googlevideo.com/"@)
                && address@ == #[trigger] (before + host + after),
{
    reveal_strlit("https://");
    reveal_strlit("youtube.com/");
    reveal_strlit("youtu.be/");
    reveal_strlit(".youtube.com/");
    reveal_strlit(".youtu.be/");
    let text = address@;
    assert(".youtube.com/"@ =~= "."@ + "youtube.com/"@) by {
        reveal_strlit(".");
    }
    assert(".youtu.be/"@ =~= "."@ + "youtu.be/"@) by {
        reveal_strlit(".");
    }
    assert("."@.len() == 1) by {
        reveal_strlit(".");
    }
    if crate::pattern::under_host(".youtube.com/"@, text) {
        lemma_host_within("."@, "youtube.com/"@, text);
    } else if crate::pattern::at_host("youtube.com/"@, text) {
        lemma_host_at_start("youtube.com/"@, text);
    } else if crate::pattern::at_host("youtu.be/"@, text) {
        lemma_host_at_start("youtu.be/"@, text);
    } else if crate::pattern::under_host(".youtu.be/"@, text) {
        lemma_host_within("."@, "youtu.be/"@, text);
    } else {
        assert(Seq::<char>::empty() + ".googlevideo.com/"@ =~= ".googlevideo.com/"@);
        lemma_host_within(Seq::empty(), ".googlevideo.com/"@, text);
    }
}

proof fn lemma_host_within(dot: Seq<char>, host: Seq<char>, text: Seq<char>)
    requires
        crate::pattern::under_host(dot + host, text),
    ensures
        exists|before: Seq<char>, after: Seq<char>| text == #[trigger] (before + host + after),
{
    let at = choose|at: int| #[trigger]
        crate::text::occurs_at(dot + host, text, at) && forall|i: int|
            0 <= i < at ==> text[i] != '\n';
    let from = at + dot.len();
    assert(text.subrange(from as int, (from + host.len()) as int) =~= host) by {
        let held = text.subrange(at, (at + (dot + host).len()) as int);
        assert(held.skip(dot.len() as int) =~= host);
        assert(held.skip(dot.len() as int) =~= text.subrange(
            from as int,
            (from + host.len()) as int,
        ));
    }
    let (before, after) = (text.take(from as int), text.skip((from + host.len()) as int));
    assert(text =~= before + text.subrange(from as int, (from + host.len()) as int) + after);
    assert(text == before + host + after);
}

proof fn lemma_host_at_start(host: Seq<char>, text: Seq<char>)
    requires
        crate::pattern::at_host(host, text),
    ensures
        exists|before: Seq<char>, after: Seq<char>| text == #[trigger] (before + host + after),
{
    let dot = if crate::text::occurs_at(host, text, 0) {
        Seq::empty()
    } else {
        "https://"@
    };
    assert(Seq::<char>::empty() + host =~= host);
    assert(crate::text::occurs_at(dot + host, text, 0));
    lemma_host_within(dot, host, text);
}

proof fn lemma_begins(path: Seq<char>, head: Seq<char>)
    ensures
        begins(path, head) <==> exists|rest: Seq<char>| path == #[trigger] (head + rest),
{
    if begins(path, head) {
        assert(path =~= path.subrange(0, head.len() as int) + path.skip(head.len() as int));
        assert(path == head + path.skip(head.len() as int));
    }
    if exists|rest: Seq<char>| path == #[trigger] (head + rest) {
        let rest = choose|rest: Seq<char>| path == #[trigger] (head + rest);
        assert(path.subrange(0, head.len() as int) =~= head);
    }
}

/// A path that begins with `/playlist` is that of the playlist that the first `list` of
/// the query names. Both the interface and the Atom feeds are asked for that one, and
/// where none is named both tell so.
pub proof fn playlists_are_named_by_the_query(
    address: &Address,
    rest: Seq<char>,
    at: int,
    api: Result<ApiSource, BadSource>,
    atom: Result<AtomSource, BadSource>,
)
    requires
        address.path@ == "/playlist"@ + rest,
        call_ensures(api_source, (address,), api),
        call_ensures(atom_source, (address,), atom),
    ensures
        0 <= at < address.query@.len() && address.query@[at].0@ == "list"@ && (forall|i: int|
            0 <= i < at ==> (#[trigger] address.query@[i]).0@ != "list"@) ==> {
            let id = address.query@[at].1@;
            &&& api is Ok && api->Ok_0 is Playlist && api->Ok_0->Playlist_0@ == id
            &&& atom is Ok && atom->Ok_0 is At
            &&& crate::address::url_parse(atom->Ok_0->At_0@) is Ok
            &&& crate::address::url_parse(atom->Ok_0->At_0@)->Ok_0.query == seq![
                ("playlist_id"@, id),
            ]
        },
        (forall|i: int|
            0 <= i < address.query@.len() ==> (#[trigger] address.query@[i]).0@ != "list"@) ==> {
            &&& api is Err && api->Err_0 is NoPlaylistId && api->Err_0->NoPlaylistId_0@
                == address.text@
            &&& atom is Err && atom->Err_0 is NoPlaylistId && atom->Err_0->NoPlaylistId_0@
                == address.text@
        },
{
    lemma_begins(address.path@, "/playlist"@);
    let query = address.query.deep_view();
    assert forall|i: int| 0 <= i < query.len() implies #[trigger] query[i] == (
        address.query@[i].0@,
        address.query@[i].1@,
    ) by {}
    if 0 <= at < query.len() && query[at].0 == "list"@ && (forall|i: int|
        0 <= i < at ==> (#[trigger] address.query@[i]).0@ != "list"@) {
        assert forall|i: int| 0 <= i < at implies (#[trigger] query[i]).0 != "list"@ by {
            assert(address.query@[i].0@ != "list"@);
        }
        crate::address::lemma_first_value(query, "list"@, at);
    }
    if forall|i: int|
        0 <= i < address.query@.len() ==> (#[trigger] address.query@[i]).0@ != "list"@ {
        assert forall|i: int| 0 <= i < query.len() implies (#[trigger] query[i]).0 != "list"@ by {
            assert(address.query@[i].0@ != "list"@);
        }
        crate::address::lemma_first_value(query, "list"@, query.len() as int);
    }
}

proof fn lemma_second_characters()
    ensures
        "/playlist"@[0] == '/' && "/playlist"@[1] == 'p' && "/playlist"@.len() == 9,
        "/channel/"@[0] == '/' && "/channel/"@[1] == 'c' && "/channel/"@[2] == 'h'
            && "/channel/"@.len() == 9,
        "/user/"@[0] == '/' && "/user/"@[1] == 'u' && "/user/"@.len() == 6,
        "/c/"@[0] == '/' && "/c/"@[1] == 'c' && "/c/"@[2] == '/' && "/c/"@.len() == 3,
        "/@"@[0] == '/' && "/@"@[1] == '@' && "/@"@.len() == 2,
        "/feeds/"@[0] == '/' && "/feeds/"@[1] == 'f' && "/feeds/"@.len() == 7,
{
    reveal_strlit("/playlist");
    reveal_strlit("/channel/");
    reveal_strlit("/user/");
    reveal_strlit("/c/");
    reveal_strlit("/@");
    reveal_strlit("/feeds/");
}

proof fn lemma_second_of(path: Seq<char>, head: Seq<char>, rest: Seq<char>, other: Seq<char>)
    requires
        path == head + rest,
        head.len() >= 2,
        other.len() >= 2,
        head[1] != other[1],
    ensures
        !begins(path, other),
{
    assert(path[1] == head[1]);
    if begins(path, other) {
        assert(path.subrange(0, other.len() as int)[1] == path[1]);
    }
}

/// A path that begins with `/channel/`, `/user/`, `/c/` or `/@` is that of a channel, for
/// which yt-dlp has to find the identifier, unless the address is that of a feed.
pub proof fn channels_are_known_by_their_paths(
    address: &Address,
    head: Seq<char>,
    rest: Seq<char>,
    api: Result<ApiSource, BadSource>,
    atom: Result<AtomSource, BadSource>,
)
    requires
        head == "/channel/"@ || head == "/user/"@ || head == "/c/"@ || head == "/@"@,
        address.path@ == head + rest,
        call_ensures(api_source, (address,), api),
        call_ensures(atom_source, (address,), atom),
    ensures
        api == Ok::<ApiSource, BadSource>(ApiSource::Channel),
        (exists|before: Seq<char>, after: Seq<char>|
            address.text@ == #[trigger] (before + "feeds/videos.xml"@ + after)) ==> atom is Ok
            && atom->Ok_0 is At && atom->Ok_0->At_0@ == address.text@,
        !(exists|before: Seq<char>, after: Seq<char>|
            address.text@ == #[trigger] (before + "feeds/videos.xml"@ + after)) ==> atom == Ok::<
            AtomSource,
            BadSource,
        >(AtomSource::Channel),
{
    lemma_second_characters();
    lemma_begins(address.path@, head);
    lemma_second_of(address.path@, head, rest, "/playlist"@);
    lemma_second_of(address.path@, head, rest, "/feeds/"@);
    let (text, part) = (address.text@, "feeds/videos.xml"@);
    if crate::text::occurs(part, text) {
        let at = choose|at: int| crate::text::occurs_at(part, text, at);
        let (before, after) = (text.take(at), text.skip((at + part.len()) as int));
        assert(text =~= before + text.subrange(at, (at + part.len()) as int) + after);
        assert(text == before + part + after);
    }
    if exists|before: Seq<char>, after: Seq<char>| text == #[trigger] (before + part + after) {
        let (before, after) = choose|before: Seq<char>, after: Seq<char>| text == #[trigger] (before
            + part + after);
        assert(text.subrange(before.len() as int, (before.len() + part.len()) as int) =~= part);
        assert(crate::text::occurs_at(part, text, before.len() as int));
    }
}

/// A path that begins with `/feeds/` is that of a feed, which is at the address itself; the
/// interface has none for it.
pub proof fn feeds_are_where_they_are(
    address: &Address,
    rest: Seq<char>,
    api: Result<ApiSource, BadSource>,
    atom: Result<AtomSource, BadSource>,
)
    requires
        address.path@ == "/feeds/"@ + rest,
        call_ensures(api_source, (address,), api),
        call_ensures(atom_source, (address,), atom),
    ensures
        api == Err::<ApiSource, BadSource>(BadSource::Unsupported),
        atom is Ok && atom->Ok_0 is At && atom->Ok_0->At_0@ == address.text@,
{
    lemma_second_characters();
    lemma_begins(address.path@, "/feeds/"@);
    lemma_second_of(address.path@, "/feeds/"@, rest, "/playlist"@);
    lemma_second_of(address.path@, "/feeds/"@, rest, "/channel/"@);
    lemma_second_of(address.path@, "/feeds/"@, rest, "/user/"@);
    lemma_second_of(address.path@, "/feeds/"@, rest, "/c/"@);
    lemma_second_of(address.path@, "/feeds/"@, rest, "/@"@);
}

/// An address whose path begins in none of these ways is not supported.
pub proof fn other_paths_are_not_supported(
    address: &Address,
    api: Result<ApiSource, BadSource>,
    atom: Result<AtomSource, BadSource>,
)
    requires
        !(exists|head: Seq<char>, rest: Seq<char>|
            (head == "/playlist"@ || head == "/channel/"@ || head == "/user/"@ || head == "/c/"@
                || head == "/@"@ || head == "/feeds/"@) && address.path@ == #[trigger] (head
                + rest)),
        call_ensures(api_source, (address,), api),
        call_ensures(atom_source, (address,), atom),
    ensures
        api == Err::<ApiSource, BadSource>(BadSource::Unsupported),
        atom == Err::<AtomSource, BadSource>(BadSource::Unsupported),
{
    lemma_begins(address.path@, "/playlist"@);
    lemma_begins(address.path@, "/channel/"@);
    lemma_begins(address.path@, "/user/"@);
    lemma_begins(address.path@, "/c/"@);
    lemma_begins(address.path@, "/@"@);
    lemma_begins(address.path@, "/feeds/"@);
}

/// With a key set, the feed comes from what the interface is asked for, with that key; with
/// none, from where the Atom feed is; and where that cannot be told, neither can this.
pub proof fn keys_choose_the_interface<C: Conf>(
    conf: &C,
    address: &Address,
    api: Result<ApiSource, BadSource>,
    atom: Result<AtomSource, BadSource>,
    r: Result<FeedRoute, BadSource>,
)
    requires
        call_ensures(api_source, (address,), api),
        call_ensures(atom_source, (address,), atom),
        call_ensures(feed_route::<C>, (conf, address), r),
    ensures
        conf.setting(ConfName::YoutubeApiKey) matches Ok(key) ==> match api {
            Ok(source) => r is Ok && r->Ok_0 is Interface && r->Ok_0->api_key@ == key
                && api_outcome(Ok(r->Ok_0->source)) == api_outcome(Ok(source)),
            Err(e) => r is Err && r->Err_0.deep_view() == e.deep_view(),
        },
        conf.setting(ConfName::YoutubeApiKey) is Err ==> match atom {
            Ok(source) => r is Ok && r->Ok_0 is Atom && (r->Ok_0->Atom_0 is At <==> source is At),
            Err(e) => r is Err && r->Err_0.deep_view() == e.deep_view(),
        },
{
}

/// The channel that is asked for is named by what follows the last slash of the address
/// that yt-dlp found, and so is its feed.
pub proof fn channels_are_named_by_their_last_segment(
    found: &Address,
    before: Seq<Seq<char>>,
    name: Seq<char>,
    id: Result<String, BadSource>,
    feed: Result<String, BadSource>,
)
    requires
        found.segments.deep_view() == Some(before.push(name)),
        call_ensures(channel_id, (found,), id),
        call_ensures(feed_url_for_yt_channel, (found,), feed),
    ensures
        id is Ok && id->Ok_0@ == name,
        feed is Ok && crate::address::url_parse(feed->Ok_0@) is Ok,
        crate::address::url_parse(feed->Ok_0@)->Ok_0.query == seq![("channel_id"@, name)],
        crate::address::url_parse(feed->Ok_0@)->Ok_0.path == "/feeds/videos.xml"@,
{
}

/// The reasons are told in words, with the address that names no playlist.
pub proof fn reasons_are_told(e: &BadSource, r: String)
    requires
        call_ensures(BadSource::message, (e,), r),
    ensures
        e is Unsupported ==> r@ == "unsupported youtube url"@,
        e is NoChannelId ==> r@ == "could not parse channel id"@,
        e is NoPlaylistId ==> r@ == "Failed to parse playlist ID from URL: "@
            + e->NoPlaylistId_0@,
{
}

/// The address and the length that yt-dlp prints between blanks and line ends are read as
/// they stand; a length that it did not print is zero.
pub proof fn what_is_printed_is_read(
    stdout: &[u8],
    text: Seq<char>,
    url: String,
    n: usize,
    length: Option<usize>,
    none: Option<usize>,
)
    requires
        crate::duration::prints(stdout@, text),
        call_ensures(printed_channel_url, (stdout,), url),
        call_ensures(video_duration, (Some(stdout),), length),
        call_ensures(video_duration, (None::<&[u8]>,), none),
    ensures
        text.len() > 0 && '!' <= text[0] <= '~' && '!' <= text.last() <= '~' ==> url@ == text,
        text == crate::duration::seconds_text(n as nat) ==> length == Some(n),
        none == Some(0usize),
{
    if text == crate::duration::seconds_text(n as nat) {
        crate::duration::printed_seconds_are_read_back(stdout@, n);
    }
    let (before, after) = choose|before: Seq<char>, after: Seq<char>|
        #![trigger crate::text::is_blank(before), crate::text::is_blank(after)]
        crate::text::is_blank(before) && crate::text::is_blank(after)
            && vstd::utf8::decode_utf8(stdout@) == before + text + after;
    if text.len() > 0 && '!' <= text[0] <= '~' && '!' <= text.last() <= '~' {
        crate::text::trimming_leaves_what_is_printed(before, text, after);
    }
}

/// Where the sound is, is the line that yt-dlp prints first, if it succeeds; if it fails,
/// what it prints as its error is told.
pub proof fn the_first_address_is_taken(
    success: bool,
    stdout: &[u8],
    stderr: &[u8],
    line: Seq<char>,
    rest: Seq<char>,
    said: Seq<char>,
    r: Result<String, String>,
)
    requires
        call_ensures(printed_stream_url, (success, stdout, stderr), r),
    ensures
        success && vstd::utf8::valid_utf8(stdout@) && vstd::utf8::decode_utf8(stdout@) == line
            + seq!['\n'] + rest && line.len() > 0 && '!' <= line[0] <= '~' && '!' <= line.last()
            <= '~' && (forall|i: int| 0 <= i < line.len() ==> (#[trigger] line[i]) != '\n')
            ==> r is Ok && r->Ok_0@ == line,
        success && stdout@.len() == 0 ==> r is Err,
        !success ==> r is Err,
        !success && crate::duration::prints(stderr@, said) && said.len() > 0 && '!' <= said[0]
            <= '~' && '!' <= said.last() <= '~' ==> r->Err_0@ == "yt-dlp --get-url failed: "@
            + said,
{
    if success && vstd::utf8::valid_utf8(stdout@) && vstd::utf8::decode_utf8(stdout@) == line
        + seq!['\n'] + rest && line.len() > 0 && '!' <= line[0] <= '~' && '!' <= line.last() <= '~'
        && (forall|i: int| 0 <= i < line.len() ==> (#[trigger] line[i]) != '\n') {
        crate::text::lines_end_at_line_feeds(line, rest);
        crate::text::trimming_leaves_what_is_printed(Seq::empty(), line, Seq::empty());
        assert(Seq::<char>::empty() + line + Seq::<char>::empty() =~= line);
    }
    if stdout@.len() == 0 {
        assert(crate::text::strict_text(stdout@).len() == 0);
    }
    if crate::duration::prints(stderr@, said) && said.len() > 0 && '!' <= said[0] <= '~' && '!'
        <= said.last() <= '~' {
        let (before, after) = choose|before: Seq<char>, after: Seq<char>|
            #![trigger crate::text::is_blank(before), crate::text::is_blank(after)]
            crate::text::is_blank(before) && crate::text::is_blank(after)
                && vstd::utf8::decode_utf8(stderr@) == before + said + after;
        crate::text::trimming_leaves_what_is_printed(before, said, after);
    }
}

/// yt-dlp is asked for the best sound at the address, and for no playlist; the extra
/// arguments follow, in their order.
pub proof fn extra_arguments_follow(address: &str, extra: Vec<String>, r: Vec<String>)
    requires
        call_ensures(stream_url_command, (address, extra), r),
    ensures
        r@.len() == 7 + extra@.len(),
        r@[0]@ == "-f"@ && r@[1]@ == "bestaudio/best"@ && r@[2]@ == "--get-url"@,
        r@[3]@ == "--cache-dir"@ && r@[4]@ == "/tmp/yt-dlp-cache"@,
        r@[5]@ == "--no-playlist"@ && r@[6]@ == address@,
        forall|i: int| 0 <= i < extra@.len() ==> r@[7 + i]@ == (#[trigger] extra@[i])@,
{
    let words = r.deep_view();
    assert(words.len() == r@.len());
    assert forall|i: int| 0 <= i < words.len() implies #[trigger] words[i] == r@[i]@ by {}
    assert(words[0] == "-f"@ && words[1] == "bestaudio/best"@ && words[2] == "--get-url"@);
    assert(words[3] == "--cache-dir"@ && words[4] == crate::ytdlp::YT_DLP_CACHE@);
    assert(words[5] == "--no-playlist"@ && words[6] == address@);
    assert forall|i: int| 0 <= i < extra@.len() implies r@[7 + i]@ == (#[trigger] extra@[i])@ by {
        assert(words[7 + i] == extra.deep_view()[i]);
        assert(extra.deep_view()[i] == extra@[i]@);
    }
}

/// Of what YouTube's interface returns the first is taken, if there is any.
pub proof fn the_first_is_taken<T>(
    items: Option<Vec<T>>,
    what: &str,
    id: &str,
    r: Result<T, String>,
)
    requires
        call_ensures(first_returned::<T>, (items, what, id), r),
    ensures
        r is Ok <==> items is Some && items->0@.len() > 0,
        r is Ok ==> r->Ok_0 == items->0@[0],
        r is Err ==> r->Err_0@ == "youtube returned no "@ + what@ + " with id "@
            + crate::text::debug_text(id@),
{
}

/// The feed that is written of a source has the title, the description, the link and the
/// language of its show, and declares both namespaces.
pub proof fn written_feeds_are_those_of_their_shows<C: Conf>(
    conf: &C,
    source: Source,
    items: Vec<PlaylistItem>,
    infos: &VideoInfos,
    r: String,
)
    requires
        call_ensures(write_source_feed::<C>, (conf, source, items, infos), r),
    ensures
        exists|feed: FeedModel|
            {
                &&& r@ == #[trigger] crate::feed::feed_text(feed)
                &&& feed.head.title == source.show.title@
                &&& feed.head.description == source.show.description@
                &&& feed.head.link == source.show.link@
                &&& feed.head.language == source.show.language.deep_view()
                &&& crate::feed::declares_both(feed)
            },
{
    let feed = choose|feed: FeedModel|
        crate::episodes::is_feed_of(
            source.show.deep_view(),
            items.deep_view(),
            infos.entries.deep_view(),
            demanded_seconds(conf),
            feed,
        ) && r@ == #[trigger] crate::feed::feed_text(feed);
    crate::episodes::feeds_declare_namespaces(
        source.show.deep_view(),
        items.deep_view(),
        infos.entries.deep_view(),
        demanded_seconds(conf),
        feed,
    );
}

/// Where the sound of a video is, yt-dlp is asked with the words of the setting behind its
/// own, if they can be read; else that is told, and so is that there is no setting.
pub proof fn settings_add_arguments<C: Conf>(
    conf: &C,
    address: &str,
    extra: Vec<String>,
    command: Vec<String>,
    r: Result<Vec<String>, String>,
)
    requires
        call_ensures(stream_url_arguments::<C>, (conf, address), r),
        call_ensures(stream_url_command, (address, extra), command),
    ensures
        match conf.setting(ConfName::YoutubeYtDlpExtraArgs) {
            Ok(text) => match crate::json::json_strings(text) {
                Some(words) => r is Ok && (words == extra.deep_view() ==> r->Ok_0.deep_view()
                    == command.deep_view()),
                None => r is Err && r->Err_0@ == BAD_EXTRA_ARGUMENTS@,
            },
            Err(missing) => r is Err && r->Err_0@ == missing.message(),
        },
{
}

/// yt-dlp is asked for the address of a channel and for the length of a video at the address
/// that is given, which comes last.
pub proof fn addresses_come_last(address: &str, channel: Vec<String>, length: Vec<String>)
    requires
        call_ensures(channel_url_arguments, (address,), channel),
        call_ensures(duration_arguments, (address,), length),
    ensures
        channel@.len() == 7 && channel@[6]@ == address@,
        channel@[0]@ == "--cache-dir"@ && channel@[1]@ == "/tmp/yt-dlp-cache"@,
        channel@[2]@ == "--playlist-items"@ && channel@[3]@ == "0"@,
        channel@[4]@ == "-O"@ && channel@[5]@ == "playlist:channel_url"@,
        length@.len() == 4 && length@[3]@ == address@,
        length@[0]@ == "--cache-dir"@ && length@[1]@ == "/tmp/yt-dlp-cache"@ && length@[2]@
            == "--get-duration"@,
{
    let (a, b) = (channel.deep_view(), length.deep_view());
    assert(a.len() == channel@.len() && b.len() == length@.len());
    assert forall|i: int| 0 <= i < a.len() implies #[trigger] a[i] == channel@[i]@ by {}
    assert forall|i: int| 0 <= i < b.len() implies #[trigger] b[i] == length@[i]@ by {}
    assert(a[0] == "--cache-dir"@ && a[1] == crate::ytdlp::YT_DLP_CACHE@);
    assert(a[2] == "--playlist-items"@ && a[3] == "0"@);
    assert(a[4] == "-O"@ && a[5] == "playlist:channel_url"@ && a[6] == address@);
    assert(b[0] == "--cache-dir"@ && b[1] == crate::ytdlp::YT_DLP_CACHE@);
    assert(b[2] == "--get-duration"@ && b[3] == address@);
}

} // verus!

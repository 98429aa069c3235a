//! YouTube's playlists and channels, and the shows that are made of them.
use crate::dates::Moment;
use crate::feed::{FeedHead, FeedHeadModel, ItunesChannel, ItunesChannelModel};
use vstd::prelude::*;

verus! {

/// A picture of a video or a channel.
#[derive(Debug, PartialEq, Eq)]
pub struct Thumbnail {
    pub url: Option<String>,
}

/// The pictures of a video or a channel, by their sizes.
#[derive(Debug, PartialEq, Eq)]
pub struct Thumbnails {
    pub maxres: Option<Thumbnail>,
    pub high: Option<Thumbnail>,
    pub medium: Option<Thumbnail>,
    pub standard: Option<Thumbnail>,
    pub default: Option<Thumbnail>,
}

/// What an item of a playlist stands for.
#[derive(Debug, PartialEq, Eq)]
pub struct ResourceId {
    pub video_id: Option<String>,
}

/// The description of an item of a playlist.
#[derive(Debug, PartialEq, Eq)]
pub struct ItemSnippet {
    pub title: Option<String>,
    pub description: Option<String>,
    pub published_at: Option<Moment>,
    pub channel_title: Option<String>,
    pub thumbnails: Option<Thumbnails>,
    pub resource_id: Option<ResourceId>,
}

/// An item of a playlist.
#[derive(Debug, PartialEq, Eq)]
pub struct PlaylistItem {
    pub snippet: Option<ItemSnippet>,
}

/// The description of a playlist or a channel.
#[derive(Debug, PartialEq, Eq)]
pub struct SourceSnippet {
    pub title: Option<String>,
    pub description: Option<String>,
    pub default_language: Option<String>,
    pub thumbnails: Option<Thumbnails>,
}

/// A playlist.
#[derive(Debug, PartialEq, Eq)]
pub struct Playlist {
    pub id: Option<String>,
    pub snippet: Option<SourceSnippet>,
}

/// The playlists that belong to a channel.
#[derive(Debug, PartialEq, Eq)]
pub struct RelatedPlaylists {
    pub uploads: Option<String>,
}

/// What a channel contains.
#[derive(Debug, PartialEq, Eq)]
pub struct ContentDetails {
    pub related_playlists: Option<RelatedPlaylists>,
}

/// A channel.
#[derive(Debug, PartialEq, Eq)]
pub struct YoutubeChannel {
    pub id: Option<String>,
    pub snippet: Option<SourceSnippet>,
    pub content_details: Option<ContentDetails>,
}

/// [`Thumbnails`] with their texts as sequences of characters.
pub struct ThumbnailsModel {
    pub maxres: Option<Option<Seq<char>>>,
    pub high: Option<Option<Seq<char>>>,
    pub medium: Option<Option<Seq<char>>>,
    pub standard: Option<Option<Seq<char>>>,
    pub default: Option<Option<Seq<char>>>,
}

/// An [`ItemSnippet`] with its texts as sequences of characters.
pub struct ItemSnippetModel {
    pub title: Option<Seq<char>>,
    pub description: Option<Seq<char>>,
    pub published_at: Option<Moment>,
    pub channel_title: Option<Seq<char>>,
    pub thumbnails: Option<ThumbnailsModel>,
    /// What the item stands for: outside, nothing if that is not told; inside,
    /// nothing if it is no video.
    pub video_id: Option<Option<Seq<char>>>,
}

/// A [`PlaylistItem`] with its texts as sequences of characters.
pub struct PlaylistItemModel {
    pub snippet: Option<ItemSnippetModel>,
}

/// A [`SourceSnippet`] with its texts as sequences of characters.
pub struct SourceSnippetModel {
    pub title: Option<Seq<char>>,
    pub description: Option<Seq<char>>,
    pub default_language: Option<Seq<char>>,
    pub thumbnails: Option<ThumbnailsModel>,
}

impl DeepView for Thumbnail {
    type V = Option<Seq<char>>;

    open spec fn deep_view(&self) -> Option<Seq<char>> {
        self.url.deep_view()
    }
}

impl DeepView for Thumbnails {
    type V = ThumbnailsModel;

    open spec fn deep_view(&self) -> ThumbnailsModel {
        ThumbnailsModel {
            maxres: self.maxres.deep_view(),
            high: self.high.deep_view(),
            medium: self.medium.deep_view(),
            standard: self.standard.deep_view(),
            default: self.default.deep_view(),
        }
    }
}

impl DeepView for ResourceId {
    type V = Option<Seq<char>>;

    open spec fn deep_view(&self) -> Option<Seq<char>> {
        self.video_id.deep_view()
    }
}

impl DeepView for ItemSnippet {
    type V = ItemSnippetModel;

    open spec fn deep_view(&self) -> ItemSnippetModel {
        ItemSnippetModel {
            title: self.title.deep_view(),
            description: self.description.deep_view(),
            published_at: self.published_at,
            channel_title: self.channel_title.deep_view(),
            thumbnails: self.thumbnails.deep_view(),
            video_id: self.resource_id.deep_view(),
        }
    }
}

impl DeepView for PlaylistItem {
    type V = PlaylistItemModel;

    open spec fn deep_view(&self) -> PlaylistItemModel {
        PlaylistItemModel { snippet: self.snippet.deep_view() }
    }
}

impl DeepView for SourceSnippet {
    type V = SourceSnippetModel;

    open spec fn deep_view(&self) -> SourceSnippetModel {
        SourceSnippetModel {
            title: self.title.deep_view(),
            description: self.description.deep_view(),
            default_language: self.default_language.deep_view(),
            thumbnails: self.thumbnails.deep_view(),
        }
    }
}

impl ThumbnailsModel {
    /// The picture to show: the first one there is, in this order of sizes.
    pub open spec fn best(self) -> Option<Option<Seq<char>>> {
        if self.maxres is Some {
            self.maxres
        } else if self.high is Some {
            self.high
        } else if self.medium is Some {
            self.medium
        } else if self.standard is Some {
            self.standard
        } else {
            self.default
        }
    }
}

/// The address of the picture to show.
pub open spec fn picture(thumbnails: Option<ThumbnailsModel>) -> Option<Seq<char>> {
    match thumbnails {
        Some(all) => match all.best() {
            Some(address) => address,
            None => None,
        },
        None => None,
    }
}

pub(crate) fn best_picture(thumbnails: Option<Thumbnails>) -> (r: Option<String>)
    ensures
        r.deep_view() == picture(thumbnails.deep_view()),
{
    let all = match thumbnails {
        Some(all) => all,
        None => return None,
    };
    let best = if all.maxres.is_some() {
        all.maxres
    } else if all.high.is_some() {
        all.high
    } else if all.medium.is_some() {
        all.medium
    } else if all.standard.is_some() {
        all.standard
    } else {
        all.default
    };
    match best {
        Some(thumbnail) => thumbnail.url,
        None => None,
    }
}

/// A show of which nothing is known.
pub open spec fn blank_head() -> FeedHeadModel {
    FeedHeadModel {
        title: Seq::empty(),
        link: Seq::empty(),
        description: Seq::empty(),
        language: None,
        image: None,
        itunes: Some(ItunesChannelModel { image: None, explicit: None, categories: Seq::empty() }),
        namespaces: Seq::empty(),
    }
}

/// The show that a channel makes.
pub open spec fn channel_head(
    id: Option<Seq<char>>,
    snippet: Option<SourceSnippetModel>,
) -> FeedHeadModel {
    let link = "https://www.youtube.com/channel/"@ + crate::text::or_empty(id);
    match snippet {
        None => FeedHeadModel { link, ..blank_head() },
        Some(s) => FeedHeadModel {
            title: crate::text::or_empty(s.title),
            link,
            description: crate::text::or_empty(s.description),
            language: s.default_language,
            itunes: Some(
                ItunesChannelModel {
                    image: picture(s.thumbnails),
                    explicit: Some("no"@),
                    categories: Seq::empty(),
                },
            ),
            ..blank_head()
        },
    }
}

/// The show that a playlist makes.
pub open spec fn playlist_head(
    id: Option<Seq<char>>,
    snippet: Option<SourceSnippetModel>,
) -> FeedHeadModel {
    match snippet {
        None => blank_head(),
        Some(s) => FeedHeadModel {
            title: crate::text::or_empty(s.title),
            link: "https://www.youtube.com/playlist?list="@ + crate::text::or_empty(id),
            description: crate::text::or_empty(s.description),
            language: s.default_language,
            itunes: Some(
                ItunesChannelModel {
                    image: picture(s.thumbnails),
                    explicit: None,
                    categories: Seq::empty(),
                },
            ),
            ..blank_head()
        },
    }
}

fn blank(link: String) -> (r: FeedHead)
    ensures
        r.deep_view() == (FeedHeadModel { link: link@, ..blank_head() }),
{
    let r = FeedHead {
        title: String::new(),
        link,
        description: String::new(),
        language: None,
        image: None,
        itunes: Some(ItunesChannel { image: None, explicit: None, categories: Vec::new() }),
        namespaces: Vec::new(),
    };
    assert(r.namespaces.deep_view() =~= blank_head().namespaces);
    assert(r.itunes->0.categories.deep_view() =~= blank_head().itunes->0.categories);
    r
}

fn described(link: String, explicit: Option<String>, snippet: SourceSnippet) -> (r: FeedHead)
    ensures
        r.deep_view() == (FeedHeadModel {
            title: crate::text::or_empty(snippet.deep_view().title),
            link: link@,
            description: crate::text::or_empty(snippet.deep_view().description),
            language: snippet.deep_view().default_language,
            itunes: Some(
                ItunesChannelModel {
                    image: picture(snippet.deep_view().thumbnails),
                    explicit: explicit.deep_view(),
                    categories: Seq::empty(),
                },
            ),
            ..blank_head()
        }),
{
    let mut r = blank(link);
    r.title = crate::text::text_or_empty(snippet.title);
    r.description = crate::text::text_or_empty(snippet.description);
    r.language = snippet.default_language;
    let image = best_picture(snippet.thumbnails);
    r.itunes = Some(ItunesChannel { image, explicit, categories: Vec::new() });
    assert(r.itunes->0.categories.deep_view() =~= blank_head().itunes->0.categories);
    r
}

/// Makes a show of a channel.
pub fn build_channel_from_yt_channel(channel: YoutubeChannel) -> (r: FeedHead)
    ensures
        r.deep_view() == channel_head(channel.id.deep_view(), channel.snippet.deep_view()),
{
    let link = crate::text::join(
        "https://www.youtube.com/channel/",
        crate::text::text_or_empty(channel.id).as_str(),
    );
    match channel.snippet {
        Some(snippet) => described(link, Some("no".to_string()), snippet),
        None => blank(link),
    }
}

/// Makes a show of a playlist.
pub fn build_channel_from_playlist(playlist: Playlist) -> (r: FeedHead)
    ensures
        r.deep_view() == playlist_head(playlist.id.deep_view(), playlist.snippet.deep_view()),
{
    match playlist.snippet {
        Some(snippet) => {
            let link = crate::text::join(
                "https://www.youtube.com/playlist?list=",
                crate::text::text_or_empty(playlist.id).as_str(),
            );
            described(link, None, snippet)
        },
        None => {
            let r = blank(String::new());
            assert(r.deep_view() =~= blank_head());
            r
        },
    }
}

/// Why the uploads of a channel are not known.
#[derive(Debug, PartialEq, Eq)]
pub enum NoUploads {
    NoContentDetails,
    NoRelatedPlaylists,
    NoUploads,
}

impl NoUploads {
    /// The reason in words.
    pub open spec fn words(self) -> Seq<char> {
        match self {
            NoUploads::NoContentDetails => "content_details is None"@,
            NoUploads::NoRelatedPlaylists => "related_playlists is None"@,
            NoUploads::NoUploads => "uploads is None"@,
        }
    }

    /// The reason in words.
    pub fn message(&self) -> (r: String)
        ensures
            r@ == self.words(),
    {
        match self {
            NoUploads::NoContentDetails => "content_details is None".to_string(),
            NoUploads::NoRelatedPlaylists => "related_playlists is None".to_string(),
            NoUploads::NoUploads => "uploads is None".to_string(),
        }
    }
}

/// The playlist of a channel's uploads, or why it is not known.
pub open spec fn uploads(channel: YoutubeChannel) -> Result<Seq<char>, NoUploads> {
    match channel.content_details {
        None => Err(NoUploads::NoContentDetails),
        Some(details) => match details.related_playlists {
            None => Err(NoUploads::NoRelatedPlaylists),
            Some(playlists) => match playlists.uploads {
                None => Err(NoUploads::NoUploads),
                Some(id) => Ok(id@),
            },
        },
    }
}

/// The playlist of a channel's uploads.
pub fn uploads_of(channel: &YoutubeChannel) -> (r: Result<String, NoUploads>)
    ensures
        match r {
            Ok(id) => uploads(*channel) == Ok::<Seq<char>, NoUploads>(id@),
            Err(e) => uploads(*channel) == Err::<Seq<char>, NoUploads>(e),
        },
{
    match &channel.content_details {
        None => Err(NoUploads::NoContentDetails),
        Some(details) => match &details.related_playlists {
            None => Err(NoUploads::NoRelatedPlaylists),
            Some(playlists) => match &playlists.uploads {
                None => Err(NoUploads::NoUploads),
                Some(id) => Ok(id.clone()),
            },
        },
    }
}

impl PlaylistItemModel {
    /// When the item was published, if that is told.
    pub open spec fn date(self) -> Option<Moment> {
        match self.snippet {
            Some(snippet) => snippet.published_at,
            None => None,
        }
    }

    /// The video that the item stands for, if it stands for one.
    pub open spec fn video(self) -> Option<Seq<char>> {
        match self.snippet {
            Some(snippet) => match snippet.video_id {
                Some(id) => id,
                None => None,
            },
            None => None,
        }
    }
}

pub(crate) fn date_of(item: &PlaylistItem) -> (r: Option<Moment>)
    ensures
        r == item.deep_view().date(),
{
    match &item.snippet {
        Some(snippet) => snippet.published_at,
        None => None,
    }
}

pub(crate) fn video_of(item: &PlaylistItem) -> (r: Option<String>)
    ensures
        r.deep_view() == item.deep_view().video(),
{
    match &item.snippet {
        Some(snippet) => match &snippet.resource_id {
            Some(resource) => resource.video_id.clone(),
            None => None,
        },
        None => None,
    }
}

/// The address at which a video is watched.
pub open spec fn watch_address(id: Seq<char>) -> Seq<char> {
    "https://www.youtube.com/watch?v="@ + id
}

/// What a feed is made from: a show, and the playlist that its episodes are in.
#[derive(Debug, PartialEq, Eq)]
pub struct Source {
    pub show: FeedHead,
    pub playlist_id: String,
}

/// Takes the show and the identifier from a playlist. The show's link names no
/// playlist.
pub fn playlist_source(playlist: Playlist) -> (r: Result<Source, String>)
    ensures
        match r {
            Ok(source) => {
                &&& playlist.id.deep_view() == Some(source.playlist_id@)
                &&& source.show.deep_view() == playlist_head(None, playlist.snippet.deep_view())
            },
            Err(e) => playlist.id is None && e@ == "playlist has no id"@,
        },
{
    match playlist.id {
        Some(playlist_id) => Ok(
            Source {
                show: build_channel_from_playlist(
                    Playlist { id: None, snippet: playlist.snippet },
                ),
                playlist_id,
            },
        ),
        None => Err("playlist has no id".to_string()),
    }
}

/// Takes the show and the playlist of the uploads from a channel.
pub fn channel_source(channel: YoutubeChannel) -> (r: Result<Source, NoUploads>)
    ensures
        match r {
            Ok(source) => {
                &&& uploads(channel) == Ok::<Seq<char>, NoUploads>(source.playlist_id@)
                &&& source.show.deep_view() == channel_head(
                    channel.id.deep_view(),
                    channel.snippet.deep_view(),
                )
            },
            Err(e) => uploads(channel) == Err::<Seq<char>, NoUploads>(e),
        },
{
    match uploads_of(&channel) {
        Ok(playlist_id) => Ok(Source { show: build_channel_from_yt_channel(channel), playlist_id }),
        Err(e) => Err(e),
    }
}

/// Whether a picture is the one to show: of the sizes that there are, in the order from
/// `maxres` over `high`, `medium` and `standard` to `default`, the first.
pub open spec fn is_picture_of(shown: Option<Seq<char>>, all: Thumbnails) -> bool {
    let sizes = seq![all.maxres, all.high, all.medium, all.standard, all.default];
    ||| exists|at: int|
        {
            &&& 0 <= at < 5
            &&& (#[trigger] sizes[at]) matches Some(picture)
            &&& shown == picture.url.deep_view()
            &&& forall|i: int| 0 <= i < at ==> (#[trigger] sizes[i]) is None
        }
    ||| (forall|i: int| 0 <= i < 5 ==> (#[trigger] sizes[i]) is None) && shown is None
}

/// The first picture that there is in the order of sizes is shown.
pub proof fn the_best_picture_is_shown(all: Thumbnails)
    ensures
        is_picture_of(picture(Some(all).deep_view()), all),
        picture(None) is None,
{
    let sizes = seq![all.maxres, all.high, all.medium, all.standard, all.default];
    let at = if all.maxres is Some {
        0
    } else if all.high is Some {
        1
    } else if all.medium is Some {
        2
    } else if all.standard is Some {
        3
    } else {
        4int
    };
    assert(sizes[0] == all.maxres && sizes[1] == all.high && sizes[2] == all.medium && sizes[3]
        == all.standard && sizes[4] == all.default);
    assert(sizes[at] is Some ==> picture(Some(all).deep_view()) == sizes[at]->0.url.deep_view());
}

/// Whether a show says what the description of its source says: its title, its text and
/// its language, and shows its picture. What is not told is empty.
pub open spec fn says_the_same(show: FeedHead, told: SourceSnippet) -> bool {
    &&& told.title matches Some(title) ==> show.title@ == title@
    &&& told.title is None ==> show.title@.len() == 0
    &&& told.description matches Some(text) ==> show.description@ == text@
    &&& told.description is None ==> show.description@.len() == 0
    &&& told.default_language matches Some(language) ==> show.language is Some
        && show.language->0@ == language@
    &&& told.default_language is None ==> show.language is None
    &&& show.itunes matches Some(itunes) && {
        &&& itunes.categories@.len() == 0
        &&& match told.thumbnails {
            Some(all) => is_picture_of(itunes.image.deep_view(), all),
            None => itunes.image is None,
        }
    }
}

/// The show of a playlist has the title and the description of the playlist, in their
/// places, its language and its picture, and links to it.
pub proof fn playlists_name_their_shows(playlist: Playlist, show: FeedHead)
    requires
        playlist.snippet is Some,
        show.deep_view() == playlist_head(playlist.id.deep_view(), playlist.snippet.deep_view()),
    ensures
        says_the_same(show, playlist.snippet->0),
        playlist.id matches Some(id) ==> show.link@ == "https://www.youtube.com/playlist?list="@
            + id@,
        playlist.id is None ==> show.link@ == "https://www.youtube.com/playlist?list="@,
        show.itunes->0.explicit is None,
        show.namespaces@.len() == 0,
        show.image is None,
{
    lemma_same_words(show, playlist.snippet->0);
    assert("https://www.youtube.com/playlist?list="@ + Seq::<char>::empty()
        =~= "https://www.youtube.com/playlist?list="@);
    assert(show.namespaces.deep_view().len() == show.namespaces@.len());
}

/// The show of a channel has the title and the description of the channel, in their
/// places, its language and its picture, and links to it.
pub proof fn channels_name_their_shows(channel: YoutubeChannel, show: FeedHead)
    requires
        channel.snippet is Some,
        show.deep_view() == channel_head(channel.id.deep_view(), channel.snippet.deep_view()),
    ensures
        says_the_same(show, channel.snippet->0),
        channel.id matches Some(id) ==> show.link@ == "https://www.youtube.com/channel/"@ + id@,
        channel.id is None ==> show.link@ == "https://www.youtube.com/channel/"@,
        show.itunes->0.explicit matches Some(word) && word@ == "no"@,
        show.namespaces@.len() == 0,
        show.image is None,
{
    lemma_same_words(show, channel.snippet->0);
    assert("https://www.youtube.com/channel/"@ + Seq::<char>::empty()
        =~= "https://www.youtube.com/channel/"@);
    assert(show.namespaces.deep_view().len() == show.namespaces@.len());
}

proof fn lemma_same_words(show: FeedHead, told: SourceSnippet)
    requires
        show.title@ == crate::text::or_empty(told.title.deep_view()),
        show.description@ == crate::text::or_empty(told.description.deep_view()),
        show.language.deep_view() == told.default_language.deep_view(),
        show.itunes is Some,
        show.itunes->0.image.deep_view() == picture(told.thumbnails.deep_view()),
        show.itunes->0.categories.deep_view() == Seq::<crate::feed::CategoryModel>::empty(),
    ensures
        says_the_same(show, told),
{
    if told.thumbnails is Some {
        the_best_picture_is_shown(told.thumbnails->0);
    }
    let categories = show.itunes->0.categories;
    assert(categories.deep_view().len() == categories@.len());
}

/// The playlist of a channel's uploads is the one that the channel names.
pub proof fn uploads_are_those_that_are_named(channel: YoutubeChannel, id: Seq<char>)
    ensures
        uploads(channel) == Ok::<Seq<char>, NoUploads>(id) <==> {
            &&& channel.content_details matches Some(details)
            &&& details.related_playlists matches Some(playlists)
            &&& playlists.uploads matches Some(named)
            &&& named@ == id
        },
{
}

/// An item stands for the video that its resource names, and has the date at which it
/// was published.
pub proof fn items_stand_for_their_videos(item: PlaylistItem)
    ensures
        item.snippet is None ==> item.deep_view().video() is None && item.deep_view().date() is None,
        item.snippet matches Some(snippet) ==> {
            &&& item.deep_view().date() == snippet.published_at
            &&& item.deep_view().video() == match snippet.resource_id {
                Some(resource) => resource.video_id.deep_view(),
                None => None,
            }
        },
{
}

/// A playlist and a channel that say nothing of themselves make shows without any words
/// or pictures; that of the channel links to it.
pub proof fn nothing_said_shows_nothing(
    playlist: Playlist,
    channel: YoutubeChannel,
    show: FeedHead,
    other: FeedHead,
)
    requires
        playlist.snippet is None,
        channel.snippet is None,
        call_ensures(build_channel_from_playlist, (playlist,), show),
        call_ensures(build_channel_from_yt_channel, (channel,), other),
    ensures
        show.title@.len() == 0 && show.description@.len() == 0 && show.link@.len() == 0,
        show.language is None && show.image is None,
        show.itunes matches Some(itunes) && itunes.image is None && itunes.explicit is None,
        other.title@.len() == 0 && other.description@.len() == 0,
        channel.id matches Some(id) ==> other.link@ == "https://www.youtube.com/channel/"@ + id@,
        other.language is None && other.image is None,
        other.itunes matches Some(itunes) && itunes.image is None && itunes.explicit is None,
{
}

/// What is made of a playlist has its identifier and the title and the description that
/// it gives itself; what is made of a channel has the playlist that it names for its
/// uploads.
pub proof fn sources_are_those_of_the_playlist(
    playlist: Playlist,
    channel: YoutubeChannel,
    source: Source,
    other: Source,
)
    requires
        playlist.snippet is Some,
        channel.snippet is Some,
        call_ensures(playlist_source, (playlist,), Ok(source)),
        call_ensures(channel_source, (channel,), Ok(other)),
    ensures
        playlist.id matches Some(id) && source.playlist_id@ == id@,
        says_the_same(source.show, playlist.snippet->0),
        channel.content_details matches Some(details)
            && details.related_playlists matches Some(playlists)
            && playlists.uploads matches Some(id) && other.playlist_id@ == id@,
        says_the_same(other.show, channel.snippet->0),
{
    lemma_same_words(source.show, playlist.snippet->0);
    lemma_same_words(other.show, channel.snippet->0);
}

/// A channel's uploads are missing for the first of the three reasons that holds, and the
/// reason is told in words; a playlist makes a source exactly if it has an identifier.
pub proof fn missing_parts_are_told(
    channel: &YoutubeChannel,
    r: Result<String, NoUploads>,
    e: &NoUploads,
    words: String,
    playlist: Playlist,
    source: Result<Source, String>,
)
    requires
        call_ensures(uploads_of, (channel,), r),
        call_ensures(NoUploads::message, (e,), words),
        call_ensures(playlist_source, (playlist,), source),
    ensures
        r matches Ok(id) ==> channel.content_details is Some
            && channel.content_details->0.related_playlists is Some
            && channel.content_details->0.related_playlists->0.uploads is Some
            && channel.content_details->0.related_playlists->0.uploads->0@ == id@,
        r == Err::<String, NoUploads>(NoUploads::NoContentDetails) <==> channel.content_details
            is None,
        channel.content_details matches Some(details) ==> (r == Err::<String, NoUploads>(
            NoUploads::NoRelatedPlaylists,
        ) <==> details.related_playlists is None),
        channel.content_details matches Some(details)
            ==> details.related_playlists matches Some(playlists) ==> (r == Err::<
            String,
            NoUploads,
        >(NoUploads::NoUploads) <==> playlists.uploads is None),
        e is NoContentDetails ==> words@ == "content_details is None"@,
        e is NoRelatedPlaylists ==> words@ == "related_playlists is None"@,
        e is NoUploads ==> words@ == "uploads is None"@,
        source is Ok <==> playlist.id is Some,
        source is Err ==> source->Err_0@ == "playlist has no id"@,
{
}

} // verus!

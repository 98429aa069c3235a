//! Podcast feeds: a channel with its items, and their text, which the `rss` crate
//! writes.
use rss::extension::itunes::{ITunesCategory, ITunesChannelExtension, ITunesItemExtension};
use vstd::prelude::*;

verus! {

/// An item of the `rss` crate, carried through.
#[verifier::external_type_specification]
#[verifier::external_body]
pub struct ExItem(rss::Item);

/// A channel of the `rss` crate, carried through.
#[verifier::external_type_specification]
#[verifier::external_body]
pub struct ExChannel(rss::Channel);

/// The error of the `rss` crate, carried through.
#[verifier::external_type_specification]
#[verifier::external_body]
pub struct ExRssError(rss::Error);

/// The lasting name of an item.
#[derive(Debug, PartialEq, Eq)]
pub struct Guid {
    pub value: String,
    pub permalink: bool,
}

/// What Apple's directory shows of an item.
#[derive(Debug, PartialEq, Eq)]
pub struct ItunesItem {
    pub summary: Option<String>,
    pub duration: Option<String>,
    pub image: Option<String>,
}

/// An episode.
#[derive(Debug, PartialEq, Eq)]
pub struct FeedItem {
    pub title: Option<String>,
    pub link: Option<String>,
    pub description: Option<String>,
    pub author: Option<String>,
    pub pub_date: Option<String>,
    pub guid: Option<Guid>,
    pub itunes: Option<ItunesItem>,
}

/// A category of Apple's directory and, within it, a subcategory.
#[derive(Debug, PartialEq, Eq)]
pub struct Category {
    pub primary: String,
    pub secondary: Option<String>,
}

/// What Apple's directory shows of a channel.
#[derive(Debug, PartialEq, Eq)]
pub struct ItunesChannel {
    pub image: Option<String>,
    pub explicit: Option<String>,
    pub categories: Vec<Category>,
}

/// A show, without its episodes.
#[derive(Debug, PartialEq, Eq)]
pub struct FeedHead {
    pub title: String,
    pub link: String,
    pub description: String,
    pub language: Option<String>,
    /// The address of the show's picture.
    pub image: Option<String>,
    pub itunes: Option<ItunesChannel>,
    /// The prefixes and names of the XML namespaces that the feed declares.
    pub namespaces: Vec<(String, String)>,
}

/// A show with its episodes.
#[derive(Debug, PartialEq, Eq)]
pub struct Feed {
    pub head: FeedHead,
    pub items: Vec<FeedItem>,
}

/// A [`Guid`] with its text as a sequence of characters.
pub struct GuidModel {
    pub value: Seq<char>,
    pub permalink: bool,
}

/// An [`ItunesItem`] with its texts as sequences of characters.
pub struct ItunesItemModel {
    pub summary: Option<Seq<char>>,
    pub duration: Option<Seq<char>>,
    pub image: Option<Seq<char>>,
}

/// A [`FeedItem`] with its texts as sequences of characters.
pub struct FeedItemModel {
    pub title: Option<Seq<char>>,
    pub link: Option<Seq<char>>,
    pub description: Option<Seq<char>>,
    pub author: Option<Seq<char>>,
    pub pub_date: Option<Seq<char>>,
    pub guid: Option<GuidModel>,
    pub itunes: Option<ItunesItemModel>,
}

/// A [`Category`] with its texts as sequences of characters.
pub struct CategoryModel {
    pub primary: Seq<char>,
    pub secondary: Option<Seq<char>>,
}

/// An [`ItunesChannel`] with its texts as sequences of characters.
pub struct ItunesChannelModel {
    pub image: Option<Seq<char>>,
    pub explicit: Option<Seq<char>>,
    pub categories: Seq<CategoryModel>,
}

/// A [`FeedHead`] with its texts as sequences of characters.
pub struct FeedHeadModel {
    pub title: Seq<char>,
    pub link: Seq<char>,
    pub description: Seq<char>,
    pub language: Option<Seq<char>>,
    pub image: Option<Seq<char>>,
    pub itunes: Option<ItunesChannelModel>,
    pub namespaces: Seq<(Seq<char>, Seq<char>)>,
}

/// A [`Feed`] with its texts as sequences of characters.
pub struct FeedModel {
    pub head: FeedHeadModel,
    pub items: Seq<FeedItemModel>,
}

impl DeepView for Guid {
    type V = GuidModel;

    open spec fn deep_view(&self) -> GuidModel {
        GuidModel { value: self.value@, permalink: self.permalink }
    }
}

impl DeepView for ItunesItem {
    type V = ItunesItemModel;

    open spec fn deep_view(&self) -> ItunesItemModel {
        ItunesItemModel {
            summary: self.summary.deep_view(),
            duration: self.duration.deep_view(),
            image: self.image.deep_view(),
        }
    }
}

impl DeepView for FeedItem {
    type V = FeedItemModel;

    open spec fn deep_view(&self) -> FeedItemModel {
        FeedItemModel {
            title: self.title.deep_view(),
            link: self.link.deep_view(),
            description: self.description.deep_view(),
            author: self.author.deep_view(),
            pub_date: self.pub_date.deep_view(),
            guid: self.guid.deep_view(),
            itunes: self.itunes.deep_view(),
        }
    }
}

impl DeepView for Category {
    type V = CategoryModel;

    open spec fn deep_view(&self) -> CategoryModel {
        CategoryModel { primary: self.primary@, secondary: self.secondary.deep_view() }
    }
}

impl DeepView for ItunesChannel {
    type V = ItunesChannelModel;

    open spec fn deep_view(&self) -> ItunesChannelModel {
        ItunesChannelModel {
            image: self.image.deep_view(),
            explicit: self.explicit.deep_view(),
            categories: self.categories.deep_view(),
        }
    }
}

impl DeepView for FeedHead {
    type V = FeedHeadModel;

    open spec fn deep_view(&self) -> FeedHeadModel {
        FeedHeadModel {
            title: self.title@,
            link: self.link@,
            description: self.description@,
            language: self.language.deep_view(),
            image: self.image.deep_view(),
            itunes: self.itunes.deep_view(),
            namespaces: self.namespaces.deep_view(),
        }
    }
}

impl DeepView for Feed {
    type V = FeedModel;

    open spec fn deep_view(&self) -> FeedModel {
        FeedModel { head: self.head.deep_view(), items: self.items.deep_view() }
    }
}

/// The prefixes and names of the namespaces of iTunes and of the Podcast Index.
pub open spec fn podcast_namespaces() -> Seq<(Seq<char>, Seq<char>)> {
    seq![
        ("itunes"@, "http://www.itunes.com/dtds/podcast-1.0.dtd"@),
        ("podcast"@, "https://podcastindex.org/namespace/1.0"@),
    ]
}

/// The namespaces that a feed declares.
pub fn feed_namespaces() -> (r: Vec<(String, String)>)
    ensures
        r.deep_view() == podcast_namespaces(),
{
    let r: Vec<(String, String)> = vec![
        ("itunes".to_string(), "http://www.itunes.com/dtds/podcast-1.0.dtd".to_string()),
        ("podcast".to_string(), "https://podcastindex.org/namespace/1.0".to_string()),
    ];
    assert(r.deep_view() =~= podcast_namespaces());
    r
}

/// Whether a feed declares the namespaces of iTunes and of the Podcast Index.
pub open spec fn declares_both(feed: FeedModel) -> bool {
    &&& feed.head.namespaces.contains(
        ("itunes"@, "http://www.itunes.com/dtds/podcast-1.0.dtd"@),
    )
    &&& feed.head.namespaces.contains(("podcast"@, "https://podcastindex.org/namespace/1.0"@))
}

pub(crate) proof fn lemma_both_are_declared(feed: FeedModel)
    requires
        feed.head.namespaces == podcast_namespaces(),
    ensures
        declares_both(feed),
{
    assert(podcast_namespaces()[0] == ("itunes"@, "http://www.itunes.com/dtds/podcast-1.0.dtd"@));
    assert(podcast_namespaces()[1] == ("podcast"@, "https://podcastindex.org/namespace/1.0"@));
}

/// The item of the `rss` crate with some fields; its other fields are empty.
pub uninterp spec fn rss_item_of(fields: FeedItemModel) -> rss::Item;

/// The channel of the `rss` crate with some fields and items; its other fields are
/// empty.
pub uninterp spec fn rss_channel_of(fields: FeedHeadModel, items: Seq<rss::Item>) -> rss::Channel;

/// The bytes that `rss::Channel::write_to` writes of a channel, if it succeeds.
pub uninterp spec fn rss_bytes(channel: rss::Channel) -> Option<Seq<u8>>;

/// The words in which `rss::Error` tells what went wrong.
pub uninterp spec fn rss_error_text(e: rss::Error) -> Seq<char>;

/// Fills an `rss::Item`, field by field; the fields that have no counterpart are
/// those of `rss::Item::default`. The item depends on the fields alone.
#[verifier::external_body]
fn rss_item(item: FeedItem) -> (r: rss::Item)
    ensures
        r == rss_item_of(item.deep_view()),
{
    rss::Item {
        title: item.title,
        link: item.link,
        description: item.description,
        author: item.author,
        pub_date: item.pub_date,
        guid: item.guid.map(|g| rss::Guid { value: g.value, permalink: g.permalink }),
        itunes_ext: item.itunes.map(|i| ITunesItemExtension {
            summary: i.summary, duration: i.duration, image: i.image, ..Default::default()
        }),
        ..Default::default()
    }
}

/// Fills an `rss::Channel`, field by field; the fields that have no counterpart are
/// those of `rss::Channel::default`. The channel depends on the fields and the
/// items alone.
#[verifier::external_body]
fn rss_channel(head: FeedHead, items: Vec<rss::Item>) -> (r: rss::Channel)
    ensures
        r == rss_channel_of(head.deep_view(), items@),
{
    let category = |text, subcategory| ITunesCategory { text, subcategory };
    let categories = |c: Vec<Category>| c.into_iter().map(|c| category(
        c.primary, c.secondary.map(|text| Box::new(category(text, None)))
    )).collect();
    rss::Channel {
        title: head.title, link: head.link, description: head.description, language: head.language,
        image: head.image.map(|url| rss::Image { url, ..Default::default() }),
        itunes_ext: head.itunes.map(|i| ITunesChannelExtension {
            image: i.image, explicit: i.explicit, categories: categories(i.categories),
            ..Default::default()
        }),
        namespaces: head.namespaces.into_iter().collect(), items, ..Default::default()
    }
}

/// Calls `rss::Channel::write_to` with a vector of bytes to write to. What is
/// written, and whether it succeeds, depends on the channel alone; what is written
/// is UTF-8.
#[verifier::external_body]
fn rss_write(channel: &rss::Channel) -> (r: Result<Vec<u8>, rss::Error>)
    ensures
        r.ok().deep_view() == rss_bytes(*channel),
        r is Ok ==> vstd::utf8::valid_utf8(r->Ok_0@),
{
    channel.write_to(Vec::new())
}

/// Calls `to_string` of `rss::Channel`: the text of what `write_to` writes, or the
/// empty text where it fails.
#[verifier::external_body]
fn rss_text(channel: &rss::Channel) -> (r: String)
    ensures
        r@ == text_of_bytes(rss_bytes(*channel)),
{
    channel.to_string()
}

/// Calls `to_string` of `rss::Error`. The words depend on the error alone.
#[verifier::external_body]
fn rss_message(e: &rss::Error) -> (r: String)
    ensures
        r@ == rss_error_text(*e),
{
    e.to_string()
}

/// The text that bytes of UTF-8 encode; the empty text where there are none.
pub open spec fn text_of_bytes(bytes: Option<Seq<u8>>) -> Seq<char> {
    match bytes {
        Some(b) => vstd::utf8::decode_utf8(b),
        None => Seq::empty(),
    }
}

/// The channel of the `rss` crate that holds a feed.
pub open spec fn channel_of(feed: FeedModel) -> rss::Channel {
    rss_channel_of(feed.head, feed.items.map_values(|item: FeedItemModel| rss_item_of(item)))
}

/// The text of a feed.
pub open spec fn feed_text(feed: FeedModel) -> Seq<char> {
    text_of_bytes(rss_bytes(channel_of(feed)))
}

fn to_channel(feed: Feed) -> (r: rss::Channel)
    ensures
        r == channel_of(feed.deep_view()),
{
    let mut items: Vec<rss::Item> = Vec::new();
    let ghost all = feed.items.deep_view();
    let ghost wanted = all.map_values(|item: FeedItemModel| rss_item_of(item));
    for item in it: feed.items
        invariant
            items@ =~= wanted.take(it.index()),
            all == feed.items.deep_view(),
            it.seq() == feed.items@,
            wanted == all.map_values(|item: FeedItemModel| rss_item_of(item)),
    {
        assert(all[it.index()] == item.deep_view());
        items.push(rss_item(item));
    }
    assert(items@ =~= wanted);
    rss_channel(feed.head, items)
}

/// Writes a feed; the text is empty where the `rss` crate fails to write it.
pub fn render(feed: Feed) -> (r: String)
    ensures
        r@ == feed_text(feed.deep_view()),
{
    rss_text(&to_channel(feed))
}

/// Writes a feed, or tells in words why the `rss` crate fails to write it.
pub fn try_render(feed: Feed) -> (r: Result<String, String>)
    ensures
        match r {
            Ok(text) => rss_bytes(channel_of(feed.deep_view())) is Some && text@ == feed_text(
                feed.deep_view(),
            ),
            Err(message) => {
                &&& rss_bytes(channel_of(feed.deep_view())) is None
                &&& exists|e: rss::Error|
                    message@ == "failed writing rss: "@ + #[trigger] rss_error_text(e)
            },
        },
{
    match rss_write(&to_channel(feed)) {
        Ok(bytes) => {
            assert(bytes.deep_view() =~= bytes@);
            Ok(crate::text::utf8_lossy(bytes.as_slice()))
        },
        Err(e) => Err(crate::text::join("failed writing rss: ", rss_message(&e).as_str())),
    }
}

/// A feed is written with its head and with all of its items, in their order.
pub proof fn feeds_are_written_in_full(
    feed: Feed,
    items: Seq<rss::Item>,
    text: String,
    tried: Result<String, String>,
)
    requires
        items.len() == feed.items@.len(),
        forall|i: int|
            0 <= i < items.len() ==> (#[trigger] items[i]) == rss_item_of(
                feed.items@[i].deep_view(),
            ),
        call_ensures(render, (feed,), text),
        call_ensures(try_render, (feed,), tried),
    ensures
        match rss_bytes(rss_channel_of(feed.head.deep_view(), items)) {
            Some(bytes) => text@ == vstd::utf8::decode_utf8(bytes) && tried is Ok && tried->Ok_0@
                == vstd::utf8::decode_utf8(bytes),
            None => text@.len() == 0 && tried is Err,
        },
{
    let models = feed.items.deep_view();
    let wanted = models.map_values(|item: FeedItemModel| rss_item_of(item));
    assert forall|i: int| 0 <= i < items.len() implies (#[trigger] items[i]) == wanted[i] by {
        assert(models[i] == feed.items@[i].deep_view());
    }
    assert(items =~= wanted);
}

/// An episode and a show are seen field by field.
pub proof fn feeds_are_seen_as_they_are(item: FeedItem, head: FeedHead)
    ensures
        item.deep_view().title == item.title.deep_view(),
        item.deep_view().link == item.link.deep_view(),
        item.deep_view().description == item.description.deep_view(),
        item.deep_view().author == item.author.deep_view(),
        item.deep_view().pub_date == item.pub_date.deep_view(),
        item.guid matches Some(guid) ==> item.deep_view().guid == Some(
            GuidModel { value: guid.value@, permalink: guid.permalink },
        ),
        item.guid is None ==> item.deep_view().guid is None,
        item.itunes matches Some(itunes) ==> item.deep_view().itunes == Some(
            ItunesItemModel {
                summary: itunes.summary.deep_view(),
                duration: itunes.duration.deep_view(),
                image: itunes.image.deep_view(),
            },
        ),
        item.itunes is None ==> item.deep_view().itunes is None,
        head.deep_view().title == head.title@,
        head.deep_view().link == head.link@,
        head.deep_view().description == head.description@,
        head.deep_view().language == head.language.deep_view(),
        head.deep_view().image == head.image.deep_view(),
        head.itunes matches Some(itunes) ==> head.deep_view().itunes is Some
            && head.deep_view().itunes->0.image == itunes.image.deep_view()
            && head.deep_view().itunes->0.explicit == itunes.explicit.deep_view()
            && head.deep_view().itunes->0.categories.len() == itunes.categories@.len(),
        head.itunes is None ==> head.deep_view().itunes is None,
{
}

} // verus!

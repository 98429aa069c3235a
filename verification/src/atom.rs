//! YouTube's Atom feeds, which the `feed-rs` crate reads, and the podcast feeds
//! that are made of them.
use crate::feed::{
    Feed, FeedHead, FeedHeadModel, FeedItem, FeedItemModel, FeedModel, Guid, GuidModel,
    ItunesChannel, ItunesChannelModel, ItunesItem, ItunesItemModel,
};
use vstd::prelude::*;

verus! {

/// An entry of a feed of the `feed-rs` crate, carried through.
#[verifier::external_type_specification]
#[verifier::external_body]
pub struct ExEntry(feed_rs::model::Entry);

/// The error of the `feed-rs` crate, carried through.
#[verifier::external_type_specification]
#[verifier::external_body]
pub struct ExParseFeedError(feed_rs::parser::ParseFeedError);

/// What a feed says of itself.
#[derive(Debug, PartialEq, Eq)]
pub struct AtomHead {
    pub title: Option<String>,
    pub description: Option<String>,
    pub language: Option<String>,
    pub icon: Option<String>,
    pub links: Vec<String>,
}

/// A medium of an entry.
#[derive(Debug, PartialEq, Eq)]
pub struct AtomMedia {
    pub description: Option<String>,
    pub thumbnails: Vec<String>,
}

/// An entry of a feed.
#[derive(Debug, PartialEq, Eq)]
pub struct AtomEntry {
    pub id: String,
    pub title: Option<String>,
    pub links: Vec<String>,
    pub media: Vec<AtomMedia>,
}

/// A feed with its entries.
#[derive(Debug, PartialEq, Eq)]
pub struct AtomFeed {
    pub head: AtomHead,
    pub entries: Vec<AtomEntry>,
}

/// An [`AtomHead`] with its texts as sequences of characters.
pub struct AtomHeadModel {
    pub title: Option<Seq<char>>,
    pub description: Option<Seq<char>>,
    pub language: Option<Seq<char>>,
    pub icon: Option<Seq<char>>,
    pub links: Seq<Seq<char>>,
}

/// An [`AtomMedia`] with its texts as sequences of characters.
pub struct AtomMediaModel {
    pub description: Option<Seq<char>>,
    pub thumbnails: Seq<Seq<char>>,
}

/// An [`AtomEntry`] with its texts as sequences of characters.
pub struct AtomEntryModel {
    pub id: Seq<char>,
    pub title: Option<Seq<char>>,
    pub links: Seq<Seq<char>>,
    pub media: Seq<AtomMediaModel>,
}

/// An [`AtomFeed`] with its texts as sequences of characters.
pub struct AtomFeedModel {
    pub head: AtomHeadModel,
    pub entries: Seq<AtomEntryModel>,
}

impl DeepView for AtomHead {
    type V = AtomHeadModel;

    open spec fn deep_view(&self) -> AtomHeadModel {
        AtomHeadModel {
            title: self.title.deep_view(),
            description: self.description.deep_view(),
            language: self.language.deep_view(),
            icon: self.icon.deep_view(),
            links: self.links.deep_view(),
        }
    }
}

impl DeepView for AtomMedia {
    type V = AtomMediaModel;

    open spec fn deep_view(&self) -> AtomMediaModel {
        AtomMediaModel {
            description: self.description.deep_view(),
            thumbnails: self.thumbnails.deep_view(),
        }
    }
}

impl DeepView for AtomEntry {
    type V = AtomEntryModel;

    open spec fn deep_view(&self) -> AtomEntryModel {
        AtomEntryModel {
            id: self.id@,
            title: self.title.deep_view(),
            links: self.links.deep_view(),
            media: self.media.deep_view(),
        }
    }
}

impl DeepView for AtomFeed {
    type V = AtomFeedModel;

    open spec fn deep_view(&self) -> AtomFeedModel {
        AtomFeedModel { head: self.head.deep_view(), entries: self.entries.deep_view() }
    }
}

/// Whether two entries are the same but for an identifier that may have been made up
/// by chance: the `feed-rs` crate makes one up for an entry that has neither an
/// identifier nor a link.
pub open spec fn entries_agree(a: AtomEntryModel, b: AtomEntryModel) -> bool {
    if a.links.len() == 0 {
        AtomEntryModel { id: a.id, ..b } == a
    } else {
        b == a
    }
}

/// Whether two outcomes of reading are the same but for identifiers that may have been
/// made up by chance.
pub open spec fn outcomes_agree(a: Option<AtomFeedModel>, b: Option<AtomFeedModel>) -> bool {
    match (a, b) {
        (Some(x), Some(y)) => {
            &&& x.head == y.head
            &&& x.entries.len() == y.entries.len()
            &&& forall|i: int|
                0 <= i < x.entries.len() ==> entries_agree(#[trigger] x.entries[i], y.entries[i])
        },
        (None, None) => true,
        _ => false,
    }
}

/// The fields of an entry of the `feed-rs` crate.
pub uninterp spec fn entry_fields(entry: feed_rs::model::Entry) -> AtomEntryModel;

/// Whether the `feed-rs` crate may read this feed from some bytes, or none.
pub uninterp spec fn is_atom(bytes: Seq<u8>, feed: Option<AtomFeedModel>) -> bool;

/// The words in which the error of the `feed-rs` crate tells what is wrong.
pub uninterp spec fn atom_error_text(e: feed_rs::parser::ParseFeedError) -> Seq<char>;

/// The parts of a feed that was read, with the fields of its entries.
pub open spec fn parts_of(
    r: Result<(AtomHead, Vec<feed_rs::model::Entry>), feed_rs::parser::ParseFeedError>,
) -> Option<AtomFeedModel> {
    match r {
        Ok((head, entries)) => Some(
            AtomFeedModel {
                head: head.deep_view(),
                entries: entries@.map_values(|entry: feed_rs::model::Entry| entry_fields(entry)),
            },
        ),
        Err(_) => None,
    }
}

/// Calls `feed_rs::parser::parse` and takes the fields of the feed. All outcomes for
/// the same bytes are the same but for the identifier of an entry that has neither an
/// identifier nor a link, which is made up by chance. The call panics where a time is
/// more than can be counted or has digits that are not ASCII, and may where elements
/// are nested deeper than 65535. A nesting that exhausts the stack is left aside.
#[verifier::external_body]
fn parse_feed(bytes: &[u8]) -> (r: Result<
    (AtomHead, Vec<feed_rs::model::Entry>),
    feed_rs::parser::ParseFeedError,
>)
    requires
        crate::markup::is_parsable(bytes@),
    ensures
        is_atom(bytes@, parts_of(r)),
        forall|other: Option<AtomFeedModel>| #[trigger]
            is_atom(bytes@, other) ==> outcomes_agree(parts_of(r), other),
{
    feed_rs::parser::parse(bytes).map(|f| (AtomHead {
        title: f.title.map(|t| t.content),
        description: f.description.map(|t| t.content),
        language: f.language,
        icon: f.icon.map(|i| i.uri),
        links: f.links.into_iter().map(|l| l.href).collect(),
    }, f.entries))
}

/// Takes the fields of a `feed_rs::model::Entry`: its identifier, the text of its
/// title, the addresses of its links, and of each medium the text of the description
/// and the addresses of the thumbnails. They depend on the entry alone.
#[verifier::external_body]
fn atom_entry(e: feed_rs::model::Entry) -> (r: AtomEntry)
    ensures
        r.deep_view() == entry_fields(e),
{
    AtomEntry {
        id: e.id,
        title: e.title.map(|t| t.content),
        links: e.links.into_iter().map(|l| l.href).collect(),
        media: e.media.into_iter().map(|m| AtomMedia {
            description: m.description.map(|t| t.content),
            thumbnails: m.thumbnails.into_iter().map(|t| t.image.uri).collect(),
        }).collect(),
    }
}

/// Calls `to_string` of `feed_rs::parser::ParseFeedError`. The words depend on the
/// error alone.
#[verifier::external_body]
fn error_text(e: &feed_rs::parser::ParseFeedError) -> (r: String)
    ensures
        r@ == atom_error_text(*e),
{
    e.to_string()
}

/// The feed that was read, if one was.
pub open spec fn read_feed(r: Result<AtomFeed, String>) -> Option<AtomFeedModel> {
    match r {
        Ok(feed) => Some(feed.deep_view()),
        Err(_) => None,
    }
}

/// Reads a feed: one that `feed-rs` may read from the bytes, or an error where it
/// reads none.
pub fn read_atom(bytes: &[u8]) -> (r: Result<AtomFeed, String>)
    requires
        crate::markup::is_parsable(bytes@),
    ensures
        is_atom(bytes@, read_feed(r)),
        forall|other: Option<AtomFeedModel>| #[trigger]
            is_atom(bytes@, other) ==> outcomes_agree(read_feed(r), other),
        r matches Err(message) ==> exists|e: feed_rs::parser::ParseFeedError|
            message@ == "failed to parse atom feed: "@ + #[trigger] atom_error_text(e),
{
    match parse_feed(bytes) {
        Ok((head, parsed)) => {
            let mut entries: Vec<AtomEntry> = Vec::new();
            for entry in it: parsed
                invariant
                    it.seq() == parsed@,
                    entries.len() == it.index(),
                    forall|i: int|
                        0 <= i < entries.len() ==> (#[trigger] entries.deep_view()[i])
                            == entry_fields(parsed@[i]),
            {
                let ghost before = entries.deep_view();
                entries.push(atom_entry(entry));
                assert(entries.deep_view() =~= before.push(entry_fields(entry)));
            }
            let feed = AtomFeed { head, entries };
            assert(feed.deep_view().entries =~= parsed@.map_values(
                |entry: feed_rs::model::Entry| entry_fields(entry),
            ));
            Ok(feed)
        },
        Err(e) => Err(crate::text::join("failed to parse atom feed: ", error_text(&e).as_str())),
    }
}

/// The first of some texts.
pub open spec fn first_text(all: Seq<Seq<char>>) -> Option<Seq<char>> {
    if all.len() > 0 {
        Some(all[0])
    } else {
        None
    }
}

fn first(all: &Vec<String>) -> (r: Option<String>)
    ensures
        r.deep_view() == first_text(all.deep_view()),
{
    if all.len() > 0 {
        Some(all[0].clone())
    } else {
        None
    }
}

/// The first links of the entries that have one, in their order.
pub open spec fn links_of(entries: Seq<AtomEntryModel>) -> Seq<Seq<char>>
    decreases entries.len(),
{
    if entries.len() == 0 {
        Seq::empty()
    } else {
        match first_text(entries.last().links) {
            Some(link) => links_of(entries.drop_last()).push(link),
            None => links_of(entries.drop_last()),
        }
    }
}

/// The first links of the entries that have one: those of the videos whose lengths
/// the feed tells.
pub fn video_links(feed: &AtomFeed) -> (r: Vec<String>)
    ensures
        r.deep_view() == links_of(feed.deep_view().entries),
{
    let mut links: Vec<String> = Vec::new();
    let mut i: usize = 0;
    let ghost all = feed.entries.deep_view();
    assert(all.take(0) =~= Seq::<AtomEntryModel>::empty());
    assert(links.deep_view() =~= Seq::<Seq<char>>::empty());
    while i < feed.entries.len()
        invariant
            i <= feed.entries.len(),
            all == feed.entries.deep_view(),
            links.deep_view() == links_of(all.take(i as int)),
        decreases feed.entries.len() - i,
    {
        assert(all[i as int] == feed.entries@[i as int].deep_view());
        assert(all.take(i + 1).drop_last() =~= all.take(i as int));
        let ghost before = links.deep_view();
        if let Some(link) = first(&feed.entries[i].links) {
            let ghost told = link@;
            links.push(link);
            assert(links.deep_view() =~= before.push(told));
        }
        i += 1;
    }
    assert(all.take(i as int) =~= all);
    links
}

/// The length of the video at a link: the last one that was noted for it.
pub open spec fn noted(durations: Seq<(Seq<char>, Option<usize>)>, link: Seq<char>) -> Option<usize>
    decreases durations.len(),
{
    if durations.len() == 0 {
        None
    } else if durations.last().0 == link {
        durations.last().1
    } else {
        noted(durations.drop_last(), link)
    }
}

fn noted_length(durations: &Vec<(String, Option<usize>)>, link: &str) -> (r: Option<usize>)
    ensures
        r == noted(durations.deep_view(), link@),
{
    let mut i: usize = durations.len();
    let ghost all = durations.deep_view();
    assert(all.take(i as int) =~= all);
    while i > 0
        invariant
            i <= durations.len(),
            all == durations.deep_view(),
            noted(all, link@) == noted(all.take(i as int), link@),
        decreases i,
    {
        assert(all.take(i as int).drop_last() =~= all.take(i - 1));
        assert(all.take(i as int).last() == all[i - 1]);
        assert(all[i - 1].0 == durations@[i - 1].0@);
        assert(all[i - 1].1 == durations@[i - 1].1);
        i -= 1;
        if crate::text::same(durations[i].0.as_str(), link) {
            return durations[i].1;
        }
    }
    None
}

/// The clock of the video at a link.
pub open spec fn clock_at(
    durations: Seq<(Seq<char>, Option<usize>)>,
    link: Option<Seq<char>>,
) -> Option<Seq<char>> {
    match link {
        Some(address) => match noted(durations, address) {
            Some(n) => Some(crate::duration::seconds_text(n as nat)),
            None => None,
        },
        None => None,
    }
}

/// The description and the picture in the first one of some media.
pub open spec fn first_medium(media: Seq<AtomMediaModel>) -> (Option<Seq<char>>, Option<Seq<char>>) {
    if media.len() > 0 {
        (media[0].description, first_text(media[0].thumbnails))
    } else {
        (None, None)
    }
}

/// The episode that an entry makes.
pub open spec fn episode(
    entry: AtomEntryModel,
    durations: Seq<(Seq<char>, Option<usize>)>,
) -> FeedItemModel {
    FeedItemModel {
        title: entry.title,
        link: first_text(entry.links),
        description: first_medium(entry.media).0,
        author: None,
        pub_date: None,
        guid: Some(GuidModel { value: entry.id, permalink: true }),
        itunes: Some(
            ItunesItemModel {
                summary: None,
                duration: clock_at(durations, first_text(entry.links)),
                image: first_medium(entry.media).1,
            },
        ),
    }
}

/// The show that a feed makes.
pub open spec fn show(head: AtomHeadModel) -> FeedHeadModel {
    FeedHeadModel {
        title: crate::text::or_empty(head.title),
        link: crate::text::or_empty(first_text(head.links)),
        description: crate::text::or_empty(head.description),
        language: head.language,
        image: Some(crate::text::or_empty(head.icon)),
        itunes: Some(
            ItunesChannelModel { image: head.icon, explicit: None, categories: Seq::empty() },
        ),
        namespaces: crate::feed::podcast_namespaces(),
    }
}

/// The podcast feed that an Atom feed makes.
pub open spec fn podcast(
    feed: AtomFeedModel,
    durations: Seq<(Seq<char>, Option<usize>)>,
) -> FeedModel {
    FeedModel {
        head: show(feed.head),
        items: feed.entries.map_values(|entry: AtomEntryModel| episode(entry, durations)),
    }
}

fn build_episode(entry: AtomEntry, durations: &Vec<(String, Option<usize>)>) -> (r: FeedItem)
    ensures
        r.deep_view() == episode(entry.deep_view(), durations.deep_view()),
{
    let link = first(&entry.links);
    let duration = match &link {
        Some(address) => match noted_length(durations, address.as_str()) {
            Some(n) => Some(crate::duration::write_seconds(n as u64)),
            None => None,
        },
        None => None,
    };
    let (description, image) = if entry.media.len() > 0 {
        assert(entry.media.deep_view()[0] == entry.media@[0].deep_view());
        (entry.media[0].description.clone(), first(&entry.media[0].thumbnails))
    } else {
        (None, None)
    };
    FeedItem {
        title: entry.title,
        link,
        description,
        author: None,
        pub_date: None,
        guid: Some(Guid { value: entry.id, permalink: true }),
        itunes: Some(ItunesItem { summary: None, duration, image }),
    }
}

/// Makes a podcast feed of an Atom feed and the lengths of its videos.
pub fn build_podcast(feed: AtomFeed, durations: &Vec<(String, Option<usize>)>) -> (r: Feed)
    ensures
        r.deep_view() == podcast(feed.deep_view(), durations.deep_view()),
{
    let mut items: Vec<FeedItem> = Vec::new();
    let ghost all = feed.entries.deep_view();
    let ghost told = durations.deep_view();
    for entry in it: feed.entries
        invariant
            all == feed.entries.deep_view(),
            told == durations.deep_view(),
            it.seq() == feed.entries@,
            items.len() == it.index(),
            forall|i: int|
                0 <= i < items.len() ==> (#[trigger] items.deep_view()[i]) == episode(all[i], told),
    {
        assert(all[it.index()] == entry.deep_view());
        let ghost before = items.deep_view();
        let ghost made = episode(entry.deep_view(), told);
        items.push(build_episode(entry, durations));
        assert(items.deep_view() =~= before.push(made));
    }
    assert(items.deep_view() =~= all.map_values(|entry: AtomEntryModel| episode(entry, told)));
    let head = FeedHead {
        title: crate::text::text_or_empty(feed.head.title),
        link: crate::text::text_or_empty(first(&feed.head.links)),
        description: crate::text::text_or_empty(feed.head.description),
        language: feed.head.language,
        image: Some(crate::text::text_or_empty(feed.head.icon.clone())),
        itunes: Some(
            ItunesChannel { image: feed.head.icon, explicit: None, categories: Vec::new() },
        ),
        namespaces: crate::feed::feed_namespaces(),
    };
    assert(head.itunes->0.categories.deep_view() =~= Seq::empty());
    Feed { head, items }
}

/// Writes a podcast feed of an Atom feed and the lengths of its videos.
pub fn convert_atom_to_rss(
    feed: AtomFeed,
    duration_map: &Vec<(String, Option<usize>)>,
) -> (r: String)
    ensures
        r@ == crate::feed::feed_text(podcast(feed.deep_view(), duration_map.deep_view())),
{
    crate::feed::render(build_podcast(feed, duration_map))
}

/// Every entry makes one episode, in the same order and under the same lasting name.
pub proof fn entries_become_episodes(
    feed: AtomFeedModel,
    durations: Seq<(Seq<char>, Option<usize>)>,
)
    ensures
        podcast(feed, durations).items.len() == feed.entries.len(),
        forall|i: int|
            0 <= i < feed.entries.len() ==> (#[trigger] podcast(feed, durations).items[i]).guid
                == Some(GuidModel { value: feed.entries[i].id, permalink: true }),
{
}

/// Every podcast feed declares the namespaces of iTunes and of the Podcast Index.
pub proof fn podcasts_declare_namespaces(
    feed: AtomFeedModel,
    durations: Seq<(Seq<char>, Option<usize>)>,
)
    ensures
        crate::feed::declares_both(podcast(feed, durations)),
{
    crate::feed::lemma_both_are_declared(podcast(feed, durations));
}

/// Whether an episode is the one of an entry: it has its title, its first link, its
/// identifier for a lasting name, the description and the first picture of its first
/// medium, and the clock of the length that was noted last for its link.
pub open spec fn is_episode_of(
    made: FeedItem,
    entry: AtomEntry,
    durations: Seq<(String, Option<usize>)>,
) -> bool {
    &&& made.title.deep_view() == entry.title.deep_view()
    &&& made.link is Some <==> entry.links@.len() > 0
    &&& entry.links@.len() > 0 ==> made.link->0@ == entry.links@[0]@
    &&& made.guid is Some && made.guid->0.value@ == entry.id@ && made.guid->0.permalink
    &&& made.author is None && made.pub_date is None
    &&& entry.media@.len() == 0 ==> made.description is None
    &&& entry.media@.len() > 0 ==> made.description.deep_view()
        == entry.media@[0].description.deep_view()
    &&& made.itunes is Some && made.itunes->0.summary is None
    &&& entry.media@.len() > 0 && entry.media@[0].thumbnails@.len() > 0
        ==> made.itunes->0.image is Some && made.itunes->0.image->0@
        == entry.media@[0].thumbnails@[0]@
    &&& entry.media@.len() == 0 || entry.media@[0].thumbnails@.len() == 0
        ==> made.itunes->0.image is None
    &&& entry.links@.len() > 0 ==> {
        &&& forall|at: int| #[trigger]
            is_last_note(durations, entry.links@[0]@, at) ==> match durations[at].1 {
                Some(n) => made.itunes->0.duration is Some && made.itunes->0.duration->0@
                    == crate::duration::seconds_text(n as nat),
                None => made.itunes->0.duration is None,
            }
        &&& (forall|i: int|
            0 <= i < durations.len() ==> (#[trigger] durations[i]).0@ != entry.links@[0]@)
            ==> made.itunes->0.duration is None
    }
    &&& entry.links@.len() == 0 ==> made.itunes->0.duration is None
}

/// Whether a note is the last one for a link.
pub open spec fn is_last_note(
    durations: Seq<(String, Option<usize>)>,
    link: Seq<char>,
    at: int,
) -> bool {
    &&& 0 <= at < durations.len()
    &&& durations[at].0@ == link
    &&& forall|i: int| at < i < durations.len() ==> (#[trigger] durations[i]).0@ != link
}

proof fn lemma_noted(notes: Seq<(Seq<char>, Option<usize>)>, link: Seq<char>, at: int)
    requires
        -1 <= at < notes.len(),
        at >= 0 ==> notes[at].0 == link,
        forall|i: int| at < i < notes.len() ==> (#[trigger] notes[i]).0 != link,
    ensures
        at >= 0 ==> noted(notes, link) == notes[at].1,
        at == -1 ==> noted(notes, link) is None,
    decreases notes.len(),
{
    if at < notes.len() - 1 {
        let rest = notes.drop_last();
        assert(notes[notes.len() - 1].0 != link);
        assert forall|i: int| at < i < rest.len() implies (#[trigger] rest[i]).0 != link by {
            assert(rest[i] == notes[i]);
        }
        lemma_noted(rest, link, at);
    }
}

proof fn lemma_clock(durations: &Vec<(String, Option<usize>)>, link: Seq<char>)
    ensures
        forall|at: int| #[trigger] is_last_note(durations@, link, at) ==> noted(
            durations.deep_view(),
            link,
        ) == durations@[at].1,
        (forall|i: int| 0 <= i < durations@.len() ==> (#[trigger] durations@[i]).0@ != link)
            ==> noted(durations.deep_view(), link) is None,
{
    let notes = durations.deep_view();
    assert forall|i: int| 0 <= i < notes.len() implies (#[trigger] notes[i]).0 == durations@[i].0@
        && notes[i].1 == durations@[i].1 by {}
    assert forall|at: int| #[trigger] is_last_note(durations@, link, at) implies noted(notes, link)
        == durations@[at].1 by {
        assert(notes[at].0 == link);
        assert forall|i: int| at < i < notes.len() implies (#[trigger] notes[i]).0 != link by {
            assert(durations@[i].0@ != link);
        }
        lemma_noted(notes, link, at);
    }
    if forall|i: int| 0 <= i < durations@.len() ==> (#[trigger] durations@[i]).0@ != link {
        assert forall|i: int| -1 < i < notes.len() implies (#[trigger] notes[i]).0 != link by {
            assert(durations@[i].0@ != link);
        }
        lemma_noted(notes, link, -1);
    }
}

/// Every entry makes the episode that says what the entry says, in the same place.
pub proof fn episodes_say_what_entries_say(
    feed: AtomFeed,
    durations: &Vec<(String, Option<usize>)>,
    r: Feed,
    at: int,
)
    requires
        call_ensures(build_podcast, (feed, durations), r),
        0 <= at < feed.entries@.len(),
    ensures
        r.items@.len() == feed.entries@.len(),
        is_episode_of(r.items@[at], feed.entries@[at], durations@),
{
    let entry = feed.entries@[at];
    let entries = feed.entries.deep_view();
    assert(entries[at] == entry.deep_view());
    assert(r.items.deep_view().len() == r.items@.len());
    assert(r.items.deep_view()[at] == r.items@[at].deep_view());
    assert(r.items@[at].deep_view() == episode(entry.deep_view(), durations.deep_view()));
    assert(entry.links.deep_view().len() == entry.links@.len());
    assert(entry.media.deep_view().len() == entry.media@.len());
    if entry.links@.len() > 0 {
        assert(entry.links.deep_view()[0] == entry.links@[0]@);
        lemma_clock(durations, entry.links@[0]@);
    }
    if entry.media@.len() > 0 {
        let medium = entry.media@[0];
        assert(entry.media.deep_view()[0] == medium.deep_view());
        assert(medium.thumbnails.deep_view().len() == medium.thumbnails@.len());
        if medium.thumbnails@.len() > 0 {
            assert(medium.thumbnails.deep_view()[0] == medium.thumbnails@[0]@);
        }
    }
}

/// The show of a feed has the feed's title and description, in their places, its language,
/// its first link, and its icon for a picture.
pub proof fn feeds_name_their_shows(
    feed: AtomFeed,
    durations: &Vec<(String, Option<usize>)>,
    r: Feed,
    text: String,
)
    requires
        call_ensures(build_podcast, (feed, durations), r),
        call_ensures(convert_atom_to_rss, (feed, durations), text),
    ensures
        feed.head.title matches Some(title) ==> r.head.title@ == title@,
        feed.head.title is None ==> r.head.title@.len() == 0,
        feed.head.description matches Some(told) ==> r.head.description@ == told@,
        feed.head.description is None ==> r.head.description@.len() == 0,
        r.head.language.deep_view() == feed.head.language.deep_view(),
        feed.head.links@.len() > 0 ==> r.head.link@ == feed.head.links@[0]@,
        feed.head.links@.len() == 0 ==> r.head.link@.len() == 0,
        r.head.itunes is Some && r.head.itunes->0.image.deep_view() == feed.head.icon.deep_view()
            && r.head.itunes->0.explicit is None && r.head.itunes->0.categories@.len() == 0,
        feed.head.icon matches Some(icon) ==> r.head.image is Some && r.head.image->0@ == icon@,
        text@ == crate::feed::feed_text(r.deep_view()),
{
    assert(feed.head.links.deep_view().len() == feed.head.links@.len());
    if feed.head.links@.len() > 0 {
        assert(feed.head.links.deep_view()[0] == feed.head.links@[0]@);
    }
    let categories = r.head.itunes->0.categories;
    assert(categories.deep_view().len() == categories@.len());
}

/// The links of the videos are the first ones of the entries that have any: those of the
/// first entries, then those of the others.
pub proof fn links_follow_their_entries(
    first: Seq<AtomEntryModel>,
    others: Seq<AtomEntryModel>,
    entry: AtomEntryModel,
)
    ensures
        links_of(first + others) == links_of(first) + links_of(others),
        entry.links.len() > 0 ==> links_of(seq![entry]) == seq![entry.links[0]],
        entry.links.len() == 0 ==> links_of(seq![entry]).len() == 0,
    decreases others.len(),
{
    let one = seq![entry];
    assert(one.drop_last() =~= Seq::<AtomEntryModel>::empty());
    reveal_with_fuel(links_of, 2);
    if entry.links.len() > 0 {
        assert(links_of(one) =~= seq![entry.links[0]]);
    }
    if others.len() == 0 {
        assert(first + others =~= first);
        assert(links_of(first) + links_of(others) =~= links_of(first));
    } else {
        assert((first + others).drop_last() =~= first + others.drop_last());
        links_follow_their_entries(first, others.drop_last(), entry);
        assert(links_of(first + others) =~= links_of(first) + links_of(others));
    }
}

/// The links that are listed of a feed are those of its entries.
pub proof fn listed_links_are_those_of_entries(
    feed: &AtomFeed,
    r: Vec<String>,
    first: Seq<AtomEntryModel>,
    entry: AtomEntryModel,
    others: Seq<AtomEntryModel>,
)
    requires
        call_ensures(video_links, (feed,), r),
        feed.entries.deep_view() == first + seq![entry] + others,
    ensures
        r.deep_view() == links_of(first) + (if entry.links.len() > 0 {
            seq![entry.links[0]]
        } else {
            Seq::empty()
        }) + links_of(others),
{
    links_follow_their_entries(first + seq![entry], others, entry);
    links_follow_their_entries(first, seq![entry], entry);
    assert(links_of(seq![entry]) =~= (if entry.links.len() > 0 {
        seq![entry.links[0]]
    } else {
        Seq::empty()
    }));
}

/// A document that cannot be read as a feed is told to be none.
pub proof fn unreadable_feeds_are_told(bytes: &[u8], r: Result<AtomFeed, String>)
    requires
        call_ensures(read_atom, (bytes,), r),
    ensures
        r matches Ok(feed) ==> is_atom(bytes@, Some(feed.deep_view())),
        r matches Err(message) ==> is_atom(bytes@, None) && exists|e: feed_rs::parser::ParseFeedError|
            message@ == "failed to parse atom feed: "@ + #[trigger] atom_error_text(e),
{
}

} // verus!

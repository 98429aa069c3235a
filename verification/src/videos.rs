//! What is known of the videos of a playlist: how long each one lasts and which
//! category YouTube files it under.
use crate::duration::IsoDuration;
use crate::feed::{Category, CategoryModel, FeedHead, FeedHeadModel, ItunesChannelModel};
use vstd::prelude::*;

verus! {

/// A video as YouTube describes it.
#[derive(Debug, PartialEq, Eq)]
pub struct Video {
    pub id: Option<String>,
    /// How long it lasts, if that is told and can be read.
    pub duration: Option<IsoDuration>,
    pub category_id: Option<String>,
}

/// A [`Video`] with its texts as sequences of characters.
pub struct VideoModel {
    pub id: Option<Seq<char>>,
    pub duration: Option<IsoDuration>,
    pub category_id: Option<Seq<char>>,
}

impl DeepView for Video {
    type V = VideoModel;

    open spec fn deep_view(&self) -> VideoModel {
        VideoModel {
            id: self.id.deep_view(),
            duration: self.duration,
            category_id: self.category_id.deep_view(),
        }
    }
}

/// What is known of a video.
#[derive(Debug, PartialEq, Eq)]
pub struct VideoExtraInfo {
    pub duration: IsoDuration,
    pub yt_category_id: Option<String>,
}

/// A [`VideoExtraInfo`] with its text as a sequence of characters.
pub struct VideoExtraInfoModel {
    pub duration: IsoDuration,
    pub yt_category_id: Option<Seq<char>>,
}

impl DeepView for VideoExtraInfo {
    type V = VideoExtraInfoModel;

    open spec fn deep_view(&self) -> VideoExtraInfoModel {
        VideoExtraInfoModel {
            duration: self.duration,
            yt_category_id: self.yt_category_id.deep_view(),
        }
    }
}

/// What is known of some videos, by their identifiers, each of which occurs once.
#[derive(Debug, PartialEq, Eq)]
pub struct VideoInfos {
    pub entries: Vec<(String, VideoExtraInfo)>,
}

/// The entries of [`VideoInfos`] with their texts as sequences of characters.
pub type Entries = Seq<(Seq<char>, VideoExtraInfoModel)>;

/// Whether no identifier occurs twice.
pub open spec fn distinct(entries: Entries) -> bool {
    forall|i: int, j: int|
        0 <= i < j < entries.len() ==> (#[trigger] entries[i]).0 != (#[trigger] entries[j]).0
}

/// What is known of the video with an identifier.
pub open spec fn info_of(entries: Entries, id: Seq<char>) -> Option<VideoExtraInfoModel>
    decreases entries.len(),
{
    if entries.len() == 0 {
        None
    } else if entries.last().0 == id {
        Some(entries.last().1)
    } else {
        info_of(entries.drop_last(), id)
    }
}

/// The entry that a video makes: it must have an identifier and a duration.
pub open spec fn entry_of(video: VideoModel) -> Option<(Seq<char>, VideoExtraInfoModel)> {
    match (video.id, video.duration) {
        (Some(id), Some(duration)) => Some(
            (id, VideoExtraInfoModel { duration, yt_category_id: video.category_id }),
        ),
        _ => None,
    }
}

/// What the last one of the videos with an identifier says of it.
pub open spec fn told_of(videos: Seq<VideoModel>, id: Seq<char>) -> Option<VideoExtraInfoModel>
    decreases videos.len(),
{
    if videos.len() == 0 {
        None
    } else {
        match entry_of(videos.last()) {
            Some((told, info)) if told == id => Some(info),
            _ => told_of(videos.drop_last(), id),
        }
    }
}

proof fn lemma_info_at(entries: Entries, i: int)
    requires
        distinct(entries),
        0 <= i < entries.len(),
    ensures
        info_of(entries, entries[i].0) == Some(entries[i].1),
    decreases entries.len(),
{
    if i < entries.len() - 1 {
        assert(entries[i].0 != entries[entries.len() - 1].0);
        let rest = entries.drop_last();
        assert(rest[i] == entries[i]);
        assert forall|a: int, b: int| 0 <= a < b < rest.len() implies (#[trigger] rest[a]).0 != (
        #[trigger] rest[b]).0 by {
            assert(rest[a] == entries[a] && rest[b] == entries[b]);
        }
        lemma_info_at(rest, i);
    }
}

pub(crate) proof fn lemma_no_info(entries: Entries, id: Seq<char>)
    requires
        forall|i: int| 0 <= i < entries.len() ==> (#[trigger] entries[i]).0 != id,
    ensures
        info_of(entries, id) is None,
    decreases entries.len(),
{
    if entries.len() > 0 {
        let rest = entries.drop_last();
        assert(entries[entries.len() - 1].0 != id);
        assert forall|i: int| 0 <= i < rest.len() implies (#[trigger] rest[i]).0 != id by {
            assert(rest[i] == entries[i]);
        }
        lemma_no_info(rest, id);
    }
}

proof fn lemma_update(entries: Entries, i: int, info: VideoExtraInfoModel, other: Seq<char>)
    requires
        distinct(entries),
        0 <= i < entries.len(),
        other != entries[i].0,
    ensures
        info_of(entries.update(i, (entries[i].0, info)), other) == info_of(entries, other),
    decreases entries.len(),
{
    let updated = entries.update(i, (entries[i].0, info));
    let rest = entries.drop_last();
    if i == entries.len() - 1 {
        assert(updated.drop_last() =~= rest);
    } else {
        assert forall|a: int, b: int| 0 <= a < b < rest.len() implies (#[trigger] rest[a]).0 != (
        #[trigger] rest[b]).0 by {
            assert(rest[a] == entries[a] && rest[b] == entries[b]);
        }
        assert(updated.drop_last() =~= rest.update(i, (rest[i].0, info)));
        lemma_update(rest, i, info, other);
    }
}

impl VideoInfos {
    /// Nothing known of any video.
    pub fn new() -> (r: VideoInfos)
        ensures
            r.entries.deep_view() == Entries::empty(),
            distinct(r.entries.deep_view()),
    {
        let r = VideoInfos { entries: Vec::new() };
        assert(r.entries.deep_view() =~= Entries::empty());
        r
    }

    /// The position of an identifier among the entries, or their number.
    fn position(&self, id: &str) -> (r: usize)
        ensures
            r <= self.entries.len(),
            r < self.entries.len() ==> self.entries.deep_view()[r as int].0 == id@,
            forall|j: int| 0 <= j < r ==> (#[trigger] self.entries.deep_view()[j]).0 != id@,
    {
        let mut i: usize = 0;
        while i < self.entries.len()
            invariant
                i <= self.entries.len(),
                forall|j: int| 0 <= j < i ==> (#[trigger] self.entries.deep_view()[j]).0 != id@,
            decreases self.entries.len() - i,
        {
            assert(self.entries.deep_view()[i as int].0 == self.entries@[i as int].0@);
            if crate::text::same(self.entries[i].0.as_str(), id) {
                return i;
            }
            i += 1;
        }
        i
    }

    /// What is known of the video with an identifier.
    pub fn get(&self, id: &str) -> (r: Option<&VideoExtraInfo>)
        requires
            distinct(self.entries.deep_view()),
        ensures
            match r {
                Some(info) => info_of(self.entries.deep_view(), id@) == Some(info.deep_view()),
                None => info_of(self.entries.deep_view(), id@) is None,
            },
    {
        let at = self.position(id);
        if at < self.entries.len() {
            proof {
                lemma_info_at(self.entries.deep_view(), at as int);
            }
            Some(&self.entries[at].1)
        } else {
            proof {
                lemma_no_info(self.entries.deep_view(), id@);
            }
            None
        }
    }

    /// Notes what is known of a video, in place of what was known before.
    pub fn insert(&mut self, id: String, info: VideoExtraInfo)
        requires
            distinct(old(self).entries.deep_view()),
        ensures
            distinct(final(self).entries.deep_view()),
            info_of(final(self).entries.deep_view(), id@) == Some(info.deep_view()),
            forall|other: Seq<char>|
                other != id@ ==> #[trigger] info_of(final(self).entries.deep_view(), other)
                    == info_of(old(self).entries.deep_view(), other),
    {
        let at = self.position(id.as_str());
        let ghost before = self.entries.deep_view();
        let ghost told = info.deep_view();
        if at < self.entries.len() {
            let ghost name = before[at as int].0;
            self.entries.set(at, (id, info));
            assert(self.entries.deep_view() =~= before.update(at as int, (name, told)));
            proof {
                let after = self.entries.deep_view();
                assert forall|a: int, b: int| 0 <= a < b < after.len() implies (
                #[trigger] after[a]).0 != (#[trigger] after[b]).0 by {
                    assert(after[a].0 == before[a].0 && after[b].0 == before[b].0);
                }
                lemma_info_at(after, at as int);
                assert forall|other: Seq<char>| other != name implies #[trigger] info_of(
                    after,
                    other,
                ) == info_of(before, other) by {
                    lemma_update(before, at as int, told, other);
                }
            }
        } else {
            self.entries.push((id, info));
            assert(self.entries.deep_view() =~= before.push((id@, told)));
            assert(self.entries.deep_view().drop_last() =~= before);
        }
    }
}

/// Gathers what some videos say of themselves. Of two videos with one identifier
/// the later one counts; a video without an identifier or a duration says nothing.
pub fn collect_infos(videos: Vec<Video>) -> (r: VideoInfos)
    ensures
        distinct(r.entries.deep_view()),
        forall|id: Seq<char>| #[trigger]
            info_of(r.entries.deep_view(), id) == told_of(videos.deep_view(), id),
{
    let mut infos = VideoInfos::new();
    let ghost all = videos.deep_view();
    assert(all.take(0) =~= Seq::<VideoModel>::empty());
    for video in it: videos
        invariant
            all == videos.deep_view(),
            it.seq() == videos@,
            distinct(infos.entries.deep_view()),
            forall|id: Seq<char>| #[trigger]
                info_of(infos.entries.deep_view(), id) == told_of(all.take(it.index()), id),
    {
        assert(all[it.index()] == video.deep_view());
        assert(all.take(it.index() + 1).drop_last() =~= all.take(it.index()));
        let ghost before = infos.entries.deep_view();
        match (video.id, video.duration) {
            (Some(id), Some(duration)) => {
                infos.insert(id, VideoExtraInfo { duration, yt_category_id: video.category_id });
            },
            _ => {},
        }
    }
    assert(all.take(all.len() as int) =~= all);
    infos
}

/// A category of Apple's directory, from its names.
pub open spec fn category(primary: Seq<char>, secondary: Option<Seq<char>>) -> Option<
    CategoryModel,
> {
    Some(CategoryModel { primary, secondary })
}

/// The category of Apple's directory that is nearest to one of YouTube's.
pub open spec fn itunes_category(id: Seq<char>) -> Option<CategoryModel> {
    if id == "1"@ {
        category("TV & Film"@, Some("Film Reviews"@))
    } else if id == "2"@ {
        category("Leisure"@, Some("Automotive"@))
    } else if id == "10"@ {
        category("Music"@, None)
    } else if id == "15"@ {
        category("Kids & Family"@, Some("Pets & Animals"@))
    } else if id == "17"@ {
        category("Sports"@, None)
    } else if id == "19"@ {
        category("Society & Culture"@, Some("Places & Travel"@))
    } else if id == "20"@ {
        category("Leisure"@, Some("Video Games"@))
    } else if id == "21"@ {
        category("Society & Culture"@, Some("Personal Journals"@))
    } else if id == "22"@ {
        category("Society & Culture"@, None)
    } else if id == "23"@ {
        category("Comedy"@, None)
    } else if id == "24"@ {
        category("TV & Film"@, Some("After Shows"@))
    } else if id == "25"@ {
        category("News"@, None)
    } else if id == "26"@ {
        category("Arts"@, Some("Fashion & Beauty"@))
    } else if id == "27"@ {
        category("Education"@, None)
    } else if id == "28"@ {
        category("Technology"@, None)
    } else if id == "29"@ {
        category("Society & Culture"@, Some("Philanthropy"@))
    } else {
        None
    }
}

fn named(primary: &str, secondary: &str) -> (r: Option<(String, Option<String>)>)
    ensures
        r.deep_view() == Some((primary@, Some(secondary@))),
{
    Some((primary.to_string(), Some(secondary.to_string())))
}

fn plain(primary: &str) -> (r: Option<(String, Option<String>)>)
    ensures
        r.deep_view() == Some((primary@, None::<Seq<char>>)),
{
    Some((primary.to_string(), None))
}

/// The names of a category.
pub open spec fn names_of(category: Option<CategoryModel>) -> Option<(Seq<char>, Option<Seq<char>>)> {
    match category {
        Some(c) => Some((c.primary, c.secondary)),
        None => None,
    }
}

/// The category of Apple's directory that is nearest to one of YouTube's, and the
/// subcategory.
pub fn map_yt_category_to_itunes(yt_category_id: &str) -> (r: Option<(String, Option<String>)>)
    ensures
        r.deep_view() == names_of(itunes_category(yt_category_id@)),
{
    let id = yt_category_id;
    if crate::text::same(id, "1") {
        named("TV & Film", "Film Reviews")
    } else if crate::text::same(id, "2") {
        named("Leisure", "Automotive")
    } else if crate::text::same(id, "10") {
        plain("Music")
    } else if crate::text::same(id, "15") {
        named("Kids & Family", "Pets & Animals")
    } else if crate::text::same(id, "17") {
        plain("Sports")
    } else if crate::text::same(id, "19") {
        named("Society & Culture", "Places & Travel")
    } else if crate::text::same(id, "20") {
        named("Leisure", "Video Games")
    } else if crate::text::same(id, "21") {
        named("Society & Culture", "Personal Journals")
    } else if crate::text::same(id, "22") {
        plain("Society & Culture")
    } else if crate::text::same(id, "23") {
        plain("Comedy")
    } else if crate::text::same(id, "24") {
        named("TV & Film", "After Shows")
    } else if crate::text::same(id, "25") {
        plain("News")
    } else if crate::text::same(id, "26") {
        named("Arts", "Fashion & Beauty")
    } else if crate::text::same(id, "27") {
        plain("Education")
    } else if crate::text::same(id, "28") {
        plain("Technology")
    } else if crate::text::same(id, "29") {
        named("Society & Culture", "Philanthropy")
    } else {
        None
    }
}

/// The category of Apple's directory for a video.
pub open spec fn category_for(info: VideoExtraInfoModel) -> Option<CategoryModel> {
    match info.yt_category_id {
        Some(id) => itunes_category(id),
        None => None,
    }
}

/// How many of the videos belong to a category.
pub open spec fn videos_in(entries: Entries, wanted: CategoryModel) -> nat
    decreases entries.len(),
{
    if entries.len() == 0 {
        0
    } else {
        videos_in(entries.drop_last(), wanted) + if category_for(entries.last().1) == Some(wanted) {
            1nat
        } else {
            0nat
        }
    }
}

/// Whether a category has videos, and none has more.
pub open spec fn is_most_common(entries: Entries, best: CategoryModel) -> bool {
    &&& videos_in(entries, best) > 0
    &&& forall|other: CategoryModel| #[trigger]
        videos_in(entries, other) <= videos_in(entries, best)
}

fn category_of(info: &VideoExtraInfo) -> (r: Option<Category>)
    ensures
        r.deep_view() == category_for(info.deep_view()),
{
    match &info.yt_category_id {
        Some(id) => match map_yt_category_to_itunes(id.as_str()) {
            Some((primary, secondary)) => Some(Category { primary, secondary }),
            None => None,
        },
        None => None,
    }
}

fn same_category(a: &Category, b: &Category) -> (r: bool)
    ensures
        r == (a.deep_view() == b.deep_view()),
{
    crate::text::same(a.primary.as_str(), b.primary.as_str()) && match (&a.secondary, &b.secondary) {
        (Some(x), Some(y)) => crate::text::same(x.as_str(), y.as_str()),
        (None, None) => true,
        _ => false,
    }
}

fn count_videos(infos: &VideoInfos, wanted: &Category) -> (r: usize)
    ensures
        r == videos_in(infos.entries.deep_view(), wanted.deep_view()),
        r <= infos.entries.len(),
{
    let mut n: usize = 0;
    let mut i: usize = 0;
    let ghost all = infos.entries.deep_view();
    assert(all.take(0) =~= Entries::empty());
    while i < infos.entries.len()
        invariant
            i <= infos.entries.len(),
            n <= i,
            all == infos.entries.deep_view(),
            n == videos_in(all.take(i as int), wanted.deep_view()),
        decreases infos.entries.len() - i,
    {
        assert(all.take(i + 1).drop_last() =~= all.take(i as int));
        assert(all[i as int].1 == infos.entries@[i as int].1.deep_view());
        if let Some(found) = category_of(&infos.entries[i].1) {
            if same_category(&found, wanted) {
                n += 1;
            }
        }
        i += 1;
    }
    assert(all.take(i as int) =~= all);
    n
}

proof fn lemma_counted_is_somewhere(entries: Entries, wanted: CategoryModel) -> (i: int)
    requires
        videos_in(entries, wanted) > 0,
    ensures
        0 <= i < entries.len(),
        category_for(entries[i].1) == Some(wanted),
    decreases entries.len(),
{
    if category_for(entries.last().1) == Some(wanted) {
        entries.len() - 1
    } else {
        lemma_counted_is_somewhere(entries.drop_last(), wanted)
    }
}

proof fn lemma_present_is_counted(entries: Entries, i: int)
    requires
        0 <= i < entries.len(),
        category_for(entries[i].1) is Some,
    ensures
        videos_in(entries, category_for(entries[i].1)->0) > 0,
    decreases entries.len(),
{
    if i < entries.len() - 1 {
        assert(entries.drop_last()[i] == entries[i]);
        lemma_present_is_counted(entries.drop_last(), i);
    }
}

/// Whether one of the videos belongs to a category.
pub open spec fn any_category(entries: Entries) -> bool {
    exists|i: int| 0 <= i < entries.len() && category_for((#[trigger] entries[i]).1) is Some
}

/// The category that most of the videos belong to; of several such categories, one
/// of them.
pub fn most_common_category(infos: &VideoInfos) -> (r: Option<Category>)
    ensures
        r is Some <==> any_category(infos.entries.deep_view()),
        r matches Some(best) ==> is_most_common(infos.entries.deep_view(), best.deep_view()),
{
    let mut best: Option<Category> = None;
    let mut most: usize = 0;
    let mut i: usize = 0;
    let ghost all = infos.entries.deep_view();
    while i < infos.entries.len()
        invariant
            i <= infos.entries.len(),
            all == infos.entries.deep_view(),
            best matches Some(c) ==> most == videos_in(all, c.deep_view()) && most > 0
                && any_category(all),
            best is None ==> most == 0,
            forall|j: int|
                0 <= j < i ==> match category_for((#[trigger] all[j]).1) {
                    Some(c) => best is Some && videos_in(all, c) <= most,
                    None => true,
                },
        decreases infos.entries.len() - i,
    {
        assert(all[i as int].1 == infos.entries@[i as int].1.deep_view());
        if let Some(found) = category_of(&infos.entries[i].1) {
            let n = count_videos(infos, &found);
            proof {
                lemma_present_is_counted(all, i as int);
            }
            if n > most {
                most = n;
                best = Some(found);
            }
        }
        i += 1;
    }
    let ghost chosen = best.deep_view();
    proof {
        if chosen is Some {
            assert forall|other: CategoryModel| #[trigger]
                videos_in(all, other) <= videos_in(all, chosen->0) by {
                if videos_in(all, other) > 0 {
                    let at = lemma_counted_is_somewhere(all, other);
                    assert(category_for(all[at].1) == Some(other));
                }
            }
        }
    }
    best
}

/// A show with one category in Apple's directory. A show without a part for that
/// directory stays as it is.
pub open spec fn with_category(head: FeedHeadModel, best: CategoryModel) -> FeedHeadModel {
    match head.itunes {
        Some(itunes) => FeedHeadModel {
            itunes: Some(ItunesChannelModel { categories: seq![best], ..itunes }),
            ..head
        },
        None => head,
    }
}

/// Whether a show is filed as its videos are: under a category that most of them
/// belong to, or as before if none of them belongs to one.
pub open spec fn is_filed(entries: Entries, before: FeedHeadModel, after: FeedHeadModel) -> bool {
    if any_category(entries) {
        exists|best: CategoryModel|
            is_most_common(entries, best) && after == #[trigger] with_category(before, best)
    } else {
        after == before
    }
}

/// Files a show under the category that most of its videos belong to.
pub fn apply_best_fit_itunes_category(channel: &mut FeedHead, infos: &VideoInfos)
    ensures
        is_filed(
            infos.entries.deep_view(),
            old(channel).deep_view(),
            final(channel).deep_view(),
        ),
{
    if let Some(best) = most_common_category(infos) {
        let ghost chosen = best.deep_view();
        let ghost before = channel.deep_view();
        if let Some(itunes) = &mut channel.itunes {
            itunes.categories = vec![best];
            assert(itunes.categories.deep_view() =~= seq![chosen]);
        }
        assert(channel.deep_view() == with_category(before, chosen));
    }
}

/// What is known of a video is what the entry with its identifier holds, and nothing if
/// there is none.
pub proof fn entries_tell_of_their_videos(entries: Entries, id: Seq<char>, at: int)
    requires
        forall|i: int, j: int|
            0 <= i < j < entries.len() ==> (#[trigger] entries[i]).0 != (#[trigger] entries[j]).0,
    ensures
        0 <= at < entries.len() ==> info_of(entries, entries[at].0) == Some(entries[at].1),
        (forall|i: int| 0 <= i < entries.len() ==> (#[trigger] entries[i]).0 != id) ==> info_of(
            entries,
            id,
        ) is None,
{
    if 0 <= at < entries.len() {
        lemma_info_at(entries, at);
    }
    if forall|i: int| 0 <= i < entries.len() ==> (#[trigger] entries[i]).0 != id {
        lemma_no_info(entries, id);
    }
}

/// Of several videos with one identifier the last one that tells its length is heard: its
/// length and its category are what is known.
pub proof fn the_last_video_is_heard(videos: Seq<VideoModel>, id: Seq<char>, at: int)
    ensures
        0 <= at < videos.len() && videos[at].id == Some(id) && videos[at].duration is Some && (
        forall|i: int|
            at < i < videos.len() ==> (#[trigger] videos[i]).id != Some(id) || videos[i].duration
                is None) ==> {
            &&& told_of(videos, id) matches Some(info)
            &&& Some(info.duration) == videos[at].duration
            &&& info.yt_category_id == videos[at].category_id
        },
        (forall|i: int|
            0 <= i < videos.len() ==> (#[trigger] videos[i]).id != Some(id) || videos[i].duration
                is None) ==> told_of(videos, id) is None,
    decreases videos.len(),
{
    if videos.len() > 0 {
        let rest = videos.drop_last();
        let last = videos.len() - 1;
        the_last_video_is_heard(rest, id, at);
        if 0 <= at < last && videos[at].id == Some(id) && videos[at].duration is Some && (forall|
            i: int,
        |
            at < i < videos.len() ==> (#[trigger] videos[i]).id != Some(id) || videos[i].duration
                is None) {
            assert(videos[last].id != Some(id) || videos[last].duration is None);
            assert(rest[at] == videos[at]);
            assert forall|i: int| at < i < rest.len() implies (#[trigger] rest[i]).id != Some(id)
                || rest[i].duration is None by {
                assert(rest[i] == videos[i]);
            }
        }
        if forall|i: int|
            0 <= i < videos.len() ==> (#[trigger] videos[i]).id != Some(id) || videos[i].duration
                is None {
            assert(videos[last].id != Some(id) || videos[last].duration is None);
            assert forall|i: int| 0 <= i < rest.len() implies (#[trigger] rest[i]).id != Some(id)
                || rest[i].duration is None by {
                assert(rest[i] == videos[i]);
            }
        }
    }
}

/// A video and what is known of it are seen field by field.
pub proof fn videos_are_seen_as_they_are(video: Video, info: VideoExtraInfo)
    ensures
        video.deep_view().id == video.id.deep_view(),
        video.deep_view().duration == video.duration,
        video.deep_view().category_id == video.category_id.deep_view(),
        info.deep_view().duration == info.duration,
        info.deep_view().yt_category_id == info.yt_category_id.deep_view(),
{
}

proof fn lemma_videos_are_counted(entries: Entries, wanted: CategoryModel)
    ensures
        videos_in(entries, wanted) == entries.filter(
            |entry: (Seq<char>, VideoExtraInfoModel)| category_for(entry.1) == Some(wanted),
        ).len(),
    decreases entries.len(),
{
    reveal(Seq::filter);
    if entries.len() > 0 {
        lemma_videos_are_counted(entries.drop_last(), wanted);
    }
}

proof fn lemma_two_categories(entries: Entries, a: CategoryModel, b: CategoryModel)
    requires
        a != b,
    ensures
        videos_in(entries, a) + videos_in(entries, b) <= entries.len(),
    decreases entries.len(),
{
    if entries.len() > 0 {
        lemma_two_categories(entries.drop_last(), a, b);
    }
}

/// A show whose videos are for the most part in one of YouTube's categories is filed
/// under that category's counterpart, alone; all else that is said of it stays.
pub proof fn most_videos_decide_the_category(
    entries: Entries,
    before: FeedHeadModel,
    after: FeedHeadModel,
    id: Seq<char>,
    wanted: CategoryModel,
)
    requires
        is_filed(entries, before, after),
        itunes_category(id) == Some(wanted),
        2 * entries.filter(
            |entry: (Seq<char>, VideoExtraInfoModel)| entry.1.yt_category_id == Some(id),
        ).len() > entries.len(),
        before.itunes is Some,
    ensures
        after.itunes matches Some(itunes) && itunes.categories == seq![wanted] && itunes.image
            == before.itunes->0.image && itunes.explicit == before.itunes->0.explicit,
        after.title == before.title,
        after.link == before.link,
        after.description == before.description,
        after.language == before.language,
        after.image == before.image,
        after.namespaces == before.namespaces,
{
    lemma_same_id_counts(entries, id, wanted);
    assert(videos_in(entries, wanted) > 0);
    let at = lemma_counted_is_somewhere(entries, wanted);
    assert(category_for(entries[at].1) is Some);
    let best = choose|best: CategoryModel|
        is_most_common(entries, best) && after == #[trigger] with_category(before, best);
    assert(videos_in(entries, wanted) <= videos_in(entries, best));
    if best != wanted {
        lemma_two_categories(entries, best, wanted);
    }
}

proof fn lemma_same_id_counts(entries: Entries, id: Seq<char>, wanted: CategoryModel)
    requires
        itunes_category(id) == Some(wanted),
    ensures
        entries.filter(
            |entry: (Seq<char>, VideoExtraInfoModel)| entry.1.yt_category_id == Some(id),
        ).len() <= videos_in(entries, wanted),
    decreases entries.len(),
{
    reveal(Seq::filter);
    if entries.len() > 0 {
        lemma_same_id_counts(entries.drop_last(), id, wanted);
    }
}

/// A show none of whose videos is in a category that has a counterpart stays as it was.
pub proof fn shows_without_categories_stay(
    entries: Entries,
    before: FeedHeadModel,
    after: FeedHeadModel,
)
    requires
        is_filed(entries, before, after),
        forall|i: int|
            0 <= i < entries.len() ==> match (#[trigger] entries[i]).1.yt_category_id {
                Some(id) => itunes_category(id) is None,
                None => true,
            },
    ensures
        after == before,
{
    if any_category(entries) {
        let i = choose|i: int|
            0 <= i < entries.len() && category_for((#[trigger] entries[i]).1) is Some;
        assert(category_for(entries[i].1) is None);
    }
}

/// No category is taken that fewer videos are in than in another one.
pub proof fn rarer_categories_are_not_taken(
    entries: Entries,
    best: CategoryModel,
    other: CategoryModel,
)
    requires
        is_most_common(entries, best),
    ensures
        entries.filter(
            |entry: (Seq<char>, VideoExtraInfoModel)| category_for(entry.1) == Some(other),
        ).len() <= entries.filter(
            |entry: (Seq<char>, VideoExtraInfoModel)| category_for(entry.1) == Some(best),
        ).len(),
        exists|i: int|
            0 <= i < entries.len() && (#[trigger] entries[i]).1.yt_category_id is Some
                && itunes_category(entries[i].1.yt_category_id->0) == Some(best),
{
    lemma_videos_are_counted(entries, best);
    lemma_videos_are_counted(entries, other);
    assert(videos_in(entries, other) <= videos_in(entries, best));
    let at = lemma_counted_is_somewhere(entries, best);
    assert(category_for(entries[at].1) == Some(best));
}

/// What is gathered of a video is what the last one with its identifier and a length tells.
pub proof fn gathered_videos_are_found(
    videos: Vec<Video>,
    infos: VideoInfos,
    id: &str,
    at: int,
    r: Option<&VideoExtraInfo>,
)
    requires
        call_ensures(collect_infos, (videos,), infos),
        call_ensures(VideoInfos::get, (&infos, id), r),
    ensures
        0 <= at < videos@.len() && videos@[at].id is Some && videos@[at].id->0@ == id@
            && videos@[at].duration is Some && (forall|i: int|
            at < i < videos@.len() ==> (#[trigger] videos@[i]).id is None || videos@[i].id->0@
                != id@ || videos@[i].duration is None) ==> r is Some && r->0.duration
            == videos@[at].duration->0 && r->0.yt_category_id.deep_view()
            == videos@[at].category_id.deep_view(),
        (forall|i: int|
            0 <= i < videos@.len() ==> (#[trigger] videos@[i]).id is None || videos@[i].id->0@
                != id@ || videos@[i].duration is None) ==> r is None,
{
    let seen = videos.deep_view();
    assert forall|i: int| 0 <= i < seen.len() implies #[trigger] seen[i]
        == videos@[i].deep_view() by {}
    the_last_video_is_heard(seen, id@, at);
    assert(told_of(seen, id@) == info_of(infos.entries.deep_view(), id@));
    if 0 <= at < videos@.len() && videos@[at].id is Some && videos@[at].id->0@ == id@
        && videos@[at].duration is Some && (forall|i: int|
        at < i < videos@.len() ==> (#[trigger] videos@[i]).id is None || videos@[i].id->0@ != id@
            || videos@[i].duration is None) {
        assert forall|i: int| at < i < seen.len() implies (#[trigger] seen[i]).id != Some(id@)
            || seen[i].duration is None by {
            assert(videos@[i].id is None || videos@[i].id->0@ != id@ || videos@[i].duration
                is None);
        }
        assert(seen[at].id == Some(id@));
    }
    if forall|i: int|
        0 <= i < videos@.len() ==> (#[trigger] videos@[i]).id is None || videos@[i].id->0@ != id@
            || videos@[i].duration is None {
        assert forall|i: int| 0 <= i < seen.len() implies (#[trigger] seen[i]).id != Some(id@)
            || seen[i].duration is None by {
            assert(videos@[i].id is None || videos@[i].id->0@ != id@ || videos@[i].duration
                is None);
        }
    }
}

/// Sixteen of YouTube's categories have a counterpart in Apple's directory, and no other
/// has one.
pub proof fn sixteen_categories_have_a_counterpart(id: &str, r: Option<(String, Option<String>)>)
    requires
        call_ensures(map_yt_category_to_itunes, (id,), r),
    ensures
        r is Some <==> exists|n: nat|
            (n == 1 || n == 2 || n == 10 || n == 15 || n == 17 || 19 <= n <= 29) && id@
                == #[trigger] crate::numerals::digits_of(n),
{
    lemma_short_numerals();
    if r is Some {
        let n: nat = if id@ == "1"@ {
            1
        } else if id@ == "2"@ {
            2
        } else if id@ == "10"@ {
            10
        } else if id@ == "15"@ {
            15
        } else if id@ == "17"@ {
            17
        } else if id@ == "19"@ {
            19
        } else if id@ == "20"@ {
            20
        } else if id@ == "21"@ {
            21
        } else if id@ == "22"@ {
            22
        } else if id@ == "23"@ {
            23
        } else if id@ == "24"@ {
            24
        } else if id@ == "25"@ {
            25
        } else if id@ == "26"@ {
            26
        } else if id@ == "27"@ {
            27
        } else if id@ == "28"@ {
            28
        } else {
            29
        };
        assert(id@ == crate::numerals::digits_of(n));
    }
}

proof fn lemma_short_numerals()
    ensures
        crate::numerals::digits_of(1) == "1"@,
        crate::numerals::digits_of(2) == "2"@,
        crate::numerals::digits_of(10) == "10"@,
        crate::numerals::digits_of(15) == "15"@,
        crate::numerals::digits_of(17) == "17"@,
        crate::numerals::digits_of(19) == "19"@,
        crate::numerals::digits_of(20) == "20"@,
        crate::numerals::digits_of(21) == "21"@,
        crate::numerals::digits_of(22) == "22"@,
        crate::numerals::digits_of(23) == "23"@,
        crate::numerals::digits_of(24) == "24"@,
        crate::numerals::digits_of(25) == "25"@,
        crate::numerals::digits_of(26) == "26"@,
        crate::numerals::digits_of(27) == "27"@,
        crate::numerals::digits_of(28) == "28"@,
        crate::numerals::digits_of(29) == "29"@,
{
    reveal_with_fuel(crate::numerals::digits_of, 3);
    reveal_strlit("1");
    reveal_strlit("2");
    reveal_strlit("10");
    reveal_strlit("15");
    reveal_strlit("17");
    reveal_strlit("19");
    reveal_strlit("20");
    reveal_strlit("21");
    reveal_strlit("22");
    reveal_strlit("23");
    reveal_strlit("24");
    reveal_strlit("25");
    reveal_strlit("26");
    reveal_strlit("27");
    reveal_strlit("28");
    reveal_strlit("29");
    assert(crate::numerals::digits_of(1) =~= "1"@);
    assert(crate::numerals::digits_of(2) =~= "2"@);
    assert(crate::numerals::digits_of(10) =~= "10"@);
    assert(crate::numerals::digits_of(15) =~= "15"@);
    assert(crate::numerals::digits_of(17) =~= "17"@);
    assert(crate::numerals::digits_of(19) =~= "19"@);
    assert(crate::numerals::digits_of(20) =~= "20"@);
    assert(crate::numerals::digits_of(21) =~= "21"@);
    assert(crate::numerals::digits_of(22) =~= "22"@);
    assert(crate::numerals::digits_of(23) =~= "23"@);
    assert(crate::numerals::digits_of(24) =~= "24"@);
    assert(crate::numerals::digits_of(25) =~= "25"@);
    assert(crate::numerals::digits_of(26) =~= "26"@);
    assert(crate::numerals::digits_of(27) =~= "27"@);
    assert(crate::numerals::digits_of(28) =~= "28"@);
    assert(crate::numerals::digits_of(29) =~= "29"@);
}

/// The category that is taken is that of one of the videos, and no other is that of more.
pub proof fn the_commonest_category_is_taken(
    infos: &VideoInfos,
    other: CategoryModel,
    r: Option<Category>,
)
    requires
        call_ensures(most_common_category, (infos,), r),
    ensures
        r is Some <==> exists|i: int|
            0 <= i < infos.entries@.len() && (#[trigger] infos.entries@[i]).1.yt_category_id is Some
                && itunes_category(infos.entries@[i].1.yt_category_id->0@) is Some,
        r matches Some(best) ==> infos.entries.deep_view().filter(
            |entry: (Seq<char>, VideoExtraInfoModel)| category_for(entry.1) == Some(other),
        ).len() <= infos.entries.deep_view().filter(
            |entry: (Seq<char>, VideoExtraInfoModel)|
                category_for(entry.1) == Some(best.deep_view()),
        ).len(),
{
    let entries = infos.entries.deep_view();
    assert forall|i: int| 0 <= i < entries.len() implies (#[trigger] entries[i]).1
        == infos.entries@[i].1.deep_view() by {}
    if r is Some {
        rarer_categories_are_not_taken(entries, r->0.deep_view(), other);
        let i = choose|i: int|
            0 <= i < entries.len() && category_for((#[trigger] entries[i]).1) is Some;
        assert(infos.entries@[i].1.yt_category_id is Some);
    }
    if exists|i: int|
        0 <= i < infos.entries@.len() && (#[trigger] infos.entries@[i]).1.yt_category_id is Some
            && itunes_category(infos.entries@[i].1.yt_category_id->0@) is Some {
        let i = choose|i: int|
            0 <= i < infos.entries@.len() && (#[trigger] infos.entries@[i]).1.yt_category_id is Some
                && itunes_category(infos.entries@[i].1.yt_category_id->0@) is Some;
        assert(category_for(entries[i].1) is Some);
    }
}

/// What is noted of a video is found under its identifier, in place of what was noted before,
/// and what is known of other videos stays.
pub proof fn notes_are_found(
    infos: &mut VideoInfos,
    id: String,
    info: VideoExtraInfo,
    other: Seq<char>,
)
    requires
        call_ensures(VideoInfos::insert, (infos, id, info), ()),
    ensures
        info_of(final(infos).entries.deep_view(), id@) is Some,
        info_of(final(infos).entries.deep_view(), id@)->0.duration == info.duration,
        info_of(final(infos).entries.deep_view(), id@)->0.yt_category_id
            == info.yt_category_id.deep_view(),
        other != id@ ==> info_of(final(infos).entries.deep_view(), other) == info_of(
            old(infos).entries.deep_view(),
            other,
        ),
{
}

/// A show is filed under one category, which is that of one of its videos and of as many as
/// any other, or as before if none of them has one; nothing else of it changes.
pub proof fn shows_are_filed_by_their_videos(
    show: &mut FeedHead,
    infos: &VideoInfos,
    best: Option<Category>,
)
    requires
        call_ensures(apply_best_fit_itunes_category, (show, infos), ()),
        call_ensures(most_common_category, (infos,), best),
    ensures
        final(show).title@ == old(show).title@,
        final(show).link@ == old(show).link@,
        final(show).description@ == old(show).description@,
        final(show).language.deep_view() == old(show).language.deep_view(),
        final(show).image.deep_view() == old(show).image.deep_view(),
        final(show).itunes is Some <==> old(show).itunes is Some,
        old(show).itunes is Some ==> {
            let (before, after) = (old(show).itunes->0, final(show).itunes->0);
            &&& after.image.deep_view() == before.image.deep_view()
            &&& after.explicit.deep_view() == before.explicit.deep_view()
            &&& best is None ==> after.categories.deep_view() == before.categories.deep_view()
            &&& best is Some ==> after.categories@.len() == 1 && videos_in(
                infos.entries.deep_view(),
                after.categories@[0].deep_view(),
            ) == videos_in(infos.entries.deep_view(), best->0.deep_view())
        },
{
    let entries = infos.entries.deep_view();
    if any_category(entries) && old(show).itunes is Some {
        let chosen = choose|chosen: CategoryModel|
            is_most_common(entries, chosen) && final(show).deep_view() == #[trigger] with_category(
                old(show).deep_view(),
                chosen,
            );
        let after = final(show).itunes->0;
        assert(after.categories.deep_view() == seq![chosen]);
        assert(after.categories.deep_view().len() == after.categories@.len());
        assert(after.categories.deep_view()[0] == after.categories@[0].deep_view());
        assert(videos_in(entries, chosen) <= videos_in(entries, best->0.deep_view()));
        assert(videos_in(entries, best->0.deep_view()) <= videos_in(entries, chosen));
    }
}

} // verus!

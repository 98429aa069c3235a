//! The batches in which YouTube is asked for the videos of a playlist.
use crate::paging::PAGE_SIZE;
use crate::playlist::{PlaylistItem, PlaylistItemModel};
use vstd::prelude::*;

verus! {

/// The videos that some items stand for, in their order.
pub open spec fn videos_of(items: Seq<PlaylistItemModel>) -> Seq<Seq<char>>
    decreases items.len(),
{
    if items.len() == 0 {
        Seq::empty()
    } else {
        match items.last().video() {
            Some(id) => videos_of(items.drop_last()).push(id),
            None => videos_of(items.drop_last()),
        }
    }
}

/// The videos of every fifty items together.
pub open spec fn video_batches(items: Seq<PlaylistItemModel>) -> Seq<Seq<Seq<char>>>
    decreases items.len(),
{
    if items.len() == 0 {
        Seq::empty()
    } else if items.len() <= PAGE_SIZE {
        seq![videos_of(items)]
    } else {
        seq![videos_of(items.take(PAGE_SIZE as int))] + video_batches(items.skip(PAGE_SIZE as int))
    }
}

fn videos_between(items: &Vec<PlaylistItem>, from: usize, to: usize) -> (r: Vec<String>)
    requires
        from <= to <= items.len(),
    ensures
        r.deep_view() == videos_of(items.deep_view().subrange(from as int, to as int)),
{
    let mut ids: Vec<String> = Vec::new();
    let mut i: usize = from;
    let ghost all = items.deep_view();
    assert(all.subrange(from as int, from as int) =~= Seq::<PlaylistItemModel>::empty());
    assert(ids.deep_view() =~= Seq::<Seq<char>>::empty());
    while i < to
        invariant
            from <= i <= to <= items.len(),
            all == items.deep_view(),
            ids.deep_view() == videos_of(all.subrange(from as int, i as int)),
        decreases to - i,
    {
        assert(all[i as int] == items@[i as int].deep_view());
        assert(all.subrange(from as int, i + 1).drop_last() =~= all.subrange(from as int, i as int));
        let ghost before = ids.deep_view();
        match crate::playlist::video_of(&items[i]) {
            Some(id) => {
                let ghost told = id@;
                ids.push(id);
                assert(ids.deep_view() =~= before.push(told));
            },
            None => {},
        }
        i += 1;
    }
    ids
}

/// The videos to ask for, in the batches in which to ask for them.
pub fn video_id_batches(items: &Vec<PlaylistItem>) -> (r: Vec<Vec<String>>)
    ensures
        r.deep_view() == video_batches(items.deep_view()),
{
    let mut batches: Vec<Vec<String>> = Vec::new();
    let mut i: usize = 0;
    let ghost all = items.deep_view();
    assert(all.skip(0) =~= all);
    assert(batches.deep_view() =~= Seq::<Seq<Seq<char>>>::empty());
    assert(batches.deep_view() + video_batches(all) =~= video_batches(all));
    while i < items.len()
        invariant
            i <= items.len(),
            all == items.deep_view(),
            batches.deep_view() + video_batches(all.skip(i as int)) == video_batches(all),
        decreases items.len() - i,
    {
        let to: usize = if items.len() - i > PAGE_SIZE {
            i + PAGE_SIZE
        } else {
            items.len()
        };
        let ghost before = batches.deep_view();
        let ghost rest = all.skip(i as int);
        let batch = videos_between(items, i, to);
        let ghost told = batch.deep_view();
        batches.push(batch);
        proof {
            assert(batches.deep_view() =~= before.push(told));
            assert(all.skip(to as int) =~= rest.skip(to - i));
            assert(all.subrange(i as int, to as int) =~= rest.take(to - i));
            if rest.len() <= PAGE_SIZE {
                assert(rest.take(to - i) =~= rest);
                assert(video_batches(all.skip(to as int)) =~= Seq::empty());
            }
            assert(video_batches(rest) =~= seq![told] + video_batches(all.skip(to as int)));
            assert(before.push(told) + video_batches(all.skip(to as int)) =~= before + (seq![told]
                + video_batches(all.skip(to as int))));
        }
        i = to;
    }
    assert(video_batches(all.skip(i as int)) =~= Seq::empty());
    assert(batches.deep_view() + video_batches(all.skip(i as int)) =~= batches.deep_view());
    batches
}

proof fn lemma_videos_of_parts(a: Seq<PlaylistItemModel>, b: Seq<PlaylistItemModel>)
    ensures
        videos_of(a + b) == videos_of(a) + videos_of(b),
    decreases b.len(),
{
    if b.len() == 0 {
        assert(a + b =~= a);
        assert(videos_of(a) + videos_of(b) =~= videos_of(a));
    } else {
        assert((a + b).drop_last() =~= a + b.drop_last());
        lemma_videos_of_parts(a, b.drop_last());
        assert(videos_of(a + b) =~= videos_of(a) + videos_of(b));
    }
}

proof fn lemma_videos_are_few(items: Seq<PlaylistItemModel>)
    ensures
        videos_of(items).len() <= items.len(),
    decreases items.len(),
{
    if items.len() > 0 {
        lemma_videos_are_few(items.drop_last());
    }
}

/// No batch holds more than fifty videos, and together the batches hold all the
/// videos in their order.
pub proof fn batches_hold_all_videos(items: Seq<PlaylistItemModel>)
    ensures
        forall|i: int|
            0 <= i < video_batches(items).len() ==> (#[trigger] video_batches(items)[i]).len()
                <= 50,
        video_batches(items).flatten() == videos_of(items),
    decreases items.len(),
{
    let batches = video_batches(items);
    if items.len() == 0 {
        assert(batches.flatten() =~= Seq::empty());
    } else if items.len() <= PAGE_SIZE {
        lemma_videos_are_few(items);
        assert(batches.drop_first() =~= Seq::empty());
        assert(batches.drop_first().flatten() =~= Seq::empty());
        assert(batches.flatten() =~= batches.first() + batches.drop_first().flatten());
    } else {
        let head = items.take(PAGE_SIZE as int);
        let tail = items.skip(PAGE_SIZE as int);
        lemma_videos_are_few(head);
        batches_hold_all_videos(tail);
        lemma_videos_of_parts(head, tail);
        assert(head + tail =~= items);
        assert(batches.drop_first() =~= video_batches(tail));
        assert(batches.flatten() =~= batches.first() + batches.drop_first().flatten());
        assert forall|i: int| 0 <= i < batches.len() implies (#[trigger] batches[i]).len()
            <= 50 by {
            if i > 0 {
                assert(batches[i] == video_batches(tail)[i - 1]);
            }
        }
    }
}

/// The videos to ask for are those of the items, one for each item that stands for a
/// video and none for any other, in the order of the items.
pub proof fn every_video_is_asked_for(
    first: Seq<PlaylistItemModel>,
    others: Seq<PlaylistItemModel>,
    item: PlaylistItemModel,
)
    ensures
        videos_of(first + others) == videos_of(first) + videos_of(others),
        videos_of(seq![item]) == match item.snippet {
            Some(snippet) => match snippet.video_id {
                Some(Some(id)) => seq![id],
                _ => Seq::empty(),
            },
            None => Seq::empty(),
        },
{
    lemma_videos_of_parts(first, others);
    let one = seq![item];
    assert(one.drop_last() =~= Seq::<PlaylistItemModel>::empty());
    reveal_with_fuel(videos_of, 2);
    assert(videos_of(one) =~= match item.snippet {
        Some(snippet) => match snippet.video_id {
            Some(Some(id)) => seq![id],
            _ => Seq::empty(),
        },
        None => Seq::empty(),
    });
}

/// There is a batch for every fifty items, and one more for what is left.
pub proof fn batches_are_few(items: Seq<PlaylistItemModel>)
    ensures
        video_batches(items).len() == (items.len() + 49) / 50,
    decreases items.len(),
{
    if items.len() > 50 {
        batches_are_few(items.skip(50));
    }
}

/// The batches hold the videos of all items, in their order, fifty items to a batch: the
/// first one those of the first fifty.
pub proof fn batches_follow_their_items(items: &Vec<PlaylistItem>, r: Vec<Vec<String>>)
    requires
        call_ensures(video_id_batches, (items,), r),
    ensures
        r@.len() == (items@.len() + 49) / 50,
        r.deep_view().flatten() == videos_of(items.deep_view()),
        0 < items@.len() <= 50 ==> r@[0].deep_view() == videos_of(items.deep_view()),
        items@.len() > 50 ==> r@[0].deep_view() == videos_of(items.deep_view().take(50)),
        forall|i: int| 0 <= i < r@.len() ==> (#[trigger] r@[i])@.len() <= 50,
{
    let all = items.deep_view();
    let seen = r.deep_view();
    assert(all.len() == items@.len() && seen.len() == r@.len());
    batches_are_few(all);
    batches_hold_all_videos(all);
    if all.len() > 0 {
        assert(seen[0] == r@[0].deep_view());
    }
    assert forall|i: int| 0 <= i < r@.len() implies (#[trigger] r@[i])@.len() <= 50 by {
        assert(seen[i] == r@[i].deep_view());
        assert(seen[i].len() == r@[i]@.len());
    }
}

} // verus!

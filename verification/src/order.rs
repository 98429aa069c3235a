//! The order of a playlist's items.
use crate::dates::Moment;
use crate::playlist::{PlaylistItem, PlaylistItemModel};
use vstd::prelude::*;

verus! {

/// The items with a date.
pub open spec fn of_date(items: Seq<PlaylistItemModel>, date: Option<Moment>) -> Seq<
    PlaylistItemModel,
> {
    items.filter(|item: PlaylistItemModel| item.date() == date)
}

/// Whether the items stand in the order of their dates.
pub open spec fn is_by_date(items: Seq<PlaylistItemModel>) -> bool {
    forall|i: int, j: int|
        0 <= i < j < items.len() ==> !crate::dates::stands_after(
            (#[trigger] items[i]).date(),
            (#[trigger] items[j]).date(),
        )
}

/// Whether the items are the same, those of one date in the same order.
pub open spec fn keeps_order(sorted: Seq<PlaylistItemModel>, items: Seq<PlaylistItemModel>) -> bool {
    forall|date: Option<Moment>| #[trigger] of_date(sorted, date) == of_date(items, date)
}

proof fn lemma_none_of_date(items: Seq<PlaylistItemModel>, date: Option<Moment>)
    requires
        forall|i: int| 0 <= i < items.len() ==> (#[trigger] items[i]).date() != date,
    ensures
        of_date(items, date) == Seq::<PlaylistItemModel>::empty(),
    decreases items.len(),
{
    reveal(Seq::filter);
    if items.len() > 0 {
        assert(items[items.len() - 1].date() != date);
        assert forall|i: int| 0 <= i < items.drop_last().len() implies (
        #[trigger] items.drop_last()[i]).date() != date by {
            assert(items.drop_last()[i] == items[i]);
        }
        lemma_none_of_date(items.drop_last(), date);
    }
}

proof fn lemma_one_of_date(item: PlaylistItemModel, date: Option<Moment>)
    ensures
        of_date(seq![item], date) == if item.date() == date {
            seq![item]
        } else {
            Seq::empty()
        },
{
    reveal(Seq::filter);
    assert(seq![item].drop_last() =~= Seq::<PlaylistItemModel>::empty());
    assert(of_date(seq![item].drop_last(), date) =~= Seq::<PlaylistItemModel>::empty());
    assert(of_date(seq![item], date) =~= if item.date() == date {
        seq![item]
    } else {
        Seq::empty()
    });
}

proof fn lemma_inserted(
    sorted: Seq<PlaylistItemModel>,
    seen: Seq<PlaylistItemModel>,
    item: PlaylistItemModel,
    at: int,
)
    requires
        0 <= at <= sorted.len(),
        is_by_date(sorted),
        keeps_order(sorted, seen),
        at > 0 ==> !crate::dates::stands_after(sorted[at - 1].date(), item.date()),
        forall|i: int|
            at <= i < sorted.len() ==> crate::dates::stands_after(
                (#[trigger] sorted[i]).date(),
                item.date(),
            ),
    ensures
        is_by_date(sorted.insert(at, item)),
        keeps_order(sorted.insert(at, item), seen.push(item)),
{
    let after = sorted.insert(at, item);
    assert forall|i: int, j: int| 0 <= i < j < after.len() implies !crate::dates::stands_after(
        (#[trigger] after[i]).date(),
        (#[trigger] after[j]).date(),
    ) by {
        let a = if i < at {
            i
        } else {
            i - 1
        };
        let b = if j < at {
            j
        } else {
            j - 1
        };
        if i != at {
            assert(after[i] == sorted[a]);
        }
        if j != at {
            assert(after[j] == sorted[b]);
        }
        if i < at && j == at && i < at - 1 {
            assert(!crate::dates::stands_after(sorted[i].date(), sorted[at - 1].date()));
        }
    }
    assert forall|date: Option<Moment>| #[trigger] of_date(after, date) == of_date(
        seen.push(item),
        date,
    ) by {
        let pred = |item: PlaylistItemModel| item.date() == date;
        let head = sorted.take(at);
        let tail = sorted.skip(at);
        assert(after =~= head + seq![item] + tail);
        assert(sorted =~= head + tail);
        assert(seen.push(item) =~= seen + seq![item]);
        Seq::filter_distributes_over_add(head + seq![item], tail, pred);
        Seq::filter_distributes_over_add(head, seq![item], pred);
        Seq::filter_distributes_over_add(head, tail, pred);
        Seq::filter_distributes_over_add(seen, seq![item], pred);
        assert(of_date(sorted, date) == of_date(seen, date));
        lemma_one_of_date(item, date);
        if item.date() == date {
            assert forall|i: int| 0 <= i < tail.len() implies (#[trigger] tail[i]).date()
                != date by {
                assert(tail[i] == sorted[at + i]);
            }
            lemma_none_of_date(tail, date);
        }
        assert(of_date(after, date) =~= of_date(seen.push(item), date));
    }
}

/// Puts items in the order of their dates; those without a date come first, and
/// those of one date stay in their order.
pub fn sort_by_date(items: Vec<PlaylistItem>) -> (r: Vec<PlaylistItem>)
    ensures
        is_by_date(r.deep_view()),
        keeps_order(r.deep_view(), items.deep_view()),
{
    let mut sorted: Vec<PlaylistItem> = Vec::new();
    let ghost all = items.deep_view();
    assert(sorted.deep_view() =~= all.take(0));
    for item in it: items
        invariant
            all == items.deep_view(),
            it.seq() == items@,
            is_by_date(sorted.deep_view()),
            keeps_order(sorted.deep_view(), all.take(it.index())),
    {
        assert(all[it.index()] == item.deep_view());
        let date = crate::playlist::date_of(&item);
        let mut at: usize = sorted.len();
        let ghost before = sorted.deep_view();
        while at > 0 && crate::dates::comes_after(&crate::playlist::date_of(&sorted[at - 1]), &date)
            invariant
                at <= sorted.len(),
                before == sorted.deep_view(),
                date == item.deep_view().date(),
                forall|i: int|
                    at <= i < before.len() ==> crate::dates::stands_after(
                        (#[trigger] before[i]).date(),
                        date,
                    ),
            decreases at,
        {
            assert(before[at - 1] == sorted@[at - 1].deep_view());
            at -= 1;
        }
        let ghost model = item.deep_view();
        if at > 0 {
            assert(before[at - 1] == sorted@[at - 1].deep_view());
        }
        sorted.insert(at, item);
        assert(sorted.deep_view() =~= before.insert(at as int, model));
        proof {
            lemma_inserted(before, all.take(it.index()), model, at as int);
        }
        assert(all.take(it.index() + 1) =~= all.take(it.index()).push(model));
    }
    assert(all.take(all.len() as int) =~= all);
    sorted
}

proof fn lemma_last_of_date(items: Seq<PlaylistItemModel>, date: Option<Moment>)
    requires
        items.len() > 0,
    ensures
        items.last().date() == date ==> of_date(items, date) == of_date(
            items.drop_last(),
            date,
        ).push(items.last()),
        items.last().date() != date ==> of_date(items, date) == of_date(items.drop_last(), date),
{
    reveal(Seq::filter);
}

proof fn lemma_some_of_date(items: Seq<PlaylistItemModel>, date: Option<Moment>) -> (i: int)
    requires
        of_date(items, date).len() > 0,
    ensures
        0 <= i < items.len(),
        items[i].date() == date,
    decreases items.len(),
{
    reveal(Seq::filter);
    if items.last().date() == date {
        items.len() - 1
    } else {
        lemma_some_of_date(items.drop_last(), date)
    }
}

proof fn lemma_latest_is_last(a: Seq<PlaylistItemModel>, b: Seq<PlaylistItemModel>)
    requires
        is_by_date(a),
        keeps_order(a, b),
        a.len() > 0,
        b.len() > 0,
    ensures
        !crate::dates::stands_after(b.last().date(), a.last().date()),
{
    let date = b.last().date();
    lemma_last_of_date(b, date);
    assert(of_date(a, date) == of_date(b, date));
    let i = lemma_some_of_date(a, date);
    if i < a.len() - 1 {
        assert(!crate::dates::stands_after(a[i].date(), a[a.len() - 1].date()));
    }
}

/// There is one order only in which the items stand by their dates while those of
/// one date keep theirs.
pub proof fn one_order_only(a: Seq<PlaylistItemModel>, b: Seq<PlaylistItemModel>)
    requires
        is_by_date(a),
        is_by_date(b),
        keeps_order(a, b),
    ensures
        a == b,
    decreases a.len(),
{
    if a.len() == 0 {
        if b.len() > 0 {
            lemma_last_of_date(b, b.last().date());
            assert(of_date(a, b.last().date()) == of_date(b, b.last().date()));
            reveal(Seq::filter);
        }
        assert(a =~= b);
    } else {
        let date = a.last().date();
        lemma_last_of_date(a, date);
        assert(of_date(a, date) == of_date(b, date));
        if b.len() == 0 {
            reveal(Seq::filter);
            assert(false);
        }
        assert(keeps_order(b, a)) by {
            assert forall|other: Option<Moment>| #[trigger] of_date(b, other) == of_date(
                a,
                other,
            ) by {
                assert(of_date(a, other) == of_date(b, other));
            }
        }
        lemma_latest_is_last(a, b);
        lemma_latest_is_last(b, a);
        assert(b.last().date() == date);
        lemma_last_of_date(b, date);
        assert(of_date(a, date).last() == a.last());
        assert(of_date(b, date).last() == b.last());
        let (c, d) = (a.drop_last(), b.drop_last());
        assert forall|other: Option<Moment>| #[trigger] of_date(c, other) == of_date(
            d,
            other,
        ) by {
            lemma_last_of_date(a, other);
            lemma_last_of_date(b, other);
            assert(of_date(a, other) == of_date(b, other));
            if other == date {
                assert(of_date(c, other) =~= of_date(a, other).drop_last());
                assert(of_date(d, other) =~= of_date(b, other).drop_last());
            }
        }
        assert forall|i: int, j: int| 0 <= i < j < c.len() implies !crate::dates::stands_after(
            (#[trigger] c[i]).date(),
            (#[trigger] c[j]).date(),
        ) by {
            assert(c[i] == a[i] && c[j] == a[j]);
        }
        assert forall|i: int, j: int| 0 <= i < j < d.len() implies !crate::dates::stands_after(
            (#[trigger] d[i]).date(),
            (#[trigger] d[j]).date(),
        ) by {
            assert(d[i] == b[i] && d[j] == b[j]);
        }
        one_order_only(c, d);
        assert(a =~= c.push(a.last()));
        assert(b =~= d.push(b.last()));
    }
}

/// Items in order are dated ever later, with those that have no date before all others.
pub proof fn earlier_items_come_first(items: Seq<PlaylistItemModel>, i: int, j: int)
    requires
        is_by_date(items),
        0 <= i < j < items.len(),
    ensures
        ({
            let date = |item: PlaylistItemModel|
                match item.snippet {
                    Some(snippet) => snippet.published_at,
                    None => None,
                };
            &&& date(items[i]) is Some ==> date(items[j]) is Some
            &&& date(items[i]) is Some ==> date(items[i])->0.secs <= date(items[j])->0.secs
            &&& date(items[i]) is Some && date(items[i])->0.secs == date(items[j])->0.secs
                ==> date(items[i])->0.nanos <= date(items[j])->0.nanos
        }),
{
    assert(!crate::dates::stands_after(items[i].date(), items[j].date()));
    crate::dates::dates_are_put_in_order(items[i].date(), items[j].date());
}

proof fn lemma_count_of_date(items: Seq<PlaylistItemModel>, item: PlaylistItemModel)
    ensures
        items.to_multiset().count(item) == of_date(items, item.date()).to_multiset().count(item),
    decreases items.len(),
{
    broadcast use vstd::seq_lib::group_to_multiset_ensures;

    reveal(Seq::filter);
    if items.len() > 0 {
        let rest = items.drop_last();
        lemma_count_of_date(rest, item);
        assert(items =~= rest.push(items.last()));
        lemma_last_of_date(items, item.date());
    } else {
        assert(of_date(items, item.date()) =~= items);
    }
}

/// Putting items in order neither loses nor adds one.
pub proof fn sorting_keeps_the_items(sorted: Seq<PlaylistItemModel>, items: Seq<PlaylistItemModel>)
    requires
        keeps_order(sorted, items),
    ensures
        sorted.to_multiset() == items.to_multiset(),
{
    assert forall|item: PlaylistItemModel| #[trigger]
        sorted.to_multiset().count(item) == items.to_multiset().count(item) by {
        lemma_count_of_date(sorted, item);
        lemma_count_of_date(items, item);
        assert(of_date(sorted, item.date()) == of_date(items, item.date()));
    }
    assert(sorted.to_multiset() =~= items.to_multiset());
}

/// Items that are in order already stay as they are.
pub proof fn sorted_items_stay(sorted: Seq<PlaylistItemModel>, items: Seq<PlaylistItemModel>)
    requires
        is_by_date(sorted),
        keeps_order(sorted, items),
        forall|i: int, j: int|
            0 <= i < j < items.len() ==> {
                let (a, b) = ((#[trigger] items[i]).date(), (#[trigger] items[j]).date());
                a is Some ==> b is Some && (a->0.secs < b->0.secs || (a->0.secs == b->0.secs
                    && a->0.nanos <= b->0.nanos))
            },
    ensures
        sorted == items,
{
    assert(is_by_date(items)) by {
        assert forall|i: int, j: int| 0 <= i < j < items.len() implies !crate::dates::stands_after(
            (#[trigger] items[i]).date(),
            (#[trigger] items[j]).date(),
        ) by {
            crate::dates::dates_are_put_in_order(items[i].date(), items[j].date());
        }
    }
    one_order_only(sorted, items);
}

/// When an item was published, if that is told.
pub open spec fn told_date(item: PlaylistItem) -> Option<crate::dates::Moment> {
    match item.snippet {
        Some(snippet) => snippet.published_at,
        None => None,
    }
}

/// What is sorted is as long as before, and dated ever later, with the items that have no
/// date before all others.
pub proof fn sorted_items_are_dated_ever_later(
    items: Vec<PlaylistItem>,
    r: Vec<PlaylistItem>,
    i: int,
    j: int,
)
    requires
        call_ensures(sort_by_date, (items,), r),
        0 <= i < j < r@.len(),
    ensures
        r@.len() == items@.len(),
        ({
            let (a, b) = (told_date(r@[i]), told_date(r@[j]));
            &&& a is Some ==> b is Some
            &&& a is Some ==> a->0.secs <= b->0.secs
            &&& a is Some && a->0.secs == b->0.secs ==> a->0.nanos <= b->0.nanos
        }),
{
    let (seen, before) = (r.deep_view(), items.deep_view());
    assert(seen.len() == r@.len() && before.len() == items@.len());
    assert(seen[i] == r@[i].deep_view() && seen[j] == r@[j].deep_view());
    earlier_items_come_first(seen, i, j);
    sorting_keeps_the_items(seen, before);
    seen.to_multiset_ensures();
    before.to_multiset_ensures();
}

} // verus!

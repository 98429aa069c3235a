//! Fetching the items of a playlist page by page.
use crate::playlist::{PlaylistItem, PlaylistItemModel};
use vstd::prelude::*;

verus! {

/// The most items that one request may ask for.
pub const PAGE_SIZE: usize = 50;

/// A request for a page of a playlist's items.
#[derive(Debug, PartialEq, Eq)]
pub struct PageRequest {
    /// How many items the page shall hold at most.
    pub max_results: usize,
    /// The page that is asked for; the first one if there is no token.
    pub page_token: Option<String>,
}

/// The items of a playlist while they are fetched page by page.
#[derive(Debug, PartialEq, Eq)]
pub struct Paging {
    /// How many items are wanted.
    pub max_items: usize,
    pub items: Vec<PlaylistItem>,
    /// How many requests have followed the first one.
    pub requests: usize,
    pub page_token: Option<String>,
}

/// A [`Paging`] with its texts as sequences of characters.
pub struct PagingModel {
    pub max_items: nat,
    pub items: Seq<PlaylistItemModel>,
    pub requests: nat,
    pub page_token: Option<Seq<char>>,
}

impl DeepView for Paging {
    type V = PagingModel;

    open spec fn deep_view(&self) -> PagingModel {
        PagingModel {
            max_items: self.max_items as nat,
            items: self.items.deep_view(),
            requests: self.requests as nat,
            page_token: self.page_token.deep_view(),
        }
    }
}

/// A page of a playlist's items, and the token of the page after it.
pub struct PageModel {
    pub items: Seq<PlaylistItemModel>,
    pub next: Option<Seq<char>>,
}

impl PagingModel {
    /// Nothing fetched yet.
    pub open spec fn start(max_items: nat) -> PagingModel {
        PagingModel { max_items, items: Seq::empty(), requests: 0, page_token: None }
    }

    /// The number of requests after the first one at which fetching ends.
    pub open spec fn last_request(self) -> nat {
        self.max_items / PAGE_SIZE as nat + 1
    }

    /// Whether no more requests were made than may be.
    pub open spec fn is_valid(self) -> bool {
        self.requests <= self.last_request()
    }

    /// How many items the next request asks for.
    pub open spec fn asks(self) -> int {
        let remaining = self.max_items - self.items.len();
        if remaining > PAGE_SIZE {
            PAGE_SIZE as int
        } else {
            remaining
        }
    }

    /// Whether fetching ends with a page.
    pub open spec fn ends_with(self, page: PageModel) -> bool {
        page.next is None || self.requests == self.last_request()
    }

    /// What has been fetched when a page has arrived.
    pub open spec fn after(self, page: PageModel) -> PagingModel {
        PagingModel {
            max_items: self.max_items,
            items: self.items + page.items,
            requests: if self.ends_with(page) { self.requests } else { self.requests + 1 },
            page_token: page.next,
        }
    }

    /// What has been fetched when some pages have arrived.
    pub open spec fn after_all(self, pages: Seq<PageModel>) -> PagingModel
        decreases pages.len(),
    {
        if pages.len() == 0 {
            self
        } else {
            self.after_all(pages.drop_last()).after(pages.last())
        }
    }
}

impl Paging {
    /// Begins to fetch a number of items.
    pub fn new(max_items: usize) -> (r: Paging)
        ensures
            r.deep_view() == PagingModel::start(max_items as nat),
            r.deep_view().is_valid(),
    {
        let r = Paging { max_items, items: Vec::new(), requests: 0, page_token: None };
        assert(r.items.deep_view() =~= Seq::<PlaylistItemModel>::empty());
        r
    }

    /// The next request.
    pub fn next_request(&self) -> (r: PageRequest)
        requires
            self.items.len() <= self.max_items,
        ensures
            r.max_results == self.deep_view().asks(),
            r.page_token.deep_view() == self.deep_view().page_token,
    {
        let remaining: usize = self.max_items - self.items.len();
        PageRequest {
            max_results: if remaining > PAGE_SIZE {
                PAGE_SIZE
            } else {
                remaining
            },
            page_token: self.page_token.clone(),
        }
    }

    /// Takes a page that has arrived, and tells whether fetching ends with it. A
    /// page without items is an error.
    pub fn receive(&mut self, items: Option<Vec<PlaylistItem>>, next: Option<String>) -> (r: Result<
        bool,
        String,
    >)
        requires
            old(self).deep_view().is_valid(),
        ensures
            final(self).deep_view().is_valid(),
            match r {
                Ok(ends) => {
                    let page = PageModel {
                        items: items->0.deep_view(),
                        next: next.deep_view(),
                    };
                    &&& items is Some
                    &&& final(self).deep_view() == old(self).deep_view().after(page)
                    &&& ends == old(self).deep_view().ends_with(page)
                },
                Err(e) => {
                    &&& items is None
                    &&& e@ == "playlist object has no items field"@
                    &&& final(self).deep_view() == old(self).deep_view()
                },
            },
    {
        let mut page = match items {
            Some(page) => page,
            None => return Err("playlist object has no items field".to_string()),
        };
        let ghost before = self.items.deep_view();
        let ghost arrived = page.deep_view();
        self.items.append(&mut page);
        assert(self.items.deep_view() =~= before + arrived);
        let ends = next.is_none() || self.requests == self.max_items / PAGE_SIZE + 1;
        self.page_token = next;
        if !ends {
            self.requests += 1;
        }
        Ok(ends)
    }

    /// The fetched items in the order of their dates.
    pub fn finish(self) -> (r: Vec<PlaylistItem>)
        ensures
            crate::order::is_by_date(r.deep_view()),
            crate::order::keeps_order(r.deep_view(), self.items.deep_view()),
    {
        crate::order::sort_by_date(self.items)
    }
}

/// As long as no page holds more items than were asked for, no more items are
/// fetched than are wanted.
pub proof fn no_more_items_than_wanted(max_items: nat, pages: Seq<PageModel>)
    requires
        forall|i: int|
            0 <= i < pages.len() ==> (#[trigger] pages[i]).items.len() <= PagingModel::start(
                max_items,
            ).after_all(pages.take(i)).asks(),
    ensures
        PagingModel::start(max_items).after_all(pages).items.len() <= max_items,
    decreases pages.len(),
{
    if pages.len() > 0 {
        let rest = pages.drop_last();
        let last = pages.len() - 1;
        assert forall|i: int| 0 <= i < rest.len() implies (#[trigger] rest[i]).items.len()
            <= PagingModel::start(max_items).after_all(rest.take(i)).asks() by {
            assert(rest[i] == pages[i]);
            assert(rest.take(i) =~= pages.take(i));
        }
        assert(pages.take(last) =~= rest);
        assert(pages[last].items.len() <= PagingModel::start(max_items).after_all(
            pages.take(last),
        ).asks());
        no_more_items_than_wanted(max_items, rest);
        lemma_max_stays(PagingModel::start(max_items), rest);
    }
}

proof fn lemma_max_stays(start: PagingModel, pages: Seq<PageModel>)
    ensures
        start.after_all(pages).max_items == start.max_items,
    decreases pages.len(),
{
    if pages.len() > 0 {
        lemma_max_stays(start, pages.drop_last());
    }
}

/// While every page holds as many items as were asked for, every request but the
/// last ones asks for a full page, and fifty items arrive with each until as many
/// as are wanted have arrived.
pub proof fn full_pages_fill_the_playlist(max_items: nat, pages: Seq<PageModel>)
    requires
        forall|i: int|
            0 <= i < pages.len() ==> (#[trigger] pages[i]).items.len() == PagingModel::start(
                max_items,
            ).after_all(pages.take(i)).asks(),
    ensures
        PagingModel::start(max_items).after_all(pages).items.len() == if 50 * pages.len()
            < max_items {
            50 * pages.len()
        } else {
            max_items
        },
    decreases pages.len(),
{
    if pages.len() > 0 {
        let rest = pages.drop_last();
        let last = pages.len() - 1;
        assert forall|i: int| 0 <= i < rest.len() implies (#[trigger] rest[i]).items.len()
            == PagingModel::start(max_items).after_all(rest.take(i)).asks() by {
            assert(rest[i] == pages[i]);
            assert(rest.take(i) =~= pages.take(i));
        }
        assert(pages.take(last) =~= rest);
        assert(pages[last].items.len() == PagingModel::start(max_items).after_all(
            pages.take(last),
        ).asks());
        full_pages_fill_the_playlist(max_items, rest);
        lemma_max_stays(PagingModel::start(max_items), rest);
    }
}

proof fn lemma_requests_made(max_items: nat, pages: Seq<PageModel>)
    requires
        forall|i: int|
            0 <= i < pages.len() ==> !PagingModel::start(max_items).after_all(
                pages.take(i),
            ).ends_with(#[trigger] pages[i]),
    ensures
        PagingModel::start(max_items).after_all(pages).requests == pages.len(),
        pages.len() <= max_items / 50 + 1,
    decreases pages.len(),
{
    if pages.len() > 0 {
        let rest = pages.drop_last();
        let last = pages.len() - 1;
        assert forall|i: int| 0 <= i < rest.len() implies !PagingModel::start(max_items).after_all(
            rest.take(i),
        ).ends_with(#[trigger] rest[i]) by {
            assert(rest[i] == pages[i]);
            assert(rest.take(i) =~= pages.take(i));
        }
        assert(pages.take(last) =~= rest);
        assert(!PagingModel::start(max_items).after_all(pages.take(last)).ends_with(pages[last]));
        lemma_requests_made(max_items, rest);
        lemma_max_stays(PagingModel::start(max_items), rest);
    }
}

/// Fetching comes to an end: the page after as many as the wanted items need, and
/// one more, is the last one. If all of them were full, as many items have arrived
/// as are wanted.
pub proof fn fetching_ends(max_items: nat, pages: Seq<PageModel>, last: PageModel)
    requires
        forall|i: int|
            0 <= i < pages.len() ==> !PagingModel::start(max_items).after_all(
                pages.take(i),
            ).ends_with(#[trigger] pages[i]),
    ensures
        pages.len() <= max_items / 50 + 1,
        pages.len() == max_items / 50 + 1 ==> PagingModel::start(max_items).after_all(
            pages,
        ).ends_with(last),
        pages.len() == max_items / 50 + 1 && (forall|i: int|
            0 <= i < pages.len() ==> (#[trigger] pages[i]).items.len() == PagingModel::start(
                max_items,
            ).after_all(pages.take(i)).asks()) ==> PagingModel::start(max_items).after_all(
            pages,
        ).items.len() == max_items,
{
    lemma_requests_made(max_items, pages);
    lemma_max_stays(PagingModel::start(max_items), pages);
    if pages.len() == max_items / 50 + 1 && (forall|i: int|
        0 <= i < pages.len() ==> (#[trigger] pages[i]).items.len() == PagingModel::start(
            max_items,
        ).after_all(pages.take(i)).asks()) {
        full_pages_fill_the_playlist(max_items, pages);
    }
}

/// A request asks for as many items as are still wanted, but for no more than fifty, and
/// for the page that the last one named.
pub proof fn requests_ask_for_what_is_missing(paging: PagingModel, page: PageModel)
    requires
        paging.items.len() <= paging.max_items,
    ensures
        paging.asks() <= 50,
        paging.items.len() + paging.asks() <= paging.max_items,
        paging.asks() < 50 ==> paging.items.len() + paging.asks() == paging.max_items,
        paging.after(page).page_token == page.next,
        paging.after(page).max_items == paging.max_items,
{
}

/// The items of a page are put behind those that have arrived before, and nothing else
/// is done to either.
pub proof fn pages_are_appended(paging: PagingModel, page: PageModel)
    ensures
        paging.after(page).items.len() == paging.items.len() + page.items.len(),
        paging.after(page).items.take(paging.items.len() as int) == paging.items,
        paging.after(page).items.skip(paging.items.len() as int) == page.items,
        page.next is None ==> paging.ends_with(page),
        page.next is Some && paging.requests * 50 < paging.max_items ==> !paging.ends_with(page),
{
    assert(paging.after(page).items.take(paging.items.len() as int) =~= paging.items);
    assert(paging.after(page).items.skip(paging.items.len() as int) =~= page.items);
}

/// A request asks for the page that the last one named, and for the items that are still
/// wanted, up to fifty; when fetching begins, for the first page.
pub proof fn pages_are_asked_for_in_order(
    paging: &Paging,
    r: PageRequest,
    max_items: usize,
    first: Paging,
)
    requires
        paging.items@.len() <= paging.max_items,
        call_ensures(Paging::next_request, (paging,), r),
        call_ensures(Paging::new, (max_items,), first),
    ensures
        r.max_results <= 50,
        r.max_results < 50 ==> r.max_results == paging.max_items - paging.items@.len(),
        r.max_results == 50 ==> paging.max_items - paging.items@.len() >= 50,
        r.page_token.deep_view() == paging.page_token.deep_view(),
        first.max_items == max_items && first.items@.len() == 0 && first.page_token is None
            && first.requests == 0,
{
    assert(paging.items.deep_view().len() == paging.items@.len());
    assert(first.items.deep_view().len() == first.items@.len());
}

/// The items that were fetched come out in the order of their dates, all of them.
pub proof fn fetched_items_come_out_sorted(paging: Paging, r: Vec<PlaylistItem>)
    requires
        call_ensures(Paging::finish, (paging,), r),
    ensures
        r.deep_view().to_multiset() == paging.items.deep_view().to_multiset(),
        forall|i: int, j: int|
            0 <= i < j < r@.len() ==> {
                let (a, b) = (
                    crate::order::told_date(#[trigger] r@[i]),
                    crate::order::told_date(#[trigger] r@[j]),
                );
                a is Some ==> b is Some && a->0.secs <= b->0.secs
            },
{
    crate::order::sorting_keeps_the_items(r.deep_view(), paging.items.deep_view());
    assert forall|i: int, j: int| 0 <= i < j < r@.len() implies {
        let (a, b) = (
            crate::order::told_date(#[trigger] r@[i]),
            crate::order::told_date(#[trigger] r@[j]),
        );
        a is Some ==> b is Some && a->0.secs <= b->0.secs
    } by {
        let seen = r.deep_view();
        assert(seen[i] == r@[i].deep_view() && seen[j] == r@[j].deep_view());
        crate::order::earlier_items_come_first(seen, i, j);
    }
}

/// The items of a page that arrives are put behind those that have arrived, and its token
/// is that of the page to ask for next. Fetching ends with a page that names no next one, or
/// when one request more than the wanted items fill has followed the first. A page without
/// items is an error and changes nothing.
pub proof fn pages_that_arrive_are_taken(
    paging: &mut Paging,
    items: Option<Vec<PlaylistItem>>,
    next: Option<String>,
    r: Result<bool, String>,
)
    requires
        call_ensures(Paging::receive, (paging, items, next), r),
    ensures
        r is Ok <==> items is Some,
        final(paging).max_items == old(paging).max_items,
        items is Some ==> final(paging).items.deep_view() == old(paging).items.deep_view()
            + items->0.deep_view(),
        items is Some ==> final(paging).page_token.deep_view() == next.deep_view(),
        items is Some && next is None ==> r->Ok_0,
        items is Some && next is Some ==> (r->Ok_0 <==> old(paging).requests == old(
            paging,
        ).max_items / 50 + 1),
        items is Some && !r->Ok_0 ==> final(paging).requests == old(paging).requests + 1,
        items is None ==> final(paging).items.deep_view() == old(paging).items.deep_view()
            && final(paging).page_token.deep_view() == old(paging).page_token.deep_view()
            && final(paging).requests == old(paging).requests,
{
}

} // verus!

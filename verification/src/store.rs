//! The page store: the set of stored pages, keyed by page number.
//!
//! The store holds its pages sorted by page number, strictly ascending, so a
//! page number occurs at most once. Its contract speaks of two models: the
//! sequence of page values in storage order (the view), and the finite map
//! from page number to page value (`as_map`). Reads that serve the public
//! surface return published pages only; drafts are invisible to them.

use vstd::prelude::*;

use crate::page::{Page, PageView, PublishedStatus};

verus! {

/// The stored pages, sorted by `page_number` strictly ascending.
pub struct PageStore {
    pages: Vec<Page>,
}

/// Page values ordered by strictly ascending page number.
pub open spec fn sorted_by_page_number(s: Seq<PageView>) -> bool {
    forall|i: int, j: int| 0 <= i < j < s.len() ==> s[i].page_number < s[j].page_number
}

/// The finite map a sequence of page values denotes: later entries win.
pub open spec fn page_map(s: Seq<PageView>) -> Map<usize, PageView>
    decreases s.len(),
{
    if s.len() == 0 {
        Map::empty()
    } else {
        page_map(s.drop_last()).insert(s.last().page_number, s.last())
    }
}

/// Whether a page value is visible to public reads.
pub open spec fn is_published_view(p: PageView) -> bool {
    p.published_at is Some
}

/// The published page values of a sequence, in order.
pub open spec fn published_filter(s: Seq<PageView>) -> Seq<PageView> {
    s.filter(|p: PageView| is_published_view(p))
}

/// A page value with its publication state set: publishing stamps the given
/// time, unpublishing reverts the page to a draft. All other fields are kept.
pub open spec fn with_published(p: PageView, published: bool, now: i64) -> PageView {
    PageView { published_at: if published { Some(now) } else { None }, ..p }
}

impl View for PageStore {
    type V = Seq<PageView>;

    closed spec fn view(&self) -> Seq<PageView> {
        self.pages.deep_view()
    }
}

impl PageStore {
    /// The store is well formed: pages sorted by strictly ascending page
    /// number, so the page number is a unique key.
    pub open spec fn wf(self) -> bool {
        sorted_by_page_number(self@)
    }

    /// The stored contents as a map from page number to page value.
    pub open spec fn as_map(self) -> Map<usize, PageView> {
        page_map(self@)
    }

    /// The published pages, in storage order (ascending page number).
    pub open spec fn published_views(self) -> Seq<PageView> {
        published_filter(self@)
    }

    /// An empty store.
    pub fn new() -> (r: PageStore)
        ensures
            r.wf(),
            r@ == Seq::<PageView>::empty(),
            r.as_map() == Map::<usize, PageView>::empty(),
    {
        let pages: Vec<Page> = Vec::new();
        proof {
            assert(pages.deep_view() =~= Seq::<PageView>::empty());
        }
        PageStore { pages }
    }
}

/// `page_map` has exactly the page numbers of the sequence as its keys.
proof fn lemma_page_map_dom(s: Seq<PageView>, n: usize)
    ensures
        page_map(s).contains_key(n) <==> exists|i: int| 0 <= i < s.len() && s[i].page_number == n,
    decreases s.len(),
{
    if s.len() > 0 {
        lemma_page_map_dom(s.drop_last(), n);
        if s.last().page_number == n {
            assert(s[s.len() - 1].page_number == n);
        } else {
            if exists|i: int| 0 <= i < s.len() && s[i].page_number == n {
                let i = choose|i: int| 0 <= i < s.len() && s[i].page_number == n;
                assert(i < s.len() - 1);
                assert(s.drop_last()[i].page_number == n);
            }
            if exists|i: int| 0 <= i < s.drop_last().len() && s.drop_last()[i].page_number == n {
                let i = choose|i: int|
                    0 <= i < s.drop_last().len() && s.drop_last()[i].page_number == n;
                assert(s[i].page_number == n);
            }
        }
    }
}

/// In a sorted sequence, `page_map` maps each page number to its entry.
proof fn lemma_page_map_at(s: Seq<PageView>, i: int)
    requires
        sorted_by_page_number(s),
        0 <= i < s.len(),
    ensures
        page_map(s).contains_key(s[i].page_number),
        page_map(s)[s[i].page_number] == s[i],
    decreases s.len(),
{
    if i < s.len() - 1 {
        assert(sorted_by_page_number(s.drop_last()));
        lemma_page_map_at(s.drop_last(), i);
        assert(s.drop_last()[i] == s[i]);
        assert(s[i].page_number < s.last().page_number);
    }
}

/// Replacing the entry at a page number updates the map at that key alone.
proof fn lemma_page_map_update(s: Seq<PageView>, i: int, p: PageView)
    requires
        0 <= i < s.len(),
        p.page_number == s[i].page_number,
        forall|j: int| 0 <= j < s.len() && j != i ==> s[j].page_number != p.page_number,
    ensures
        page_map(s.update(i, p)) == page_map(s).insert(p.page_number, p),
    decreases s.len(),
{
    let n = p.page_number;
    if i == s.len() - 1 {
        assert(s.update(i, p).drop_last() =~= s.drop_last());
        assert(s.update(i, p).last() == p);
        assert(page_map(s.drop_last()).insert(n, s.last()).insert(n, p) =~= page_map(
            s.drop_last(),
        ).insert(n, p));
    } else {
        assert(s.update(i, p).last() == s.last());
        assert(s.update(i, p).drop_last() =~= s.drop_last().update(i, p));
        assert(forall|j: int|
            0 <= j < s.drop_last().len() && j != i ==> s.drop_last()[j].page_number != n);
        lemma_page_map_update(s.drop_last(), i, p);
        let m = page_map(s.drop_last());
        let ln = s.last().page_number;
        assert(ln != n);
        assert(m.insert(n, p).insert(ln, s.last()) =~= m.insert(ln, s.last()).insert(n, p));
    }
}

/// Inserting an entry with a fresh page number inserts it into the map.
proof fn lemma_page_map_insert(s: Seq<PageView>, i: int, p: PageView)
    requires
        0 <= i <= s.len(),
        forall|j: int| 0 <= j < s.len() ==> s[j].page_number != p.page_number,
    ensures
        page_map(s.insert(i, p)) == page_map(s).insert(p.page_number, p),
    decreases s.len(),
{
    let n = p.page_number;
    if i == s.len() {
        assert(s.insert(i, p) =~= s.push(p));
        assert(s.push(p).drop_last() =~= s);
        assert(page_map(s.push(p)) == page_map(s).insert(n, p));
    } else {
        assert(s.insert(i, p).last() == s.last());
        assert(s.insert(i, p).drop_last() =~= s.drop_last().insert(i, p));
        lemma_page_map_insert(s.drop_last(), i, p);
        let m = page_map(s.drop_last());
        let ln = s.last().page_number;
        assert(ln != n);
        assert(m.insert(n, p).insert(ln, s.last()) =~= m.insert(ln, s.last()).insert(n, p));
    }
}

/// Removing the entry at a unique page number removes that key from the map.
proof fn lemma_page_map_remove(s: Seq<PageView>, i: int)
    requires
        0 <= i < s.len(),
        forall|j: int| 0 <= j < s.len() && j != i ==> s[j].page_number != s[i].page_number,
    ensures
        page_map(s.remove(i)) == page_map(s).remove(s[i].page_number),
    decreases s.len(),
{
    let n = s[i].page_number;
    if i == s.len() - 1 {
        assert(s.remove(i) =~= s.drop_last());
        lemma_page_map_dom(s.drop_last(), n);
        assert(!page_map(s.drop_last()).contains_key(n));
        assert(page_map(s.drop_last()).insert(n, s.last()).remove(n) =~= page_map(
            s.drop_last(),
        ));
    } else {
        assert(s.remove(i).last() == s.last());
        assert(s.remove(i).drop_last() =~= s.drop_last().remove(i));
        assert(s.drop_last()[i] == s[i]);
        assert(forall|j: int|
            0 <= j < s.drop_last().len() && j != i ==> s.drop_last()[j].page_number != n);
        lemma_page_map_remove(s.drop_last(), i);
        let m = page_map(s.drop_last());
        let ln = s.last().page_number;
        assert(ln != n);
        assert(m.remove(n).insert(ln, s.last()) =~= m.insert(ln, s.last()).remove(n));
    }
}

/// The two models of a well-formed store agree: each stored entry is the
/// map's entry for its page number.
pub proof fn lemma_store_entry(store: PageStore, i: int)
    requires
        store.wf(),
        0 <= i < store@.len(),
    ensures
        store.as_map().contains_key(store@[i].page_number),
        store.as_map()[store@[i].page_number] == store@[i],
{
    lemma_page_map_at(store@, i);
}

/// The two models of a store agree: the map has a key exactly where some
/// stored entry carries that page number.
pub proof fn lemma_store_key(store: PageStore, n: usize)
    ensures
        store.as_map().contains_key(n) <==> exists|i: int|
            0 <= i < store@.len() && store@[i].page_number == n,
{
    lemma_page_map_dom(store@, n);
}

/// The contents determine the storage order: two sorted sequences that
/// denote the same map are the same sequence.
proof fn lemma_map_determines_seq(s1: Seq<PageView>, s2: Seq<PageView>)
    requires
        sorted_by_page_number(s1),
        sorted_by_page_number(s2),
        page_map(s1) == page_map(s2),
    ensures
        s1 == s2,
    decreases s1.len(),
{
    if s1.len() == 0 {
        if s2.len() > 0 {
            lemma_page_map_at(s2, 0);
            lemma_page_map_dom(s1, s2[0].page_number);
        }
        assert(s1 =~= s2);
    } else {
        if s2.len() == 0 {
            lemma_page_map_at(s1, 0);
            lemma_page_map_dom(s2, s1[0].page_number);
            assert(false);
        }
        let n1 = s1.last().page_number;
        let n2 = s2.last().page_number;
        lemma_page_map_at(s1, s1.len() - 1);
        lemma_page_map_at(s2, s2.len() - 1);
        lemma_page_map_dom(s1, n2);
        lemma_page_map_dom(s2, n1);
        let i = choose|i: int| 0 <= i < s2.len() && s2[i].page_number == n1;
        let j = choose|j: int| 0 <= j < s1.len() && s1[j].page_number == n2;
        assert(s2[i].page_number <= n2);
        assert(s1[j].page_number <= n1);
        assert(n1 == n2);
        assert(s1.last() == s2.last());
        lemma_unique_at(s1, s1.len() - 1, n1);
        lemma_unique_at(s2, s2.len() - 1, n1);
        lemma_page_map_remove(s1, s1.len() - 1);
        lemma_page_map_remove(s2, s2.len() - 1);
        assert(s1.remove(s1.len() - 1) =~= s1.drop_last());
        assert(s2.remove(s2.len() - 1) =~= s2.drop_last());
        assert(sorted_by_page_number(s1.drop_last()));
        assert(sorted_by_page_number(s2.drop_last()));
        lemma_map_determines_seq(s1.drop_last(), s2.drop_last());
        assert(s1 =~= s1.drop_last().push(s1.last()));
        assert(s2 =~= s2.drop_last().push(s2.last()));
    }
}

/// The contents determine the store: two well-formed stores that hold the
/// same map hold the same sequence of pages.
pub proof fn lemma_map_determines_store(s1: PageStore, s2: PageStore)
    requires
        s1.wf(),
        s2.wf(),
        s1.as_map() == s2.as_map(),
    ensures
        s1@ == s2@,
{
    lemma_map_determines_seq(s1@, s2@);
}

/// In a sorted sequence, the entry at a page number is the only one.
proof fn lemma_unique_at(s: Seq<PageView>, i: int, n: usize)
    requires
        sorted_by_page_number(s),
        0 <= i < s.len(),
        s[i].page_number == n,
    ensures
        forall|j: int| 0 <= j < s.len() && j != i ==> s[j].page_number != n,
{
    assert forall|j: int| 0 <= j < s.len() && j != i implies s[j].page_number != n by {
        if j < i {
            assert(s[j].page_number < s[i].page_number);
        } else {
            assert(s[i].page_number < s[j].page_number);
        }
    }
}

/// When the sorted position of a page number holds some other number, the
/// sequence holds that page number nowhere.
proof fn lemma_absent_at_position(s: Seq<PageView>, i: int, n: usize)
    requires
        sorted_by_page_number(s),
        0 <= i <= s.len(),
        forall|j: int| 0 <= j < i ==> s[j].page_number < n,
        forall|j: int| i <= j < s.len() ==> s[j].page_number >= n,
        i == s.len() || s[i].page_number != n,
    ensures
        forall|j: int| 0 <= j < s.len() ==> s[j].page_number != n,
{
    assert forall|j: int| 0 <= j < s.len() implies s[j].page_number != n by {
        if j > i {
            assert(s[i].page_number < s[j].page_number);
        }
    }
}

/// The position a page number has, or would take, in the sorted store.
fn find_position(store: &PageStore, page_number: usize) -> (i: usize)
    requires
        store.wf(),
    ensures
        i <= store@.len(),
        forall|j: int| 0 <= j < i ==> store@[j].page_number < page_number,
        forall|j: int| i <= j < store@.len() ==> store@[j].page_number >= page_number,
{
    let mut i: usize = 0;
    while i < store.pages.len() && store.pages[i].page_number < page_number
        invariant
            store.wf(),
            i <= store@.len(),
            forall|j: int| 0 <= j < i ==> store@[j].page_number < page_number,
        decreases store@.len() - i,
    {
        i = i + 1;
    }
    proof {
        if i < store@.len() {
            assert(forall|j: int|
                i <= j < store@.len() ==> store@[i as int].page_number <= #[trigger] store@[j].page_number);
        }
    }
    i
}

impl Page {
    /// Looks a page up by its number, whatever its publication state.
    pub fn get_by_number(store: &PageStore, page_number: usize) -> (r: Option<Page>)
        requires
            store.wf(),
        ensures
            match r {
                Some(p) => store.as_map().contains_key(page_number) && p@ == store.as_map()[page_number],
                None => !store.as_map().contains_key(page_number),
            },
    {
        let i = find_position(store, page_number);
        if i < store.pages.len() && store.pages[i].page_number == page_number {
            proof {
                lemma_page_map_at(store@, i as int);
            }
            Some(store.pages[i].clone())
        } else {
            proof {
                lemma_absent_at_position(store@, i as int, page_number);
                lemma_page_map_dom(store@, page_number);
            }
            None
        }
    }

    /// Looks a page up by its number; a draft is invisible and reads as
    /// absent, so public reads never leak one.
    pub fn get(store: &PageStore, page_number: usize) -> (r: Option<Page>)
        requires
            store.wf(),
        ensures
            match r {
                Some(p) => store.as_map().contains_key(page_number) && p@ == store.as_map()[page_number]
                    && p@.published_at is Some,
                None => !store.as_map().contains_key(page_number) || store.as_map()[page_number].published_at is None,
            },
    {
        match Page::get_by_number(store, page_number) {
            Some(p) => {
                if p.is_published() {
                    Some(p)
                } else {
                    None
                }
            },
            None => None,
        }
    }

    /// Returns every published page, ordered by ascending page number.
    pub fn get_all_published(store: &PageStore) -> (r: Vec<Page>)
        requires
            store.wf(),
        ensures
            r.deep_view() == store.published_views(),
            sorted_by_page_number(r.deep_view()),
    {
        let mut r: Vec<Page> = Vec::new();
        proof {
            reveal_with_fuel(Seq::<_>::filter, 1);
            assert(r.deep_view() =~= Seq::<PageView>::empty());
            assert(store@.take(0) =~= Seq::<PageView>::empty());
        }
        let mut i: usize = 0;
        while i < store.pages.len()
            invariant
                store.wf(),
                i <= store@.len(),
                r.deep_view() == published_filter(store@.take(i as int)),
            decreases store@.len() - i,
        {
            let ghost prefix = store@.take(i as int);
            let p = &store.pages[i];
            if p.is_published() {
                r.push(p.clone());
                proof {
                    reveal_with_fuel(Seq::<_>::filter, 2);
                    assert(p@ == store@[i as int]);
                    assert(store@.take(i + 1).drop_last() =~= prefix);
                    assert(store@.take(i + 1).last() == store@[i as int]);
                    assert(published_filter(store@.take(i + 1)) == published_filter(prefix).push(
                        store@[i as int],
                    ));
                    assert(r.deep_view() =~= published_filter(prefix).push(store@[i as int]));
                }
            } else {
                proof {
                    reveal_with_fuel(Seq::<_>::filter, 2);
                    assert(p@ == store@[i as int]);
                    assert(store@.take(i + 1).drop_last() =~= prefix);
                    assert(store@.take(i + 1).last() == store@[i as int]);
                    assert(published_filter(store@.take(i + 1)) == published_filter(prefix));
                }
            }
            i = i + 1;
        }
        proof {
            assert(store@.take(store@.len() as int) =~= store@);
            lemma_published_filter_sorted(store@);
        }
        r
    }

    /// Inserts the page, or replaces the record with the same page number.
    /// A replace overwrites every field, the publication state included.
    pub fn upsert(store: &mut PageStore, page: Page)
        requires
            old(store).wf(),
        ensures
            final(store).wf(),
            final(store).as_map() == old(store).as_map().insert(page.page_number, page@),
    {
        let n = page.page_number;
        let i = find_position(store, n);
        let ghost s = store@;
        if i < store.pages.len() && store.pages[i].page_number == n {
            proof {
                lemma_unique_at(s, i as int, n);
                lemma_page_map_update(s, i as int, page@);
            }
            store.pages[i] = page;
            proof {
                assert(final(store)@ =~= s.update(i as int, page@));
            }
        } else {
            proof {
                lemma_absent_at_position(s, i as int, n);
                lemma_page_map_insert(s, i as int, page@);
            }
            store.pages.insert(i, page);
            proof {
                assert(final(store)@ =~= s.insert(i as int, page@));
            }
        }
    }

    /// Sets the publication state of the page with the given number:
    /// publishing stamps the given time, unpublishing clears it. A missing
    /// page number leaves the store unchanged.
    pub fn set_published(store: &mut PageStore, page_number: usize, published: bool, now: i64)
        requires
            old(store).wf(),
        ensures
            final(store).wf(),
            old(store).as_map().contains_key(page_number) ==> final(store).as_map() == old(
                store,
            ).as_map().insert(
                page_number,
                with_published(old(store).as_map()[page_number], published, now),
            ),
            !old(store).as_map().contains_key(page_number) ==> final(store)@ == old(store)@,
    {
        let i = find_position(store, page_number);
        let ghost s = store@;
        if i < store.pages.len() && store.pages[i].page_number == page_number {
            let mut p = store.pages[i].clone();
            p.published_status = if published {
                PublishedStatus::PublishedAt(now)
            } else {
                PublishedStatus::Draft
            };
            proof {
                lemma_page_map_at(s, i as int);
                lemma_unique_at(s, i as int, page_number);
                assert(p@ == with_published(s[i as int], published, now));
                lemma_page_map_update(s, i as int, p@);
            }
            store.pages[i] = p;
            proof {
                assert(final(store)@ =~= s.update(i as int, with_published(s[i as int], published, now)));
            }
        } else {
            proof {
                lemma_absent_at_position(s, i as int, page_number);
                lemma_page_map_dom(s, page_number);
            }
        }
    }

    /// Publishes the page with the given number, stamping the clock's time,
    /// and returns the stamped time. The clock's value is not assumed: what
    /// holds of the store holds whatever time came back.
    pub fn publish_now(store: &mut PageStore, page_number: usize) -> (now: i64)
        requires
            old(store).wf(),
        ensures
            final(store).wf(),
            old(store).as_map().contains_key(page_number) ==> final(store).as_map() == old(
                store,
            ).as_map().insert(
                page_number,
                with_published(old(store).as_map()[page_number], true, now),
            ),
            !old(store).as_map().contains_key(page_number) ==> final(store)@ == old(store)@,
    {
        let now = crate::clock::now_millis();
        Page::set_published(store, page_number, true, now);
        now
    }

    /// Removes the page with the given number. Deleting a page number that
    /// is not stored succeeds and changes nothing.
    pub fn delete(store: &mut PageStore, page_number: usize)
        requires
            old(store).wf(),
        ensures
            final(store).wf(),
            final(store).as_map() == old(store).as_map().remove(page_number),
            !old(store).as_map().contains_key(page_number) ==> final(store)@ == old(store)@,
    {
        let i = find_position(store, page_number);
        let ghost s = store@;
        if i < store.pages.len() && store.pages[i].page_number == page_number {
            proof {
                lemma_page_map_at(s, i as int);
                lemma_unique_at(s, i as int, page_number);
                lemma_page_map_remove(s, i as int);
            }
            store.pages.remove(i);
            proof {
                assert(final(store)@ =~= s.remove(i as int));
            }
        } else {
            proof {
                lemma_absent_at_position(s, i as int, page_number);
                lemma_page_map_dom(s, page_number);
                assert(page_map(s).remove(page_number) =~= page_map(s));
            }
        }
    }
}

/// Keeping only the published pages keeps the sequence sorted, and keeps
/// any strict upper bound on its page numbers.
proof fn lemma_published_filter_sorted_bounded(s: Seq<PageView>, bound: int)
    requires
        sorted_by_page_number(s),
        forall|i: int| 0 <= i < s.len() ==> s[i].page_number < bound,
    ensures
        sorted_by_page_number(published_filter(s)),
        forall|i: int|
            0 <= i < published_filter(s).len() ==> published_filter(s)[i].page_number < bound,
    decreases s.len(),
{
    reveal_with_fuel(Seq::<_>::filter, 2);
    if s.len() > 0 {
        let t = s.drop_last();
        assert(sorted_by_page_number(t));
        assert(forall|i: int| 0 <= i < t.len() ==> t[i].page_number < s.last().page_number);
        lemma_published_filter_sorted_bounded(t, s.last().page_number as int);
        if is_published_view(s.last()) {
            assert(published_filter(s) == published_filter(t).push(s.last()));
        } else {
            assert(published_filter(s) == published_filter(t));
        }
        assert(forall|i: int|
            0 <= i < published_filter(s).len() ==> published_filter(s)[i].page_number < bound);
    }
}

/// Keeping only the published pages keeps the sequence sorted.
pub proof fn lemma_published_filter_sorted(s: Seq<PageView>)
    requires
        sorted_by_page_number(s),
    ensures
        sorted_by_page_number(published_filter(s)),
{
    lemma_published_filter_sorted_bounded(s, usize::MAX as int + 1);
}

} // verus!

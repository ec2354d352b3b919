//! Laws of the domain model: what holds of every store and every request,
//! across the operations, beyond each function's own contract.

use vstd::prelude::*;

use crate::auth::{auth_decision, bearer_header, lemma_bearer_split};
use crate::chapter::{by_chapter, chapters_of, lemma_chapter_numbers_complete};
use crate::page::PageView;
use crate::routes::{request_outcome, ApiRequest, ApiResponse};
use crate::store::{is_published_view, published_filter, with_published, PageStore};

verus! {

/// Every entry of the published listing is published and comes from the
/// sequence it was filtered from.
pub proof fn lemma_published_filter_element(s: Seq<PageView>, i: int)
    requires
        0 <= i < published_filter(s).len(),
    ensures
        is_published_view(published_filter(s)[i]),
        exists|j: int| 0 <= j < s.len() && s[j] == published_filter(s)[i],
    decreases s.len(),
{
    reveal_with_fuel(Seq::<_>::filter, 2);
    if s.len() > 0 {
        let t = s.drop_last();
        if is_published_view(s.last()) {
            assert(published_filter(s) == published_filter(t).push(s.last()));
            if i < published_filter(t).len() {
                lemma_published_filter_element(t, i);
                let j = choose|j: int| 0 <= j < t.len() && t[j] == published_filter(t)[i];
                assert(s[j] == published_filter(s)[i]);
            } else {
                assert(s[s.len() - 1] == published_filter(s)[i]);
            }
        } else {
            assert(published_filter(s) == published_filter(t));
            lemma_published_filter_element(t, i);
            let j = choose|j: int| 0 <= j < t.len() && t[j] == published_filter(t)[i];
            assert(s[j] == published_filter(s)[i]);
        }
    }
}

/// Every entry of a chapter filter carries that chapter number and comes
/// from the sequence it was filtered from.
pub proof fn lemma_by_chapter_element(s: Seq<PageView>, c: usize, i: int)
    requires
        0 <= i < by_chapter(s, c).len(),
    ensures
        by_chapter(s, c)[i].chapter_number == c,
        exists|j: int| 0 <= j < s.len() && s[j] == by_chapter(s, c)[i],
    decreases s.len(),
{
    reveal_with_fuel(Seq::<_>::filter, 2);
    if s.len() > 0 {
        let t = s.drop_last();
        if s.last().chapter_number == c {
            assert(by_chapter(s, c) == by_chapter(t, c).push(s.last()));
            if i < by_chapter(t, c).len() {
                lemma_by_chapter_element(t, c, i);
                let j = choose|j: int| 0 <= j < t.len() && t[j] == by_chapter(t, c)[i];
                assert(s[j] == by_chapter(s, c)[i]);
            } else {
                assert(s[s.len() - 1] == by_chapter(s, c)[i]);
            }
        } else {
            assert(by_chapter(s, c) == by_chapter(t, c));
            lemma_by_chapter_element(t, c, i);
            let j = choose|j: int| 0 <= j < t.len() && t[j] == by_chapter(t, c)[i];
            assert(s[j] == by_chapter(s, c)[i]);
        }
    }
}

/// Law: a draft is invisible to the public listing. Every page value that
/// the published listing of a store holds is published.
pub proof fn lemma_drafts_not_listed(store: PageStore, i: int)
    requires
        0 <= i < store.published_views().len(),
    ensures
        store.published_views()[i].published_at is Some,
{
    lemma_published_filter_element(store@, i);
}

/// Law: a draft is invisible to chapters. Every page value of any chapter
/// materialized from a store is published, and carries that chapter number.
pub proof fn lemma_drafts_not_in_chapters(store: PageStore, n: usize, i: int)
    requires
        0 <= i < by_chapter(store.published_views(), n).len(),
    ensures
        by_chapter(store.published_views(), n)[i].published_at is Some,
        by_chapter(store.published_views(), n)[i].chapter_number == n,
{
    lemma_by_chapter_element(store.published_views(), n, i);
    let j = choose|j: int|
        0 <= j < store.published_views().len() && store.published_views()[j] == by_chapter(
            store.published_views(),
            n,
        )[i];
    lemma_published_filter_element(store@, j);
}

/// Law: the chapter listing is complete. Every published page has its
/// chapter number among the materialized chapters.
pub proof fn lemma_every_published_page_has_a_chapter(store: PageStore, i: int)
    requires
        0 <= i < store.published_views().len(),
    ensures
        exists|k: int|
            0 <= k < chapters_of(store.published_views()).len() && chapters_of(
                store.published_views(),
            )[k].chapter_number == store.published_views()[i].chapter_number,
{
    let pv = store.published_views();
    lemma_chapter_numbers_complete(pv, i);
    let c = pv[i].chapter_number;
    let j = choose|j: int|
        0 <= j < crate::chapter::chapter_numbers(pv).len() && crate::chapter::chapter_numbers(
            pv,
        )[j] == c;
    assert(chapters_of(pv)[j].chapter_number == c);
}

/// Law: upsert is idempotent. Upserting the same payload twice leaves the
/// same stored contents as upserting it once.
pub proof fn lemma_upsert_idempotent(s0: PageStore, s1: PageStore, s2: PageStore, page: PageView)
    requires
        s1.as_map() == s0.as_map().insert(page.page_number, page),
        s2.as_map() == s1.as_map().insert(page.page_number, page),
    ensures
        s2.as_map() == s1.as_map(),
{
    assert(s1.as_map().insert(page.page_number, page) =~= s1.as_map());
}

/// Law: publishing stamps the given time, and over successive publishes
/// with a clock that does not run backward the timestamp never decreases.
pub proof fn lemma_republish_advances(
    s0: PageStore,
    s1: PageStore,
    s2: PageStore,
    n: usize,
    t1: i64,
    t2: i64,
)
    requires
        s0.as_map().contains_key(n),
        s1.as_map() == s0.as_map().insert(n, with_published(s0.as_map()[n], true, t1)),
        s2.as_map() == s1.as_map().insert(n, with_published(s1.as_map()[n], true, t2)),
        t1 <= t2,
    ensures
        s1.as_map()[n].published_at == Some(t1),
        s2.as_map()[n].published_at == Some(t2),
        s1.as_map()[n].published_at matches Some(u1) && s2.as_map()[n].published_at matches Some(
            u2,
        ) && u1 <= u2,
{
}

/// Law: unpublishing clears the timestamp, whatever the clock read.
pub proof fn lemma_unpublish_clears(s0: PageStore, s1: PageStore, n: usize, t: i64)
    requires
        s0.as_map().contains_key(n),
        s1.as_map() == s0.as_map().insert(n, with_published(s0.as_map()[n], false, t)),
    ensures
        s1.as_map()[n].published_at is None,
{
}

/// Law: a mutating request without the exact bearer credential is refused
/// and performs no change: the store after is the store before.
pub proof fn lemma_unauthorized_changes_nothing(
    pre: PageStore,
    post: PageStore,
    auth: Option<Seq<char>>,
    secret: Seq<char>,
    account_hash: Seq<char>,
    now: i64,
    request: ApiRequest,
    r: ApiResponse,
)
    requires
        request_outcome(pre, post, auth, secret, account_hash, now, request, r),
        request.is_mutating(),
        match auth {
            None => true,
            Some(h) => h != bearer_header(secret),
        },
    ensures
        post@ == pre@,
        r matches ApiResponse::Unauthorized(_),
        r.spec_status_code() == 403,
{
    match auth {
        None => {},
        Some(h) => {
            lemma_bearer_split(h, secret);
            assert(auth_decision(auth, secret) is Err);
        },
    }
}

} // verus!

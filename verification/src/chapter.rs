//! Chapters: derived, unstored groupings of published pages that share a
//! chapter number.
//!
//! A chapter is recomputed on every read from the current set of pages and
//! is non-empty by construction: asking for a chapter number that no
//! published page carries yields nothing, never an empty chapter.

use vstd::prelude::*;

use crate::page::{Page, PageView};
use crate::store::{sorted_by_page_number, PageStore};

verus! {

/// A derived grouping: the published pages sharing one chapter number,
/// ordered by ascending page number.
#[derive(Debug)]
pub struct Chapter {
    pub chapter_number: usize,
    pub pages: Vec<Page>,
}

/// The mathematical value of a chapter: its number and its page values.
#[verifier::ext_equal]
pub ghost struct ChapterView {
    pub chapter_number: usize,
    pub pages: Seq<PageView>,
}

impl View for Chapter {
    type V = ChapterView;

    open spec fn view(&self) -> ChapterView {
        ChapterView { chapter_number: self.chapter_number, pages: self.pages.deep_view() }
    }
}

impl DeepView for Chapter {
    type V = ChapterView;

    open spec fn deep_view(&self) -> ChapterView {
        self.view()
    }
}

/// The page values of chapter `c`, in order.
pub open spec fn by_chapter(s: Seq<PageView>, c: usize) -> Seq<PageView> {
    s.filter(|p: PageView| p.chapter_number == c)
}

/// The distinct chapter numbers of a sequence of page values, in order of
/// first appearance.
pub open spec fn chapter_numbers(s: Seq<PageView>) -> Seq<usize>
    decreases s.len(),
{
    if s.len() == 0 {
        Seq::empty()
    } else {
        let rest = chapter_numbers(s.drop_last());
        if rest.contains(s.last().chapter_number) {
            rest
        } else {
            rest.push(s.last().chapter_number)
        }
    }
}

/// The chapters a sequence of page values denotes: one per chapter number
/// that appears, in order of first appearance, each holding every page of
/// its number in the order given.
pub open spec fn chapters_of(s: Seq<PageView>) -> Seq<ChapterView> {
    chapter_numbers(s).map_values(
        |c: usize| ChapterView { chapter_number: c, pages: by_chapter(s, c) },
    )
}

/// Every page's chapter number appears among the chapter numbers.
pub proof fn lemma_chapter_numbers_complete(s: Seq<PageView>, i: int)
    requires
        0 <= i < s.len(),
    ensures
        chapter_numbers(s).contains(s[i].chapter_number),
    decreases s.len(),
{
    let c = s[i].chapter_number;
    if i == s.len() - 1 {
        if !chapter_numbers(s.drop_last()).contains(c) {
            assert(chapter_numbers(s).last() == c);
        }
    } else {
        assert(s.drop_last()[i] == s[i]);
        lemma_chapter_numbers_complete(s.drop_last(), i);
        let rest = chapter_numbers(s.drop_last());
        let j = choose|j: int| 0 <= j < rest.len() && rest[j] == c;
        if !rest.contains(s.last().chapter_number) {
            assert(chapter_numbers(s)[j] == c);
        }
    }
}

/// A chapter number only appears when some page carries it.
proof fn lemma_chapter_numbers_sound(s: Seq<PageView>, c: usize)
    requires
        chapter_numbers(s).contains(c),
    ensures
        exists|i: int| 0 <= i < s.len() && s[i].chapter_number == c,
    decreases s.len(),
{
    if s.len() > 0 {
        let rest = chapter_numbers(s.drop_last());
        if s.last().chapter_number == c && !rest.contains(c) {
            assert(s[s.len() - 1].chapter_number == c);
        } else {
            if chapter_numbers(s) == rest.push(s.last().chapter_number) {
                let j = choose|j: int|
                    0 <= j < chapter_numbers(s).len() && chapter_numbers(s)[j] == c;
                if j < rest.len() {
                    assert(rest[j] == c);
                } else {
                    assert(s.last().chapter_number == c);
                }
            }
            if rest.contains(c) {
                lemma_chapter_numbers_sound(s.drop_last(), c);
                let i = choose|i: int|
                    0 <= i < s.drop_last().len() && s.drop_last()[i].chapter_number == c;
                assert(s[i].chapter_number == c);
            } else {
                assert(s.last().chapter_number == c);
                assert(s[s.len() - 1].chapter_number == c);
            }
        }
    }
}

/// The chapter numbers are distinct: each appears once.
pub proof fn lemma_chapter_numbers_distinct(s: Seq<PageView>)
    ensures
        forall|k1: int, k2: int|
            0 <= k1 < k2 < chapter_numbers(s).len() ==> chapter_numbers(s)[k1]
                != chapter_numbers(s)[k2],
    decreases s.len(),
{
    if s.len() > 0 {
        lemma_chapter_numbers_distinct(s.drop_last());
        let rest = chapter_numbers(s.drop_last());
        if !rest.contains(s.last().chapter_number) {
            assert forall|k1: int, k2: int|
                0 <= k1 < k2 < chapter_numbers(s).len() implies chapter_numbers(s)[k1]
                != chapter_numbers(s)[k2] by {
                if k2 == rest.len() {
                    assert(!rest.contains(rest[k1]) == false || rest[k1] != s.last().chapter_number);
                }
            }
        }
    }
}

/// A chapter number that appears has at least one page.
proof fn lemma_chapter_nonempty(s: Seq<PageView>, c: usize)
    requires
        chapter_numbers(s).contains(c),
    ensures
        by_chapter(s, c).len() > 0,
{
    lemma_chapter_numbers_sound(s, c);
    let i = choose|i: int| 0 <= i < s.len() && s[i].chapter_number == c;
    lemma_by_chapter_has(s, c, i);
}

/// A page of chapter `c` survives the chapter filter.
proof fn lemma_by_chapter_has(s: Seq<PageView>, c: usize, i: int)
    requires
        0 <= i < s.len(),
        s[i].chapter_number == c,
    ensures
        by_chapter(s, c).len() > 0,
    decreases s.len(),
{
    reveal_with_fuel(Seq::<_>::filter, 2);
    if i == s.len() - 1 {
        assert(by_chapter(s, c) == by_chapter(s.drop_last(), c).push(s.last()));
    } else {
        assert(s.drop_last()[i] == s[i]);
        lemma_by_chapter_has(s.drop_last(), c, i);
    }
}

/// Keeping one chapter keeps the sequence sorted, and keeps any strict
/// upper bound on its page numbers.
proof fn lemma_by_chapter_sorted_bounded(s: Seq<PageView>, c: usize, bound: int)
    requires
        sorted_by_page_number(s),
        forall|i: int| 0 <= i < s.len() ==> s[i].page_number < bound,
    ensures
        sorted_by_page_number(by_chapter(s, c)),
        forall|i: int| 0 <= i < by_chapter(s, c).len() ==> by_chapter(s, c)[i].page_number < bound,
    decreases s.len(),
{
    reveal_with_fuel(Seq::<_>::filter, 2);
    if s.len() > 0 {
        let t = s.drop_last();
        assert(sorted_by_page_number(t));
        assert(forall|i: int| 0 <= i < t.len() ==> t[i].page_number < s.last().page_number);
        lemma_by_chapter_sorted_bounded(t, c, s.last().page_number as int);
        if s.last().chapter_number == c {
            assert(by_chapter(s, c) == by_chapter(t, c).push(s.last()));
        } else {
            assert(by_chapter(s, c) == by_chapter(t, c));
        }
        assert(forall|i: int|
            0 <= i < by_chapter(s, c).len() ==> by_chapter(s, c)[i].page_number < bound);
    }
}

/// Keeping one chapter keeps the sequence sorted.
pub proof fn lemma_by_chapter_sorted(s: Seq<PageView>, c: usize)
    requires
        sorted_by_page_number(s),
    ensures
        sorted_by_page_number(by_chapter(s, c)),
{
    lemma_by_chapter_sorted_bounded(s, c, usize::MAX as int + 1);
}

/// The pages of chapter `chapter_number`, in the order given.
fn filter_chapter(pages: &Vec<Page>, chapter_number: usize) -> (r: Vec<Page>)
    ensures
        r.deep_view() == by_chapter(pages.deep_view(), chapter_number),
{
    let ghost pv = pages.deep_view();
    let mut r: Vec<Page> = Vec::new();
    proof {
        reveal_with_fuel(Seq::<_>::filter, 1);
        assert(r.deep_view() =~= Seq::<PageView>::empty());
        assert(pv.take(0) =~= Seq::<PageView>::empty());
    }
    let mut i: usize = 0;
    while i < pages.len()
        invariant
            pv == pages.deep_view(),
            i <= pv.len(),
            r.deep_view() == by_chapter(pv.take(i as int), chapter_number),
        decreases pv.len() - i,
    {
        let ghost prefix = pv.take(i as int);
        let p = &pages[i];
        if p.chapter_number == chapter_number {
            r.push(p.clone());
            proof {
                reveal_with_fuel(Seq::<_>::filter, 2);
                assert(p@ == pv[i as int]);
                assert(pv.take(i + 1).drop_last() =~= prefix);
                assert(pv.take(i + 1).last() == pv[i as int]);
                assert(by_chapter(pv.take(i + 1), chapter_number) == by_chapter(
                    prefix,
                    chapter_number,
                ).push(pv[i as int]));
                assert(r.deep_view() =~= by_chapter(prefix, chapter_number).push(pv[i as int]));
            }
        } else {
            proof {
                reveal_with_fuel(Seq::<_>::filter, 2);
                assert(p@ == pv[i as int]);
                assert(pv.take(i + 1).drop_last() =~= prefix);
                assert(pv.take(i + 1).last() == pv[i as int]);
                assert(by_chapter(pv.take(i + 1), chapter_number) == by_chapter(
                    prefix,
                    chapter_number,
                ));
            }
        }
        i = i + 1;
    }
    proof {
        assert(pv.take(pv.len() as int) =~= pv);
    }
    r
}

/// Whether a number is among those collected so far.
fn contains_number(v: &Vec<usize>, n: usize) -> (r: bool)
    ensures
        r == v@.contains(n),
{
    let mut i: usize = 0;
    while i < v.len()
        invariant
            i <= v@.len(),
            forall|j: int| 0 <= j < i ==> v@[j] != n,
        decreases v@.len() - i,
    {
        if v[i] == n {
            return true;
        }
        i = i + 1;
    }
    false
}

impl Chapter {
    /// Materializes the chapter with the given number from the published
    /// pages: its pages sorted by ascending page number, or nothing when no
    /// published page carries that chapter number.
    pub fn get(store: &PageStore, chapter_number: usize) -> (r: Option<Chapter>)
        requires
            store.wf(),
        ensures
            match r {
                Some(c) => c.chapter_number == chapter_number && c@.pages == by_chapter(
                    store.published_views(),
                    chapter_number,
                ) && c@.pages.len() > 0 && sorted_by_page_number(c@.pages),
                None => by_chapter(store.published_views(), chapter_number).len() == 0,
            },
    {
        let published = Page::get_all_published(store);
        let pages = filter_chapter(&published, chapter_number);
        proof {
            lemma_by_chapter_sorted(store.published_views(), chapter_number);
        }
        if pages.len() == 0 {
            None
        } else {
            Some(Chapter { chapter_number, pages })
        }
    }

    /// Materializes every chapter from the published pages: one chapter per
    /// chapter number that appears, in order of first appearance by
    /// ascending page number, each with every published page of its number.
    pub fn get_all(store: &PageStore) -> (r: Vec<Chapter>)
        requires
            store.wf(),
        ensures
            r.deep_view() == chapters_of(store.published_views()),
            forall|k: int| 0 <= k < r@.len() ==> (#[trigger] r.deep_view()[k]).pages.len() > 0,
            forall|k: int|
                0 <= k < r@.len() ==> sorted_by_page_number((#[trigger] r.deep_view()[k]).pages),
            forall|k1: int, k2: int|
                0 <= k1 < k2 < r@.len() ==> r.deep_view()[k1].chapter_number
                    != r.deep_view()[k2].chapter_number,
    {
        let published = Page::get_all_published(store);
        let ghost pv = store.published_views();

        let mut keys: Vec<usize> = Vec::new();
        proof {
            assert(pv.take(0) =~= Seq::<PageView>::empty());
            assert(keys@ =~= chapter_numbers(pv.take(0)));
        }
        let mut i: usize = 0;
        while i < published.len()
            invariant
                pv == store.published_views(),
                published.deep_view() == pv,
                i <= pv.len(),
                keys@ == chapter_numbers(pv.take(i as int)),
            decreases pv.len() - i,
        {
            let ghost prefix = pv.take(i as int);
            let c = published[i].chapter_number;
            proof {
                assert(published[i as int]@ == pv[i as int]);
                assert(pv.take(i + 1).drop_last() =~= prefix);
                assert(pv.take(i + 1).last() == pv[i as int]);
            }
            if !contains_number(&keys, c) {
                keys.push(c);
            }
            i = i + 1;
        }
        proof {
            assert(pv.take(pv.len() as int) =~= pv);
        }

        let mut out: Vec<Chapter> = Vec::new();
        let mut k: usize = 0;
        while k < keys.len()
            invariant
                pv == store.published_views(),
                published.deep_view() == pv,
                keys@ == chapter_numbers(pv),
                k <= keys@.len(),
                out@.len() == k,
                forall|j: int|
                    0 <= j < k ==> (#[trigger] out.deep_view()[j]).chapter_number == keys@[j],
                forall|j: int| 0 <= j < k ==> (#[trigger] out.deep_view()[j]).pages == by_chapter(
                    pv,
                    keys@[j],
                ),
            decreases keys@.len() - k,
        {
            let c = keys[k];
            let pages = filter_chapter(&published, c);
            let ghost chv = ChapterView { chapter_number: c, pages: pages.deep_view() };
            let ghost old_dv = out.deep_view();
            out.push(Chapter { chapter_number: c, pages });
            proof {
                assert(out.deep_view() =~= old_dv.push(chv));
            }
            k = k + 1;
        }
        proof {
            assert(out.deep_view() =~= chapters_of(pv));
            lemma_chapter_numbers_distinct(pv);
            assert forall|j: int| 0 <= j < out@.len() implies (#[trigger] out.deep_view()[j]).pages.len()
                > 0 by {
                assert(keys@.contains(keys@[j]));
                lemma_chapter_nonempty(pv, keys@[j]);
            }
            assert forall|j: int| 0 <= j < out@.len() implies sorted_by_page_number(
                (#[trigger] out.deep_view()[j]).pages,
            ) by {
                lemma_by_chapter_sorted(pv, keys@[j]);
            }
        }
        out
    }
}

} // verus!

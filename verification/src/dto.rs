//! Externally visible representations of pages and chapters.
//!
//! A response carries a fully qualified image URL computed from the
//! configured asset-host identifier and the page's image reference, with a
//! display-variant suffix, rather than exposing the image reference itself:
//! the image host can change without breaking consumers.

use vstd::prelude::*;

use crate::chapter::{Chapter, ChapterView};
use crate::page::{Page, PageView, PublishedStatus};

verus! {

/// The display variant every response asks the image host for.
pub const IMAGE_VARIANT: &'static str = "format=webp";

/// The delivery URL of an image: host, account hash, image reference and
/// display variant.
pub open spec fn image_url_view(
    account_hash: Seq<char>,
    image_id: Seq<char>,
    variant: Seq<char>,
) -> Seq<char> {
    "https://imagedelivery.net/"@ + account_hash + "/"@ + image_id + "/"@ + variant
}

/// The mathematical value of a page response.
#[verifier::ext_equal]
pub ghost struct PageResponseView {
    pub page_number: usize,
    pub chapter_number: usize,
    pub image_url: Seq<char>,
    pub name: Seq<char>,
    pub published_at: Option<i64>,
}

/// The externally visible representation of a page.
#[derive(Debug, PartialEq)]
pub struct PageResponse {
    pub page_number: usize,
    pub chapter_number: usize,
    pub image_url: String,
    pub name: String,
    pub published_at: Option<i64>,
}

impl View for PageResponse {
    type V = PageResponseView;

    open spec fn view(&self) -> PageResponseView {
        PageResponseView {
            page_number: self.page_number,
            chapter_number: self.chapter_number,
            image_url: self.image_url@,
            name: self.name@,
            published_at: self.published_at,
        }
    }
}

impl DeepView for PageResponse {
    type V = PageResponseView;

    open spec fn deep_view(&self) -> PageResponseView {
        self.view()
    }
}

/// The response a page value maps to, under an account hash and a variant.
pub open spec fn response_view(
    p: PageView,
    account_hash: Seq<char>,
    variant: Seq<char>,
) -> PageResponseView {
    PageResponseView {
        page_number: p.page_number,
        chapter_number: p.chapter_number,
        image_url: image_url_view(account_hash, p.image_id, variant),
        name: p.name,
        published_at: p.published_at,
    }
}

/// The responses a sequence of page values maps to, in order.
pub open spec fn responses_view(
    s: Seq<PageView>,
    account_hash: Seq<char>,
    variant: Seq<char>,
) -> Seq<PageResponseView> {
    s.map_values(|p: PageView| response_view(p, account_hash, variant))
}

/// The mathematical value of a chapter response.
#[verifier::ext_equal]
pub ghost struct ChapterResponseView {
    pub chapter_number: usize,
    pub pages: Seq<PageResponseView>,
}

/// The externally visible representation of a chapter.
#[derive(Debug, PartialEq)]
pub struct ChapterResponse {
    pub chapter_number: usize,
    pub pages: Vec<PageResponse>,
}

impl View for ChapterResponse {
    type V = ChapterResponseView;

    open spec fn view(&self) -> ChapterResponseView {
        ChapterResponseView {
            chapter_number: self.chapter_number,
            pages: self.pages.deep_view(),
        }
    }
}

impl DeepView for ChapterResponse {
    type V = ChapterResponseView;

    open spec fn deep_view(&self) -> ChapterResponseView {
        self.view()
    }
}

/// The response a chapter value maps to.
pub open spec fn chapter_response_view(
    c: ChapterView,
    account_hash: Seq<char>,
    variant: Seq<char>,
) -> ChapterResponseView {
    ChapterResponseView {
        chapter_number: c.chapter_number,
        pages: responses_view(c.pages, account_hash, variant),
    }
}

impl Page {
    /// The delivery URL of this page's image, for one display variant.
    pub fn image_url(&self, account_hash: &str, variant: &str) -> (r: String)
        ensures
            r@ == image_url_view(account_hash@, self@.image_id, variant@),
    {
        let mut url: String = "https://imagedelivery.net/".to_owned();
        url.append(account_hash);
        url.append("/");
        url.append(self.image_id.as_str());
        url.append("/");
        url.append(variant);
        proof {
            assert(url@ =~= image_url_view(account_hash@, self@.image_id, variant@));
        }
        url
    }

    /// Maps the page to its externally visible representation.
    pub fn to_response(&self, account_hash: &str) -> (r: PageResponse)
        ensures
            r@ == response_view(self@, account_hash@, IMAGE_VARIANT@),
    {
        PageResponse {
            page_number: self.page_number,
            chapter_number: self.chapter_number,
            image_url: self.image_url(account_hash, IMAGE_VARIANT),
            name: self.name.clone(),
            published_at: match self.published_status {
                PublishedStatus::PublishedAt(t) => Some(t),
                PublishedStatus::Draft => None,
            },
        }
    }
}

/// Maps pages to their externally visible representations, in order.
pub fn pages_to_responses(pages: &Vec<Page>, account_hash: &str) -> (r: Vec<PageResponse>)
    ensures
        r.deep_view() == responses_view(pages.deep_view(), account_hash@, IMAGE_VARIANT@),
{
    let ghost pv = pages.deep_view();
    let mut r: Vec<PageResponse> = Vec::new();
    proof {
        assert(r.deep_view() =~= responses_view(pv.take(0), account_hash@, IMAGE_VARIANT@));
    }
    let mut i: usize = 0;
    while i < pages.len()
        invariant
            pv == pages.deep_view(),
            i <= pv.len(),
            r.deep_view() == responses_view(pv.take(i as int), account_hash@, IMAGE_VARIANT@),
        decreases pv.len() - i,
    {
        let resp = pages[i].to_response(account_hash);
        let ghost prev = r.deep_view();
        r.push(resp);
        proof {
            assert(pages[i as int]@ == pv[i as int]);
            assert(resp@ == response_view(pv[i as int], account_hash@, IMAGE_VARIANT@));
            assert(r.deep_view() =~= prev.push(resp@));
            let ghost t = responses_view(pv.take(i + 1), account_hash@, IMAGE_VARIANT@);
            assert(t.len() == i + 1);
            assert forall|j: int| 0 <= j < i + 1 implies r.deep_view()[j] == t[j] by {
                assert(t[j] == response_view(pv.take(i + 1)[j], account_hash@, IMAGE_VARIANT@));
                assert(pv.take(i + 1)[j] == pv[j]);
                if j < i {
                    assert(r.deep_view()[j] == prev[j]);
                    assert(prev[j] == response_view(pv.take(i as int)[j], account_hash@, IMAGE_VARIANT@));
                }
            }
            assert(r.deep_view() =~= t);
        }
        i = i + 1;
    }
    proof {
        assert(pv.take(pv.len() as int) =~= pv);
    }
    r
}

impl Chapter {
    /// Maps the chapter to its externally visible representation.
    pub fn to_response(&self, account_hash: &str) -> (r: ChapterResponse)
        ensures
            r@ == chapter_response_view(self@, account_hash@, IMAGE_VARIANT@),
    {
        let pages = pages_to_responses(&self.pages, account_hash);
        ChapterResponse { chapter_number: self.chapter_number, pages }
    }
}

/// Maps chapters to their externally visible representations, in order.
pub fn chapters_to_responses(chapters: &Vec<Chapter>, account_hash: &str) -> (r: Vec<
    ChapterResponse,
>)
    ensures
        r.deep_view() == chapters.deep_view().map_values(
            |c: ChapterView| chapter_response_view(c, account_hash@, IMAGE_VARIANT@),
        ),
{
    let ghost cv = chapters.deep_view();
    let mut r: Vec<ChapterResponse> = Vec::new();
    let mut i: usize = 0;
    while i < chapters.len()
        invariant
            cv == chapters.deep_view(),
            i <= cv.len(),
            r.deep_view().len() == i,
            forall|j: int|
                0 <= j < i ==> r.deep_view()[j] == chapter_response_view(
                    cv[j],
                    account_hash@,
                    IMAGE_VARIANT@,
                ),
        decreases cv.len() - i,
    {
        let resp = chapters[i].to_response(account_hash);
        let ghost prev = r.deep_view();
        r.push(resp);
        proof {
            assert(chapters[i as int]@ == cv[i as int]);
            assert(resp@ == chapter_response_view(cv[i as int], account_hash@, IMAGE_VARIANT@));
            assert(r.deep_view() =~= prev.push(resp@));
        }
        i = i + 1;
    }
    proof {
        assert(r.deep_view() =~= chapters.deep_view().map_values(
            |c: ChapterView| chapter_response_view(c, account_hash@, IMAGE_VARIANT@),
        ));
    }
    r
}

} // verus!

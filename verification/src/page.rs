//! The page entity: one unit of content identified by its page number,
//! belonging to a chapter, with an image reference, a display name and a
//! publication state.

use vstd::prelude::*;

use crate::text::{dec_digits, usize_to_string};

verus! {

/// The storage key a page number maps to.
pub open spec fn page_key_view(page_number: nat) -> Seq<char> {
    "page-"@ + dec_digits(page_number)
}

/// Publication state of a page: a draft is invisible to public reads, a
/// published page carries the timestamp (milliseconds since the Unix epoch)
/// of the moment it was last published.
#[derive(Clone, Copy, Debug, PartialEq, Eq, Structural)]
pub enum PublishedStatus {
    Draft,
    PublishedAt(i64),
}

impl View for PublishedStatus {
    type V = Option<i64>;

    open spec fn view(&self) -> Option<i64> {
        match *self {
            PublishedStatus::Draft => None,
            PublishedStatus::PublishedAt(t) => Some(t),
        }
    }
}

impl DeepView for PublishedStatus {
    type V = Option<i64>;

    open spec fn deep_view(&self) -> Option<i64> {
        self.view()
    }
}

/// The mathematical value of a page: its fields as plain sequences and
/// numbers, with `published_at` as `Some(timestamp)` or `None` for a draft.
#[verifier::ext_equal]
pub ghost struct PageView {
    pub page_number: usize,
    pub chapter_number: usize,
    pub image_id: Seq<char>,
    pub name: Seq<char>,
    pub published_at: Option<i64>,
}

/// One stored unit of content. `page_number` is the sole identity key.
#[derive(Debug, PartialEq)]
pub struct Page {
    pub page_number: usize,
    pub chapter_number: usize,
    pub image_id: String,
    pub name: String,
    pub published_status: PublishedStatus,
}

impl View for Page {
    type V = PageView;

    open spec fn view(&self) -> PageView {
        PageView {
            page_number: self.page_number,
            chapter_number: self.chapter_number,
            image_id: self.image_id@,
            name: self.name@,
            published_at: self.published_status@,
        }
    }
}

impl DeepView for Page {
    type V = PageView;

    open spec fn deep_view(&self) -> PageView {
        self.view()
    }
}

impl Clone for Page {
    fn clone(&self) -> (res: Self)
        ensures
            res@ == self@,
    {
        Page {
            page_number: self.page_number,
            chapter_number: self.chapter_number,
            image_id: self.image_id.clone(),
            name: self.name.clone(),
            published_status: self.published_status,
        }
    }
}

impl Page {
    /// Whether the page is visible to public reads.
    pub fn is_published(&self) -> (r: bool)
        ensures
            r == (self@.published_at is Some),
    {
        match self.published_status {
            PublishedStatus::PublishedAt(_) => true,
            PublishedStatus::Draft => false,
        }
    }

    /// The storage key of this page: `page-` followed by its number.
    pub fn key(&self) -> (r: String)
        ensures
            r@ == page_key_view(self.page_number as nat),
    {
        let mut key: String = "page-".to_owned();
        let digits = usize_to_string(self.page_number);
        key.append(digits.as_str());
        key
    }
}

/// The request body of an upsert: every field of a page except the
/// publication state, which a fresh record starts without.
#[derive(Debug, PartialEq)]
pub struct CreatePage {
    pub page_number: usize,
    pub chapter_number: usize,
    pub image_id: String,
    pub name: String,
}

impl CreatePage {
    /// The page value this request denotes: the given fields, in draft state.
    pub open spec fn page_view(&self) -> PageView {
        PageView {
            page_number: self.page_number,
            chapter_number: self.chapter_number,
            image_id: self.image_id@,
            name: self.name@,
            published_at: None,
        }
    }
}

impl Clone for CreatePage {
    fn clone(&self) -> (res: Self)
        ensures
            res.page_view() == self.page_view(),
            res.page_number == self.page_number,
    {
        CreatePage {
            page_number: self.page_number,
            chapter_number: self.chapter_number,
            image_id: self.image_id.clone(),
            name: self.name.clone(),
        }
    }
}

impl From<CreatePage> for Page {
    fn from(create_page: CreatePage) -> (r: Self) {
        Page {
            page_number: create_page.page_number,
            chapter_number: create_page.chapter_number,
            image_id: create_page.image_id,
            name: create_page.name,
            published_status: PublishedStatus::Draft,
        }
    }
}

impl vstd::std_specs::convert::FromSpecImpl<CreatePage> for Page {
    open spec fn obeys_from_spec() -> bool {
        true
    }

    open spec fn from_spec(v: CreatePage) -> Self {
        Page {
            page_number: v.page_number,
            chapter_number: v.chapter_number,
            image_id: v.image_id,
            name: v.name,
            published_status: PublishedStatus::Draft,
        }
    }
}

} // verus!

//! The route layer: maps each parsed request to a domain operation and a
//! response, enforcing the credential check on every mutating request
//! before anything is touched.

use vstd::prelude::*;

use crate::auth::{auth_decision, check_authorisation, header_view, AuthError};
use crate::chapter::{by_chapter, chapters_of, Chapter, ChapterView};
use crate::dto::{
    chapter_response_view, chapters_to_responses, pages_to_responses, response_view,
    responses_view, ChapterResponse, PageResponse, IMAGE_VARIANT,
};
use crate::page::{CreatePage, Page, PublishedStatus};
use crate::store::{with_published, PageStore};

verus! {

/// The configuration collected once at startup: the credential that mutating
/// requests must present, and the asset-host identifier that image URLs are
/// built from.
pub struct Config {
    pub api_token: String,
    pub account_hash: String,
}

/// A request, parsed: the path, and the body as plain values.
#[derive(Debug, PartialEq)]
pub enum ApiRequest {
    /// `GET /`
    Root,
    /// `GET /page`
    ListPages,
    /// `GET /page/:number`
    GetPage(usize),
    /// `GET /chapter`
    ListChapters,
    /// `GET /chapter/:number`
    GetChapter(usize),
    /// `PUT /page`
    UpsertPage(CreatePage),
    /// `POST /page/:number/publish`
    PublishPage(usize),
    /// `DELETE /page/:number`
    DeletePage(usize),
}

impl ApiRequest {
    /// Whether the request writes: only these require the credential.
    pub open spec fn is_mutating(self) -> bool {
        self is UpsertPage || self is PublishPage || self is DeletePage
    }
}

/// What the route layer answers.
#[derive(Debug, PartialEq)]
pub enum ApiResponse {
    /// The health banner of the root route.
    Banner(&'static str),
    /// Every published page.
    PageList(Vec<PageResponse>),
    /// One published page.
    PageDetail(PageResponse),
    /// Every chapter with a published page.
    ChapterList(Vec<ChapterResponse>),
    /// One chapter with a published page.
    ChapterDetail(ChapterResponse),
    /// The record an upsert stored.
    Created(PageResponse),
    /// The record a publish updated.
    Published(PageResponse),
    /// The page number a delete was asked for, present or not.
    Deleted(usize),
    /// The page or chapter asked for does not exist for public reads.
    NotFound,
    /// The page exists but is a draft, invisible to public reads.
    DraftForbidden,
    /// A mutating request without a valid credential; nothing was changed.
    Unauthorized(AuthError),
}

impl ApiResponse {
    /// The HTTP status the response is served with.
    pub open spec fn spec_status_code(self) -> u16 {
        match self {
            ApiResponse::Banner(_) => 200,
            ApiResponse::PageList(_) => 200,
            ApiResponse::PageDetail(_) => 200,
            ApiResponse::ChapterList(_) => 200,
            ApiResponse::ChapterDetail(_) => 200,
            ApiResponse::Created(_) => 201,
            ApiResponse::Published(_) => 200,
            ApiResponse::Deleted(_) => 200,
            ApiResponse::NotFound => 404,
            ApiResponse::DraftForbidden => 403,
            ApiResponse::Unauthorized(_) => 403,
        }
    }

    /// The HTTP status the response is served with.
    pub fn status_code(&self) -> (r: u16)
        ensures
            r == self.spec_status_code(),
    {
        match self {
            ApiResponse::Banner(_) => 200,
            ApiResponse::PageList(_) => 200,
            ApiResponse::PageDetail(_) => 200,
            ApiResponse::ChapterList(_) => 200,
            ApiResponse::ChapterDetail(_) => 200,
            ApiResponse::Created(_) => 201,
            ApiResponse::Published(_) => 200,
            ApiResponse::Deleted(_) => 200,
            ApiResponse::NotFound => 404,
            ApiResponse::DraftForbidden => 403,
            ApiResponse::Unauthorized(_) => 403,
        }
    }
}

/// The banner of the root route.
pub const BANNER: &'static str = "Solar and Sundry Api\n";

/// What one request does: how the store after relates to the store before,
/// and what the response holds, for a given credential decision and clock
/// reading. A mutating request with a refused credential changes nothing.
pub open spec fn request_outcome(
    pre: PageStore,
    post: PageStore,
    auth: Option<Seq<char>>,
    secret: Seq<char>,
    account_hash: Seq<char>,
    now: i64,
    request: ApiRequest,
    r: ApiResponse,
) -> bool {
    if request.is_mutating() && auth_decision(auth, secret) is Err {
        &&& post@ == pre@
        &&& auth_decision(auth, secret) matches Err(e) && r == ApiResponse::Unauthorized(e)
    } else {
        match request {
            ApiRequest::Root => {
                &&& post@ == pre@
                &&& r matches ApiResponse::Banner(b) && b@ == BANNER@
            },
            ApiRequest::ListPages => {
                &&& post@ == pre@
                &&& r matches ApiResponse::PageList(l) && l.deep_view() == responses_view(
                    pre.published_views(),
                    account_hash,
                    IMAGE_VARIANT@,
                )
            },
            ApiRequest::GetPage(n) => {
                &&& post@ == pre@
                &&& if !pre.as_map().contains_key(n) {
                    r == ApiResponse::NotFound
                } else if pre.as_map()[n].published_at is None {
                    r == ApiResponse::DraftForbidden
                } else {
                    r matches ApiResponse::PageDetail(p) && p@ == response_view(
                        pre.as_map()[n],
                        account_hash,
                        IMAGE_VARIANT@,
                    )
                }
            },
            ApiRequest::ListChapters => {
                &&& post@ == pre@
                &&& r matches ApiResponse::ChapterList(l) && l.deep_view().len() == chapters_of(
                    pre.published_views(),
                ).len() && forall|k: int|
                    0 <= k < l.deep_view().len() ==> l.deep_view()[k] == chapter_response_view(
                        #[trigger] chapters_of(pre.published_views())[k],
                        account_hash,
                        IMAGE_VARIANT@,
                    )
            },
            ApiRequest::GetChapter(n) => {
                &&& post@ == pre@
                &&& if by_chapter(pre.published_views(), n).len() == 0 {
                    r == ApiResponse::NotFound
                } else {
                    r matches ApiResponse::ChapterDetail(c) && c@ == chapter_response_view(
                        ChapterView {
                            chapter_number: n,
                            pages: by_chapter(pre.published_views(), n),
                        },
                        account_hash,
                        IMAGE_VARIANT@,
                    )
                }
            },
            ApiRequest::UpsertPage(cp) => {
                &&& post.as_map() == pre.as_map().insert(cp.page_number, cp.page_view())
                &&& r matches ApiResponse::Created(p) && p@ == response_view(
                    cp.page_view(),
                    account_hash,
                    IMAGE_VARIANT@,
                )
            },
            ApiRequest::PublishPage(n) => {
                if pre.as_map().contains_key(n) {
                    &&& post.as_map() == pre.as_map().insert(
                        n,
                        with_published(pre.as_map()[n], true, now),
                    )
                    &&& r matches ApiResponse::Published(p) && p@ == response_view(
                        with_published(pre.as_map()[n], true, now),
                        account_hash,
                        IMAGE_VARIANT@,
                    )
                } else {
                    post@ == pre@ && r == ApiResponse::NotFound
                }
            },
            ApiRequest::DeletePage(n) => {
                &&& post.as_map() == pre.as_map().remove(n)
                &&& !pre.as_map().contains_key(n) ==> post@ == pre@
                &&& r == ApiResponse::Deleted(n)
            },
        }
    }
}

/// Serves one request against the store, under the configured credential
/// and asset host, with `now` as the clock reading a publish stamps.
pub fn handle_request(
    store: &mut PageStore,
    config: &Config,
    auth_header: Option<&str>,
    now: i64,
    request: ApiRequest,
) -> (r: ApiResponse)
    requires
        old(store).wf(),
    ensures
        final(store).wf(),
        request_outcome(
            *old(store),
            *final(store),
            header_view(auth_header),
            config.api_token@,
            config.account_hash@,
            now,
            request,
            r,
        ),
{
    let mutating = matches!(
        &request,
        ApiRequest::UpsertPage(_) | ApiRequest::PublishPage(_) | ApiRequest::DeletePage(_)
    );
    if mutating {
        if let Err(e) = check_authorisation(auth_header, config.api_token.as_str()) {
            return ApiResponse::Unauthorized(e);
        }
    }

    match request {
        ApiRequest::Root => ApiResponse::Banner(BANNER),
        ApiRequest::ListPages => {
            let pages = Page::get_all_published(store);
            ApiResponse::PageList(pages_to_responses(&pages, config.account_hash.as_str()))
        },
        ApiRequest::GetPage(n) => {
            match Page::get_by_number(store, n) {
                None => ApiResponse::NotFound,
                Some(p) => {
                    if p.is_published() {
                        ApiResponse::PageDetail(p.to_response(config.account_hash.as_str()))
                    } else {
                        ApiResponse::DraftForbidden
                    }
                },
            }
        },
        ApiRequest::ListChapters => {
            let chapters = Chapter::get_all(store);
            ApiResponse::ChapterList(
                chapters_to_responses(&chapters, config.account_hash.as_str()),
            )
        },
        ApiRequest::GetChapter(n) => {
            match Chapter::get(store, n) {
                None => ApiResponse::NotFound,
                Some(c) => {
                    ApiResponse::ChapterDetail(c.to_response(config.account_hash.as_str()))
                },
            }
        },
        ApiRequest::UpsertPage(create_page) => {
            let page = Page::from(create_page);
            let response = page.to_response(config.account_hash.as_str());
            Page::upsert(store, page);
            ApiResponse::Created(response)
        },
        ApiRequest::PublishPage(n) => {
            match Page::get_by_number(store, n) {
                None => ApiResponse::NotFound,
                Some(mut p) => {
                    Page::set_published(store, n, true, now);
                    p.published_status = PublishedStatus::PublishedAt(now);
                    ApiResponse::Published(p.to_response(config.account_hash.as_str()))
                },
            }
        },
        ApiRequest::DeletePage(n) => {
            Page::delete(store, n);
            ApiResponse::Deleted(n)
        },
    }
}

/// Serves one request, reading the clock for the time a publish stamps.
/// The clock's value is not assumed: the outcome holds for whatever time
/// the host answered.
pub fn handle_request_now(
    store: &mut PageStore,
    config: &Config,
    auth_header: Option<&str>,
    request: ApiRequest,
) -> (r: ApiResponse)
    requires
        old(store).wf(),
    ensures
        final(store).wf(),
        exists|now: i64|
            request_outcome(
                *old(store),
                *final(store),
                header_view(auth_header),
                config.api_token@,
                config.account_hash@,
                now,
                request,
                r,
            ),
{
    let now = crate::clock::now_millis();
    handle_request(store, config, auth_header, now, request)
}

} // verus!

use solar_and_sundry::page::{CreatePage, Page, PublishedStatus};
use solar_and_sundry::routes::{handle_request, handle_request_now, ApiRequest, ApiResponse, Config};
use solar_and_sundry::store::PageStore;

fn config() -> Config {
    Config {
        api_token: "s3cret".to_owned(),
        account_hash: "HASH".to_owned(),
    }
}

const GOOD_AUTH: Option<&str> = Some("Bearer s3cret");

fn create_page(number: usize, chapter: usize, image: &str, name: &str) -> CreatePage {
    CreatePage {
        page_number: number,
        chapter_number: chapter,
        image_id: image.to_owned(),
        name: name.to_owned(),
    }
}

fn listed_numbers(store: &mut PageStore, config: &Config) -> Vec<usize> {
    match handle_request(store, config, None, 0, ApiRequest::ListPages) {
        ApiResponse::PageList(pages) => pages.iter().map(|p| p.page_number).collect(),
        other => panic!("expected a page list, got {:?}", other),
    }
}

#[test]
fn mutating_without_credential_is_refused_and_changes_nothing() {
    let mut store = PageStore::new();
    let config = config();
    for auth in [None, Some("Bearer wrong"), Some("Basic s3cret"), Some("nonsense")] {
        let r = handle_request(
            &mut store,
            &config,
            auth,
            0,
            ApiRequest::UpsertPage(create_page(1, 1, "abc", "Cover")),
        );
        assert!(matches!(r, ApiResponse::Unauthorized(_)));
        assert_eq!(r.status_code(), 403);
    }
    // Nothing was stored: the page is absent even for an authorized read.
    assert!(Page::get_by_number(&store, 1).is_none());
}

#[test]
fn publish_and_delete_without_credential_change_nothing() {
    let mut store = PageStore::new();
    let config = config();
    let r = handle_request(
        &mut store,
        &config,
        GOOD_AUTH,
        0,
        ApiRequest::UpsertPage(create_page(1, 1, "abc", "Cover")),
    );
    assert_eq!(r.status_code(), 201);

    let r = handle_request(&mut store, &config, None, 50, ApiRequest::PublishPage(1));
    assert!(matches!(r, ApiResponse::Unauthorized(_)));
    assert_eq!(
        Page::get_by_number(&store, 1).unwrap().published_status,
        PublishedStatus::Draft
    );

    let r = handle_request(&mut store, &config, Some("Bearer nope"), 0, ApiRequest::DeletePage(1));
    assert!(matches!(r, ApiResponse::Unauthorized(_)));
    assert!(Page::get_by_number(&store, 1).is_some());
}

#[test]
fn reads_need_no_credential() {
    let mut store = PageStore::new();
    let config = config();
    let r = handle_request(&mut store, &config, None, 0, ApiRequest::ListPages);
    assert!(matches!(r, ApiResponse::PageList(_)));
    let r = handle_request(&mut store, &config, None, 0, ApiRequest::ListChapters);
    assert!(matches!(r, ApiResponse::ChapterList(_)));
}

#[test]
fn upsert_publish_then_read_shows_the_page() {
    let mut store = PageStore::new();
    let config = config();

    let r = handle_request(
        &mut store,
        &config,
        GOOD_AUTH,
        0,
        ApiRequest::UpsertPage(create_page(1, 1, "abc", "Cover")),
    );
    assert_eq!(r.status_code(), 201);

    let r = handle_request(&mut store, &config, GOOD_AUTH, 777, ApiRequest::PublishPage(1));
    match &r {
        ApiResponse::Published(p) => assert_eq!(p.published_at, Some(777)),
        other => panic!("expected a published page, got {:?}", other),
    }
    assert_eq!(r.status_code(), 200);

    let r = handle_request(&mut store, &config, None, 0, ApiRequest::GetPage(1));
    assert_eq!(r.status_code(), 200);
    match r {
        ApiResponse::PageDetail(p) => {
            assert_eq!(p.page_number, 1);
            assert_eq!(p.name, "Cover");
            assert_eq!(p.image_url, "https://imagedelivery.net/HASH/abc/format=webp");
            assert!(p.published_at.is_some());
        },
        other => panic!("expected a page, got {:?}", other),
    }

    assert_eq!(listed_numbers(&mut store, &config), vec![1]);
}

#[test]
fn chapter_read_groups_published_pages_in_order() {
    let mut store = PageStore::new();
    let config = config();
    for (number, image) in [(1, "a"), (2, "b")] {
        handle_request(
            &mut store,
            &config,
            GOOD_AUTH,
            0,
            ApiRequest::UpsertPage(create_page(number, 1, image, "p")),
        );
        handle_request(&mut store, &config, GOOD_AUTH, 10, ApiRequest::PublishPage(number));
    }
    let r = handle_request(&mut store, &config, None, 0, ApiRequest::GetChapter(1));
    match r {
        ApiResponse::ChapterDetail(c) => {
            assert_eq!(c.chapter_number, 1);
            let numbers: Vec<usize> = c.pages.iter().map(|p| p.page_number).collect();
            assert_eq!(numbers, vec![1, 2]);
        },
        other => panic!("expected one chapter, got {:?}", other),
    }
}

#[test]
fn reading_a_never_created_page_is_not_found() {
    let mut store = PageStore::new();
    let config = config();
    let r = handle_request(&mut store, &config, None, 0, ApiRequest::GetPage(999));
    assert_eq!(r, ApiResponse::NotFound);
    assert_eq!(r.status_code(), 404);
}

#[test]
fn reading_a_draft_page_is_forbidden() {
    let mut store = PageStore::new();
    let config = config();
    handle_request(
        &mut store,
        &config,
        GOOD_AUTH,
        0,
        ApiRequest::UpsertPage(create_page(1, 1, "abc", "Cover")),
    );
    let r = handle_request(&mut store, &config, None, 0, ApiRequest::GetPage(1));
    assert_eq!(r, ApiResponse::DraftForbidden);
    assert_eq!(r.status_code(), 403);
}

#[test]
fn reading_an_absent_chapter_is_not_found() {
    let mut store = PageStore::new();
    let config = config();
    let r = handle_request(&mut store, &config, None, 0, ApiRequest::GetChapter(9));
    assert_eq!(r, ApiResponse::NotFound);
}

#[test]
fn publishing_an_absent_page_is_not_found_and_changes_nothing() {
    let mut store = PageStore::new();
    let config = config();
    let r = handle_request(&mut store, &config, GOOD_AUTH, 5, ApiRequest::PublishPage(4));
    assert_eq!(r, ApiResponse::NotFound);
    assert!(listed_numbers(&mut store, &config).is_empty());
}

#[test]
fn deleting_is_idempotent_at_the_route() {
    let mut store = PageStore::new();
    let config = config();
    handle_request(
        &mut store,
        &config,
        GOOD_AUTH,
        0,
        ApiRequest::UpsertPage(create_page(1, 1, "abc", "Cover")),
    );
    let r = handle_request(&mut store, &config, GOOD_AUTH, 0, ApiRequest::DeletePage(1));
    assert_eq!(r, ApiResponse::Deleted(1));
    assert_eq!(r.status_code(), 200);
    let r = handle_request(&mut store, &config, GOOD_AUTH, 0, ApiRequest::DeletePage(1));
    assert_eq!(r, ApiResponse::Deleted(1));
}

#[test]
fn root_answers_the_banner() {
    let mut store = PageStore::new();
    let config = config();
    let r = handle_request(&mut store, &config, None, 0, ApiRequest::Root);
    assert_eq!(r, ApiResponse::Banner("Solar and Sundry Api\n"));
    assert_eq!(r.status_code(), 200);
}

#[test]
fn publishing_with_the_clock_stamps_a_timestamp() {
    let mut store = PageStore::new();
    let config = config();
    handle_request_now(
        &mut store,
        &config,
        GOOD_AUTH,
        ApiRequest::UpsertPage(create_page(1, 1, "abc", "Cover")),
    );
    let r = handle_request_now(&mut store, &config, GOOD_AUTH, ApiRequest::PublishPage(1));
    match r {
        ApiResponse::Published(p) => {
            // The clock read some real moment well after the Unix epoch.
            assert!(p.published_at.unwrap() > 0);
        },
        other => panic!("expected a published page, got {:?}", other),
    }
}

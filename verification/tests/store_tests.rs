use solar_and_sundry::page::{CreatePage, Page, PublishedStatus};
use solar_and_sundry::store::PageStore;
use solar_and_sundry::text::usize_to_string;

fn page(number: usize, chapter: usize, image: &str, name: &str) -> Page {
    Page {
        page_number: number,
        chapter_number: chapter,
        image_id: image.to_owned(),
        name: name.to_owned(),
        published_status: PublishedStatus::Draft,
    }
}

#[test]
fn upsert_then_get_by_number_returns_the_record() {
    let mut store = PageStore::new();
    Page::upsert(&mut store, page(1, 1, "abc", "Cover"));
    let got = Page::get_by_number(&store, 1).unwrap();
    assert_eq!(got.page_number, 1);
    assert_eq!(got.chapter_number, 1);
    assert_eq!(got.image_id, "abc");
    assert_eq!(got.name, "Cover");
    assert_eq!(got.published_status, PublishedStatus::Draft);
}

#[test]
fn drafts_are_invisible_to_public_get() {
    let mut store = PageStore::new();
    Page::upsert(&mut store, page(1, 1, "abc", "Cover"));
    assert!(Page::get(&store, 1).is_none());
    Page::set_published(&mut store, 1, true, 1000);
    assert!(Page::get(&store, 1).is_some());
}

#[test]
fn upsert_twice_is_idempotent() {
    let mut store = PageStore::new();
    Page::upsert(&mut store, page(3, 2, "img", "Three"));
    let first = Page::get_by_number(&store, 3).unwrap();
    Page::upsert(&mut store, page(3, 2, "img", "Three"));
    let second = Page::get_by_number(&store, 3).unwrap();
    assert_eq!(first, second);
}

#[test]
fn upsert_replaces_every_field() {
    let mut store = PageStore::new();
    Page::upsert(&mut store, page(1, 1, "abc", "Cover"));
    Page::set_published(&mut store, 1, true, 500);
    // A full-field replace overwrites the publication state too.
    Page::upsert(&mut store, page(1, 7, "xyz", "New cover"));
    let got = Page::get_by_number(&store, 1).unwrap();
    assert_eq!(got.chapter_number, 7);
    assert_eq!(got.image_id, "xyz");
    assert_eq!(got.name, "New cover");
    assert_eq!(got.published_status, PublishedStatus::Draft);
}

#[test]
fn publishing_stamps_and_unpublishing_clears() {
    let mut store = PageStore::new();
    Page::upsert(&mut store, page(1, 1, "abc", "Cover"));
    Page::set_published(&mut store, 1, true, 12345);
    assert_eq!(
        Page::get_by_number(&store, 1).unwrap().published_status,
        PublishedStatus::PublishedAt(12345)
    );
    Page::set_published(&mut store, 1, false, 99999);
    assert_eq!(
        Page::get_by_number(&store, 1).unwrap().published_status,
        PublishedStatus::Draft
    );
}

#[test]
fn republishing_moves_the_timestamp_forward() {
    let mut store = PageStore::new();
    Page::upsert(&mut store, page(1, 1, "abc", "Cover"));
    Page::set_published(&mut store, 1, true, 100);
    Page::set_published(&mut store, 1, true, 200);
    assert_eq!(
        Page::get_by_number(&store, 1).unwrap().published_status,
        PublishedStatus::PublishedAt(200)
    );
}

#[test]
fn set_published_on_missing_number_changes_nothing() {
    let mut store = PageStore::new();
    Page::upsert(&mut store, page(1, 1, "abc", "Cover"));
    Page::set_published(&mut store, 42, true, 100);
    assert!(Page::get_by_number(&store, 42).is_none());
    assert_eq!(
        Page::get_by_number(&store, 1).unwrap().published_status,
        PublishedStatus::Draft
    );
}

#[test]
fn deleting_a_missing_number_succeeds() {
    let mut store = PageStore::new();
    Page::delete(&mut store, 999);
    Page::upsert(&mut store, page(1, 1, "abc", "Cover"));
    Page::delete(&mut store, 999);
    assert!(Page::get_by_number(&store, 1).is_some());
}

#[test]
fn delete_removes_the_record() {
    let mut store = PageStore::new();
    Page::upsert(&mut store, page(1, 1, "abc", "Cover"));
    Page::delete(&mut store, 1);
    assert!(Page::get_by_number(&store, 1).is_none());
}

#[test]
fn listing_returns_published_pages_sorted_by_page_number() {
    let mut store = PageStore::new();
    Page::upsert(&mut store, page(3, 1, "c", "Three"));
    Page::upsert(&mut store, page(1, 1, "a", "One"));
    Page::upsert(&mut store, page(2, 1, "b", "Two"));
    Page::set_published(&mut store, 1, true, 10);
    Page::set_published(&mut store, 3, true, 30);
    let listed = Page::get_all_published(&store);
    let numbers: Vec<usize> = listed.iter().map(|p| p.page_number).collect();
    assert_eq!(numbers, vec![1, 3]);
}

#[test]
fn listing_an_empty_store_is_empty() {
    let store = PageStore::new();
    assert!(Page::get_all_published(&store).is_empty());
}

#[test]
fn page_key_prefixes_the_number() {
    let p = page(42, 1, "abc", "Cover");
    assert_eq!(p.key(), "page-42");
}

#[test]
fn numbers_render_in_decimal() {
    assert_eq!(usize_to_string(0), "0");
    assert_eq!(usize_to_string(7), "7");
    assert_eq!(usize_to_string(10), "10");
    assert_eq!(usize_to_string(123), "123");
    assert_eq!(usize_to_string(909000), "909000");
    assert_eq!(usize_to_string(usize::MAX), usize::MAX.to_string());
}

#[test]
fn create_page_converts_to_a_draft() {
    let cp = CreatePage {
        page_number: 5,
        chapter_number: 2,
        image_id: "img".to_owned(),
        name: "Five".to_owned(),
    };
    let p = Page::from(cp);
    assert_eq!(p.page_number, 5);
    assert_eq!(p.chapter_number, 2);
    assert_eq!(p.image_id, "img");
    assert_eq!(p.name, "Five");
    assert_eq!(p.published_status, PublishedStatus::Draft);
}

use solar_and_sundry::chapter::Chapter;
use solar_and_sundry::page::{Page, PublishedStatus};
use solar_and_sundry::store::PageStore;

fn published_page(number: usize, chapter: usize, at: i64) -> Page {
    Page {
        page_number: number,
        chapter_number: chapter,
        image_id: format!("img-{}", number),
        name: format!("Page {}", number),
        published_status: PublishedStatus::PublishedAt(at),
    }
}

fn draft_page(number: usize, chapter: usize) -> Page {
    Page {
        page_number: number,
        chapter_number: chapter,
        image_id: format!("img-{}", number),
        name: format!("Page {}", number),
        published_status: PublishedStatus::Draft,
    }
}

#[test]
fn absent_chapter_is_none_not_empty() {
    let mut store = PageStore::new();
    Page::upsert(&mut store, published_page(1, 1, 10));
    assert!(Chapter::get(&store, 2).is_none());
}

#[test]
fn chapter_of_only_drafts_is_none() {
    let mut store = PageStore::new();
    Page::upsert(&mut store, draft_page(1, 1));
    Page::upsert(&mut store, draft_page(2, 1));
    assert!(Chapter::get(&store, 1).is_none());
}

#[test]
fn chapter_pages_are_sorted_ascending() {
    let mut store = PageStore::new();
    Page::upsert(&mut store, published_page(2, 1, 20));
    Page::upsert(&mut store, published_page(1, 1, 10));
    let chapter = Chapter::get(&store, 1).unwrap();
    assert_eq!(chapter.chapter_number, 1);
    let numbers: Vec<usize> = chapter.pages.iter().map(|p| p.page_number).collect();
    assert_eq!(numbers, vec![1, 2]);
}

#[test]
fn drafts_stay_out_of_their_chapter() {
    let mut store = PageStore::new();
    Page::upsert(&mut store, published_page(1, 1, 10));
    Page::upsert(&mut store, draft_page(2, 1));
    Page::upsert(&mut store, published_page(3, 1, 30));
    let chapter = Chapter::get(&store, 1).unwrap();
    let numbers: Vec<usize> = chapter.pages.iter().map(|p| p.page_number).collect();
    assert_eq!(numbers, vec![1, 3]);
}

#[test]
fn chapters_group_all_published_pages() {
    let mut store = PageStore::new();
    Page::upsert(&mut store, published_page(1, 1, 10));
    Page::upsert(&mut store, published_page(2, 2, 20));
    Page::upsert(&mut store, published_page(3, 1, 30));
    Page::upsert(&mut store, draft_page(4, 3));
    let chapters = Chapter::get_all(&store);
    assert_eq!(chapters.len(), 2);
    assert_eq!(chapters[0].chapter_number, 1);
    let first: Vec<usize> = chapters[0].pages.iter().map(|p| p.page_number).collect();
    assert_eq!(first, vec![1, 3]);
    assert_eq!(chapters[1].chapter_number, 2);
    let second: Vec<usize> = chapters[1].pages.iter().map(|p| p.page_number).collect();
    assert_eq!(second, vec![2]);
}

#[test]
fn chapters_of_an_empty_store_are_empty() {
    let store = PageStore::new();
    assert!(Chapter::get_all(&store).is_empty());
}

#[test]
fn chapter_order_follows_first_appearance_by_page_number() {
    let mut store = PageStore::new();
    // Chapter 5 owns the lowest page number, so it appears first.
    Page::upsert(&mut store, published_page(1, 5, 10));
    Page::upsert(&mut store, published_page(2, 3, 20));
    Page::upsert(&mut store, published_page(3, 5, 30));
    let chapters = Chapter::get_all(&store);
    let numbers: Vec<usize> = chapters.iter().map(|c| c.chapter_number).collect();
    assert_eq!(numbers, vec![5, 3]);
}

#[test]
fn page_image_url_combines_host_hash_image_and_variant() {
    let p = published_page(1, 1, 10);
    assert_eq!(
        p.image_url("HASH", "public"),
        "https://imagedelivery.net/HASH/img-1/public"
    );
}

#[test]
fn page_response_maps_fields_and_url() {
    let p = published_page(7, 2, 1234);
    let r = p.to_response("HASH");
    assert_eq!(r.page_number, 7);
    assert_eq!(r.chapter_number, 2);
    assert_eq!(r.name, "Page 7");
    assert_eq!(r.image_url, "https://imagedelivery.net/HASH/img-7/format=webp");
    assert_eq!(r.published_at, Some(1234));
}

#[test]
fn chapter_response_maps_every_page() {
    let mut store = PageStore::new();
    Page::upsert(&mut store, published_page(1, 1, 10));
    Page::upsert(&mut store, published_page(2, 1, 20));
    let chapter = Chapter::get(&store, 1).unwrap();
    let r = chapter.to_response("HASH");
    assert_eq!(r.chapter_number, 1);
    assert_eq!(r.pages.len(), 2);
    assert_eq!(r.pages[0].image_url, "https://imagedelivery.net/HASH/img-1/format=webp");
    assert_eq!(r.pages[1].page_number, 2);
}

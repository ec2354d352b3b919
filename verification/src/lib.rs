//! A small content backend for a paginated comic-style publication.
//!
//! Pages carry an image reference, a page number, a chapter number, a display
//! name and a publication state; chapters are derived groupings of published
//! pages. The library holds the domain model and its rules: the page store
//! with upsert/publish/delete lifecycle, chapter aggregation, the bearer
//! credential check, response mapping, and the route decision function.
//! Everything here is verified; the HTTP and persistence plumbing lives
//! outside the library and hands it plain values.

pub mod auth;
pub mod chapter;
mod clock;
pub mod dto;
pub mod laws;
pub mod page;
pub mod routes;
pub mod store;
pub mod text;

pub use auth::{check_authorisation, AuthError};
pub use chapter::{Chapter, ChapterView};
pub use dto::{ChapterResponse, PageResponse};
pub use page::{CreatePage, Page, PageView, PublishedStatus};
pub use routes::{ApiRequest, ApiResponse, Config};
pub use store::PageStore;

//! The catalog of a site of music cassettes: how the site is crawled, what a
//! cassette is, how the catalog is kept and published, and how playback is
//! kept to one player at a time.
//!
//! The library decides and computes; it neither fetches nor waits nor starts
//! a process. What it reads of a page it takes from `scraper`, the
//! identifier of a cassette from `uuid`, the label in an address from
//! `percent_encoding`.

pub mod assets;
pub mod blogger;
pub mod cassette;
pub mod catalog;
pub mod category;
pub mod error;
pub mod feed;
pub mod html;
pub mod identity;
pub mod loudness;
pub mod metadata;
pub mod playback;
pub mod song;
pub mod store;
pub mod subcategory;
pub mod text;

pub use cassette::Cassette;
pub use catalog::Catalog;
pub use category::Category;
pub use error::ScrapeError;
pub use song::Song;
pub use subcategory::{Subcategory, SubcategoryKind};

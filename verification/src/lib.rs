//! Book-metadata resolution for a public catalog site.
//!
//! The crate turns a partial identifier (a catalog ID, an ISBN, a title, or a
//! title together with an author) into a typed [`BookMetadata`] record. The
//! record is assembled from a normalized JSON object graph embedded in the
//! catalog's detail pages; search-result pages are matched against the query
//! with a loose, normalization-based substring test.
//!
//! Everything that decides or computes is verified: fetching pages is left to
//! the caller, who hands the page texts to the functions of [`search`] and
//! [`metadata_fetcher`].

pub mod decimal;
pub mod errors;
pub mod json;
pub mod metadata_fetcher;
pub mod page;
pub mod request_builder;
pub mod search;
pub mod text;

pub use decimal::Decimal;
pub use errors::ScraperError;
pub use json::JsonValue;
pub use metadata_fetcher::BookContributor;
pub use metadata_fetcher::BookMetadata;
pub use metadata_fetcher::BookSeries;
pub use request_builder::EmptyState;
pub use request_builder::IdState;
pub use request_builder::IsbnState;
pub use request_builder::MetadataRequestBuilder;
pub use request_builder::RequestState;
pub use request_builder::TitleState;
pub use request_builder::TitleWithAuthorState;

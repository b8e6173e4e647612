//! A typed data-access layer over named collections of a document store.
//!
//! The crate holds the rules of that layer and proves them: how a page of
//! results is requested and described, how raw filter keys are normalised,
//! how identifiers are read from text, how a collection gets its name and
//! how the store's replies become results. Talking to the store itself is
//! left to the caller, who hands the replies in as plain values.

pub mod collection;
pub mod list;
pub mod repository;

pub use repository::{ListData, PaginatedData, PaginatedQuery, SortOrder};

pub use collection::{collection_name, to_plural_snake_case, CollectionBinding};
pub use list::ListQuery;

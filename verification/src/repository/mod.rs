//! Queries, responses and the rules that turn store replies into results.

pub mod identifier;
pub mod models;
pub mod outcome;
pub mod pagination;

pub use identifier::{parse_object_id, IdentifierError, NativeId};
pub use models::{ListData, PaginatedData, PaginatedQuery, SortOrder};
pub use outcome::{DeleteSummary, Drain, UpdateSummary};
pub use pagination::{id_field, total_pages, FindPlan, SortDirective};

//! Postal-code reference data: validation of code strings, exact-match lookup
//! and predicate filtering over an immutable, once-loaded set of records.

pub mod code;
pub mod laws;
pub mod query;
pub mod record;
pub mod store;

pub use code::{clean_zipcode, Error};
pub use query::{filter_by, is_real, list_all, matching};
pub use record::Zipcode;
pub use store::{dataset_text, Database};

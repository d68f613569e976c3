//! Extraction of submission records from the pages of an art-sharing site,
//! with date normalisation, content reference resolution and fingerprints.
//!
//! Fetching pages is the caller's work: every function here takes the text or
//! the bytes that were fetched and returns a value or a classified error.

pub mod cookies;
pub mod date;
pub mod document;
pub mod error;
pub mod fingerprint;
pub mod front_page;
pub mod model;
pub mod nav;
pub mod queries;
pub mod submission;
pub mod text;

pub use cookies::{build_cookie, cookie_header};
pub use date::{parse_date, strip_day_suffixes, Timestamp};
pub use error::{server_error, Error};
pub use fingerprint::{be_i64, fingerprint_submission, hash_image};
pub use front_page::{parse_front_page, parse_front_page_with, parse_online_counts, OnlineCounts};
pub use model::{resolve_url, Content, Rating};
pub use nav::{parse_nav_links, NavLinks};
pub use queries::Queries;
pub use submission::{parse_submission, parse_submission_with, Fingerprint, Submission};

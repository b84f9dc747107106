//! Search a code-hosting platform's repositories for ones with a published
//! release: rate-limit aware fetching, release filtering, a per-query page
//! cache, display windows, and parsing of suggested search queries.

pub mod cache;
pub mod filter;
pub mod model;
pub mod retry;
pub mod search;
pub mod suggest;
pub mod text;
pub mod window;

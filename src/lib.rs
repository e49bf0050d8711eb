//! Core of a stream watcher: the cached bearer token and its refresh policy,
//! the on-disk token record, the query parameters sent to the API, and the
//! poll state that turns successive viewer-count snapshots into notices.

pub mod api;
pub mod cache;
pub mod poll;
pub mod text;
pub mod token;

pub use cache::{decode_cached_token, encode_token};
pub use poll::{Notice, PollState, StreamRecord, TrackedUser};
pub use token::{AuthManager, AuthToken, TokenAction};

//! Copies the links that are posted to a subreddit: each new post is handed to web archives, a
//! screenshot of the page that it links to is posted to another subreddit, and a comment that says
//! where the copies are becomes due.
//!
//! The library decides what to ask, what to make of an answer and what to do next. It talks to
//! nobody: requests and answers, lines of the change log and events go in and out as plain values.
pub mod google_cache;
pub mod login;
pub mod networking;
pub mod outline_com;
pub mod post;
pub mod query;
pub mod reddit;
pub mod replay;
pub mod screenshot;
pub mod setup;
pub mod state;
pub mod submit;
pub mod text;
pub mod timestamp;
pub mod wikiwix;
pub mod work;

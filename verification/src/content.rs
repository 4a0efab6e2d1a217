//! Checks on what editors and visitors send: tutorials, pages, posts, comments, uploads,
//! search queries.

pub mod comments;
pub mod common;
pub mod errors;
pub mod pages;
pub mod posts;
pub mod search;
pub mod site;
pub mod tutorials;
pub mod upload;

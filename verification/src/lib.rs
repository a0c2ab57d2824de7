//! A small microblog core.
//!
//! * [`db`]: the post store, a table from the creation time of a post to its
//!   text, kept in a database file.
//! * [`query`]: the query over the rows of that table (keyword filter,
//!   order by key, page), with its laws.
//! * [`feed`]: the writer that renders posts as an RSS 2.0 document, and the
//!   escaping of its texts.
//! * [`listing`]: page numbers and titles of a listing of posts.
//! * [`clock`] and [`text`]: time stamps and character-level helpers.

pub mod clock;
pub mod db;
pub mod feed;
pub mod listing;
pub mod query;
pub mod text;

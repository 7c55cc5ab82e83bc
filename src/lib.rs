//! Scraping task data out of the server-rendered pages of a web project
//! manager: a document tree, positional path queries over it, field
//! extraction, and the procedures that turn pages into task records.

pub mod dom;
pub mod query;
pub mod scrape;
pub mod html;
pub mod plans;
pub mod pages;

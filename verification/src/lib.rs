//! Finding internship postings on job boards through a search engine, and
//! storing the text of each posting: the verified decisions and text
//! processing of the scrapers.
pub mod error;
pub mod text;
pub mod rules;
pub mod html;
pub mod content;
pub mod search;
pub mod links;
pub mod files;
pub mod db;

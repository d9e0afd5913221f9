//! Descriptors of the documents that an index page links to: how they are
//! read off the page line by line, what each is called locally and where it
//! is fetched from, what a run has to fetch, and how its outcomes are counted.

pub mod extract;
pub mod failure;
pub mod lines;
pub mod pattern;
pub mod pdf;
pub mod run;
pub mod setup;

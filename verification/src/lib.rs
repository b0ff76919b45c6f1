//! A crawl engine for a picture archive: one index page, one page per
//! entry, one image per entry page.
//!
//! The engine performs no I/O. It decides which links of a page count
//! ([`matcher`]), where an image is stored ([`naming`]), what a fetched
//! page or a finished transfer means for an entry ([`locator`],
//! [`downloader`], [`pipeline`]), how many entries may be in flight
//! ([`governor`]) and what to do next ([`scheduler`]). Its caller fetches,
//! looks for files and stores them, and reports back in the values of
//! [`fetch`]. What a run as a whole comes to is told in [`model`].

pub mod counting;
pub mod downloader;
pub mod fetch;
pub mod governor;
pub mod locator;
pub mod matcher;
pub mod model;
pub mod naming;
pub mod outcome;
pub mod pipeline;
pub mod scheduler;
pub mod text;

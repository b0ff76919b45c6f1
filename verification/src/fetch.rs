//! What the network and the disk report back to the engine.
//!
//! The engine performs no I/O. Its caller fetches pages, looks for files
//! and stores images, and tells the engine how each attempt went in the
//! plain values of this module.

use crate::text::{ends_with, str_ends_with};
use vstd::prelude::*;

verus! {

/// Why a fetch gave nothing to work with.
#[derive(Clone, Copy, Debug, PartialEq, Eq, Structural)]
pub enum FetchFailure {
    /// No response arrived: the connection failed or the time ran out.
    Transport,
    /// A response arrived with a status outside 200 to 299.
    Status(u16),
}

/// The result of fetching a page.
#[derive(Clone, Debug, PartialEq, Eq)]
pub enum PageFetch {
    /// No response arrived.
    Unreachable,
    /// A response arrived.
    Response { status: u16, body: String },
}

/// The mathematical content of a [`PageFetch`].
pub enum PageFetchView {
    Unreachable,
    Response { status: u16, body: Seq<char> },
}

impl View for PageFetch {
    type V = PageFetchView;

    open spec fn view(&self) -> PageFetchView {
        match self {
            PageFetch::Unreachable => PageFetchView::Unreachable,
            PageFetch::Response { status, body } => PageFetchView::Response {
                status: *status,
                body: body@,
            },
        }
    }
}

/// The result of fetching an image and storing it at its destination.
#[derive(Clone, Copy, Debug, PartialEq, Eq, Structural)]
pub enum Transfer {
    /// No response arrived.
    Unreachable,
    /// A response arrived. `stored` tells whether its body was written to
    /// the destination in full; it is read only where the status reports
    /// success.
    Response { status: u16, stored: bool },
}

/// Whether `status` reports success: 200 up to 299.
pub open spec fn is_success(status: u16) -> bool {
    200 <= status < 300
}

/// Why a fetch that reported `status`, or nothing, failed; `None` where it
/// succeeded.
pub open spec fn failure_of(status: Option<u16>) -> Option<FetchFailure> {
    match status {
        None => Some(FetchFailure::Transport),
        Some(code) => if is_success(code) {
            None
        } else {
            Some(FetchFailure::Status(code))
        },
    }
}

/// The status that a page fetch reported, if a response arrived.
pub open spec fn page_status(fetch: PageFetchView) -> Option<u16> {
    match fetch {
        PageFetchView::Unreachable => None,
        PageFetchView::Response { status, .. } => Some(status),
    }
}

/// The status that a transfer reported, if a response arrived.
pub open spec fn transfer_status(transfer: Transfer) -> Option<u16> {
    match transfer {
        Transfer::Unreachable => None,
        Transfer::Response { status, .. } => Some(status),
    }
}

/// `.jpg`
pub open spec fn jpg_suffix() -> Seq<char> {
    ".jpg"@
}

/// `.jpeg`
pub open spec fn jpeg_suffix() -> Seq<char> {
    ".jpeg"@
}

/// Whether a response for `url` with `status` is the end of an image
/// download worth reporting: the location ends in `.jpg` or `.jpeg` and
/// the status reports success.
pub open spec fn finished_download(url: Seq<char>, status: u16) -> bool {
    (ends_with(url, jpg_suffix()) || ends_with(url, jpeg_suffix())) && is_success(status)
}

/// Tells whether an HTTP status reports success.
pub fn status_is_success(status: u16) -> (r: bool)
    ensures
        r == is_success(status),
{
    200 <= status && status < 300
}

/// Classifies a fetch by the status it reported, `None` standing for no
/// response at all.
pub fn classify(status: Option<u16>) -> (r: Option<FetchFailure>)
    ensures
        r == failure_of(status),
{
    match status {
        None => Some(FetchFailure::Transport),
        Some(code) => if status_is_success(code) {
            None
        } else {
            Some(FetchFailure::Status(code))
        },
    }
}

/// Tells whether a response marks the end of an image download.
pub fn is_finished_download(url: &str, status: u16) -> (r: bool)
    ensures
        r == finished_download(url@, status),
{
    (str_ends_with(url, ".jpg") || str_ends_with(url, ".jpeg")) && status_is_success(status)
}

} // verus!

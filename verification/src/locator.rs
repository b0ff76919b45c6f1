//! The asset locator: from a fetched entry page to the image it shows.

use crate::fetch::{classify, failure_of, FetchFailure, PageFetch, PageFetchView};
use crate::matcher::{
    anchor_selector, asset_pattern, asset_rule, link_views, match_links, matching_links,
    target_attribute, Link, LinkView,
};
use crate::naming::{resolved, AssetReference};
use crate::outcome::NotFoundCause;
use vstd::prelude::*;

verus! {

/// What the locator found for one entry.
#[derive(Clone, Debug, PartialEq, Eq)]
pub enum Located {
    /// The page links to this image.
    Found(AssetReference),
    /// The page gave no image.
    NotFound(NotFoundCause),
}

/// The mathematical content of a [`Located`].
pub enum LocatedView {
    Found(Seq<char>),
    NotFound(NotFoundCause),
}

impl View for Located {
    type V = LocatedView;

    open spec fn view(&self) -> LocatedView {
        match self {
            Located::Found(asset) => LocatedView::Found(asset@),
            Located::NotFound(cause) => LocatedView::NotFound(*cause),
        }
    }
}

/// The image links of an entry page, in the order the page gives them.
pub open spec fn asset_links(body: Seq<char>) -> Seq<LinkView> {
    matching_links(body, anchor_selector(), target_attribute(), asset_pattern())
}

/// The choice among the image links of a page: the first one wins, read
/// against `base`; a page without any gives nothing.
pub open spec fn first_asset(links: Seq<LinkView>, base: Seq<char>) -> LocatedView {
    if links.len() == 0 {
        LocatedView::NotFound(NotFoundCause::AssetMissing)
    } else {
        LocatedView::Found(resolved(base, links[0].target))
    }
}

/// What the locator finds in a fetched entry page: nothing where the fetch
/// failed, else the first image link of the body.
pub open spec fn located(fetch: PageFetchView, base: Seq<char>) -> LocatedView {
    match fetch {
        PageFetchView::Unreachable => LocatedView::NotFound(
            NotFoundCause::FetchFailed(FetchFailure::Transport),
        ),
        PageFetchView::Response { status, body } => match failure_of(Some(status)) {
            Some(failure) => LocatedView::NotFound(NotFoundCause::FetchFailed(failure)),
            None => first_asset(asset_links(body), base),
        },
    }
}

/// Chooses among the image links found on a page.
pub fn choose_asset(links: &Vec<Link>, base_url: &str) -> (r: Located)
    ensures
        r@ == first_asset(link_views(links@), base_url@),
{
    if links.len() == 0 {
        Located::NotFound(NotFoundCause::AssetMissing)
    } else {
        Located::Found(AssetReference::resolve(base_url, links[0].target.as_str()))
    }
}

/// Locates the image of an entry in the result of fetching its page.
///
/// A fetch without response, or with a status outside 200 to 299, gives
/// `NotFound` with the failure as its cause. Otherwise the body is searched
/// for image links; the first one is the image, and a body without one
/// gives `NotFound` with cause `AssetMissing`.
pub fn locate(fetch: &PageFetch, base_url: &str) -> (r: Located)
    ensures
        r@ == located(fetch@, base_url@),
{
    match fetch {
        PageFetch::Unreachable => Located::NotFound(
            NotFoundCause::FetchFailed(FetchFailure::Transport),
        ),
        PageFetch::Response { status, body } => match classify(Some(*status)) {
            Some(failure) => Located::NotFound(NotFoundCause::FetchFailed(failure)),
            None => {
                let rule = asset_rule();
                let links = match_links(body.as_str(), &rule);
                choose_asset(&links, base_url)
            },
        },
    }
}

} // verus!

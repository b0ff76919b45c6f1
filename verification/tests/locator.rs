use apod_crawl::fetch::{FetchFailure, PageFetch};
use apod_crawl::locator::{choose_asset, locate, Located};
use apod_crawl::matcher::Link;
use apod_crawl::naming::AssetReference;
use apod_crawl::outcome::NotFoundCause;

const BASE: &str = "https://apod.nasa.gov/apod/";

fn page(status: u16, body: &str) -> PageFetch {
    PageFetch::Response { status, body: body.to_string() }
}

fn found(url: &str) -> Located {
    Located::Found(AssetReference { absolute_url: url.to_string() })
}

#[test]
fn locate_finds_the_image_of_an_entry_page() {
    let body = "<html><body><center><p>\
        <a href=\"image/2020/ap200101.jpg\"><img src=\"image/2020/ap200101_small.jpg\"></a>\
        </p></center></body></html>";
    assert_eq!(
        locate(&page(200, body), BASE),
        found("https://apod.nasa.gov/apod/image/2020/ap200101.jpg")
    );
}

#[test]
fn locate_takes_the_first_of_several_images() {
    let body = "<a href=\"ap200102.html\">next</a>\
        <a href=\"image/2020/second.jpeg\">a</a>\
        <a href=\"image/2020/first.jpg\">b</a>";
    assert_eq!(
        locate(&page(200, body), BASE),
        found("https://apod.nasa.gov/apod/image/2020/second.jpeg")
    );
}

#[test]
fn locate_without_image_link_is_asset_missing() {
    let body = "<html><body><a href=\"ap200102.html\">next</a><a href=\"video.mp4\">v</a></body></html>";
    assert_eq!(
        locate(&page(200, body), BASE),
        Located::NotFound(NotFoundCause::AssetMissing)
    );
    assert_eq!(locate(&page(200, ""), BASE), Located::NotFound(NotFoundCause::AssetMissing));
}

#[test]
fn locate_on_failed_fetch_is_not_found_with_the_failure() {
    let body = "<a href=\"image/2020/ap200101.jpg\">x</a>";
    assert_eq!(
        locate(&page(404, body), BASE),
        Located::NotFound(NotFoundCause::FetchFailed(FetchFailure::Status(404)))
    );
    assert_eq!(
        locate(&page(500, body), BASE),
        Located::NotFound(NotFoundCause::FetchFailed(FetchFailure::Status(500)))
    );
    assert_eq!(
        locate(&page(301, body), BASE),
        Located::NotFound(NotFoundCause::FetchFailed(FetchFailure::Status(301)))
    );
    assert_eq!(
        locate(&PageFetch::Unreachable, BASE),
        Located::NotFound(NotFoundCause::FetchFailed(FetchFailure::Transport))
    );
}

#[test]
fn choose_asset_takes_the_first_link() {
    let links = vec![
        Link { target: "image/a.jpg".to_string(), text: "a".to_string() },
        Link { target: "image/b.jpg".to_string(), text: "b".to_string() },
    ];
    assert_eq!(choose_asset(&links, "http://h/"), found("http://h/image/a.jpg"));
    assert_eq!(choose_asset(&links[1..].to_vec(), ""), found("image/b.jpg"));
    assert_eq!(
        choose_asset(&Vec::new(), "http://h/"),
        Located::NotFound(NotFoundCause::AssetMissing)
    );
}

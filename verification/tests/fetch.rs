use apod_crawl::fetch::{classify, is_finished_download, status_is_success, FetchFailure};

#[test]
fn success_is_two_hundred_to_two_ninety_nine() {
    assert!(!status_is_success(0));
    assert!(!status_is_success(199));
    assert!(status_is_success(200));
    assert!(status_is_success(204));
    assert!(status_is_success(299));
    assert!(!status_is_success(300));
    assert!(!status_is_success(404));
    assert!(!status_is_success(500));
    assert!(!status_is_success(u16::MAX));
}

#[test]
fn classify_names_the_failure() {
    assert_eq!(classify(None), Some(FetchFailure::Transport));
    assert_eq!(classify(Some(500)), Some(FetchFailure::Status(500)));
    assert_eq!(classify(Some(304)), Some(FetchFailure::Status(304)));
    assert_eq!(classify(Some(199)), Some(FetchFailure::Status(199)));
    assert_eq!(classify(Some(200)), None);
    assert_eq!(classify(Some(299)), None);
}

#[test]
fn finished_download_wants_an_image_and_a_success_status() {
    assert!(is_finished_download("https://apod.nasa.gov/apod/image/2001/a.jpg", 200));
    assert!(is_finished_download("https://apod.nasa.gov/apod/image/2001/a.jpeg", 200));
    assert!(is_finished_download("https://apod.nasa.gov/apod/image/2001/a.jpg", 201));
    assert!(is_finished_download("https://apod.nasa.gov/apod/image/2001/a.jpg", 203));
    assert!(is_finished_download("https://apod.nasa.gov/apod/image/2001/a.jpeg", 299));
    assert!(!is_finished_download("https://apod.nasa.gov/apod/image/2001/a.jpg", 199));
    assert!(!is_finished_download("https://apod.nasa.gov/apod/image/2001/a.jpg", 300));
    assert!(!is_finished_download("https://apod.nasa.gov/apod/image/2001/a.jpg", 304));
    assert!(!is_finished_download("https://apod.nasa.gov/apod/image/2001/a.jpg", 500));
    assert!(!is_finished_download("https://apod.nasa.gov/apod/ap200101.html", 203));
    assert!(!is_finished_download("https://apod.nasa.gov/apod/ap200101.html", 200));
    assert!(!is_finished_download("https://apod.nasa.gov/apod/image/2001/a.JPG", 200));
    assert!(!is_finished_download("jpg", 200));
    assert!(is_finished_download(".jpg", 200));
    assert!(!is_finished_download("", 200));
}

use apod_crawl::naming::{destination_path, join_path, sanitize, AssetReference, Entry};

fn entry(path: &str, title: &str) -> Entry {
    Entry { relative_path: path.to_string(), title: title.to_string() }
}

#[test]
fn file_name_joins_stem_and_title() {
    let e = entry("ap200101.html", "First Light");
    assert_eq!(e.file_name(), "ap200101 - First Light.jpg");
}

#[test]
fn destination_is_under_the_directory() {
    let e = entry("ap200101.html", "First Light");
    assert_eq!(destination_path("out", &e), "out/ap200101 - First Light.jpg");
    assert_eq!(destination_path(".", &e), "./ap200101 - First Light.jpg");
}

#[test]
fn destination_with_trailing_slash_gets_no_second_one() {
    let e = entry("ap200101.html", "First Light");
    assert_eq!(destination_path("out/", &e), "out/ap200101 - First Light.jpg");
    assert_eq!(destination_path("/", &e), "/ap200101 - First Light.jpg");
}

#[test]
fn destination_in_empty_directory_is_the_bare_name() {
    let e = entry("ap200101.html", "First Light");
    assert_eq!(destination_path("", &e), "ap200101 - First Light.jpg");
}

#[test]
fn destination_is_the_same_on_every_call() {
    let e = entry("ap991231.html", "Year's End");
    let first = destination_path("pictures", &e);
    let second = destination_path("pictures", &e.clone());
    assert_eq!(first, second);
    assert_eq!(first, "pictures/ap991231 - Year's End.jpg");
}

#[test]
fn sanitize_takes_out_separators() {
    assert_eq!(sanitize("a/b\\c"), "abc");
    assert_eq!(sanitize("///"), "");
    assert_eq!(sanitize("M31: The Andromeda Galaxy"), "M31: The Andromeda Galaxy");
}

#[test]
fn sanitize_takes_off_one_page_extension() {
    assert_eq!(sanitize("ap200101.html"), "ap200101");
    assert_eq!(sanitize("ap200101.htm"), "ap200101");
    assert_eq!(sanitize("ap200101.html.html"), "ap200101.html");
    assert_eq!(sanitize("ap200101.jpg"), "ap200101.jpg");
    assert_eq!(sanitize(".html"), "");
    assert_eq!(sanitize("html"), "html");
}

#[test]
fn sanitize_looks_for_the_extension_after_the_separators_are_gone() {
    assert_eq!(sanitize("x.ht/ml"), "x");
    assert_eq!(sanitize("dir/page.html"), "dirpage");
}

#[test]
fn sanitize_keeps_text_beyond_ascii() {
    assert_eq!(sanitize("Orión / Ωmega.html"), "Orión  Ωmega");
}

#[test]
fn file_name_never_holds_a_separator() {
    let e = entry("../../etc/passwd.html", "a/b\\c");
    let name = e.file_name();
    assert_eq!(name, "....etcpasswd - abc.jpg");
    assert!(!name.contains('/'));
    assert!(!name.contains('\\'));
}

#[test]
fn file_name_of_entry_without_title() {
    let e = entry("ap200101.html", "");
    assert_eq!(e.file_name(), "ap200101 - .jpg");
}

#[test]
fn entry_url_is_base_followed_by_path() {
    let e = entry("ap200101.html", "First Light");
    assert_eq!(
        e.url("https://apod.nasa.gov/apod/"),
        "https://apod.nasa.gov/apod/ap200101.html"
    );
    assert_eq!(e.url(""), "ap200101.html");
}

#[test]
fn asset_is_resolved_against_the_base() {
    let asset = AssetReference::resolve("https://apod.nasa.gov/apod/", "image/2001/x.jpg");
    assert_eq!(asset.absolute_url, "https://apod.nasa.gov/apod/image/2001/x.jpg");
    assert_eq!(asset.duplicate(), asset);
}

#[test]
fn join_path_puts_one_slash_between() {
    assert_eq!(join_path("a", "b"), "a/b");
    assert_eq!(join_path("a/", "b"), "a/b");
    assert_eq!(join_path("", "b"), "b");
    assert_eq!(join_path("a\\", "b"), "a\\/b");
}

use std::path::PathBuf;

use wmt::link::LinkError;
use wmt::path::{merge_file_name_and_query, url_to_path};
use wmt::Link;

#[test]
fn with_trailing_slash() {
    let url = Link::parse("https://www.google.com/").unwrap();

    assert_eq!(
        Some(String::from("index.html")),
        merge_file_name_and_query(&url)
    )
}

#[test]
fn with_out_trailing_slash() {
    let url = Link::parse("https://google.com").unwrap();

    assert_eq!(
        Some(String::from("index.html")),
        merge_file_name_and_query(&url)
    )
}

#[test]
fn with_query() {
    let url = Link::parse("http://video.google.de/?hl=de&tab=wv").unwrap();

    assert_eq!(
        Some(String::from("index.html?hl=de&tab=wv")),
        merge_file_name_and_query(&url)
    )
}

#[test]
fn with_file() {
    let url = Link::parse("http://www.google.de/index.html").unwrap();

    assert_eq!(
        Some(String::from("index.html")),
        merge_file_name_and_query(&url)
    )
}

#[test]
fn google_homepage() {
    let url = Link::parse("https://www.google.com/").unwrap();

    assert_eq!(
        Some(PathBuf::from("www.google.com/index.html")),
        url_to_path(&url).map(PathBuf::from)
    );
}

#[test]
fn with_parameters() {
    let url = Link::parse("http://video.google.de/?hl=de&tab=wv").unwrap();

    assert_eq!(
        Some(PathBuf::from("video.google.de/index.html?hl=de&tab=wv")),
        url_to_path(&url).map(PathBuf::from)
    );
}

#[test]
fn lib_with_file() {
    let url = Link::parse("http://video.google.de/some_page").unwrap();

    assert_eq!(
        Some(PathBuf::from("video.google.de/some_page")),
        url_to_path(&url).map(PathBuf::from)
    );
}

#[test]
fn url_in_query() {
    let url = Link::parse("https://accounts.google.com/ServiceLogin?hl=de&passive=true&continue=https://www.google.com/&ec=GAZAAQ").unwrap();

    let path = PathBuf::from(url_to_path(&url).unwrap());

    assert_eq!(
        PathBuf::from("accounts.google.com/ServiceLogin?hl=de&passive=true&continue=https:\u{2215}\u{2215}www.google.com\u{2215}&ec=GAZAAQ"),
        path
    );

    let name =
        "ServiceLogin?hl=de&passive=true&continue=https:\u{2215}\u{2215}www.google.com\u{2215}&ec=GAZAAQ";
    assert_eq!(
        Some(name),
        path.file_name().and_then(|name| name.to_str()),
        "file name should be last url segment including query"
    )
}

#[test]
fn the_path_is_the_exact_text() {
    let url = Link::parse("http://example.com/a/b/c.html?x=/y").unwrap();
    assert_eq!(
        url_to_path(&url),
        Some("example.com/a/b/c.html?x=\u{2215}y".to_string())
    );
    let url = Link::parse("http://example.com/a/b/").unwrap();
    assert_eq!(url_to_path(&url), Some("example.com/a/b/index.html".to_string()));
    let url = Link::parse("http://example.com").unwrap();
    assert_eq!(url_to_path(&url), Some("example.com/index.html".to_string()));
}

#[test]
fn a_host_that_is_an_address_has_a_path() {
    let url = Link::parse("http://127.0.0.1:8080/docs/intro").unwrap();
    assert_eq!(url_to_path(&url), Some("127.0.0.1/docs/intro".to_string()));
}

#[test]
fn an_opaque_url_has_no_path() {
    let url = Link::parse("mailto:someone@example.com").unwrap();
    assert!(url.cannot_be_a_base);
    assert_eq!(merge_file_name_and_query(&url), None);
    assert_eq!(url_to_path(&url), None);
    let url = Link::parse("data:text/plain,Stuff").unwrap();
    assert_eq!(url_to_path(&url), None);
}

#[test]
fn a_url_without_host_has_no_path() {
    let url = Link::parse("unix:/run/foo.socket").unwrap();
    assert!(!url.cannot_be_a_base);
    assert_eq!(url.host, None);
    assert_eq!(merge_file_name_and_query(&url), Some("foo.socket".to_string()));
    assert_eq!(url_to_path(&url), None);
}

#[test]
fn the_query_names_no_directory() {
    let url = Link::parse("http://example.com/a?../../etc/passwd").unwrap();
    let path = url_to_path(&url).unwrap();
    assert_eq!(path, "example.com/a?..\u{2215}..\u{2215}etc\u{2215}passwd");
    assert_eq!(path.matches('/').count(), 1);
}

#[test]
fn parse_gives_the_parts_of_the_normal_form() {
    let url = Link::parse("HTTP://Example.COM:80/a/../b%20c?x=1&y#frag").unwrap();
    assert_eq!(url.href, "http://example.com/b%20c?x=1&y#frag");
    assert_eq!(url.host, Some("example.com".to_string()));
    assert_eq!(url.path, "/b%20c");
    assert_eq!(url.query, Some("x=1&y".to_string()));
    assert!(!url.cannot_be_a_base);
}

#[test]
fn parse_tells_a_relative_reference_from_what_is_no_url() {
    assert_eq!(Link::parse("../up"), Err(LinkError::RelativeWithoutBase));
    assert_eq!(Link::parse("page.html"), Err(LinkError::RelativeWithoutBase));
    assert_eq!(Link::parse("http://[::1"), Err(LinkError::Invalid));
    assert_eq!(Link::parse("https://"), Err(LinkError::Invalid));
}

#[test]
fn join_reads_a_reference_against_the_base() {
    let base = Link::parse("https://example.net/a/b.html").unwrap();
    assert_eq!(base.join("c.png"), Some("https://example.net/a/c.png".to_string()));
    assert_eq!(base.join("/v1/meta"), Some("https://example.net/v1/meta".to_string()));
    assert_eq!(base.join("//eve.com/b"), Some("https://eve.com/b".to_string()));
    assert_eq!(base.join("http://[::1"), None);
    let opaque = Link::parse("mailto:someone@example.com").unwrap();
    assert_eq!(opaque.join("c.png"), None);
}

#[test]
fn resolve_takes_an_absolute_url_as_it_is_and_a_relative_one_against_the_base() {
    let base = Link::parse("https://example.net/a/b.html").unwrap();
    assert_eq!(
        base.resolve("http://other.org/x").map(|link| link.href),
        Some("http://other.org/x".to_string())
    );
    let link = base.resolve("c/d.html?q=1").unwrap();
    assert_eq!(link.href, "https://example.net/a/c/d.html?q=1");
    assert_eq!(link.host, Some("example.net".to_string()));
    assert_eq!(link.path, "/a/c/d.html");
    assert_eq!(link.query, Some("q=1".to_string()));
    assert_eq!(base.resolve("http://[::1"), None);
}

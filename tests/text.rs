use memlayout::pre::{remove_single_line_comment, remove_single_line_comments};
use memlayout::utils::try_value;
use memlayout::web::{cache_path, decode, find_code_blocks, DecodeError, Page};

#[test]
fn parse_test_comment() {
    assert_eq!(&*remove_single_line_comment("//"), "")
}

#[test]
fn mod_test_comment() {
    assert_eq!(&*remove_single_line_comments("//"), "")
}

#[test]
fn comments_run_to_end_of_line() {
    assert_eq!(remove_single_line_comments("a // b\nc"), "a \nc");
    assert_eq!(remove_single_line_comments("x/y // z"), "x/y ");
    assert_eq!(remove_single_line_comments("a/"), "a/");
}

#[test]
fn utils_test() {
    let x = try_value(Some("hello".to_string())).try_with(|mut x| {
        x.push_str(", world.");
        Some(x)
    });
    assert_eq!("hello, world.".to_string(), x.get().unwrap())
}

#[test]
fn try_stops_at_none() {
    let r: Result<u32, &str> = try_value(Some(3u32)).try_or_err(|_| None, "none");
    assert_eq!(r, Err("none"));
    let r: Result<u32, &str> = try_value(Some(3u32)).try_or_err(|x| Some(x + 1), "none");
    assert_eq!(r, Ok(4));
}

#[test]
fn web_test_decode() {
    let rslt = decode("<a>hi</a>").unwrap();
    assert_eq!(rslt, "hi")
}

#[test]
fn tests_test_decode() {
    let rslt = decode("<a>hi</a>").unwrap();
    assert_eq!(rslt, "hi")
}

#[test]
fn decode_entities_and_spaces() {
    assert_eq!(decode("a&lt;b&gt;c&amp;d\u{a0}e").unwrap(), "a<b>c&d e");
}

#[test]
fn decode_errors() {
    assert_eq!(decode("&quot;"), Err(DecodeError::UnknownEntity("quot".to_string())));
    assert_eq!(decode("<a<b>"), Err(DecodeError::TagMismatch));
    assert_eq!(decode("&lt"), Err(DecodeError::UnclosedEntity("lt".to_string())));
    assert_eq!(decode("<a"), Err(DecodeError::UnclosedTag));
}

#[test]
fn web_test_path() {
    let path = cache_path(" ");
    assert_eq!(path, ".cache/32")
}

#[test]
fn tests_test_path() {
    let path = cache_path(" ");
    assert_eq!(path, ".cache/32")
}

#[test]
fn cache_path_of_several_characters() {
    assert_eq!(cache_path("a:/"), ".cache/975847");
}

#[test]
fn web_find_code_blocks() {
    let rslt = find_code_blocks("");
    assert_eq!(rslt.len(), 0)
}

#[test]
fn tests_find_code_blocks() {
    let rslt = find_code_blocks("");
    assert_eq!(rslt.len(), 0)
}

#[test]
fn code_blocks_are_found_in_order() {
    let html = "x<pre>a\n</pre>y<pre>b</pre><pre>c";
    assert_eq!(find_code_blocks(html), vec!["<pre>a\n</pre>", "<pre>b</pre>"]);
}

#[test]
fn page_keeps_url_and_content() {
    let p = Page::new("http://example.com/", "body");
    assert_eq!(p.url, "http://example.com/");
    assert_eq!(p.content, "body");
}

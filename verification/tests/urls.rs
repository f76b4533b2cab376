use better_im::urls::{extract_urls, has_url};

#[test]
fn detects_and_extracts_a_single_url() {
    let text = "check this out https://example.com/cool";
    assert!(has_url(text));
    assert_eq!(extract_urls(text), vec!["https://example.com/cool"]);
}

#[test]
fn extracts_multiple_urls_in_order() {
    let text = "first https://a.example second http://b.example/x third";
    assert_eq!(extract_urls(text), vec!["https://a.example", "http://b.example/x"]);
}

#[test]
fn trims_trailing_punctuation() {
    assert_eq!(extract_urls("see (https://example.com/page)."), vec!["https://example.com/page"]);
    assert_eq!(extract_urls("done: https://example.com!"), vec!["https://example.com"]);
}

#[test]
fn normalizes_bare_www_host_to_https() {
    assert_eq!(extract_urls("visit www.example.com today"), vec!["https://www.example.com"]);
}

#[test]
fn no_urls_in_plain_text() {
    assert!(!has_url("just some ordinary words"));
    assert!(extract_urls("just some ordinary words").is_empty());
}

#[test]
fn scheme_match_is_case_insensitive_and_www_keeps_its_case() {
    assert!(has_url("HTTPS://EXAMPLE.COM"));
    assert_eq!(extract_urls("go to WWW.Example.com,"), vec!["https://WWW.Example.com"]);
}

#[test]
fn detection_and_extraction_agree() {
    for text in ["a https://x.y b", "nothing here", "www.a.b and http://c.d", "(https://e.f)."] {
        assert_eq!(has_url(text), !extract_urls(text).is_empty(), "{text}");
    }
}

#[test]
fn www_match_that_trims_to_its_host_stays_absolute() {
    assert!(has_url("see www.."));
    assert_eq!(extract_urls("see www.."), vec!["https://www"]);
    assert_eq!(extract_urls("(www.example.com)."), vec!["https://www.example.com"]);
}

#[test]
fn every_extracted_url_is_absolute() {
    let text = "a www.. b https://x.y/, c WWW.Q.R! d http://s.t)";
    let urls = extract_urls(text);
    assert_eq!(urls, vec!["https://www", "https://x.y/", "https://WWW.Q.R", "http://s.t"]);
    for u in &urls {
        let l = u.to_ascii_lowercase();
        assert!(l.starts_with("http://") || l.starts_with("https://"), "{u}");
    }
}

#[test]
fn long_s_scheme_is_detected_and_extracted() {
    let text = "go httpſ://example.com now";
    assert!(has_url(text));
    assert_eq!(extract_urls(text), vec!["httpſ://example.com"]);
}

#[test]
fn one_url_per_match_and_none_holds_whitespace() {
    let text = "x https://a.b\u{a0}y www.c.d\u{2003}z (http://e.f).";
    let urls = extract_urls(text);
    assert_eq!(urls, vec!["https://a.b", "https://www.c.d", "http://e.f"]);
    assert!(urls.iter().all(|u| !u.chars().any(char::is_whitespace)));
}

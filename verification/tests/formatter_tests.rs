use mediadownloader::formatter::UrlFormatter;

#[test]
fn test_extract_domain_with_valid_url() {
    let url = "https://www.example.com/asdasd";
    let extracted_domain = UrlFormatter::extract_domain(url);

    let tiktok_url = "https://vm.tiktok.com/ZMYSQfA9o";
    let extracted_domain_tiktok = UrlFormatter::extract_domain(tiktok_url);

    let instagram_url = "https://www.instagram.com/reel/Co7JnvFg8dJ/?igshid=YmMyMTA2M2Y=";
    let extracted_domain_instagram = UrlFormatter::extract_domain(instagram_url);

    let youtube_url = "https://www.youtube.com/watch?v=abcDEFghiJKL";
    let extracted_domain_youtube = UrlFormatter::extract_domain(youtube_url);

    let youtube_mobile_url = "https://youtu.be/w-wK936N5OI?t=3";
    let extracted_domain_youtube_mobile = UrlFormatter::extract_domain(youtube_mobile_url);

    let twitter_url = "https://twitter.com/ScalasNicola1/status/1665636478955798528";
    let extracted_domain_twitter = UrlFormatter::extract_domain(twitter_url);

    assert_eq!(extracted_domain, Some("example.com".to_string()));
    assert_eq!(extracted_domain_tiktok, Some("tiktok.com".to_string()));
    assert_eq!(
        extracted_domain_instagram,
        Some("instagram.com".to_string())
    );
    assert_eq!(extracted_domain_youtube, Some("youtube.com".to_string()));
    assert_eq!(
        extracted_domain_youtube_mobile,
        Some("youtu.be".to_string())
    );
    assert_eq!(extracted_domain_twitter, Some("twitter.com".to_string()));
}

#[test]
fn test_extract_domain_with_local_url() {
    let url = "http://localhost:8080";
    let extracted_domain = UrlFormatter::extract_domain(url);
    assert_eq!(extracted_domain, Some("localhost".to_string()));
}

#[test]
fn test_extract_domain_with_invalid_url() {
    let url = "not a valid url";
    let extracted_domain = UrlFormatter::extract_domain(url);

    let url_missing_protocol = "lol.com";
    let extracted_domain_missing_protocol = UrlFormatter::extract_domain(url_missing_protocol);

    assert_eq!(extracted_domain, None);
    assert_eq!(extracted_domain_missing_protocol, None);
}

#[test]
fn test_extract_domain_with_missing_tld() {
    let url = "https://example/path/to/resource.html?query_param=value#fragment";
    let extracted_domain = UrlFormatter::extract_domain(url);
    assert_eq!(extracted_domain, Some("example".to_string()));
}

#[test]
fn extract_domain_of_empty_string_is_none() {
    assert_eq!(UrlFormatter::extract_domain(""), None);
}

#[test]
fn classifier_rejects_invalid_and_empty_input() {
    assert!(matches!(UrlFormatter::new(""), UrlFormatter::NotValid));
    assert!(matches!(
        UrlFormatter::new("not a valid url"),
        UrlFormatter::NotValid
    ));
}

#[test]
fn classifier_keeps_normalized_url_and_domain() {
    let formatted = UrlFormatter::new("https://www.example.com/path");
    assert_eq!(
        formatted.get_url_string().unwrap(),
        "https://www.example.com/path"
    );
    assert_eq!(formatted.get_domain_string().unwrap(), "example.com");
}

#[test]
fn stripping_takes_exactly_the_leftmost_label() {
    assert_eq!(
        UrlFormatter::extract_domain("https://www.sub.example.com/x"),
        Some("sub.example.com".to_string())
    );
}

#[test]
fn www_host_without_dots_strips_to_empty() {
    // A host that contains "www" but no dot loses its only label.
    assert_eq!(
        UrlFormatter::extract_domain("https://www/x"),
        Some(String::new())
    );
}

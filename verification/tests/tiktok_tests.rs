use mediadownloader::processor::{route_to_processor, ProcessorType};
use mediadownloader::tiktok::{aweme_response_step, extract_tiktok_id_from_path, parse_aweme_api,
    parse_aweme_slideshow, parse_aweme_video, prepare_cookies_for_injection, retrieving_script,
    AwemeParsingResult, ResourceType, TikTokProcessor};

#[test]
fn test_extract_id_from_path_video() {
    let path = "/@lolz/video/79403501123931238541241230099";
    let id = extract_tiktok_id_from_path(path);
    let expected_id = "79403501123931238541241230099";

    assert_eq!(id.unwrap(), expected_id);
}

#[test]
fn test_extract_id_from_path_photo() {
    let path = "/@lolz/photo/79403501123931238541241230099";
    let id = extract_tiktok_id_from_path(path);
    let expected_id = "79403501123931238541241230099";

    assert_eq!(id.unwrap(), expected_id);
}

#[test]
fn extract_id_needs_digits_after_marker() {
    assert_eq!(extract_tiktok_id_from_path("/@lolz/video/none"), None);
    assert_eq!(extract_tiktok_id_from_path("/about"), None);
    assert_eq!(extract_tiktok_id_from_path("/a/video/12x34"), Some("12".to_string()));
}

#[test]
fn routing_recognizes_the_platform_and_the_mobile_flavour() {
    match route_to_processor("https://www.tiktok.com/@u/video/1", "1") {
        Some(ProcessorType::TikTok(p)) => {
            assert!(!p.mobile_experience);
            assert_eq!(p.id, "1");
        }
        None => panic!("expected a processor"),
    }
    match route_to_processor("https://vm.tiktok.com/abc", "abc") {
        Some(ProcessorType::TikTok(p)) => assert!(p.mobile_experience),
        None => panic!("expected a processor"),
    }
    assert!(route_to_processor("https://example.com/v", "v").is_none());
}

#[test]
fn shape_heuristic_reads_the_url() {
    let mut p = TikTokProcessor::new("1".to_string(), "https://t/photo/1".to_string());
    p.check_tiktok_resource();
    assert_eq!(p.resource_type, ResourceType::Slideshow);
    p.set_url("https://t/video/1".to_string());
    p.check_tiktok_resource();
    assert_eq!(p.resource_type, ResourceType::Video);
}

#[test]
fn page_fetched_canonicalizes_and_rederives_the_id() {
    let mut p = TikTokProcessor::new("old".to_string(), "https://vm.tiktok.com/x".to_string());
    p.set_mobile_experience(true);
    let r = p.page_fetched(
        200,
        "https://www.tiktok.com/@u/video/123?checksum=abc",
        "/@u/video/123",
    );
    assert!(r.is_ok());
    assert_eq!(p.url, "https://www.tiktok.com/@u/video/123");
    assert_eq!(p.resource_type, ResourceType::Video);
    assert_eq!(p.id, "123");
}

#[test]
fn page_fetched_rejects_a_failed_status() {
    let mut p = TikTokProcessor::new("old".to_string(), "https://vm.tiktok.com/x".to_string());
    let r = p.page_fetched(404, "https://www.tiktok.com/err", "/err");
    assert!(r.is_err());
    assert_eq!(p.id, "old");
    assert_eq!(p.url, "https://vm.tiktok.com/x");
}

#[test]
fn retrieving_script_finds_the_primary_element() {
    let html = "<html><body><script id=\"SIGI_STATE\">{\"k\":1}</script></body></html>";
    assert_eq!(retrieving_script(html.to_string()), "{\"k\":1}");
}

#[test]
fn retrieving_script_falls_back_to_the_secondary_element() {
    let html = "<html><body><script id=\"__UNIVERSAL_DATA_FOR_REHYDRATION__\">{\"u\":2}</script></body></html>";
    assert_eq!(retrieving_script(html.to_string()), "{\"u\":2}");
}

#[test]
fn retrieving_script_reports_absence() {
    assert_eq!(retrieving_script("<html><body></body></html>".to_string()), "NOT_FOUND");
    assert_eq!(retrieving_script(String::new()), "");
}

#[test]
fn parse_video_strips_escaping_and_validates() {
    let json = "{\"__DEFAULT_SCOPE__\":{\"webapp.video-detail\":{\"itemInfo\":{\"itemStruct\":{\"video\":{\"bitrateInfo\":[{\"PlayAddr\":{\"UrlList\":[\"https://a.example/v?amp;x=1\",\"https://b.example/v?amp;y=2\"]}}]}}}}}}";
    let p = TikTokProcessor::new("1".to_string(), "u".to_string());
    let url = p.parse_video(json).unwrap();
    assert!(
        url == "https://a.example/v?x=1" || url == "https://b.example/v?y=2",
        "unexpected pick: {url}"
    );
}

#[test]
fn parse_video_rejects_an_unusable_blob() {
    let p = TikTokProcessor::new("1".to_string(), "u".to_string());
    assert!(p.parse_video("NOT_FOUND").is_err());
    assert!(p.parse_video("{}").is_err());
}

#[test]
fn aweme_video_scan_keeps_the_known_cdn_entry() {
    let json = "{\"aweme_list\":[{\"video\":{\"bit_rate\":[{\"play_addr\":{\"url_list\":[\"https://other.example/v\",\"https://x.byteicdn.com/v\"]}}]}}]}";
    assert_eq!(parse_aweme_video(json).unwrap(), "https://x.byteicdn.com/v");
}

#[test]
fn aweme_video_scan_collapses_misses_to_an_empty_url() {
    let json = "{\"aweme_list\":[{\"video\":{\"bit_rate\":[{\"play_addr\":{\"url_list\":[\"https://other.example/v\"]}}]}}]}";
    assert_eq!(parse_aweme_video(json).unwrap(), "");
    assert_eq!(parse_aweme_video("{}").unwrap(), "");
}

#[test]
fn aweme_slideshow_keeps_one_jpeg_per_image_entry() {
    let json = "{\"aweme_list\":[{\"image_post_info\":{\"images\":[\
        {\"display_image\":{\"url_list\":[\"https://i.example/a.png\",\"https://i.example/a.jpeg\"]}},\
        {\"display_image\":{\"url_list\":[\"https://i.example/b.png\"]}},\
        {\"display_image\":{\"url_list\":[\"https://i.example/c.jpeg\"]}}]}}]}";
    let picks = parse_aweme_slideshow(json).unwrap();
    assert_eq!(
        picks,
        vec![
            (0, "https://i.example/a.jpeg".to_string()),
            (2, "https://i.example/c.jpeg".to_string())
        ]
    );
}

#[test]
fn aweme_slideshow_with_no_usable_image_is_a_parsing_error() {
    let json = "{\"aweme_list\":[{\"image_post_info\":{\"images\":[\
        {\"display_image\":{\"url_list\":[\"https://i.example/a.png\"]}}]}}]}";
    assert!(parse_aweme_slideshow(json).is_err());
    assert!(parse_aweme_slideshow("{}").is_err());
}

#[test]
fn aweme_api_parses_by_the_decided_shape() {
    let json = "{\"aweme_list\":[{\"video\":{\"bit_rate\":[{\"play_addr\":{\"url_list\":[\"https://x.byteicdn.com/v\"]}}]}}]}";
    match parse_aweme_api(&ResourceType::Video, json).unwrap() {
        AwemeParsingResult::Video(u) => assert_eq!(u, "https://x.byteicdn.com/v"),
        AwemeParsingResult::Images(_) => panic!("expected a video"),
    }
}

#[test]
fn aweme_response_rules() {
    assert!(aweme_response_step(404, Some("{}")).is_err());
    assert!(aweme_response_step(200, None).is_err());
    assert!(aweme_response_step(200, Some("null")).is_err());
    assert!(aweme_response_step(200, Some("not json")).is_err());
    assert!(aweme_response_step(200, Some("{\"ok\":true}")).is_ok());
}

#[test]
fn cookies_become_injectable_lines() {
    let lines = vec![
        "sessionid=abc123; Path=/; HttpOnly".to_string(),
        "no cookie here".to_string(),
        "tt_csrf=z9".to_string(),
    ];
    let prepared = prepare_cookies_for_injection(&lines).unwrap();
    assert_eq!(prepared, vec!["sessionid=abc123;".to_string(), "tt_csrf=z9;".to_string()]);
}

#[test]
fn no_parsable_cookie_means_nothing_to_inject() {
    let lines = vec!["not a pair".to_string()];
    assert!(prepare_cookies_for_injection(&lines).is_none());
    assert!(prepare_cookies_for_injection(&Vec::new()).is_none());
}

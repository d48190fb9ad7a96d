use mediadownloader::site_validator::SupportedSites;

fn setup() -> SupportedSites {
    SupportedSites::from_sites(vec!["site_1".to_string(), "site_2".to_string()])
}

#[test]
fn test_supported_videos_are_correctly_parsed() {
    let mocked_sites = setup();
    assert_eq!(mocked_sites.len(), 2);
}

#[test]
fn test_site_is_correctly_supported() {
    let mocked_sites = setup();
    let supported_site = "site_1";

    assert_eq!(mocked_sites.is_supported(supported_site), true);
}

#[test]
fn test_site_is_not_supported() {
    let mocked_sites = setup();
    let unsupported_site = "site_that_should_not_be_supported";

    assert_eq!(mocked_sites.is_supported(unsupported_site), false);
}

#[test]
fn membership_is_case_sensitive_and_exact() {
    let sites = setup();
    assert!(!sites.is_supported("SITE_1"));
    assert!(!sites.is_supported("site_11"));
    assert!(!sites.is_supported(""));
}

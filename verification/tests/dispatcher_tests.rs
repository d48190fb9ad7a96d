use mediadownloader::aweme::{build_aweme_query, expand_app_version, odin_cookie_line,
    query_params_aweme_api, user_agent_aweme_api, AwemeConfig, AwemeHeaders, AwemeParams};
use mediadownloader::bot::{format_command, BotCommands};
use mediadownloader::config::{is_telemetry_config_valid, TelemetryConfig};
use mediadownloader::dispatcher::{classify_request, dispatch_generic, processor_outcome_step,
    DispatcherStep, RetryPolicy};
use mediadownloader::downloader::{download_log_lines, fetch_status_step, yt_dlp_args};
use mediadownloader::errors::MediaDownloaderError;
use mediadownloader::extract_id_from_url;
use mediadownloader::metadata_store::MetadataStore;
use mediadownloader::reply::{plan_reply, MessageContent, ReplyAction};
use mediadownloader::site_validator::SupportedSites;
use mediadownloader::tiktok::require_aweme_config;

fn sites() -> SupportedSites {
    SupportedSites::from_sites(vec!["example.com".to_string(), "tiktok.com".to_string()])
}

#[test]
fn unsupported_domain_is_rejected_before_any_work() {
    let r = classify_request("https://unknown.example.net/clip/42", &sites());
    assert!(matches!(r, Err(MediaDownloaderError::UnsupportedDomain)));
}

#[test]
fn invalid_url_is_rejected() {
    let r = classify_request("not a valid url", &sites());
    assert!(matches!(r, Err(MediaDownloaderError::InvalidUrl)));
    let r2 = classify_request("", &sites());
    assert!(matches!(r2, Err(MediaDownloaderError::InvalidUrl)));
}

#[test]
fn generic_request_end_to_end() {
    // Allow-listed generic domain, tool exits cleanly, artifact below the
    // cap: the dispatcher delivers the video content.
    let (fmt, id, processor) = classify_request("https://example.com/videos/clip42", &sites())
        .unwrap();
    assert_eq!(id, "clip42");
    assert!(processor.is_none());

    let mut store = MetadataStore::new();
    let handled = dispatch_generic(&mut store, &fmt, id.as_str(), true, Some(1024)).unwrap();
    match handled.content {
        Some(MessageContent::File(path)) => {
            assert_eq!(path, "/tmp/media_downloaded/clip42.mp4")
        }
        _ => panic!("expected a file"),
    }
}

#[test]
fn generic_request_failed_tool_purges_the_fresh_key() {
    let (fmt, id, _) = classify_request("https://example.com/videos/clip42", &sites()).unwrap();
    let mut store = MetadataStore::new();
    let r = dispatch_generic(&mut store, &fmt, id.as_str(), false, None);
    assert!(matches!(r, Err(MediaDownloaderError::BlobRetrievingError)));
    // the dedup key written by the check is gone: the next identical
    // request runs the tool again instead of hitting a poisoned key
    assert!(store.get("clip42").is_none());
}

#[test]
fn routed_platform_url_gets_a_processor() {
    let (_, id, processor) = classify_request("https://vm.tiktok.com/ZMYSQfA9o", &sites())
        .unwrap();
    assert_eq!(id, "ZMYSQfA9o");
    assert!(processor.is_some());
}

#[test]
fn reply_accepts_exactly_one_kind() {
    match plan_reply(Some("hello".to_string()), None, None) {
        ReplyAction::SendText(t) => assert_eq!(t, "hello"),
        _ => panic!("expected text"),
    }
    match plan_reply(None, Some("/tmp/v.mp4".to_string()), None) {
        ReplyAction::SendVideo(b) => assert_eq!(b, "/tmp/v.mp4"),
        _ => panic!("expected video"),
    }
}

#[test]
fn reply_with_text_and_file_sends_nothing() {
    let r = plan_reply(
        Some("hello".to_string()),
        Some("/tmp/v.mp4".to_string()),
        None,
    );
    assert!(matches!(r, ReplyAction::Rejected));
    let r2 = plan_reply(None, None, None);
    assert!(matches!(r2, ReplyAction::Rejected));
    let r3 = plan_reply(
        Some("t".to_string()),
        Some("b".to_string()),
        Some(vec!["i".to_string()]),
    );
    assert!(matches!(r3, ReplyAction::Rejected));
}

#[test]
fn image_replies_are_chunked_ten_to_a_batch() {
    let images: Vec<String> = (0..25).map(|i| format!("img{i}")).collect();
    match plan_reply(None, None, Some(images)) {
        ReplyAction::SendImageBatches(batches) => {
            assert_eq!(batches.len(), 3);
            assert_eq!(batches[0].len(), 10);
            assert_eq!(batches[1].len(), 10);
            assert_eq!(batches[2].len(), 5);
            assert_eq!(batches[0][0], "img0");
            assert_eq!(batches[2][4], "img24");
        }
        _ => panic!("expected batches"),
    }
}

#[test]
fn exact_batch_boundary() {
    let images: Vec<String> = (0..10).map(|i| format!("img{i}")).collect();
    match plan_reply(None, None, Some(images)) {
        ReplyAction::SendImageBatches(batches) => {
            assert_eq!(batches.len(), 1);
            assert_eq!(batches[0].len(), 10);
        }
        _ => panic!("expected batches"),
    }
}

#[test]
fn exponential_backoff_doubles_until_spent() {
    let policy = RetryPolicy { retries: 3, initial_delay_secs: 30 };
    assert_eq!(policy.next_delay(0), Some(30));
    assert_eq!(policy.next_delay(1), Some(60));
    assert_eq!(policy.next_delay(2), Some(120));
    assert_eq!(policy.next_delay(3), None);
}

#[test]
fn fixed_backoff_repeats_until_spent() {
    let policy = RetryPolicy { retries: 3, initial_delay_secs: 3 };
    assert_eq!(policy.next_delay_fixed(0), Some(3));
    assert_eq!(policy.next_delay_fixed(2), Some(3));
    assert_eq!(policy.next_delay_fixed(3), None);
}

#[test]
fn download_tool_argument_contract() {
    let args = yt_dlp_args("https://example.com/v", "clip42");
    assert_eq!(
        args,
        vec![
            "https://example.com/v".to_string(),
            "-P /tmp/media_downloaded/".to_string(),
            "-f bestvideo[ext=mp4]+bestaudio[ext=m4a]/mp4".to_string(),
            "-oclip42.%(ext)s".to_string(),
            "--no-mtime".to_string(),
        ]
    );
}

#[test]
fn tool_output_is_filtered_on_the_log_marker() {
    let lines = vec![
        "[download] Destination: x.mp4".to_string(),
        "[info] something".to_string(),
        "[download] 100%".to_string(),
    ];
    let kept = download_log_lines(&lines);
    assert_eq!(
        kept,
        vec![
            "[download] Destination: x.mp4".to_string(),
            "[download] 100%".to_string()
        ]
    );
}

#[test]
fn fetch_status_rule() {
    assert!(fetch_status_step(200).is_ok());
    assert!(fetch_status_step(299).is_ok());
    assert!(matches!(
        fetch_status_step(301),
        Err(MediaDownloaderError::UnreachableResource)
    ));
    assert!(fetch_status_step(404).is_err());
}

#[test]
fn command_tokens() {
    assert!(matches!(format_command("/start"), BotCommands::Start));
    assert!(matches!(format_command("/help me please"), BotCommands::Help));
    match format_command("/frobnicate now") {
        BotCommands::UnkownCommand(u) => assert_eq!(u, "/frobnicate"),
        _ => panic!("expected an unknown command"),
    }
}

#[test]
fn id_extraction_takes_the_last_path_segment() {
    assert_eq!(
        extract_id_from_url("https://vm.tiktok.com/ZMYSQfA9o").unwrap(),
        "ZMYSQfA9o"
    );
    assert_eq!(extract_id_from_url("nosplit").unwrap(), "nosplit");
}

#[test]
fn version_expansion_pads_each_component() {
    assert_eq!(expand_app_version("1.2.3".to_string()).unwrap(), "010203");
    assert_eq!(expand_app_version("34.1.2".to_string()).unwrap(), "340102");
    assert_eq!(expand_app_version("10".to_string()).unwrap(), "10");
    assert!(expand_app_version("1.x.3".to_string()).is_none());
    assert!(expand_app_version("".to_string()).is_none());
    assert!(expand_app_version("1..3".to_string()).is_none());
}

fn params() -> AwemeParams {
    AwemeParams {
        iid: vec!["7351144126450059040".to_string()],
        app_version: "34.1.2".to_string(),
        manifest_app_version: "2023401020".to_string(),
        app_name: "musical_ly".to_string(),
        aid: 1233,
        lower_bound: 7250000000000000000,
        upper_bound: 7351147085025500000,
        version_code: "2023401020".to_string(),
        device_brand: "Google".to_string(),
        device_type: "Pixel 8 Pro".to_string(),
        resolution: "1080*2400".to_string(),
        dpi: "420".to_string(),
        os_version: "14".to_string(),
        os_api: "29".to_string(),
        sys_region: "US".to_string(),
        region: "US".to_string(),
        app_language: "en".to_string(),
        language: "en".to_string(),
        timezone_name: "America/New_York".to_string(),
        timezone_offset: "-14400".to_string(),
        ac: "wifi".to_string(),
        ssmix: "a".to_string(),
        os: "android".to_string(),
        app_type: "normal".to_string(),
        residence: "US".to_string(),
        host_abi: "armeabi-v7a".to_string(),
        locale: "en".to_string(),
        ac2: "wifi5g".to_string(),
        uoo: "1".to_string(),
        op_region: "US".to_string(),
        channel: "googleplay".to_string(),
        is_pad: "0".to_string(),
    }
}

#[test]
fn lookup_query_is_built_in_wire_order() {
    let p = params();
    let q = query_params_aweme_api(
        "7404",
        &p,
        "7351144126450059040",
        "11111111-2222-3333-4444-555555555555",
        1700000000,
        1700000000123,
        7300000000000000000,
        1699000000,
    );
    assert_eq!(q.len(), 41);
    assert_eq!(q[0], ("aweme_id".to_string(), "7404".to_string()));
    assert_eq!(q[1], ("version_name".to_string(), "34.1.2".to_string()));
    assert_eq!(q[2], ("version_code".to_string(), "340102".to_string()));
    assert_eq!(q[6], ("_rticket".to_string(), "1700000000123".to_string()));
    assert_eq!(q[7], ("ts".to_string(), "1700000000".to_string()));
    assert_eq!(q[22], ("aid".to_string(), "1233".to_string()));
    assert_eq!(
        q[24],
        ("device_id".to_string(), "7300000000000000000".to_string())
    );
    assert_eq!(
        q[27],
        (
            "cdid".to_string(),
            "11111111-2222-3333-4444-555555555555".to_string()
        )
    );
    assert_eq!(
        q[33],
        ("last_install_time".to_string(), "1699000000".to_string())
    );
    assert_eq!(
        q[40],
        ("iid".to_string(), "7351144126450059040".to_string())
    );
}

#[test]
fn drawn_query_stays_within_the_configured_bounds() {
    let mut p = params();
    // pin the device-id range so the draw is checkable exactly
    p.lower_bound = 7300000000000000000;
    p.upper_bound = 7300000000000000000;
    let q = build_aweme_query("7404", &p, 1700000000, 1700000000123);
    assert_eq!(q.len(), 41);
    assert_eq!(
        q[24],
        ("device_id".to_string(), "7300000000000000000".to_string())
    );
    // the correlation id is a fresh hyphenated UUID
    assert_eq!(q[27].0, "cdid");
    assert_eq!(q[27].1.len(), 36);
    // the install time lies at most thirteen days back
    let install: u64 = q[33].1.parse().unwrap();
    assert!((1700000000 - 1123200..=1700000000 - 86400).contains(&install));
    // two draws give two different correlation ids
    let q2 = build_aweme_query("7404", &p, 1700000000, 1700000000123);
    assert_ne!(q[27].1, q2[27].1);
}

#[test]
fn negative_identifiers_render_signed() {
    let mut p = params();
    p.aid = -7;
    let q = query_params_aweme_api(
        "7404",
        &p,
        "7351144126450059040",
        "11111111-2222-3333-4444-555555555555",
        1700000000,
        1700000000123,
        7300000000000000000,
        -12345,
    );
    assert_eq!(q[22], ("aid".to_string(), "-7".to_string()));
    assert_eq!(q[33], ("last_install_time".to_string(), "-12345".to_string()));
}

#[test]
fn odin_cookie_is_an_injectable_unpredictable_line() {
    let line = odin_cookie_line();
    assert!(line.starts_with("odin_tt="));
    assert!(line.ends_with(';'));
    assert_eq!(line.len(), "odin_tt=".len() + 160 + 1);
    assert!(line[8..line.len() - 1].chars().all(|c| c.is_ascii_alphanumeric()));
    assert_ne!(line, odin_cookie_line());
}

#[test]
fn processor_outcome_falls_through_only_on_no_content() {
    match processor_outcome_step(Ok(Some(mediadownloader::reply::MessageContent::File(
        "/tmp/media_downloaded/x.mp4".to_string(),
    )))) {
        DispatcherStep::Deliver(m) => assert!(m.content.is_some()),
        _ => panic!("expected delivery"),
    }
    assert!(matches!(processor_outcome_step(Ok(None)), DispatcherStep::Generic));
    match processor_outcome_step(Err(MediaDownloaderError::ParsingError)) {
        DispatcherStep::Fail(e) => assert_eq!(e, MediaDownloaderError::ParsingError),
        _ => panic!("expected failure"),
    }
}

#[test]
fn missing_lookup_config_fails_the_download() {
    assert!(matches!(
        require_aweme_config(None),
        Err(MediaDownloaderError::DownloadError)
    ));
    let config = AwemeConfig {
        url: "https://api.example/feed".to_string(),
        app_name: "musical_ly".to_string(),
        ua: "okhttp/3.10.0.1".to_string(),
        headers: AwemeHeaders {
            accept_language: "en-US,en;q=0.9".to_string(),
            accept: "application/json".to_string(),
        },
        params: params(),
    };
    assert!(require_aweme_config(Some(&config)).is_ok());
}

#[test]
fn user_agent_of_the_known_app_uses_its_package() {
    let config = AwemeConfig {
        url: "https://api.example/feed".to_string(),
        app_name: "musical_ly".to_string(),
        ua: "okhttp/3.10.0.1".to_string(),
        headers: AwemeHeaders {
            accept_language: "en-US,en;q=0.9".to_string(),
            accept: "application/json".to_string(),
        },
        params: params(),
    };
    assert_eq!(
        user_agent_aweme_api(&config),
        "com.zhiliaoapp.musically/2023401020 okhttp/3.10.0.1"
    );
    let mut other = config;
    other.app_name = "trill".to_string();
    assert_eq!(
        user_agent_aweme_api(&other),
        "com.ss.android.ugc.trill/2023401020 okhttp/3.10.0.1"
    );
}

#[test]
fn telemetry_needs_both_endpoint_and_key() {
    assert!(!is_telemetry_config_valid(&None));
    assert!(!is_telemetry_config_valid(&Some(TelemetryConfig {
        endpoint: Some("https://t.example/".to_string()),
        api_key: None,
    })));
    assert!(!is_telemetry_config_valid(&Some(TelemetryConfig {
        endpoint: Some(String::new()),
        api_key: Some("SECRET-REDACTED".to_string()),
    })));
    assert!(is_telemetry_config_valid(&Some(TelemetryConfig {
        endpoint: Some("https://t.example/".to_string()),
        api_key: Some("SECRET-REDACTED".to_string()),
    })));
}

#[test]
fn error_messages_are_user_facing_text() {
    assert_eq!(
        MediaDownloaderError::FileSizeExceeded.message(),
        "File size exceeded!"
    );
    assert_eq!(
        MediaDownloaderError::UnsupportedDomain.message(),
        "Domain not supported!"
    );
    assert_eq!(
        MediaDownloaderError::ParsingError.message(),
        "Failed to download resource!"
    );
}

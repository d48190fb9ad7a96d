//! Request-dispatch and site-resolution pipeline of a media-fetching relay.
//!
//! A worker receives a raw URL, classifies it against a domain allow-list,
//! routes it to a site-specific processor or to a generic downloader, keeps a
//! key-value metadata store as a "seen/downloaded" cache, and produces a
//! normalized result (a video file or an image set) or a typed error.  All
//! decision logic lives here, verified; network, filesystem and subprocess
//! work is driven by a thin unverified shell that feeds outcomes back in as
//! plain values.

pub mod aweme;
pub mod blobs;
pub mod bot;
pub mod bus;
pub mod config;
pub mod dispatcher;
pub mod downloader;
pub mod entropy;
pub mod errors;
pub mod formatter;
pub mod metadata_store;
pub mod processor;
pub mod reply;
pub mod site_validator;
pub mod strutil;
pub mod tiktok;

use vstd::prelude::*;

use crate::errors::MediaDownloaderError;
use crate::strutil::is_suffix_after_last;

verus! {

/// The resource id of a URL: everything after its last `/` (the whole URL
/// when it has none).  Stable across retries, it keys the metadata store
/// and names the file on disk.
pub fn extract_id_from_url(url: &str) -> (r: Result<String, MediaDownloaderError>)
    ensures
        r matches Ok(id) && is_suffix_after_last(url@, '/', id@),
{
    Ok(crate::strutil::after_last(url, '/'))
}

/// Directory that downloaded videos are written to.
pub const TARGET_DIRECTORY: &'static str = "/tmp/media_downloaded/";

/// Subdirectory (under [`TARGET_DIRECTORY`]) that slideshow images are written to.
pub const TARGET_DIRECTORY_IMAGES: &'static str = "images/";

/// Expiry, in seconds, that every metadata-store write uses (24 hours).
pub const DEFAULT_REDIS_TTL: u64 = 86400;

/// File extension of downloaded videos.
pub const VIDEO_EXTENSIONS_FORMAT: &'static str = "mp4";

/// File extension of downloaded slideshow images.
pub const IMAGE_EXTENSIONS_FORMAT: &'static str = "jpeg";

/// Domain of the general (desktop) short-video site.
pub const TIKTOK_GENERAL_DOMAIN: &'static str = "tiktok.com";

/// Domain of the mobile short-link flavour of the short-video site.
pub const TIKTOK_MOBILE_DOMAIN: &'static str = "vm.tiktok.com";

/// Mobile short domain of the video site exempt from the "www" stripping rule.
pub const YOUTUBE_MOBILE: &'static str = "youtu.be";

/// Largest accepted size of a video artifact, in bytes (50 MB).
pub const MAX_FILE_SIZE: u64 = 52428800;

/// Largest accepted size of a single slideshow image, in bytes (10 MB).
pub const MAX_FILE_SIZE_PHOTO: u64 = 10485760;

/// How many images one reply batch may carry.
pub const IMAGE_BATCH_SIZE: usize = 10;

/// Attempts of the bounded retry around delivery and the lookup API call.
pub const RETRIES_ATTEMPTS: u32 = 3;

/// Initial delay, in seconds, of the exponential backoff around delivery.
pub const EXPONENTIAL_BACKOFF_SECONDS: u64 = 30;

/// Fixed delay, in seconds, between attempts of the lookup API call.
pub const BACKOFF_SECONDS: u64 = 3;

} // verus!

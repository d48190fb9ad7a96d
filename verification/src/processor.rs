//! The site processor registry: matches a raw URL against the known
//! platform substrings and configures the specialized processor, or yields
//! `None` for the generic fallback.

use vstd::prelude::*;

use crate::strutil::{contains_sub, str_contains};
use crate::tiktok::{ResourceType, TikTokProcessor};

verus! {

/// The closed set of specialized processors.
#[derive(Debug)]
pub enum ProcessorType {
    TikTok(TikTokProcessor),
}

/// Routes a raw URL: a URL of the short-video platform gets a processor
/// configured with the mobile flag when it uses the mobile short-link
/// domain; any other URL falls through to the generic downloader.
pub fn route_to_processor(url: &str, url_id: &str) -> (r: Option<ProcessorType>)
    ensures
        r is Some <==> contains_sub(url@, "tiktok.com"@),
        r matches Some(p) ==> match p {
            ProcessorType::TikTok(t) => {
                &&& t.id@ == url_id@
                &&& t.url@ == url@
                &&& t.mobile_experience == contains_sub(url@, "vm.tiktok.com"@)
                &&& t.resource_type == ResourceType::Video
                &&& t.slideshows@.len() == 0
                &&& t.download_url is None
                &&& t.slideshows_map@.len() == 0
            },
        },
{
    if str_contains(url, "tiktok.com") {
        let mut tiktok_processor = TikTokProcessor::new(url_id.to_owned(), url.to_owned());
        if str_contains(url, "vm.tiktok.com") {
            tiktok_processor.set_mobile_experience(true);
        } else {
            tiktok_processor.set_mobile_experience(false);
        }
        Some(ProcessorType::TikTok(tiktok_processor))
    } else {
        None
    }
}

} // verus!

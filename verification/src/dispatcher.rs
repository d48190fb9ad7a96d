//! The dispatcher: classify, validate, route, and — on the generic path —
//! decide the download and the retrieval verdict; plus the bounded retry
//! policy that delivery is wrapped in.

use vstd::prelude::*;

use crate::blobs::{retrieve_blob, video_target_path};
use crate::downloader::download_video;
use crate::errors::MediaDownloaderError;
use crate::extract_id_from_url;
use crate::formatter::{domain_of, url_host_of, url_norm_of, url_ok_of, DomainExtracted,
    UrlFormatter};
use crate::metadata_store::MetadataStore;
use crate::processor::{route_to_processor, ProcessorType};
use crate::reply::{MessageContent, MessageHandled};
use crate::site_validator::SupportedSites;
use crate::strutil::{contains_sub, is_suffix_after_last};
use crate::{DEFAULT_REDIS_TTL, MAX_FILE_SIZE};

verus! {

/// An explicit retry policy: how many retries, and the delay before the
/// first of them.
#[derive(Debug, Copy, Clone, PartialEq, Eq, Structural)]
pub struct RetryPolicy {
    pub retries: u32,
    pub initial_delay_secs: u64,
}

/// The exponential-backoff delay before retry `attempt` (counting from
/// zero): the initial delay doubled `attempt` times, saturating.
pub open spec fn backoff_delay(initial: u64, attempt: nat) -> u64
    decreases attempt,
{
    if attempt == 0 {
        initial
    } else {
        let p = backoff_delay(initial, (attempt - 1) as nat);
        if p >= 0x8000_0000_0000_0000 {
            u64::MAX
        } else {
            (2 * p) as u64
        }
    }
}

impl RetryPolicy {
    /// Delay in seconds before retry `attempt` under exponential backoff;
    /// `None` once the attempts are spent.
    pub fn next_delay(&self, attempt: u32) -> (r: Option<u64>)
        ensures
            attempt >= self.retries ==> r is None,
            attempt < self.retries ==> r == Some(backoff_delay(self.initial_delay_secs, attempt as nat)),
    {
        if attempt >= self.retries {
            return None;
        }
        let mut d = self.initial_delay_secs;
        let mut j: u32 = 0;
        while j < attempt
            invariant
                j <= attempt,
                d == backoff_delay(self.initial_delay_secs, j as nat),
            decreases attempt - j,
        {
            if d >= 0x8000_0000_0000_0000 {
                d = u64::MAX;
            } else {
                d = 2 * d;
            }
            j += 1;
        }
        Some(d)
    }

    /// Delay in seconds before retry `attempt` under fixed backoff; `None`
    /// once the attempts are spent.
    pub fn next_delay_fixed(&self, attempt: u32) -> (r: Option<u64>)
        ensures
            attempt >= self.retries ==> r is None,
            attempt < self.retries ==> r == Some(self.initial_delay_secs),
    {
        if attempt >= self.retries {
            None
        } else {
            Some(self.initial_delay_secs)
        }
    }
}

/// What the dispatcher does next after a specialized processor ran.
#[derive(Debug)]
pub enum DispatcherStep {
    Deliver(MessageHandled),
    Fail(MediaDownloaderError),
    Generic,
}

/// The fall-through rule of the dispatcher: content from a specialized
/// processor is delivered, its error is terminal, and "no content" falls
/// through to the generic downloader.
pub fn processor_outcome_step(
    outcome: Result<Option<MessageContent>, MediaDownloaderError>,
) -> (r: DispatcherStep)
    ensures
        match r {
            DispatcherStep::Deliver(m) => outcome matches Ok(Some(c)) && m.content == Some(c),
            DispatcherStep::Fail(e) => outcome matches Err(e0) && e == e0,
            DispatcherStep::Generic => outcome matches Ok(None),
        },
{
    match outcome {
        Ok(Some(content)) => DispatcherStep::Deliver(MessageHandled { content: Some(content) }),
        Ok(None) => DispatcherStep::Generic,
        Err(e) => DispatcherStep::Fail(e),
    }
}

/// First stage of handling one bus message: classify the URL, validate the
/// domain against the allow-list, derive the resource id, and route to a
/// specialized processor where one matches.  An invalid URL and an
/// unsupported domain are rejected here, before any outside work.
pub fn classify_request(message_url: &str, supported_sites: &SupportedSites) -> (r: Result<
    (UrlFormatter, String, Option<ProcessorType>),
    MediaDownloaderError,
>)
    ensures
        ({
            let ok = url_ok_of(message_url@) && url_host_of(message_url@) is Some;
            match r {
                Err(e) => if !ok {
                    e == MediaDownloaderError::InvalidUrl
                } else {
                    (url_host_of(message_url@) matches Some(h)
                        && !supported_sites.spec_sites().contains(domain_of(h))) && e
                        == MediaDownloaderError::UnsupportedDomain
                },
                Ok(triple) => ok && (url_host_of(message_url@) matches Some(h) && {
                    &&& supported_sites.spec_sites().contains(domain_of(h))
                    &&& triple.0 matches UrlFormatter::Valid(u, d) && u@ == url_norm_of(
                        message_url@,
                    ) && (d matches DomainExtracted::Domain(ds) && ds@ == domain_of(h))
                    &&& is_suffix_after_last(message_url@, '/', triple.1@)
                    &&& (triple.2 is Some <==> contains_sub(message_url@, "tiktok.com"@))
                    &&& triple.2 matches Some(ProcessorType::TikTok(t)) ==> t.id@ == triple.1@
                        && t.url@ == message_url@ && t.mobile_experience == contains_sub(
                        message_url@,
                        "vm.tiktok.com"@,
                    )
                }),
            }
        }),
{
    let url_formatted = UrlFormatter::new(message_url);
    match url_formatted {
        UrlFormatter::Valid(u, d) => {
            match d {
                DomainExtracted::Domain(ds) => {
                    if !supported_sites.is_supported(ds.as_str()) {
                        return Err(MediaDownloaderError::UnsupportedDomain);
                    }
                    let url_id = match extract_id_from_url(message_url) {
                        Ok(id) => id,
                        Err(_) => {
                            proof {
                                assert(false);
                            }
                            String::new()
                        },
                    };
                    let processor = route_to_processor(message_url, url_id.as_str());
                    Ok((UrlFormatter::Valid(u, DomainExtracted::Domain(ds)), url_id, processor))
                },
            }
        },
        UrlFormatter::NotValid => Err(MediaDownloaderError::InvalidUrl),
    }
}

/// The generic path of one dispatcher pass, with the outside observations
/// as plain values: `download_exit_ok` says whether the external download
/// tool exited cleanly (it is not consulted when the store already had the
/// key), and `observed_size` what the shell then saw on disk under the
/// expected video path (`None`: absent).  A non-zero tool exit is a failed
/// blob retrieval, and the freshly recorded key is purged so the next
/// identical request downloads afresh.  Otherwise a clean artifact under
/// the size ceiling is the delivered content; every failure is a typed
/// error, and a missing file purges the stale store key.
pub fn dispatch_generic(
    store: &mut MetadataStore,
    url: &UrlFormatter,
    url_id: &str,
    download_exit_ok: bool,
    observed_size: Option<u64>,
) -> (r: Result<MessageHandled, MediaDownloaderError>)
    requires
        old(store).wf(),
        url matches UrlFormatter::Valid(_, _),
    ensures
        final(store).wf(),
        ({
            let hit = old(store)@.contains_key(url_id@);
            let after_check = if hit {
                old(store)@
            } else {
                old(store)@.insert(
                    url_id@,
                    (video_target_path(url_id@), Some(DEFAULT_REDIS_TTL)),
                )
            };
            if !hit && !download_exit_ok {
                r == Err::<MessageHandled, _>(MediaDownloaderError::BlobRetrievingError)
                    && final(store)@ == old(store)@
            } else {
                match observed_size {
                    None => r == Err::<MessageHandled, _>(
                        MediaDownloaderError::BlobRetrievingError,
                    ) && final(store)@ == after_check.remove(url_id@),
                    Some(sz) => final(store)@ == after_check && (if sz > MAX_FILE_SIZE {
                        r == Err::<MessageHandled, _>(MediaDownloaderError::FileSizeExceeded)
                    } else {
                        (r matches Ok(m) && m.content matches Some(MessageContent::File(p))
                            && p@ == video_target_path(url_id@))
                    }),
                }
            }
        }),
{
    let plan = download_video(store, url, url_id);
    match plan {
        Some(_args) => {
            if !download_exit_ok {
                store.del(url_id);
                proof {
                    assert(store@ =~= old(store)@);
                }
                return Err(MediaDownloaderError::BlobRetrievingError);
            }
        },
        None => (),
    }
    match retrieve_blob(store, url_id, observed_size) {
        Ok(path) => Ok(MessageHandled { content: Some(MessageContent::File(path)) }),
        Err(e) => Err(e),
    }
}

} // verus!

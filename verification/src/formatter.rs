//! URL classification: parsing a raw string into a validated URL plus an
//! extracted domain, or rejecting it.
//!
//! Parsing itself is done by the `url` crate behind a trusted wrapper; the
//! domain-extraction rule (strip the leftmost label of a `www`-carrying host
//! or of the mobile short-link host) is verified here.

use vstd::prelude::*;

use crate::errors::MediaDownloaderError;
use crate::strutil::{contains_sub, find_first, str_contains, str_eq};

verus! {

/// Whether `url::Url::parse` accepts the string as an absolute URL.
pub uninterp spec fn url_ok_of(s: Seq<char>) -> bool;

/// The normalized text (`Url::as_str`) of the parsed URL.
pub uninterp spec fn url_norm_of(s: Seq<char>) -> Seq<char>;

/// The host (`Url::host_str`) of the parsed URL, if it has one.
pub uninterp spec fn url_host_of(s: Seq<char>) -> Option<Seq<char>>;

/// The path (`Url::path`) of the parsed URL.
pub uninterp spec fn url_path_of(s: Seq<char>) -> Seq<char>;

/// Parsed pieces of an absolute URL, as plain strings.
pub struct UrlParts {
    pub normalized: String,
    pub host: Option<String>,
    pub path: String,
}

/// Relies on `url::Url::parse`, with `Url::as_str`, `Url::host_str` and
/// `Url::path` picking the result apart: whether a string parses, and the
/// normalized text, host and path of the parsed URL, are functions of the
/// string alone.
#[verifier::external_body]
pub(crate) fn parse_url(s: &str) -> (r: Option<UrlParts>)
    ensures
        r is Some <==> url_ok_of(s@),
        r matches Some(p) ==> {
            &&& p.normalized@ == url_norm_of(s@)
            &&& (p.host matches Some(h) ==> url_host_of(s@) == Some(h@))
            &&& (p.host is None ==> url_host_of(s@) is None)
            &&& p.path@ == url_path_of(s@)
        },
{
    match url::Url::parse(s) {
        Ok(u) => Some(
            UrlParts {
                normalized: u.as_str().to_string(),
                host: u.host_str().map(|h| h.to_string()),
                path: u.path().to_string(),
            },
        ),
        Err(_) => None,
    }
}

/// The characters of `h` after its first `'.'`; empty when `h` has no `'.'`.
pub open spec fn strip_first_label(h: Seq<char>) -> Seq<char>
    decreases h.len(),
{
    if h.len() == 0 {
        Seq::empty()
    } else if h[0] == '.' {
        h.subrange(1, h.len() as int)
    } else {
        strip_first_label(h.subrange(1, h.len() as int))
    }
}

/// When the first `'.'` of `h` stands at `i`, stripping the first label
/// keeps exactly the characters after it.
pub proof fn lemma_strip_at_first_dot(h: Seq<char>, i: int)
    requires
        0 <= i < h.len(),
        h[i] == '.',
        forall|j: int| 0 <= j < i ==> h[j] != '.',
    ensures
        strip_first_label(h) == h.subrange(i + 1, h.len() as int),
    decreases i,
{
    if i == 0 {
    } else {
        let t = h.subrange(1, h.len() as int);
        lemma_strip_at_first_dot(t, i - 1);
        assert(t.subrange(i, t.len() as int) =~= h.subrange(i + 1, h.len() as int));
    }
}

/// A host without a `'.'` strips to the empty string.
pub proof fn lemma_strip_no_dot(h: Seq<char>)
    requires
        forall|j: int| 0 <= j < h.len() ==> h[j] != '.',
    ensures
        strip_first_label(h) == Seq::<char>::empty(),
    decreases h.len(),
{
    if h.len() > 0 {
        lemma_strip_no_dot(h.subrange(1, h.len() as int));
    }
}

/// The stripping rule applies to hosts containing `www` (except the exempt
/// mobile video host) and to the mobile short-link host.
pub open spec fn host_needs_strip(h: Seq<char>) -> bool {
    (contains_sub(h, "www"@) && h != "youtu.be"@) || h == "vm.tiktok.com"@
}

/// The domain extracted from a host.
pub open spec fn domain_of(h: Seq<char>) -> Seq<char> {
    if host_needs_strip(h) {
        strip_first_label(h)
    } else {
        h
    }
}

/// Hosts that contain `www` and are not the exempt mobile video host have
/// exactly their leftmost label stripped.
pub proof fn lemma_www_strips_leftmost_label(h: Seq<char>)
    requires
        contains_sub(h, "www"@),
        h != "youtu.be"@,
    ensures
        domain_of(h) == strip_first_label(h),
{
}

/// A domain string extracted from a validated URL.
#[derive(Debug)]
pub enum DomainExtracted {
    Domain(String),
}

/// A raw string classified as a validated URL with its domain, or rejected.
#[derive(Debug)]
pub enum UrlFormatter {
    Valid(String, DomainExtracted),
    NotValid,
}

impl UrlFormatter {
    /// Classifies a raw string.  `Valid` carries the normalized URL text and
    /// the extracted domain; empty, unparsable and host-less inputs are
    /// `NotValid`.
    pub fn new(url: &str) -> (r: Self)
        ensures
            match r {
                UrlFormatter::Valid(u, d) => {
                    &&& url_ok_of(url@)
                    &&& u@ == url_norm_of(url@)
                    &&& match d {
                        DomainExtracted::Domain(ds) => url_host_of(url@) matches Some(h) && ds@
                            == domain_of(h),
                    }
                },
                UrlFormatter::NotValid => !url_ok_of(url@) || url_host_of(url@) is None,
            },
    {
        match parse_url(url) {
            Some(parts) => {
                let host: String = match parts.host {
                    Some(h) => h,
                    None => {
                        return UrlFormatter::NotValid;
                    },
                };
                let domain = Self::domain_of_host(host);
                UrlFormatter::Valid(parts.normalized, DomainExtracted::Domain(domain))
            },
            None => UrlFormatter::NotValid,
        }
    }

    /// Applies the domain-extraction rule to a host string.
    fn domain_of_host(host: String) -> (r: String)
        ensures
            r@ == domain_of(host@),
    {
        let needs_strip = (str_contains(host.as_str(), "www") && !str_eq(
            host.as_str(),
            "youtu.be",
        )) || str_eq(host.as_str(), "vm.tiktok.com");
        if needs_strip {
            let len = host.as_str().unicode_len();
            match find_first(host.as_str(), '.') {
                Some(i) => {
                    let d = host.as_str().substring_char(i + 1, len).to_owned();
                    proof {
                        lemma_strip_at_first_dot(host@, i as int);
                    }
                    d
                },
                None => {
                    proof {
                        lemma_strip_no_dot(host@);
                    }
                    String::new()
                },
            }
        } else {
            host
        }
    }

    /// The domain of a raw URL string: the host, with the stripping rule
    /// applied; `None` when the string does not parse or has no host.
    pub fn extract_domain(url: &str) -> (r: Option<String>)
        ensures
            r is Some <==> (url_ok_of(url@) && url_host_of(url@) is Some),
            r matches Some(d) ==> url_host_of(url@) matches Some(h) && d@ == domain_of(h),
    {
        match parse_url(url) {
            Some(parts) => match parts.host {
                Some(h) => Some(Self::domain_of_host(h)),
                None => None,
            },
            None => None,
        }
    }

    /// The normalized URL text of a `Valid` classification.
    pub fn get_url_string<'a>(&'a self) -> (r: Result<&'a str, MediaDownloaderError>)
        ensures
            match self {
                UrlFormatter::Valid(u, _) => r matches Ok(s) && s@ == u@,
                UrlFormatter::NotValid => r == Err::<&'a str, _>(
                    MediaDownloaderError::InvalidUrl,
                ),
            },
    {
        match self {
            UrlFormatter::Valid(u, _) => Ok(u.as_str()),
            UrlFormatter::NotValid => Err(MediaDownloaderError::InvalidUrl),
        }
    }

    /// The extracted domain of a `Valid` classification.
    pub fn get_domain_string<'a>(&'a self) -> (r: Result<&'a str, MediaDownloaderError>)
        ensures
            match self {
                UrlFormatter::Valid(_, d) => match d {
                    DomainExtracted::Domain(ds) => r matches Ok(s) && s@ == ds@,
                },
                UrlFormatter::NotValid => r == Err::<&'a str, _>(
                    MediaDownloaderError::InvalidUrl,
                ),
            },
    {
        match self {
            UrlFormatter::Valid(_, d) => match d {
                DomainExtracted::Domain(ds) => Ok(ds.as_str()),
            },
            UrlFormatter::NotValid => Err(MediaDownloaderError::InvalidUrl),
        }
    }
}

} // verus!

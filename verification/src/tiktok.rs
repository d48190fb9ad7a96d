//! The site-specific processor: a state machine that canonicalizes the
//! fetched page URL, re-derives the resource id, decides the resource shape,
//! extracts the embedded data blob, and resolves direct media URLs — either
//! from the embedded data or from the fallback lookup API's response.
//!
//! Page fetching, API calls and byte streaming are the shell's work; every
//! decision between them is verified here.

use vstd::prelude::*;

use crate::errors::MediaDownloaderError;
use crate::formatter::{parse_url, url_norm_of, url_ok_of};
use crate::strutil::{contains_sub, is_digit, is_sub_at, matches_at, str_contains, str_eq,
    strip_all, strip_marker};

verus! {

/// Expected shape of the resource, decided from the URL before any data is
/// parsed.
#[derive(Debug, Copy, Clone, PartialEq, Eq, Structural)]
pub enum ResourceType {
    Video,
    Slideshow,
}

/// The processor's state: the resource id, the working URL, the mobile
/// flag that routing set, the decided shape, and the resolved media.
#[derive(Debug)]
pub struct TikTokProcessor {
    pub id: String,
    pub url: String,
    pub mobile_experience: bool,
    pub resource_type: ResourceType,
    pub slideshows: Vec<String>,
    pub download_url: Option<String>,
    pub slideshows_map: Vec<(i32, String)>,
}

impl Default for TikTokProcessor {
    /// An empty processor: the mobile flag raised, the shape video, and
    /// nothing resolved yet.
    fn default() -> (r: TikTokProcessor)
        ensures
            r.id@.len() == 0,
            r.url@.len() == 0,
            r.mobile_experience == true,
            r.resource_type == ResourceType::Video,
            r.slideshows@.len() == 0,
            r.download_url is None,
            r.slideshows_map@.len() == 0,
    {
        TikTokProcessor {
            id: String::new(),
            url: String::new(),
            mobile_experience: true,
            resource_type: ResourceType::Video,
            slideshows: Vec::new(),
            download_url: None,
            slideshows_map: Vec::new(),
        }
    }
}

impl TikTokProcessor {
    /// A fresh processor for the given id and URL.  The mobile flag starts
    /// raised, the shape defaults to video, and nothing is resolved yet.
    pub fn new(id: String, url: String) -> (r: TikTokProcessor)
        ensures
            r.id == id,
            r.url == url,
            r.mobile_experience == true,
            r.resource_type == ResourceType::Video,
            r.slideshows@.len() == 0,
            r.download_url is None,
            r.slideshows_map@.len() == 0,
    {
        TikTokProcessor {
            id,
            url,
            mobile_experience: true,
            resource_type: ResourceType::Video,
            slideshows: Vec::new(),
            download_url: None,
            slideshows_map: Vec::new(),
        }
    }

    pub fn get_id(&self) -> (r: String)
        ensures
            r@ == self.id@,
    {
        self.id.clone()
    }

    pub fn set_mobile_experience(&mut self, mobile_experience: bool)
        ensures
            *final(self) == (TikTokProcessor { mobile_experience, ..*old(self) }),
    {
        self.mobile_experience = mobile_experience;
    }

    pub fn set_id(&mut self, id: String)
        ensures
            *final(self) == (TikTokProcessor { id, ..*old(self) }),
    {
        self.id = id;
    }

    pub fn set_url(&mut self, url: String)
        ensures
            *final(self) == (TikTokProcessor { url, ..*old(self) }),
    {
        self.url = url;
    }

    /// Decides the expected shape from the working URL: a URL carrying the
    /// literal `video` is a video, anything else a slideshow.  A heuristic
    /// set before any data is parsed.
    pub fn check_tiktok_resource(&mut self)
        ensures
            *final(self) == (TikTokProcessor {
                resource_type: if contains_sub(old(self).url@, "video"@) {
                    ResourceType::Video
                } else {
                    ResourceType::Slideshow
                },
                ..*old(self)
            }),
    {
        if str_contains(self.url.as_str(), "video") {
            self.resource_type = ResourceType::Video;
        } else {
            self.resource_type = ResourceType::Slideshow;
        }
    }
}

/// The end of the run of decimal digits of `p` that starts at `k`.
pub open spec fn digit_run_end(p: Seq<char>, k: int) -> int
    decreases p.len() - k,
    when 0 <= k <= p.len()
{
    if k < p.len() && is_digit(p[k]) {
        digit_run_end(p, k + 1)
    } else {
        k
    }
}

/// The pattern `<marker><digits>` matches in `p` at position `i`.
pub open spec fn caps_at(p: Seq<char>, marker: Seq<char>, i: int) -> bool {
    is_sub_at(p, marker, i) && i + marker.len() < p.len() && is_digit(p[i + marker.len()])
}

/// `s` is the digit run captured at the first match of `<marker><digits>`
/// in `p`.
pub open spec fn captured(p: Seq<char>, marker: Seq<char>, s: Seq<char>) -> bool {
    exists|i: int|
        caps_at(p, marker, i) && (forall|j: int| 0 <= j < i ==> !caps_at(p, marker, j)) && s
            == p.subrange(i + marker.len(), digit_run_end(p, i + marker.len() as int))
}

/// Finds the first `<marker><digits>` match in `path` and returns the digit
/// run after the marker.
fn capture_digits_after(path: &str, marker: &str) -> (r: Option<String>)
    ensures
        r is Some <==> exists|i: int| caps_at(path@, marker@, i),
        r matches Some(s) ==> captured(path@, marker@, s@),
{
    let plen = path.unicode_len();
    let mlen = marker.unicode_len();
    if plen < 1 || mlen >= plen {
        assert(forall|i: int| !caps_at(path@, marker@, i));
        return None;
    }
    let bound = plen - mlen;
    let mut i: usize = 0;
    while i < bound
        invariant
            i <= bound,
            bound == plen - mlen,
            mlen < plen,
            plen == path@.len(),
            mlen == marker@.len(),
            forall|j: int| 0 <= j < i ==> !caps_at(path@, marker@, j),
        decreases bound - i,
    {
        if matches_at(path, marker, i) {
            let dstart = i + mlen;
            let c = path.get_char(dstart) as u32;
            if 48 <= c && c <= 57 {
                assert(caps_at(path@, marker@, i as int));
                let mut j: usize = dstart;
                while j < plen
                    invariant
                        dstart <= j <= plen,
                        plen == path@.len(),
                        digit_run_end(path@, dstart as int) == digit_run_end(path@, j as int),
                    ensures
                        dstart <= j <= plen,
                        digit_run_end(path@, dstart as int) == digit_run_end(path@, j as int),
                        j == plen || !is_digit(path@[j as int]),
                    decreases plen - j,
                {
                    let cj = path.get_char(j) as u32;
                    if !(48 <= cj && cj <= 57) {
                        assert(!is_digit(path@[j as int]));
                        break;
                    }
                    j += 1;
                }
                assert(digit_run_end(path@, dstart as int) == j);
                let run = path.substring_char(dstart, j).to_owned();
                return Some(run);
            }
        }
        assert(!caps_at(path@, marker@, i as int));
        i += 1;
    }
    assert(forall|j: int| caps_at(path@, marker@, j) ==> 0 <= j < i);
    None
}

/// Re-derives the resource id from a final page path, accepting the two
/// known shapes `/video/<digits>` and `/photo/<digits>` (in that order of
/// preference); `None` when neither matches.
pub fn extract_tiktok_id_from_path(path: &str) -> (r: Option<String>)
    ensures
        ({
            let p = path@;
            if exists|i: int| caps_at(p, "/video/"@, i) {
                r matches Some(s) && captured(p, "/video/"@, s@)
            } else if exists|i: int| caps_at(p, "/photo/"@, i) {
                r matches Some(s) && captured(p, "/photo/"@, s@)
            } else {
                r is None
            }
        }),
{
    match capture_digits_after(path, "/video/") {
        Some(s) => Some(s),
        None => capture_digits_after(path, "/photo/"),
    }
}

impl TikTokProcessor {
    /// Step after the page fetch.  On a success status the state machine
    /// adopts the final (possibly redirected) URL — in mobile mode with
    /// everything from the last `?` on stripped — decides the expected
    /// shape from it, and re-derives the id from the final path where one
    /// of the accepted shapes matches (keeping the old id otherwise).  A
    /// non-2xx status is fatal and changes nothing.
    pub fn page_fetched(&mut self, status: u16, final_url: &str, final_path: &str) -> (r: Result<
        (),
        MediaDownloaderError,
    >)
        ensures
            !(200 <= status < 300) ==> r == Err::<(), _>(MediaDownloaderError::UnreachableResource)
                && *final(self) == *old(self),
            200 <= status < 300 ==> r is Ok && {
                &&& canonical_url(old(self).mobile_experience, final_url@, final(self).url@)
                &&& final(self).resource_type == (if contains_sub(final(self).url@, "video"@) {
                    ResourceType::Video
                } else {
                    ResourceType::Slideshow
                })
                &&& id_update_ok(final_path@, old(self).id@, final(self).id@)
                &&& final(self).mobile_experience == old(self).mobile_experience
                &&& final(self).slideshows == old(self).slideshows
                &&& final(self).download_url == old(self).download_url
                &&& final(self).slideshows_map == old(self).slideshows_map
            },
    {
        if !(200 <= status && status < 300) {
            return Err(MediaDownloaderError::UnreachableResource);
        }
        if self.mobile_experience {
            match crate::strutil::before_last(final_url, '?') {
                Some(head) => self.set_url(head),
                None => self.set_url(final_url.to_owned()),
            }
        } else {
            self.set_url(final_url.to_owned());
        }
        self.check_tiktok_resource();
        match extract_tiktok_id_from_path(final_path) {
            Some(id) => self.set_id(id),
            None => (),
        }
        Ok(())
    }
}

/// `u` is `fetched` canonicalized: unchanged outside mobile mode; in mobile
/// mode, cut before the last `?` (unchanged when there is none).
pub open spec fn canonical_url(mobile: bool, fetched: Seq<char>, u: Seq<char>) -> bool {
    if mobile {
        if exists|j: int| 0 <= j < fetched.len() && fetched[j] == '?' {
            exists|j: int|
                0 <= j < fetched.len() && fetched[j] == '?' && (forall|k: int|
                    j < k < fetched.len() ==> fetched[k] != '?') && u == fetched.subrange(0, j)
        } else {
            u == fetched
        }
    } else {
        u == fetched
    }
}

/// `new_id` is the id re-derived from the final path, or `old_id` when no
/// accepted path shape matches.
pub open spec fn id_update_ok(p: Seq<char>, old_id: Seq<char>, new_id: Seq<char>) -> bool {
    if exists|i: int| caps_at(p, "/video/"@, i) {
        captured(p, "/video/"@, new_id)
    } else if exists|i: int| caps_at(p, "/photo/"@, i) {
        captured(p, "/photo/"@, new_id)
    } else {
        new_id == old_id
    }
}

/// The inner text of the first `script` element with the given `id`
/// attribute in the document, as `scraper` parses it.
pub uninterp spec fn script_inner_of(html: Seq<char>, id: Seq<char>) -> Option<Seq<char>>;

/// Relies on `scraper`: `Html::parse_document`, `Selector::parse` on
/// `script[id="<id>"]`, and `ElementRef::inner_html` of the first match.
/// What it finds is a function of the document and the id alone.
#[verifier::external_body]
fn find_script_inner_html(html: &str, id: &str) -> (r: Option<String>)
    ensures
        r matches Some(s) ==> script_inner_of(html@, id@) == Some(s@),
        r is None ==> script_inner_of(html@, id@) is None,
{
    let document = scraper::Html::parse_document(html);
    let selector = match scraper::Selector::parse(&format!(r#"script[id="{}"]"#, id)) {
        Ok(s) => s,
        Err(_) => {
            return None;
        },
    };
    document.select(&selector).next().map(|element| element.inner_html())
}

/// Locates the embedded data blob: the primary script element, then the
/// secondary, then the not-found sentinel.  Empty content yields an empty
/// extraction.  A primary blob that reads exactly like the sentinel is
/// treated as absent.
pub fn retrieving_script(content: String) -> (r: String)
    ensures
        content@.len() == 0 ==> r@ == Seq::<char>::empty(),
        content@.len() > 0 ==> {
            let primary = script_inner_of(content@, "SIGI_STATE"@);
            let secondary = script_inner_of(content@, "__UNIVERSAL_DATA_FOR_REHYDRATION__"@);
            let fallback = match secondary {
                Some(s2) => r@ == s2,
                None => r@ == "NOT_FOUND"@,
            };
            match primary {
                Some(s) => if s != "NOT_FOUND"@ {
                    r@ == s
                } else {
                    fallback
                },
                None => fallback,
            }
        },
{
    if content.as_str().is_empty() {
        return String::new();
    }
    match find_script_inner_html(content.as_str(), "SIGI_STATE") {
        Some(s) => {
            if !str_eq(s.as_str(), "NOT_FOUND") {
                return s;
            }
        },
        None => (),
    }
    match find_script_inner_html(content.as_str(), "__UNIVERSAL_DATA_FOR_REHYDRATION__") {
        Some(s2) => s2,
        None => String::from_str("NOT_FOUND"),
    }
}

/// The candidate bitrate URL list embedded in the page blob, at
/// `__DEFAULT_SCOPE__ → webapp.video-detail → itemInfo → itemStruct →
/// video → bitrateInfo[0] → PlayAddr → UrlList`; `None` when the blob is
/// not JSON or the path is absent.
pub uninterp spec fn video_urls_of(json: Seq<char>) -> Option<Seq<Seq<char>>>;

/// Relies on `serde_json::from_str` and `Value` indexing along the fixed
/// path above: the extracted URL list is a function of the text alone.
#[verifier::external_body]
fn sigi_video_url_list(json: &str) -> (r: Option<Vec<String>>)
    ensures
        r matches Some(v) ==> video_urls_of(json@) == Some(v.deep_view()),
        r is None ==> video_urls_of(json@) is None,
{
    let value: serde_json::Value = serde_json::from_str(json).ok()?;
    let urls = value["__DEFAULT_SCOPE__"]["webapp.video-detail"]["itemInfo"]["itemStruct"]["video"]["bitrateInfo"][0]["PlayAddr"]["UrlList"]
        .as_array()?
        .iter()
        .map(|u| u.as_str().unwrap_or("").to_string())
        .collect();
    Some(urls)
}

/// `u` is a validly resolved video URL drawn from the candidate list
/// `urls`: the normalized form of one of the first two candidates with the
/// `amp;` escaping stripped.
pub open spec fn picked_from(urls: Seq<Seq<char>>, u: Seq<char>) -> bool {
    exists|idx: int|
        {
            &&& 0 <= idx < urls.len()
            &&& idx < 2
            &&& url_ok_of(strip_marker(#[trigger] urls[idx], "amp;"@))
            &&& u == url_norm_of(strip_marker(urls[idx], "amp;"@))
        }
}

impl TikTokProcessor {
    /// Resolves the direct video URL from the embedded page blob: one of the
    /// first two candidate bitrate URLs (both acceptable quality tiers) is
    /// drawn at random, HTML entity escaping (`amp;`) is stripped, and the
    /// result must itself parse as a URL.  Fails when the blob is not
    /// usable JSON, the candidate list is empty, or the candidate does not
    /// parse.
    pub fn parse_video(&self, json: &str) -> (r: Result<String, MediaDownloaderError>)
        ensures
            video_urls_of(json@) is None ==> r == Err::<String, _>(
                MediaDownloaderError::ParsingError,
            ),
            (video_urls_of(json@) matches Some(urls) && urls.len() == 0) ==> r == Err::<
                String,
                _,
            >(MediaDownloaderError::ParsingError),
            r matches Err(e) ==> e == MediaDownloaderError::ParsingError,
            r matches Ok(u) ==> (video_urls_of(json@) matches Some(urls) && picked_from(
                urls,
                u@,
            )),
            (video_urls_of(json@) matches Some(urls) && urls.len() > 0 && (forall|i: int|
                0 <= i < urls.len() && i < 2 ==> url_ok_of(
                    strip_marker(#[trigger] urls[i], "amp;"@),
                ))) ==> r is Ok,
            r is Err ==> video_urls_of(json@) is None || (video_urls_of(json@) matches Some(urls)
                && (urls.len() == 0 || exists|i: int|
                0 <= i < urls.len() && i < 2 && !url_ok_of(
                    strip_marker(#[trigger] urls[i], "amp;"@),
                ))),
    {
        let urls = match sigi_video_url_list(json) {
            Some(urls) => urls,
            None => {
                return Err(MediaDownloaderError::ParsingError);
            },
        };
        if urls.len() == 0 {
            return Err(MediaDownloaderError::ParsingError);
        }
        let pool: usize = if urls.len() >= 2 {
            2
        } else {
            1
        };
        let idx = crate::entropy::random_index(pool);
        proof {
            reveal_strlit("amp;");
        }
        let candidate = strip_all(urls[idx].as_str(), "amp;");
        match parse_url(candidate.as_str()) {
            Some(parts) => {
                proof {
                    let vs = urls.deep_view();
                    assert(vs[idx as int] == urls@[idx as int]@);
                    assert((idx as int) < vs.len() && (idx as int) < 2 && url_ok_of(
                        strip_marker(vs[idx as int], "amp;"@),
                    ) && parts.normalized@ == url_norm_of(strip_marker(vs[idx as int], "amp;"@)));
                    assert(picked_from(vs, parts.normalized@));
                }
                Ok(parts.normalized)
            },
            None => {
                proof {
                    let vs = urls.deep_view();
                    assert(vs[idx as int] == urls@[idx as int]@);
                    assert((idx as int) < vs.len() && (idx as int) < 2 && !url_ok_of(
                        strip_marker(vs[idx as int], "amp;"@),
                    ));
                    assert(exists|i: int|
                        0 <= i < vs.len() && i < 2 && !url_ok_of(
                            strip_marker(#[trigger] vs[i], "amp;"@),
                        ));
                }
                Err(MediaDownloaderError::ParsingError)
            },
        }
    }
}

/// Cover-image metadata of a resource, as the page embeds it.
#[derive(Debug)]
pub struct ImageInfo {
    pub images: Vec<CoverInfo>,
}

/// One cover entry.
#[derive(Debug)]
pub struct CoverInfo {
    pub image_url: ImageURL,
}

/// The candidate URLs of one cover image.
#[derive(Debug)]
pub struct ImageURL {
    pub url_list: Vec<String>,
}

/// The fallback lookup API cannot be called without its configuration: the
/// resolution then fails as a download error.
pub fn require_aweme_config<'a>(config: Option<&'a crate::aweme::AwemeConfig>) -> (r: Result<
    &'a crate::aweme::AwemeConfig,
    MediaDownloaderError,
>)
    ensures
        match config {
            Some(c) => r matches Ok(rc) && rc == c,
            None => r == Err::<&'a crate::aweme::AwemeConfig, _>(
                MediaDownloaderError::DownloadError,
            ),
        },
{
    match config {
        Some(c) => Ok(c),
        None => Err(MediaDownloaderError::DownloadError),
    }
}

/// What the fallback lookup API's response resolved to.
#[derive(Debug)]
pub enum AwemeParsingResult {
    Images(Vec<(i32, String)>),
    Video(String),
}

/// Whether the text fails to parse as JSON, or parses to JSON `null`.
pub uninterp spec fn json_null_of(s: Seq<char>) -> bool;

/// Relies on `serde_json::from_str` and `Value::is_null`: both are
/// functions of the text alone.
#[verifier::external_body]
fn json_is_null_or_invalid(s: &str) -> (r: bool)
    ensures
        r == json_null_of(s@),
{
    match serde_json::from_str::<serde_json::Value>(s) {
        Ok(v) => v.is_null(),
        Err(_) => true,
    }
}

/// The response rule of the lookup API: any status but 200 is an
/// unreachable resource; a 200 whose body is absent, unparsable or null is
/// a parsing error.
pub fn aweme_response_step(status: u16, body: Option<&str>) -> (r: Result<
    (),
    MediaDownloaderError,
>)
    ensures
        status != 200 ==> r == Err::<(), _>(MediaDownloaderError::UnreachableResource),
        status == 200 ==> match body {
            None => r == Err::<(), _>(MediaDownloaderError::ParsingError),
            Some(b) => if json_null_of(b@) {
                r == Err::<(), _>(MediaDownloaderError::ParsingError)
            } else {
                r is Ok
            },
        },
{
    if status != 200 {
        return Err(MediaDownloaderError::UnreachableResource);
    }
    match body {
        None => Err(MediaDownloaderError::ParsingError),
        Some(b) => {
            if json_is_null_or_invalid(b) {
                Err(MediaDownloaderError::ParsingError)
            } else {
                Ok(())
            }
        },
    }
}

/// The first element of `urls` that contains `needle`, scanning front to
/// back.
pub open spec fn first_with(urls: Seq<Seq<char>>, needle: Seq<char>) -> Option<Seq<char>>
    decreases urls.len(),
{
    if urls.len() == 0 {
        None
    } else if contains_sub(urls[0], needle) {
        Some(urls[0])
    } else {
        first_with(urls.skip(1), needle)
    }
}

/// Finds the first entry containing `needle`.
fn find_first_containing(urls: &Vec<String>, needle: &str) -> (r: Option<String>)
    ensures
        match r {
            Some(u) => first_with(urls.deep_view(), needle@) == Some(u@),
            None => first_with(urls.deep_view(), needle@) is None,
        },
{
    let count = urls.len();
    let mut i: usize = 0;
    proof {
        assert(urls.deep_view().skip(0) =~= urls.deep_view());
    }
    while i < count
        invariant
            i <= count,
            count == urls@.len(),
            first_with(urls.deep_view(), needle@) == first_with(
                urls.deep_view().skip(i as int),
                needle@,
            ),
        decreases count - i,
    {
        proof {
            assert(urls.deep_view().skip(i as int)[0] == urls.deep_view()[i as int]);
            assert(urls.deep_view().skip(i as int).skip(1) =~= urls.deep_view().skip(i + 1));
        }
        if str_contains(urls[i].as_str(), needle) {
            return Some(urls[i].clone());
        }
        i += 1;
    }
    None
}

/// The URL list of candidate bitrates in the lookup API's response, at
/// `aweme_list[0] → video → bit_rate[0] → play_addr → url_list`; `None`
/// when the body is not JSON or the path is absent.
pub uninterp spec fn aweme_video_urls_of(json: Seq<char>) -> Option<Seq<Seq<char>>>;

/// Relies on `serde_json::from_str` and `Value` indexing along the fixed
/// path above: the extracted URL list is a function of the text alone.
#[verifier::external_body]
fn aweme_video_url_list(json: &str) -> (r: Option<Vec<String>>)
    ensures
        r matches Some(v) ==> aweme_video_urls_of(json@) == Some(v.deep_view()),
        r is None ==> aweme_video_urls_of(json@) is None,
{
    let value: serde_json::Value = serde_json::from_str(json).ok()?;
    let urls = value["aweme_list"][0]["video"]["bit_rate"][0]["play_addr"]["url_list"]
        .as_array()?
        .iter()
        .map(|u| u.as_str().unwrap_or("").to_string())
        .collect();
    Some(urls)
}

/// Scans the nested bitrate URL lists of the API response for an entry on
/// the known CDN host; scanning failures collapse to an empty URL, as does
/// an absent path.
pub fn parse_aweme_video(data: &str) -> (r: Result<String, MediaDownloaderError>)
    ensures
        r matches Ok(u) && (match aweme_video_urls_of(data@) {
            Some(urls) => match first_with(urls, "byteicdn.com"@) {
                Some(u0) => u@ == u0,
                None => u@.len() == 0,
            },
            None => u@.len() == 0,
        }),
{
    match aweme_video_url_list(data) {
        Some(urls) => match find_first_containing(&urls, "byteicdn.com") {
            Some(u) => Ok(u),
            None => Ok(String::new()),
        },
        None => Ok(String::new()),
    }
}

/// The per-image URL lists of the first result's image post in the lookup
/// API's response, at `aweme_list[0] → image_post_info → images[*] →
/// display_image → url_list`; `None` when the body is not JSON or the
/// images are absent.
pub uninterp spec fn aweme_image_lists_of(json: Seq<char>) -> Option<Seq<Seq<Seq<char>>>>;

/// Relies on `serde_json::from_str` and `Value` indexing along the fixed
/// path above: the extracted lists are a function of the text alone.
#[verifier::external_body]
fn aweme_image_url_lists(json: &str) -> (r: Option<Vec<Vec<String>>>)
    ensures
        r matches Some(v) ==> aweme_image_lists_of(json@) == Some(v.deep_view()),
        r is None ==> aweme_image_lists_of(json@) is None,
{
    let value: serde_json::Value = serde_json::from_str(json).ok()?;
    let images = value["aweme_list"][0]["image_post_info"]["images"].as_array()?;
    let lists = images
        .iter()
        .map(|image| {
            image["display_image"]["url_list"]
                .as_array()
                .map(|urls| urls.iter().map(|u| u.as_str().unwrap_or("").to_string()).collect())
                .unwrap_or_default()
        })
        .collect();
    Some(lists)
}

/// One image pick per entry: the first URL of each list that carries the
/// known image extension, keyed by the list's position.
pub open spec fn jpeg_picks(lists: Seq<Seq<Seq<char>>>) -> Seq<(int, Seq<char>)>
    decreases lists.len(),
{
    if lists.len() == 0 {
        Seq::empty()
    } else {
        let rest = jpeg_picks(lists.drop_last());
        match first_with(lists.last(), ".jpeg"@) {
            Some(u) => rest.push(((lists.len() - 1) as int, u)),
            None => rest,
        }
    }
}

/// The index/url pairs mirror the spec-level picks.
pub open spec fn pairs_match(pairs: Seq<(i32, String)>, picks: Seq<(int, Seq<char>)>) -> bool {
    &&& pairs.len() == picks.len()
    &&& forall|q: int|
        0 <= q < pairs.len() ==> (#[trigger] pairs[q]).0 as int == picks[q].0 && pairs[q].1@
            == picks[q].1
}

/// Walks the first result's image posts, keeping one URL per image entry —
/// the first that carries the known image extension — keyed by positional
/// index.  No usable image at all is a parsing error.
pub fn parse_aweme_slideshow(data: &str) -> (r: Result<Vec<(i32, String)>, MediaDownloaderError>)
    ensures
        match aweme_image_lists_of(data@) {
            None => r == Err::<Vec<(i32, String)>, _>(MediaDownloaderError::ParsingError),
            Some(lists) => if jpeg_picks(lists).len() == 0 || lists.len() > i32::MAX {
                r == Err::<Vec<(i32, String)>, _>(MediaDownloaderError::ParsingError)
            } else {
                r matches Ok(m) && pairs_match(m@, jpeg_picks(lists))
            },
        },
{
    let lists = match aweme_image_url_lists(data) {
        Some(lists) => lists,
        None => {
            return Err(MediaDownloaderError::ParsingError);
        },
    };
    if lists.len() > 0x7fff_ffff {
        return Err(MediaDownloaderError::ParsingError);
    }
    let mut images: Vec<(i32, String)> = Vec::new();
    let count = lists.len();
    let mut n: usize = 0;
    while n < count
        invariant
            n <= count,
            count == lists@.len(),
            count <= i32::MAX,
            pairs_match(images@, jpeg_picks(lists.deep_view().subrange(0, n as int))),
        decreases count - n,
    {
        proof {
            assert(lists.deep_view().subrange(0, n + 1).drop_last() =~= lists.deep_view().subrange(
                0,
                n as int,
            ));
            assert(lists.deep_view().subrange(0, n + 1).last() == lists.deep_view()[n as int]);
            assert(lists.deep_view()[n as int] == lists@[n as int].deep_view());
        }
        match find_first_containing(&lists[n], ".jpeg") {
            Some(u) => {
                images.push((n as i32, u));
            },
            None => (),
        }
        n += 1;
    }
    proof {
        assert(lists.deep_view().subrange(0, count as int) =~= lists.deep_view());
    }
    if images.is_empty() {
        Err(MediaDownloaderError::ParsingError)
    } else {
        proof {
            assert(jpeg_picks(lists.deep_view()).len() == images@.len());
        }
        Ok(images)
    }
}

/// Parses the lookup API's response body according to the shape that was
/// decided before the call.
pub fn parse_aweme_api(resource_type: &ResourceType, data: &str) -> (r: Result<
    AwemeParsingResult,
    MediaDownloaderError,
>)
    ensures
        resource_type is Video ==> (r matches Ok(AwemeParsingResult::Video(u)) && (
        match aweme_video_urls_of(data@) {
            Some(urls) => match first_with(urls, "byteicdn.com"@) {
                Some(u0) => u@ == u0,
                None => u@.len() == 0,
            },
            None => u@.len() == 0,
        })),
        resource_type is Slideshow ==> match aweme_image_lists_of(data@) {
            None => r == Err::<AwemeParsingResult, _>(MediaDownloaderError::ParsingError),
            Some(lists) => if jpeg_picks(lists).len() == 0 || lists.len() > i32::MAX {
                r == Err::<AwemeParsingResult, _>(MediaDownloaderError::ParsingError)
            } else {
                r matches Ok(AwemeParsingResult::Images(m)) && pairs_match(m@, jpeg_picks(lists))
            },
        },
{
    match resource_type {
        ResourceType::Video => {
            let video_url_str = parse_aweme_video(data)?;
            Ok(AwemeParsingResult::Video(video_url_str))
        },
        ResourceType::Slideshow => {
            let images = parse_aweme_slideshow(data)?;
            Ok(AwemeParsingResult::Images(images))
        },
    }
}

/// The parsed name and value of a Set-Cookie line, if it parses.
pub uninterp spec fn cookie_pair_of(line: Seq<char>) -> Option<(Seq<char>, Seq<char>)>;

/// Relies on `cookie::Cookie::parse`, with `name` and `value` picking the
/// pieces out: both are functions of the line alone.
#[verifier::external_body]
fn parse_cookie_pair(line: &str) -> (r: Option<(String, String)>)
    ensures
        r matches Some(p) ==> cookie_pair_of(line@) == Some((p.0@, p.1@)),
        r is None ==> cookie_pair_of(line@) is None,
{
    match cookie::Cookie::parse(line) {
        Ok(c) => Some((c.name().to_string(), c.value().to_string())),
        Err(_) => None,
    }
}

/// The injectable `name=value;` line of each Set-Cookie header that
/// parses, in order.
pub open spec fn cookie_lines_of(lines: Seq<Seq<char>>) -> Seq<Seq<char>>
    decreases lines.len(),
{
    if lines.len() == 0 {
        Seq::empty()
    } else {
        let rest = cookie_lines_of(lines.drop_last());
        match cookie_pair_of(lines.last()) {
            Some(p) => rest.push(p.0 + "="@ + p.1 + ";"@),
            None => rest,
        }
    }
}

/// Turns the Set-Cookie headers of the fetched page into `name=value;`
/// lines ready for injection; `None` when no header parses.
pub fn prepare_cookies_for_injection(lines: &Vec<String>) -> (r: Option<Vec<String>>)
    ensures
        r matches Some(v) ==> v.deep_view() == cookie_lines_of(lines.deep_view()) && v@.len() > 0,
        r is None ==> cookie_lines_of(lines.deep_view()).len() == 0,
{
    let mut cookies: Vec<String> = Vec::new();
    let count = lines.len();
    let mut i: usize = 0;
    while i < count
        invariant
            i <= count,
            count == lines@.len(),
            cookies.deep_view() == cookie_lines_of(lines.deep_view().subrange(0, i as int)),
        decreases count - i,
    {
        proof {
            assert(lines.deep_view().subrange(0, i + 1).drop_last() =~= lines.deep_view().subrange(
                0,
                i as int,
            ));
            assert(lines.deep_view().subrange(0, i + 1).last() == lines.deep_view()[i as int]);
        }
        match parse_cookie_pair(lines[i].as_str()) {
            Some(pair) => {
                let (name, value) = pair;
                let mut line = name;
                line.append("=");
                line.append(value.as_str());
                line.append(";");
                cookies.push(line);
                proof {
                    assert(cookies.deep_view() =~= cookie_lines_of(
                        lines.deep_view().subrange(0, i + 1),
                    ));
                }
            },
            None => {
                proof {
                    assert(cookies.deep_view() =~= cookie_lines_of(
                        lines.deep_view().subrange(0, i + 1),
                    ));
                }
            },
        }
        i += 1;
    }
    proof {
        assert(lines.deep_view().subrange(0, count as int) =~= lines.deep_view());
    }
    if cookies.is_empty() {
        None
    } else {
        Some(cookies)
    }
}

} // verus!

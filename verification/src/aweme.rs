//! Configuration of the fallback lookup ("aweme") API and the verified
//! construction of its query, user agent and version strings.

use vstd::prelude::*;

use crate::bus::{i64_to_string, int_str_of};
use crate::entropy::{new_correlation_id, random_in_range, random_index};
use crate::strutil::{all_digits, dec_of, digits_val, find_first, head_until, lemma_head_tail_at_first,
    lemma_head_tail_none, parse_u32_digits, str_eq, tail_after, two_digit_of, u32_to_two_digit_string,
    u64_to_string};

verus! {

/// Connection settings of the fallback lookup API.
#[derive(Debug, Clone)]
pub struct AwemeConfig {
    pub url: String,
    pub app_name: String,
    pub ua: String,
    pub headers: AwemeHeaders,
    pub params: AwemeParams,
}

/// Header values sent with every lookup API call.
#[derive(Debug, Clone)]
pub struct AwemeHeaders {
    pub accept_language: String,
    pub accept: String,
}

/// Device/app identity parameters of the lookup API query.
#[derive(Debug, Clone)]
pub struct AwemeParams {
    pub iid: Vec<String>,
    pub app_version: String,
    pub manifest_app_version: String,
    pub app_name: String,
    pub aid: i32,
    pub lower_bound: u64,
    pub upper_bound: u64,
    pub version_code: String,
    pub device_brand: String,
    pub device_type: String,
    pub resolution: String,
    pub dpi: String,
    pub os_version: String,
    pub os_api: String,
    pub sys_region: String,
    pub region: String,
    pub app_language: String,
    pub language: String,
    pub timezone_name: String,
    pub timezone_offset: String,
    pub ac: String,
    pub ssmix: String,
    pub os: String,
    pub app_type: String,
    pub residence: String,
    pub host_abi: String,
    pub locale: String,
    pub ac2: String,
    pub uoo: String,
    pub op_region: String,
    pub channel: String,
    pub is_pad: String,
}

/// The zero-padded expansion of a dotted version string: each dot-separated
/// component must be a nonempty digit string fitting a `u32`, and is
/// rendered as at least two digits.
pub open spec fn expanded_of(s: Seq<char>) -> Option<Seq<char>>
    decreases s.len(),
    via expanded_of_dec
{
    let head = head_until(s, '.');
    if !(head.len() > 0 && all_digits(head) && digits_val(head) <= u32::MAX) {
        None
    } else {
        match tail_after(s, '.') {
            None => Some(two_digit_of(digits_val(head))),
            Some(t) => match expanded_of(t) {
                None => None,
                Some(rest) => Some(two_digit_of(digits_val(head)) + rest),
            },
        }
    }
}

#[via_fn]
proof fn expanded_of_dec(s: Seq<char>) {
    crate::strutil::lemma_tail_after_len(s, '.');
}

/// Recursive worker of [`expand_app_version`].
fn expand_version_str(s: &str) -> (r: Option<String>)
    ensures
        match r {
            Some(f) => expanded_of(s@) == Some(f@),
            None => expanded_of(s@) is None,
        },
    decreases s@.len(),
{
    let len = s.unicode_len();
    match find_first(s, '.') {
        Some(d) => {
            proof {
                lemma_head_tail_at_first(s@, '.', d as int);
            }
            let head = s.substring_char(0, d);
            match parse_u32_digits(head) {
                Some(v) => {
                    let mut out = u32_to_two_digit_string(v);
                    let tail = s.substring_char(d + 1, len);
                    match expand_version_str(tail) {
                        Some(rest) => {
                            out.append(rest.as_str());
                            Some(out)
                        },
                        None => None,
                    }
                },
                None => None,
            }
        },
        None => {
            proof {
                lemma_head_tail_none(s@, '.');
            }
            match parse_u32_digits(s) {
                Some(v) => Some(u32_to_two_digit_string(v)),
                None => None,
            }
        },
    }
}

/// Expands a dotted version string (`1.2.3`) into the query's packed form
/// (`010203`); `None` when a component is not a plain number.
pub fn expand_app_version(app_version: String) -> (r: Option<String>)
    ensures
        match r {
            Some(f) => expanded_of(app_version@) == Some(f@),
            None => expanded_of(app_version@) is None,
        },
{
    expand_version_str(app_version.as_str())
}

/// The user agent sent to the lookup API: the platform package of the
/// configured app, its version code, and the configured agent suffix.
pub open spec fn user_agent_of(c: AwemeConfig) -> Seq<char> {
    let package = if c.app_name@ == "musical_ly"@ {
        "com.zhiliaoapp.musically"@
    } else {
        "com.ss.android.ugc."@ + c.app_name@
    };
    package + "/"@ + c.params.version_code@ + " "@ + c.ua@
}

/// Builds the lookup API's user agent string.
pub fn user_agent_aweme_api(config: &AwemeConfig) -> (r: String)
    ensures
        r@ == user_agent_of(*config),
{
    let mut package: String;
    if str_eq(config.app_name.as_str(), "musical_ly") {
        package = String::from_str("com.zhiliaoapp.musically");
    } else {
        package = String::from_str("com.ss.android.ugc.");
        package.append(config.app_name.as_str());
    }
    package.append("/");
    package.append(config.params.version_code.as_str());
    package.append(" ");
    package.append(config.ua.as_str());
    proof {
        assert(package@ =~= user_agent_of(*config));
    }
    package
}

/// The injectable cookie line carrying an unpredictable value `v`.
pub open spec fn cookie_line_of(v: Seq<char>) -> Seq<char> {
    "odin_tt="@ + v + ";"@
}

/// Draws the unpredictable cookie attached to every lookup API call: an
/// `odin_tt` value of 160 random alphanumeric characters.
pub fn odin_cookie_line() -> (r: String)
    ensures
        exists|v: Seq<char>| v.len() == 160 && r@ == #[trigger] cookie_line_of(v),
{
    let value = crate::entropy::random_alphanumeric(160);
    let mut line = String::from_str("odin_tt=");
    line.append(value.as_str());
    line.append(";");
    proof {
        assert(line@ =~= cookie_line_of(value@));
    }
    line
}

/// The signed-looking query of one lookup API call, given the drawn
/// installation id, correlation id, device id and install time.
pub open spec fn aweme_query_spec(
    id: Seq<char>,
    p: AwemeParams,
    iid: Seq<char>,
    cdid: Seq<char>,
    now_secs: u64,
    now_millis: u64,
    device_id: u64,
    last_install: int,
) -> Seq<(Seq<char>, Seq<char>)> {
    seq![
        ("aweme_id"@, id),
        ("version_name"@, p.app_version@),
        ("version_code"@, expanded_of(p.app_version@).unwrap()),
        ("build_number"@, p.app_version@),
        ("manifest_version_code"@, p.manifest_app_version@),
        ("update_version_code"@, p.version_code@),
        ("_rticket"@, dec_of(now_millis as nat)),
        ("ts"@, dec_of(now_secs as nat)),
        ("device_brand"@, p.device_brand@),
        ("device_type"@, p.device_type@),
        ("resolution"@, p.resolution@),
        ("dpi"@, p.dpi@),
        ("os_version"@, p.os_version@),
        ("os_api"@, p.os_api@),
        ("sys_region"@, p.sys_region@),
        ("region"@, p.region@),
        ("app_name"@, p.app_name@),
        ("app_language"@, p.app_language@),
        ("language"@, p.language@),
        ("timezone_name"@, p.timezone_name@),
        ("timezone_offset"@, p.timezone_offset@),
        ("ac"@, p.ac@),
        ("aid"@, int_str_of(p.aid as int)),
        ("ssmix"@, p.ssmix@),
        ("device_id"@, dec_of(device_id as nat)),
        ("os"@, p.os@),
        ("app_type"@, p.app_type@),
        ("cdid"@, cdid),
        ("channel"@, p.channel@),
        ("ab_version"@, p.app_version@),
        ("is_pad"@, p.is_pad@),
        ("current_region"@, p.region@),
        ("app_type"@, p.app_type@),
        ("last_install_time"@, int_str_of(last_install)),
        ("residence"@, p.residence@),
        ("host_abi"@, p.host_abi@),
        ("locale"@, p.locale@),
        ("ac2"@, p.ac2@),
        ("uoo"@, p.uoo@),
        ("op_region"@, p.op_region@),
        ("iid"@, iid),
    ]
}

/// Builds the lookup API query from the given draws, exactly in the wire
/// order.
#[verifier::rlimit(50)]
pub fn query_params_aweme_api(
    id: &str,
    params: &AwemeParams,
    iid: &str,
    cdid: &str,
    now_secs: u64,
    now_millis: u64,
    device_id: u64,
    last_install_time: i64,
) -> (r: Vec<(String, String)>)
    requires
        expanded_of(params.app_version@) is Some,
    ensures
        r.deep_view() == aweme_query_spec(
            id@,
            *params,
            iid@,
            cdid@,
            now_secs,
            now_millis,
            device_id,
            last_install_time as int,
        ),
{
    let expanded = match expand_app_version(params.app_version.clone()) {
        Some(e) => e,
        None => {
            proof {
                assert(false);
            }
            String::new()
        },
    };
    let mut q: Vec<(String, String)> = Vec::new();
    q.push((String::from_str("aweme_id"), id.to_owned()));
    q.push((String::from_str("version_name"), params.app_version.clone()));
    q.push((String::from_str("version_code"), expanded));
    q.push((String::from_str("build_number"), params.app_version.clone()));
    q.push((String::from_str("manifest_version_code"), params.manifest_app_version.clone()));
    q.push((String::from_str("update_version_code"), params.version_code.clone()));
    q.push((String::from_str("_rticket"), u64_to_string(now_millis)));
    q.push((String::from_str("ts"), u64_to_string(now_secs)));
    q.push((String::from_str("device_brand"), params.device_brand.clone()));
    q.push((String::from_str("device_type"), params.device_type.clone()));
    q.push((String::from_str("resolution"), params.resolution.clone()));
    q.push((String::from_str("dpi"), params.dpi.clone()));
    q.push((String::from_str("os_version"), params.os_version.clone()));
    q.push((String::from_str("os_api"), params.os_api.clone()));
    q.push((String::from_str("sys_region"), params.sys_region.clone()));
    q.push((String::from_str("region"), params.region.clone()));
    q.push((String::from_str("app_name"), params.app_name.clone()));
    q.push((String::from_str("app_language"), params.app_language.clone()));
    q.push((String::from_str("language"), params.language.clone()));
    q.push((String::from_str("timezone_name"), params.timezone_name.clone()));
    q.push((String::from_str("timezone_offset"), params.timezone_offset.clone()));
    q.push((String::from_str("ac"), params.ac.clone()));
    q.push((String::from_str("aid"), i64_to_string(params.aid as i64)));
    q.push((String::from_str("ssmix"), params.ssmix.clone()));
    q.push((String::from_str("device_id"), u64_to_string(device_id)));
    q.push((String::from_str("os"), params.os.clone()));
    q.push((String::from_str("app_type"), params.app_type.clone()));
    q.push((String::from_str("cdid"), cdid.to_owned()));
    q.push((String::from_str("channel"), params.channel.clone()));
    q.push((String::from_str("ab_version"), params.app_version.clone()));
    q.push((String::from_str("is_pad"), params.is_pad.clone()));
    q.push((String::from_str("current_region"), params.region.clone()));
    q.push((String::from_str("app_type"), params.app_type.clone()));
    q.push((String::from_str("last_install_time"), i64_to_string(last_install_time)));
    q.push((String::from_str("residence"), params.residence.clone()));
    q.push((String::from_str("host_abi"), params.host_abi.clone()));
    q.push((String::from_str("locale"), params.locale.clone()));
    q.push((String::from_str("ac2"), params.ac2.clone()));
    q.push((String::from_str("uoo"), params.uoo.clone()));
    q.push((String::from_str("op_region"), params.op_region.clone()));
    q.push((String::from_str("iid"), iid.to_owned()));
    proof {
        assert(q.deep_view() =~= aweme_query_spec(
            id@,
            *params,
            iid@,
            cdid@,
            now_secs,
            now_millis,
            device_id,
            last_install_time as int,
        ));
    }
    q
}

/// The query is one valid draw: some installation id from the configured
/// pool, some device id within the configured bounds, some install time at
/// most thirteen days back, and some fresh 36-character correlation id.
pub open spec fn drawn_query(
    q: Seq<(Seq<char>, Seq<char>)>,
    id: Seq<char>,
    p: AwemeParams,
    now_secs: u64,
    now_millis: u64,
) -> bool {
    exists|iid_idx: int, device_id: u64, delta: u64, cdid: Seq<char>|
        {
            &&& 0 <= iid_idx < p.iid@.len()
            &&& p.lower_bound <= device_id <= p.upper_bound
            &&& 86400 <= delta <= 1123200
            &&& cdid.len() == 36
            &&& q == #[trigger] aweme_query_spec(
                id,
                p,
                p.iid@[iid_idx]@,
                cdid,
                now_secs,
                now_millis,
                device_id,
                now_secs - delta,
            )
        }
}

/// Draws the unpredictable ingredients of one lookup API call — the
/// installation id, the device id, the install-time offset and a fresh
/// correlation id — and builds the query.
pub fn build_aweme_query(id: &str, params: &AwemeParams, now_secs: u64, now_millis: u64) -> (r:
    Vec<(String, String)>)
    requires
        params.iid@.len() > 0,
        params.lower_bound <= params.upper_bound,
        now_secs <= i64::MAX,
        expanded_of(params.app_version@) is Some,
    ensures
        drawn_query(r.deep_view(), id@, *params, now_secs, now_millis),
{
    let iid_idx = random_index(params.iid.len());
    let iid = params.iid[iid_idx].clone();
    let device_id = random_in_range(params.lower_bound, params.upper_bound);
    let delta = random_in_range(86400, 1123200);
    let cdid = new_correlation_id();
    let last_install_time: i64 = now_secs as i64 - delta as i64;
    let q = query_params_aweme_api(
        id,
        params,
        iid.as_str(),
        cdid.as_str(),
        now_secs,
        now_millis,
        device_id,
        last_install_time,
    );
    proof {
        assert(q.deep_view() == aweme_query_spec(
            id@,
            *params,
            params.iid@[iid_idx as int]@,
            cdid@,
            now_secs,
            now_millis,
            device_id,
            now_secs - delta,
        ));
    }
    q
}

} // verus!

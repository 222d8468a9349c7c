//! What requests and answers carry, and which requests are acceptable.

use vstd::prelude::*;
use vstd::utf8::encode_utf8;

use crate::domain::{view_time, LinkStats};
use crate::error::{AppError, ErrorView};
use crate::time::{Duration, MAX_NANOS, NANOS_PER_SEC};

verus! {

/// The longest target URL, in bytes.
pub const MAX_URL_LEN: usize = 2048;

/// The shortest code that a client may choose.
pub const MIN_CODE_LEN: usize = 4;

/// The longest code that a client may choose.
pub const MAX_CODE_LEN: usize = 32;

/// The shortest lifetime of a link, in seconds.
pub const MIN_TTL_SECS: u64 = 60;

/// A request for a new link.
#[derive(Debug)]
pub struct CreateLinkRequest {
    pub target_url: String,
    pub custom_code: Option<String>,
    pub ttl_seconds: Option<u64>,
}

/// What is told about a link.
#[derive(Debug)]
pub struct LinkResponse {
    pub code: String,
    pub target_url: String,
    pub created_at_unix: u64,
    pub expires_at_unix: Option<u64>,
    pub hits: u64,
}

/// What is told about the hits of a link.
#[derive(Debug)]
pub struct LinkStatsWindowResponse {
    pub code: String,
    pub target_url: String,
    pub created_at_unix: u64,
    pub expires_at_unix: Option<u64>,
    pub total_hits: u64,
    pub hits_last_60s: u64,
}

/// One line of the ranking of links.
#[derive(Debug)]
pub struct TopLinkResponse {
    pub code: String,
    pub hits: u64,
}

/// A time since the Unix epoch in whole seconds.
pub open spec fn secs_of(time: nat) -> nat {
    time / (NANOS_PER_SEC as nat)
}

/// Whether `unix` is `time` in whole seconds, or both are absent.
pub open spec fn same_secs(unix: Option<u64>, time: Option<Duration>) -> bool {
    match time {
        Some(t) => unix matches Some(u) && u == secs_of(t@),
        None => unix is None,
    }
}

/// A time since the Unix epoch in whole seconds.
pub fn unix_secs(time: Duration) -> (secs: u64)
    ensures
        secs == secs_of(time@),
        secs * 1_000_000_000 <= time@ < (secs + 1) * 1_000_000_000,
{
    time.as_secs()
}

/// The same for a time that may be absent.
pub fn opt_unix_secs(time: Option<Duration>) -> (secs: Option<u64>)
    ensures
        same_secs(secs, time),
{
    match time {
        Some(t) => Some(unix_secs(t)),
        None => None,
    }
}

/// Whether `response` tells what `stats` holds.
pub open spec fn tells(response: LinkResponse, stats: LinkStats) -> bool {
    &&& response.code@ == stats.link.code@
    &&& response.target_url@ == stats.link.target_url@
    &&& response.created_at_unix == secs_of(stats.link.created_at@)
    &&& same_secs(response.expires_at_unix, stats.link.expires_at)
    &&& response.hits == stats.hits
}

impl LinkResponse {
    /// What is told about the link of `stats`.
    pub fn from_stats(stats: LinkStats) -> (response: Self)
        ensures
            tells(response, stats),
    {
        LinkResponse {
            created_at_unix: unix_secs(stats.link.created_at),
            expires_at_unix: opt_unix_secs(stats.link.expires_at),
            code: stats.link.code,
            target_url: stats.link.target_url,
            hits: stats.hits,
        }
    }
}

/// Whether `c` may occur in a code: a letter, a digit, an underscore or a hyphen.
pub open spec fn is_code_char(c: char) -> bool {
    'a' <= c <= 'z' || 'A' <= c <= 'Z' || '0' <= c <= '9' || c == '_' || c == '-'
}

/// Whether every character of `code` may occur in a code.
pub open spec fn is_code_text(code: Seq<char>) -> bool {
    forall|i: int| 0 <= i < code.len() ==> is_code_char(#[trigger] code[i])
}

/// Whether a client may choose `code`.
pub open spec fn is_custom_code(code: Seq<char>) -> bool {
    MIN_CODE_LEN <= code.len() <= MAX_CODE_LEN && is_code_text(code)
}

/// The error for a code that a client may not choose.
pub open spec fn bad_code() -> ErrorView {
    ErrorView::Validation("custom_code must be 4 to 32 characters of a-z, A-Z, 0-9, _ and -"@)
}

/// Accepts the codes that a client may choose.
pub fn validate_custom_code(code: &str) -> (valid: Result<(), AppError>)
    ensures
        match valid {
            Ok(_) => is_custom_code(code@),
            Err(e) => !is_custom_code(code@) && e@ == bad_code(),
        },
{
    let len = code.unicode_len();
    let mut valid: bool = MIN_CODE_LEN <= len && len <= MAX_CODE_LEN;
    let mut i: usize = 0;
    while valid && i < len
        invariant
            i <= len == code@.len(),
            valid ==> MIN_CODE_LEN <= len <= MAX_CODE_LEN,
            valid ==> forall|j: int| 0 <= j < i ==> is_code_char(#[trigger] code@[j]),
            !valid ==> !is_custom_code(code@),
        decreases len - i + (if valid { 1int } else { 0int }),
    {
        let c = code.get_char(i);
        if ('a' <= c && c <= 'z') || ('A' <= c && c <= 'Z') || ('0' <= c && c <= '9') || c == '_'
            || c == '-' {
            i += 1;
        } else {
            valid = false;
        }
    }
    if valid {
        Ok(())
    } else {
        Err(
            AppError::Validation(
                "custom_code must be 4 to 32 characters of a-z, A-Z, 0-9, _ and -".to_owned(),
            ),
        )
    }
}

/// When a link that is made at `now` and lives for `ttl` seconds expires, or the error for such
/// a lifetime.
pub open spec fn expiry(ttl: Option<u64>, now: nat) -> Result<Option<nat>, ErrorView> {
    match ttl {
        None => Ok(None),
        Some(secs) => if secs < MIN_TTL_SECS {
            Err(ErrorView::Validation("ttl_seconds must be at least 60"@))
        } else if now + secs * NANOS_PER_SEC > MAX_NANOS {
            Err(ErrorView::Validation("ttl_seconds is too large"@))
        } else {
            Ok(Some((now + secs * NANOS_PER_SEC) as nat))
        },
    }
}

/// When a link that is made at `now` expires, if it has a lifetime.
pub fn expires_at_from_ttl(ttl: Option<u64>, now: Duration) -> (at: Result<
    Option<Duration>,
    AppError,
>)
    ensures
        match at {
            Ok(time) => expiry(ttl, now@) == Ok::<Option<nat>, ErrorView>(view_time(time)),
            Err(e) => expiry(ttl, now@) == Err::<Option<nat>, ErrorView>(e@),
        },
{
    match ttl {
        None => Ok(None),
        Some(secs) => {
            if secs < MIN_TTL_SECS {
                return Err(AppError::Validation("ttl_seconds must be at least 60".to_owned()));
            }
            match now.checked_add(Duration::from_secs(secs)) {
                Some(at) => Ok(Some(at)),
                None => Err(AppError::Validation("ttl_seconds is too large".to_owned())),
            }
        },
    }
}

/// What is read off a parsed URL.
#[derive(Debug)]
pub struct ParsedUrl {
    /// The scheme, in lower case.
    pub scheme: String,
    /// The URL in its normalised spelling.
    pub text: String,
}

/// The scheme and the spelling of a parsed URL, if there is one.
pub open spec fn view_url(parsed: Option<ParsedUrl>) -> Option<(Seq<char>, Seq<char>)> {
    match parsed {
        Some(u) => Some((u.scheme@, u.text@)),
        None => None,
    }
}

/// What `url::Url::parse` makes of `raw`: the scheme and the normalised spelling of the absolute
/// URL, or nothing if it is none.
pub uninterp spec fn url_parse(raw: Seq<char>) -> Option<(Seq<char>, Seq<char>)>;

/// `url::Url::parse`, which reads an absolute URL and depends on its text alone. Of the result
/// the scheme and the serialisation are kept; why a text is no URL is not told.
#[verifier::external_body]
fn parse_url(raw: &str) -> (parsed: Option<ParsedUrl>)
    ensures
        view_url(parsed) == url_parse(raw@),
{
    match url::Url::parse(raw) {
        Ok(u) => Some(ParsedUrl { scheme: u.scheme().to_owned(), text: u.as_str().to_owned() }),
        Err(_) => None,
    }
}

/// The target that a parsed URL amounts to, or the error for it.
pub open spec fn web_target(parsed: Option<(Seq<char>, Seq<char>)>) -> Result<
    Seq<char>,
    ErrorView,
> {
    match parsed {
        Some((scheme, text)) => if scheme == "http"@ || scheme == "https"@ {
            Ok(text)
        } else {
            Err(ErrorView::Validation("target_url must use http or https"@))
        },
        None => Err(ErrorView::Validation("target_url is not an absolute URL"@)),
    }
}

/// The target that `raw` names, or the error for it.
pub open spec fn target(raw: Seq<char>) -> Result<Seq<char>, ErrorView> {
    if encode_utf8(raw).len() > MAX_URL_LEN {
        Err(ErrorView::Validation("target_url is longer than 2048 bytes"@))
    } else {
        web_target(url_parse(raw))
    }
}

/// Accepts a parsed URL that leads to the web.
pub fn accept_url(parsed: Option<ParsedUrl>) -> (url: Result<String, AppError>)
    ensures
        match url {
            Ok(text) => web_target(view_url(parsed)) == Ok::<Seq<char>, ErrorView>(text@),
            Err(e) => web_target(view_url(parsed)) == Err::<Seq<char>, ErrorView>(e@),
        },
        url is Ok <==> parsed is Some && (parsed->0.scheme@ == "http"@ || parsed->0.scheme@
            == "https"@),
        url matches Ok(text) ==> text@ == parsed->0.text@,
{
    match parsed {
        Some(u) => if u.scheme == "http".to_owned() || u.scheme == "https".to_owned() {
            Ok(u.text)
        } else {
            Err(AppError::Validation("target_url must use http or https".to_owned()))
        },
        None => Err(AppError::Validation("target_url is not an absolute URL".to_owned())),
    }
}

/// Reads the target URL of a new link.
pub fn parse_target_url(raw: &str) -> (url: Result<String, AppError>)
    ensures
        match url {
            Ok(text) => target(raw@) == Ok::<Seq<char>, ErrorView>(text@),
            Err(e) => target(raw@) == Err::<Seq<char>, ErrorView>(e@),
        },
        url is Ok <==> encode_utf8(raw@).len() <= 2048 && (url_parse(raw@) matches Some((scheme, _))
            && (scheme == "http"@ || scheme == "https"@)),
        url matches Ok(text) ==> (url_parse(raw@) matches Some((_, whole)) && text@ == whole),
{
    if raw.as_bytes().len() > MAX_URL_LEN {
        return Err(AppError::Validation("target_url is longer than 2048 bytes".to_owned()));
    }
    accept_url(parse_url(raw))
}

} // verus!

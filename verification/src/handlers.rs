//! The decisions behind the routes.
//!
//! A route alternates between asking the repository and deciding what to do with its answer.
//! Each function here is one such decision: it takes what is known and what the repository has
//! answered, and returns what to ask next, or what to answer the client.

use vstd::prelude::*;

use crate::domain::{
    view_time, LinkStats, LinkView, RepoError, ShortLink, TopLink, WindowStats,
};
use crate::dto::{
    bad_code, expires_at_from_ttl, expiry, is_code_text, is_custom_code, opt_unix_secs,
    parse_target_url, same_secs, secs_of, target, tells, unix_secs, validate_custom_code,
    CreateLinkRequest, LinkResponse, LinkStatsWindowResponse, TopLinkResponse,
};
use crate::error::{refusal, AppError, ErrorView, CREATED, NO_CONTENT, TEMPORARY_REDIRECT};
use crate::rate_limit::Allowance;
use crate::text::{decimal, to_decimal};
use crate::time::{Duration, NANOS_PER_SEC};

verus! {

/// How many lines of the ranking are sent unless asked otherwise.
pub const DEFAULT_TOP: usize = 10;

/// How many lines of the ranking are sent at most.
pub const MAX_TOP: usize = 100;

/// The length of the window in which recent hits are counted, in seconds.
pub const STATS_WINDOW_SECS: u64 = 60;

/// How codes are generated.
#[derive(Debug)]
pub struct Config {
    /// The length of a generated code.
    pub code_length: usize,
    /// How many generated codes are tried before giving up.
    pub max_generate_attempts: usize,
}

/// A link that is to be inserted.
#[derive(Debug)]
pub struct Insertion {
    pub link: ShortLink,
    /// How many more codes may be tried if this one is taken; nothing if the client chose it.
    pub attempts_left: Option<usize>,
}

/// What comes after an attempt to insert a link.
#[derive(Debug)]
pub enum CreateStep {
    /// The code was taken; insert this instead.
    Insert(Insertion),
    /// The link is in; ask for the statistics of its code.
    Stats { code: String },
}

/// The answer to a request that made a link.
#[derive(Debug)]
pub struct Created {
    pub status: u16,
    /// The value of `Location`.
    pub location: String,
    pub body: LinkResponse,
}

/// The answer that leads to the target of a link.
#[derive(Debug)]
pub struct Redirect {
    pub status: u16,
    /// The value of `Location`.
    pub location: String,
}

/// A request for the hits of a link within a window.
#[derive(Debug)]
pub struct StatsQuery {
    pub total: LinkStats,
    pub window: Duration,
}

/// The parameters of a request for the ranking.
#[derive(Debug)]
pub struct TopQuery {
    /// How many lines to send.
    pub limit: Option<usize>,
}

impl Default for TopQuery {
    fn default() -> (query: Self)
        ensures
            query.limit is None,
    {
        TopQuery { limit: None }
    }
}

/// The answer to the question whether the service is up.
#[derive(Debug)]
pub struct Health {
    pub status: &'static str,
}

/// The answer to the question which version of the service runs.
#[derive(Debug)]
pub struct Version {
    pub version: &'static str,
}

/// The error when as many generated codes as allowed were all taken.
pub open spec fn out_of_codes(attempts: nat) -> ErrorView {
    ErrorView::Internal(
        "failed to generate a unique code in "@ + decimal(attempts) + " attempts"@,
    )
}

/// Whether `code` may have been generated.
pub open spec fn is_generated(code: Seq<char>, config: Config) -> bool {
    code.len() == config.code_length && is_code_text(code)
}

/// `nanoid::format` with its default source of randomness and its alphabet `SAFE`: that many
/// characters, each of them a letter, a digit, an underscore or a hyphen. Which ones is left to
/// chance.
#[verifier::external_body]
fn random_code(length: usize) -> (code: String)
    requires
        length <= isize::MAX,
    ensures
        code@.len() == length,
        is_code_text(code@),
{
    nanoid::format(nanoid::rngs::default, &nanoid::alphabet::SAFE, length)
}

/// Generates a code, unless no attempt is left.
pub fn generate_code(config: &Config, attempts_left: usize) -> (code: Result<String, AppError>)
    requires
        attempts_left > 0 ==> config.code_length <= isize::MAX,
    ensures
        match code {
            Ok(c) => attempts_left > 0 && is_generated(c@, *config),
            Err(e) => attempts_left == 0 && e@ == out_of_codes(config.max_generate_attempts as nat),
        },
{
    if attempts_left > 0 {
        Ok(random_code(config.code_length))
    } else {
        let mut details = "failed to generate a unique code in ".to_owned();
        details.append(to_decimal(config.max_generate_attempts as u64).as_str());
        details.append(" attempts");
        Err(AppError::Internal(details))
    }
}

/// The link that is to be inserted under `code`.
pub fn try_insert_link(
    code: &str,
    target_url: &str,
    expires_at: Option<Duration>,
    now: Duration,
) -> (link: ShortLink)
    ensures
        link@ == (LinkView {
            code: code@,
            target_url: target_url@,
            created_at: now@,
            expires_at: view_time(expires_at),
        }),
{
    let link = ShortLink::new(code, target_url, now);
    match expires_at {
        Some(at) => link.with_expires_at(at),
        None => link,
    }
}

/// What the answer to the insertion of a link under a chosen code means for the client.
pub fn insert_link(answer: Result<(), RepoError>) -> (outcome: Result<(), AppError>)
    ensures
        match answer {
            Ok(_) => outcome is Ok,
            Err(err) => outcome matches Err(e) && e@ == refusal(err),
        },
{
    match answer {
        Ok(_) => Ok(()),
        Err(err) => Err(AppError::from(err)),
    }
}

/// Whether a request whose target URL was read as `url` is one for which a code is drawn.
pub open spec fn draws_code(
    url: Result<Seq<char>, ErrorView>,
    custom_code: Option<Seq<char>>,
    ttl_seconds: Option<u64>,
    config: Config,
    now: nat,
) -> bool {
    &&& url is Ok
    &&& expiry(ttl_seconds, now) is Ok
    &&& custom_code is None
    &&& config.max_generate_attempts > 0
}

/// Whether `outcome` is right for a request whose target URL was read as `url`.
pub open spec fn is_placed(
    url: Result<Seq<char>, ErrorView>,
    custom_code: Option<Seq<char>>,
    ttl_seconds: Option<u64>,
    config: Config,
    now: nat,
    outcome: Result<Insertion, AppError>,
) -> bool {
    match url {
        Err(error) => outcome matches Err(e) && e@ == error,
        Ok(target_url) => match expiry(ttl_seconds, now) {
            Err(error) => outcome matches Err(e) && e@ == error,
            Ok(expires_at) => match custom_code {
                Some(code) => if is_custom_code(code) {
                    &&& outcome matches Ok(insertion)
                    &&& insertion.link@ == (LinkView {
                        code,
                        target_url,
                        created_at: now,
                        expires_at,
                    })
                    &&& insertion.attempts_left is None
                } else {
                    outcome matches Err(e) && e@ == bad_code()
                },
                None => if config.max_generate_attempts > 0 {
                    &&& outcome matches Ok(insertion)
                    &&& is_generated(insertion.link@.code, config)
                    &&& insertion.link@ == (LinkView {
                        code: insertion.link@.code,
                        target_url,
                        created_at: now,
                        expires_at,
                    })
                    &&& insertion.attempts_left == Some((config.max_generate_attempts - 1) as usize)
                } else {
                    outcome matches Err(e) && e@ == out_of_codes(0)
                },
            },
        },
    }
}

/// The view of a text that may be absent.
pub open spec fn view_text(text: Option<String>) -> Option<Seq<char>> {
    match text {
        Some(t) => Some(t@),
        None => None,
    }
}

/// The view of a URL or of the error for it.
pub open spec fn view_target(url: Result<String, AppError>) -> Result<Seq<char>, ErrorView> {
    match url {
        Ok(text) => Ok(text@),
        Err(e) => Err(e@),
    }
}

/// Decides which link to insert, once the target URL has been read.
pub fn place_link(
    url: Result<String, AppError>,
    custom_code: Option<String>,
    ttl_seconds: Option<u64>,
    config: &Config,
    now: Duration,
) -> (outcome: Result<Insertion, AppError>)
    requires
        draws_code(view_target(url), view_text(custom_code), ttl_seconds, *config, now@)
            ==> config.code_length <= isize::MAX,
    ensures
        is_placed(
            view_target(url),
            view_text(custom_code),
            ttl_seconds,
            *config,
            now@,
            outcome,
        ),
{
    let target_url = match url {
        Ok(text) => text,
        Err(e) => {
            return Err(e);
        },
    };
    let expires_at = match expires_at_from_ttl(ttl_seconds, now) {
        Ok(at) => at,
        Err(e) => {
            return Err(e);
        },
    };
    match custom_code {
        Some(code) => match validate_custom_code(code.as_str()) {
            Ok(_) => Ok(
                Insertion {
                    link: try_insert_link(code.as_str(), target_url.as_str(), expires_at, now),
                    attempts_left: None,
                },
            ),
            Err(e) => Err(e),
        },
        None => match generate_code(config, config.max_generate_attempts) {
            Ok(code) => Ok(
                Insertion {
                    link: try_insert_link(code.as_str(), target_url.as_str(), expires_at, now),
                    attempts_left: Some(config.max_generate_attempts - 1),
                },
            ),
            Err(e) => Err(e),
        },
    }
}

/// Whether `outcome` is right for a request that the rate limiter has judged and whose target
/// URL reads as `url`: a refusal comes before everything else.
pub open spec fn is_decided(
    allowance: Allowance,
    url: Result<Seq<char>, ErrorView>,
    custom_code: Option<Seq<char>>,
    ttl_seconds: Option<u64>,
    config: Config,
    now: nat,
    outcome: Result<Insertion, AppError>,
) -> bool {
    match allowance {
        Allowance::Denied { retry_after } => outcome matches Err(e) && e@
            == (ErrorView::RateLimited { retry_after: retry_after@ }),
        Allowance::Allowed => is_placed(url, custom_code, ttl_seconds, config, now, outcome),
    }
}

/// `POST /api/v1/links`: decides which link to insert for a request that the rate limiter has
/// judged.
pub fn create_link(
    allowance: Allowance,
    req: CreateLinkRequest,
    config: &Config,
    now: Duration,
) -> (outcome: Result<Insertion, AppError>)
    requires
        allowance is Allowed && draws_code(
            target(req.target_url@),
            view_text(req.custom_code),
            req.ttl_seconds,
            *config,
            now@,
        ) ==> config.code_length <= isize::MAX,
    ensures
        is_decided(
            allowance,
            target(req.target_url@),
            view_text(req.custom_code),
            req.ttl_seconds,
            *config,
            now@,
            outcome,
        ),
{
    match allowance {
        Allowance::Allowed => {},
        Allowance::Denied { retry_after } => {
            return Err(AppError::RateLimited { retry_after });
        },
    }
    place_link(
        parse_target_url(req.target_url.as_str()),
        req.custom_code,
        req.ttl_seconds,
        config,
        now,
    )
}

/// `POST /api/v1/links`: the same for any configuration. There is no outcome where a code would
/// have to be drawn that is longer than any text can be.
pub fn try_create_link(
    allowance: Allowance,
    req: CreateLinkRequest,
    config: &Config,
    now: Duration,
) -> (outcome: Option<Result<Insertion, AppError>>)
    ensures
        outcome is None <==> allowance is Allowed && draws_code(
            target(req.target_url@),
            view_text(req.custom_code),
            req.ttl_seconds,
            *config,
            now@,
        ) && config.code_length > isize::MAX,
        outcome matches Some(o) ==> is_decided(
            allowance,
            target(req.target_url@),
            view_text(req.custom_code),
            req.ttl_seconds,
            *config,
            now@,
            o,
        ),
{
    if config.code_length > isize::MAX as usize {
        if let Allowance::Allowed = &allowance {
            if req.custom_code.is_none() && config.max_generate_attempts > 0
                && parse_target_url(req.target_url.as_str()).is_ok()
                && expires_at_from_ttl(req.ttl_seconds, now).is_ok() {
                return None;
            }
        }
    }
    Some(create_link(allowance, req, config, now))
}

impl Insertion {
    /// Whether `step` is right after the repository answered this insertion with `answer`.
    pub open spec fn leads_to(
        self,
        answer: Result<(), RepoError>,
        config: Config,
        now: nat,
        step: Result<CreateStep, AppError>,
    ) -> bool {
        match answer {
            Ok(_) => step matches Ok(CreateStep::Stats { code }) && code@ == self.link@.code,
            Err(err) => if err is CodeTaken && self.attempts_left is Some {
                if self.attempts_left->0 > 0 {
                    &&& step matches Ok(CreateStep::Insert(next))
                    &&& is_generated(next.link@.code, config)
                    &&& next.link@ == (LinkView {
                        code: next.link@.code,
                        created_at: now,
                        ..self.link@
                    })
                    &&& next.attempts_left == Some((self.attempts_left->0 - 1) as usize)
                } else {
                    step matches Err(e) && e@ == out_of_codes(config.max_generate_attempts as nat)
                }
            } else {
                step matches Err(e) && e@ == refusal(err)
            },
        }
    }

    /// Decides what to do after the repository has answered this insertion: a generated code
    /// that is taken is replaced by another one, as long as attempts are left.
    pub fn answered(self, answer: Result<(), RepoError>, config: &Config, now: Duration) -> (step:
        Result<CreateStep, AppError>)
        requires
            answer matches Err(RepoError::CodeTaken(_)) && self.attempts_left matches Some(n) && n
                > 0 ==> config.code_length <= isize::MAX,
        ensures
            self.leads_to(answer, *config, now@, step),
    {
        match self.attempts_left {
            None => match insert_link(answer) {
                Ok(_) => Ok(CreateStep::Stats { code: self.link.code }),
                Err(e) => Err(e),
            },
            Some(attempts_left) => match answer {
                Ok(_) => Ok(CreateStep::Stats { code: self.link.code }),
                Err(RepoError::CodeTaken(_)) => match generate_code(config, attempts_left) {
                    Ok(code) => Ok(
                        CreateStep::Insert(
                            Insertion {
                                link: try_insert_link(
                                    code.as_str(),
                                    self.link.target_url.as_str(),
                                    self.link.expires_at,
                                    now,
                                ),
                                attempts_left: Some(attempts_left - 1),
                            },
                        ),
                    ),
                    Err(e) => Err(e),
                },
                Err(err) => Err(AppError::from(err)),
            },
        }
    }
}

/// Whether `answer` is right after the repository answered with `stats` for the new `code`.
pub open spec fn is_announced(
    code: Seq<char>,
    stats: Result<LinkStats, RepoError>,
    answer: Result<Created, AppError>,
) -> bool {
    match stats {
        Ok(s) => {
            &&& answer matches Ok(created)
            &&& created.status == CREATED
            &&& created.location@ == "/api/v1/links/"@ + code
            &&& tells(created.body, s)
        },
        Err(err) => answer matches Err(e) && e@ == refusal(err),
    }
}

/// `POST /api/v1/links`: answers with the link that was inserted under `code`.
pub fn link_created(code: &str, stats: Result<LinkStats, RepoError>) -> (answer: Result<
    Created,
    AppError,
>)
    ensures
        is_announced(code@, stats, answer),
{
    match stats {
        Ok(s) => {
            let mut location = "/api/v1/links/".to_owned();
            location.append(code);
            Ok(Created { status: CREATED, location, body: LinkResponse::from_stats(s) })
        },
        Err(err) => Err(AppError::from(err)),
    }
}

/// Whether `answer` is right after the repository answered with `stats`.
pub open spec fn is_described(
    stats: Result<LinkStats, RepoError>,
    answer: Result<LinkResponse, AppError>,
) -> bool {
    match stats {
        Ok(s) => answer matches Ok(response) && tells(response, s),
        Err(err) => answer matches Err(e) && e@ == refusal(err),
    }
}

/// `GET /api/v1/links/{code}`: tells what the repository knows about a link.
pub fn get_link(stats: Result<LinkStats, RepoError>) -> (answer: Result<LinkResponse, AppError>)
    ensures
        is_described(stats, answer),
{
    match stats {
        Ok(s) => Ok(LinkResponse::from_stats(s)),
        Err(err) => Err(AppError::from(err)),
    }
}

/// The link to follow among what was found, or the error in its place.
pub open spec fn link_to_follow(found: Result<ShortLink, RepoError>, now: nat) -> Result<
    LinkView,
    ErrorView,
> {
    match found {
        Ok(link) => if link@.expired(now) {
            Err(ErrorView::NotFound)
        } else {
            Ok(link@)
        },
        Err(err) => Err(refusal(err)),
    }
}

/// `GET /{code}`: decides whether to count a hit of the link that was found. One whose lifetime
/// is over is as good as absent.
pub fn redirect(found: Result<ShortLink, RepoError>, now: Duration) -> (outcome: Result<
    ShortLink,
    AppError,
>)
    ensures
        match outcome {
            Ok(link) => link_to_follow(found, now@) == Ok::<LinkView, ErrorView>(link@),
            Err(e) => link_to_follow(found, now@) == Err::<LinkView, ErrorView>(e@),
        },
{
    match found {
        Ok(link) => if link.is_expired(now) {
            Err(AppError::NotFound)
        } else {
            Ok(link)
        },
        Err(err) => Err(AppError::from(err)),
    }
}

/// Whether `answer` is right after the repository answered the counting of a hit of `link` with
/// `recorded`.
pub open spec fn is_sent(
    link: LinkView,
    recorded: Result<(), RepoError>,
    answer: Result<Redirect, AppError>,
) -> bool {
    match recorded {
        Ok(_) => {
            &&& answer matches Ok(redirect)
            &&& redirect.status == TEMPORARY_REDIRECT
            &&& redirect.location@ == link.target_url
        },
        Err(err) => answer matches Err(e) && e@ == refusal(err),
    }
}

/// `GET /{code}`: sends the client to the target once the hit has been counted.
pub fn hit_recorded(link: ShortLink, recorded: Result<(), RepoError>) -> (answer: Result<
    Redirect,
    AppError,
>)
    ensures
        is_sent(link@, recorded, answer),
{
    match recorded {
        Ok(_) => Ok(Redirect { status: TEMPORARY_REDIRECT, location: link.target_url }),
        Err(err) => Err(AppError::from(err)),
    }
}

/// Whether `answer` is right after the repository answered a removal with `removed`.
pub open spec fn is_removed(
    removed: Result<(), RepoError>,
    answer: Result<u16, AppError>,
) -> bool {
    match removed {
        Ok(_) => answer == Ok::<u16, AppError>(NO_CONTENT),
        Err(err) => answer matches Err(e) && e@ == refusal(err),
    }
}

/// `DELETE /api/v1/links/{code}`: reports that the link is gone, or that there was none.
pub fn delete_link(removed: Result<(), RepoError>) -> (answer: Result<u16, AppError>)
    ensures
        is_removed(removed, answer),
{
    match removed {
        Ok(_) => Ok(NO_CONTENT),
        Err(err) => Err(AppError::from(err)),
    }
}

/// The error for a path that no route serves.
pub fn fallback_404() -> (error: AppError)
    ensures
        error@ == ErrorView::NotFound,
{
    AppError::NotFound
}

/// Whether `query` asks for the recent hits of the link whose totals are `stats`.
pub open spec fn asks_window(query: StatsQuery, stats: LinkStats) -> bool {
    &&& query.total == stats
    &&& query.window@ == STATS_WINDOW_SECS * NANOS_PER_SEC
}

/// Whether `outcome` is right after the repository answered with the totals `total`.
pub open spec fn is_inquired(
    total: Result<LinkStats, RepoError>,
    outcome: Result<StatsQuery, AppError>,
) -> bool {
    match total {
        Ok(stats) => outcome matches Ok(query) && asks_window(query, stats),
        Err(err) => outcome matches Err(e) && e@ == refusal(err),
    }
}

/// `GET /api/v1/links/{code}/stats`: decides which window to ask for, once the totals are known.
pub fn link_stats(total: Result<LinkStats, RepoError>) -> (outcome: Result<StatsQuery, AppError>)
    ensures
        is_inquired(total, outcome),
{
    match total {
        Ok(stats) => Ok(
            StatsQuery { total: stats, window: Duration::from_secs(STATS_WINDOW_SECS) },
        ),
        Err(err) => Err(AppError::from(err)),
    }
}

/// Whether `response` tells what `total` and `recent` hold.
pub open spec fn tells_window(
    response: LinkStatsWindowResponse,
    total: LinkStats,
    recent: WindowStats,
) -> bool {
    &&& response.code@ == total.link@.code
    &&& response.target_url@ == total.link@.target_url
    &&& response.created_at_unix == secs_of(total.link@.created_at)
    &&& same_secs(response.expires_at_unix, total.link.expires_at)
    &&& response.total_hits == total.hits
    &&& response.hits_last_60s == recent.hits
}

/// Whether `answer` is right after the repository answered with the recent hits `window`.
pub open spec fn is_counted(
    total: LinkStats,
    window: Result<WindowStats, RepoError>,
    answer: Result<LinkStatsWindowResponse, AppError>,
) -> bool {
    match window {
        Ok(recent) => answer matches Ok(response) && tells_window(response, total, recent),
        Err(err) => answer matches Err(e) && e@ == refusal(err),
    }
}

/// `GET /api/v1/links/{code}/stats`: tells the totals and the hits within the window.
pub fn window_counted(total: LinkStats, window: Result<WindowStats, RepoError>) -> (answer: Result<
    LinkStatsWindowResponse,
    AppError,
>)
    ensures
        is_counted(total, window, answer),
{
    match window {
        Ok(recent) => Ok(
            LinkStatsWindowResponse {
                created_at_unix: unix_secs(total.link.created_at),
                expires_at_unix: opt_unix_secs(total.link.expires_at),
                code: total.link.code,
                target_url: total.link.target_url,
                total_hits: total.hits,
                hits_last_60s: recent.hits,
            },
        ),
        Err(err) => Err(AppError::from(err)),
    }
}

/// How many lines of the ranking a request asks for, between one and the maximum.
pub open spec fn lines_wanted(limit: Option<usize>) -> usize {
    match limit {
        None => DEFAULT_TOP,
        Some(n) => if n < 1 {
            1
        } else if n > MAX_TOP {
            MAX_TOP
        } else {
            n
        },
    }
}

/// `GET /api/v1/stats/top`: decides how many lines of the ranking to ask for.
pub fn top_limit(query: &TopQuery) -> (limit: usize)
    ensures
        limit == lines_wanted(query.limit),
{
    match query.limit {
        None => DEFAULT_TOP,
        Some(n) => if n < 1 {
            1
        } else if n > MAX_TOP {
            MAX_TOP
        } else {
            n
        },
    }
}

/// Whether `answer` is right after the repository answered with the ranking `top`.
pub open spec fn is_ranked(
    top: Result<Vec<TopLink>, RepoError>,
    answer: Result<Vec<TopLinkResponse>, AppError>,
) -> bool {
    match top {
        Ok(lines) => {
            &&& answer matches Ok(response)
            &&& response@.len() == lines@.len()
            &&& forall|i: int|
                0 <= i < lines@.len() ==> {
                    &&& (#[trigger] response@[i]).code@ == lines@[i].code@
                    &&& response@[i].hits == lines@[i].hits
                }
        },
        Err(err) => answer matches Err(e) && e@ == refusal(err),
    }
}

/// `GET /api/v1/stats/top`: tells the ranking line by line, in the order of the repository.
pub fn top_links(top: Result<Vec<TopLink>, RepoError>) -> (answer: Result<
    Vec<TopLinkResponse>,
    AppError,
>)
    ensures
        is_ranked(top, answer),
{
    match top {
        Ok(lines) => {
            let mut response: Vec<TopLinkResponse> = Vec::new();
            let mut i: usize = 0;
            while i < lines.len()
                invariant
                    i <= lines@.len(),
                    response@.len() == i,
                    forall|j: int|
                        0 <= j < i ==> {
                            &&& (#[trigger] response@[j]).code@ == lines@[j].code@
                            &&& response@[j].hits == lines@[j].hits
                        },
                decreases lines@.len() - i,
            {
                response.push(TopLinkResponse { code: lines[i].code.clone(), hits: lines[i].hits });
                i += 1;
            }
            Ok(response)
        },
        Err(err) => Err(AppError::from(err)),
    }
}

/// `GET /healthz`: the service is up.
pub fn healthz() -> (health: Health)
    ensures
        health.status@ == "ok"@,
{
    Health { status: "ok" }
}

/// `GET /version`: tells the version of the package.
pub fn version(package: &'static str) -> (version: Version)
    ensures
        version.version == package,
{
    Version { version: package }
}

} // verus!

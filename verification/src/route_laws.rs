//! What each route does, told in the fields of its requests and answers and in plain numbers.

use vstd::prelude::*;
use vstd::utf8::encode_utf8;

use crate::domain::{LinkStats, LinkView, RepoError, TopLink, WindowStats};
use crate::dto::{
    target, url_parse, LinkResponse, LinkStatsWindowResponse, TopLinkResponse,
};
use crate::error::{AppError, AppJson, BodyRejection, ErrorResponse, ErrorView};
use crate::handlers::{
    draws_code, is_announced, is_counted, is_decided, is_described, is_inquired, is_placed,
    is_ranked, is_removed, is_sent, lines_wanted, out_of_codes, Config, CreateStep, Created,
    Insertion, Redirect, StatsQuery,
};
use crate::rate_limit::Allowance;
use crate::text_laws::{is_numeral, law_numeral_denotes_its_number, numeral_value};
use crate::value_laws::{
    is_url_safe, is_whole_secs, law_accepted_target_is_the_whole_url,
    law_codes_that_may_be_chosen, law_codes_that_may_be_generated,
    law_lifetime_is_what_was_asked_for, law_target_of_a_raw_text,
};

verus! {

/// What every error is answered with: a status, a word and a sentence.
pub proof fn law_answers_of_errors(
    error: ErrorView,
    request_id: Option<String>,
    response: ErrorResponse,
)
    requires
        response.answers(error, request_id),
    ensures
        response.body.request_id == request_id,
        match error {
            ErrorView::NotFound => {
                &&& response.status == 404
                &&& response.body.code@ == "not_found"@
                &&& response.body.message@ == "resource not found"@
            },
            ErrorView::CodeTaken => {
                &&& response.status == 409
                &&& response.body.code@ == "code_taken"@
                &&& response.body.message@ == "code is already taken"@
            },
            ErrorView::RateLimited { .. } => {
                &&& response.status == 429
                &&& response.body.code@ == "rate_limited"@
                &&& response.body.message@ == "rate limit exceeded, retry later"@
            },
            ErrorView::Validation(message) => {
                &&& response.status == 422
                &&& response.body.code@ == "validation_error"@
                &&& response.body.message@ == message
            },
            ErrorView::InvalidBody { status, message } => {
                &&& response.status == status
                &&& response.body.message@ == message
                &&& status == 413 ==> response.body.code@ == "payload_too_large"@
                &&& status == 415 ==> response.body.code@ == "unsupported_media_type"@
                &&& status == 422 ==> response.body.code@ == "validation_error"@
                &&& status != 413 && status != 415 && status != 422 ==> response.body.code@
                    == "bad_request"@
            },
            ErrorView::Internal(_) => {
                &&& response.status == 500
                &&& response.body.code@ == "internal"@
                &&& response.body.message@ == "internal error"@
            },
        },
        !(error is RateLimited) ==> response.retry_after is None,
{
}

/// `Retry-After` is a numeral that denotes the whole seconds to wait, or one if there are none.
pub proof fn law_retry_after_denotes_the_wait(
    wait: nat,
    request_id: Option<String>,
    response: ErrorResponse,
)
    requires
        response.answers(ErrorView::RateLimited { retry_after: wait }, request_id),
    ensures
        response.retry_after is Some,
        is_numeral(response.retry_after->0@),
        wait >= 1_000_000_000 ==> is_whole_secs(numeral_value(response.retry_after->0@), wait),
        wait < 1_000_000_000 ==> numeral_value(response.retry_after->0@) == 1,
{
    let secs = wait / 1_000_000_000;
    law_numeral_denotes_its_number(secs);
    law_numeral_denotes_its_number(1);
}

/// Who has to wait longer is never told to come back earlier.
pub proof fn law_longer_waits_are_told_longer(
    shorter: nat,
    longer: nat,
    request_id: Option<String>,
    first: ErrorResponse,
    second: ErrorResponse,
)
    requires
        shorter <= longer,
        first.answers(ErrorView::RateLimited { retry_after: shorter }, request_id),
        second.answers(ErrorView::RateLimited { retry_after: longer }, request_id),
    ensures
        numeral_value(first.retry_after->0@) <= numeral_value(second.retry_after->0@),
{
    law_retry_after_denotes_the_wait(shorter, request_id, first);
    law_retry_after_denotes_the_wait(longer, request_id, second);
}

/// A body that was read is taken as it is; a rejected one keeps the status and the message of
/// its rejection.
pub proof fn law_bodies_are_taken_as_they_are<T>(
    read: Result<T, BodyRejection>,
    value: Result<AppJson<T>, AppError>,
)
    requires
        AppJson::is_taken(read, value),
    ensures
        read matches Ok(v) ==> value is Ok && value->Ok_0.0 == v,
        read matches Err(r) ==> value is Err && value->Err_0@ == (ErrorView::InvalidBody {
            status: r.status,
            message: r.message@,
        }),
{
}

/// Whether `ttl` is a lifetime that a link made at `now` can have.
pub open spec fn can_live(ttl: Option<u64>, now: nat) -> bool {
    ttl matches Some(secs) ==> secs >= 60 && now + secs * 1_000_000_000
        <= 18_446_744_073_709_551_615_999_999_999
}

/// Whether `code` is one that a client may choose.
pub open spec fn can_choose(code: Seq<char>) -> bool {
    4 <= code.len() <= 32 && forall|i: int| 0 <= i < code.len() ==> is_url_safe(#[trigger] code[i])
}

/// Which link is inserted for a request that passed the limiter: under the chosen code, or under
/// one of the configured length, with the whole target, made now and ending when its lifetime
/// does. And when one is: always if target, lifetime and code are acceptable and a code can be
/// had.
pub proof fn law_requested_link_is_inserted(
    target_url: Seq<char>,
    custom_code: Option<Seq<char>>,
    ttl_seconds: Option<u64>,
    config: Config,
    now: nat,
    outcome: Result<Insertion, AppError>,
)
    requires
        is_decided(
            Allowance::Allowed,
            Ok(target_url),
            custom_code,
            ttl_seconds,
            config,
            now,
            outcome,
        ),
    ensures
        outcome is Ok <==> can_live(ttl_seconds, now) && (match custom_code {
            Some(code) => can_choose(code),
            None => config.max_generate_attempts > 0,
        }),
        outcome matches Ok(insertion) ==> {
            let link = insertion.link@;
            &&& link.target_url == target_url
            &&& link.created_at == now
            &&& ttl_seconds is None ==> link.expires_at is None
            &&& ttl_seconds matches Some(secs) ==> link.expires_at is Some && link.expires_at->0
                - now == secs * 1_000_000_000
            &&& custom_code matches Some(code) ==> link.code == code
                && insertion.attempts_left is None
            &&& custom_code is None ==> {
                &&& link.code.len() == config.code_length
                &&& forall|i: int| 0 <= i < link.code.len() ==> is_url_safe(#[trigger] link.code[i])
                &&& insertion.attempts_left is Some
                &&& insertion.attempts_left->0 + 1 == config.max_generate_attempts
            }
        },
{
    law_lifetime_is_what_was_asked_for(ttl_seconds, now);
    if let Some(code) = custom_code {
        law_codes_that_may_be_chosen(code);
    }
    if let Ok(insertion) = outcome {
        law_codes_that_may_be_generated(insertion.link@.code, config);
    }
}

/// A raw text of at most 2048 bytes that reads as a URL of `http` or `https` becomes the target of
/// the link that is inserted for it, whole and as it was read; no other raw text leads to a link.
pub proof fn law_inserted_target_is_the_whole_url(
    raw: Seq<char>,
    custom_code: Option<Seq<char>>,
    ttl_seconds: Option<u64>,
    config: Config,
    now: nat,
    outcome: Result<Insertion, AppError>,
)
    requires
        is_decided(
            Allowance::Allowed,
            target(raw),
            custom_code,
            ttl_seconds,
            config,
            now,
            outcome,
        ),
    ensures
        outcome matches Ok(insertion) ==> {
            &&& encode_utf8(raw).len() <= 2048
            &&& url_parse(raw) matches Some((scheme, text))
            &&& scheme == seq!['h', 't', 't', 'p'] || scheme == seq!['h', 't', 't', 'p', 's']
            &&& insertion.link.target_url@ == text
        },
{
    law_target_of_a_raw_text(raw);
    if let Some((scheme, text)) = url_parse(raw) {
        law_accepted_target_is_the_whole_url(scheme, text);
    }
}

/// Why a request that passed the limiter is refused: first for its target, then for its lifetime,
/// then for its code, and at last because no code may be generated.
pub proof fn law_refused_link_has_its_reason(
    url: Result<Seq<char>, ErrorView>,
    custom_code: Option<Seq<char>>,
    ttl_seconds: Option<u64>,
    config: Config,
    now: nat,
    outcome: Result<Insertion, AppError>,
)
    requires
        is_decided(Allowance::Allowed, url, custom_code, ttl_seconds, config, now, outcome),
    ensures
        url matches Err(error) ==> outcome is Err && outcome->Err_0@ == error,
        url is Ok && !can_live(ttl_seconds, now) ==> outcome is Err && outcome->Err_0@
            == ErrorView::Validation(
            if ttl_seconds->0 < 60 {
                "ttl_seconds must be at least 60"@
            } else {
                "ttl_seconds is too large"@
            },
        ),
        url is Ok && can_live(ttl_seconds, now) && (custom_code matches Some(code) && !can_choose(
            code,
        )) ==> outcome is Err && outcome->Err_0@ == ErrorView::Validation(
            "custom_code must be 4 to 32 characters of a-z, A-Z, 0-9, _ and -"@,
        ),
        url is Ok && can_live(ttl_seconds, now) && custom_code is None
            && config.max_generate_attempts == 0 ==> outcome is Err && outcome->Err_0@
            == out_of_codes(0),
{
    law_lifetime_is_what_was_asked_for(ttl_seconds, now);
    if let Some(code) = custom_code {
        law_codes_that_may_be_chosen(code);
    }
}

/// A refusal of the limiter is passed on with its whole wait, whatever was asked for.
pub proof fn law_refusal_is_passed_on(
    verdict: Allowance,
    url: Result<Seq<char>, ErrorView>,
    custom_code: Option<Seq<char>>,
    ttl_seconds: Option<u64>,
    config: Config,
    now: nat,
    outcome: Result<Insertion, AppError>,
)
    requires
        verdict is Denied,
        is_decided(verdict, url, custom_code, ttl_seconds, config, now, outcome),
    ensures
        outcome is Err,
        outcome->Err_0@ == (ErrorView::RateLimited { retry_after: verdict->retry_after@ }),
{
}

/// A code is drawn for exactly those requests that lead to a link under a generated code.
pub proof fn law_codes_are_drawn_when_needed(
    url: Result<Seq<char>, ErrorView>,
    custom_code: Option<Seq<char>>,
    ttl_seconds: Option<u64>,
    config: Config,
    now: nat,
    outcome: Result<Insertion, AppError>,
)
    requires
        is_placed(url, custom_code, ttl_seconds, config, now, outcome),
    ensures
        draws_code(url, custom_code, ttl_seconds, config, now) <==> outcome is Ok
            && outcome->Ok_0.attempts_left is Some,
        draws_code(url, custom_code, ttl_seconds, config, now) <==> url is Ok && can_live(
            ttl_seconds,
            now,
        ) && custom_code is None && config.max_generate_attempts > 0,
{
    law_lifetime_is_what_was_asked_for(ttl_seconds, now);
}

/// What follows the insertion of a link: the statistics of the very code that was inserted; or
/// another code for the same target and end, with one attempt less, if a generated one was taken
/// and attempts are left; or the error.
pub proof fn law_answers_to_an_insertion(
    insertion: Insertion,
    answer: Result<(), RepoError>,
    config: Config,
    now: nat,
    step: Result<CreateStep, AppError>,
)
    requires
        insertion.leads_to(answer, config, now, step),
    ensures
        answer is Ok <==> (step matches Ok(CreateStep::Stats { .. })),
        step matches Ok(CreateStep::Stats { code }) ==> code@ == insertion.link.code@,
        step matches Ok(CreateStep::Insert(_)) <==> (answer matches Err(RepoError::CodeTaken(_)))
            && insertion.attempts_left is Some && insertion.attempts_left->0 > 0,
        step matches Ok(CreateStep::Insert(next)) ==> {
            &&& next.link.target_url@ == insertion.link.target_url@
            &&& next.link@.expires_at == insertion.link@.expires_at
            &&& next.link.created_at@ == now
            &&& next.link.code@.len() == config.code_length
            &&& forall|i: int|
                0 <= i < next.link.code@.len() ==> is_url_safe(#[trigger] next.link.code@[i])
            &&& next.attempts_left is Some
            &&& next.attempts_left->0 + 1 == insertion.attempts_left->0
        },
        answer matches Err(RepoError::NotFound(_)) ==> step is Err && step->Err_0@
            == ErrorView::NotFound,
        (answer matches Err(RepoError::CodeTaken(_))) && insertion.attempts_left is None
            ==> step is Err && step->Err_0@ == ErrorView::CodeTaken,
        (answer matches Err(RepoError::CodeTaken(_))) && insertion.attempts_left == Some(0usize)
            ==> step is Err && step->Err_0@ == out_of_codes(config.max_generate_attempts as nat),
{
    if let Ok(CreateStep::Insert(next)) = step {
        law_codes_that_may_be_generated(next.link@.code, config);
    }
}

/// Whether `response` tells the link of `stats` as it is, with its times in whole seconds.
pub open spec fn is_true_of(response: LinkResponse, stats: LinkStats) -> bool {
    &&& response.code@ == stats.link.code@
    &&& response.target_url@ == stats.link.target_url@
    &&& is_whole_secs(response.created_at_unix as int, stats.link.created_at@)
    &&& match stats.link.expires_at {
        Some(at) => response.expires_at_unix is Some && is_whole_secs(
            response.expires_at_unix->0 as int,
            at@,
        ),
        None => response.expires_at_unix is None,
    }
    &&& response.hits == stats.hits
}

/// Whether `error` is what the client gets for the refusal `err`.
pub open spec fn is_error_for(error: ErrorView, err: RepoError) -> bool {
    match err {
        RepoError::NotFound(_) => error == ErrorView::NotFound,
        RepoError::CodeTaken(_) => error == ErrorView::CodeTaken,
    }
}

/// A new link is announced with 201, under the path of the links followed by its whole code.
pub proof fn law_new_link_is_announced(
    code: Seq<char>,
    stats: Result<LinkStats, RepoError>,
    answer: Result<Created, AppError>,
)
    requires
        is_announced(code, stats, answer),
    ensures
        answer is Ok <==> stats is Ok,
        answer matches Ok(created) ==> {
            &&& created.status == 201
            &&& created.location@.len() == 14 + code.len()
            &&& created.location@.subrange(0, 14) == "/api/v1/links/"@
            &&& created.location@.skip(14) == code
            &&& is_true_of(created.body, stats->Ok_0)
        },
        stats matches Err(err) ==> is_error_for(answer->Err_0@, err),
{
    reveal_strlit("/api/v1/links/");
    if let Ok(created) = answer {
        assert(created.location@.subrange(0, 14) =~= "/api/v1/links/"@);
        assert(created.location@.skip(14) =~= code);
    }
}

/// A link that is asked for is told as it is; one that is not there is refused.
pub proof fn law_link_that_is_asked_for(
    stats: Result<LinkStats, RepoError>,
    answer: Result<LinkResponse, AppError>,
)
    requires
        is_described(stats, answer),
    ensures
        answer is Ok <==> stats is Ok,
        stats matches Ok(s) ==> is_true_of(answer->Ok_0, s),
        stats matches Err(err) ==> is_error_for(answer->Err_0@, err),
{
}

/// Who follows a link whose hit was counted is sent with 307 to the whole target.
pub proof fn law_visitor_is_sent_to_the_target(
    link: LinkView,
    recorded: Result<(), RepoError>,
    answer: Result<Redirect, AppError>,
)
    requires
        is_sent(link, recorded, answer),
    ensures
        answer is Ok <==> recorded is Ok,
        answer matches Ok(redirect) ==> redirect.status == 307 && redirect.location@
            == link.target_url,
        recorded matches Err(err) ==> is_error_for(answer->Err_0@, err),
{
}

/// A link that was removed is reported with 204, one that was not there with the refusal.
pub proof fn law_removal_is_reported(
    removed: Result<(), RepoError>,
    answer: Result<u16, AppError>,
)
    requires
        is_removed(removed, answer),
    ensures
        answer is Ok <==> removed is Ok,
        answer matches Ok(status) ==> status == 204,
        removed matches Err(err) ==> is_error_for(answer->Err_0@, err),
{
}

/// Once the totals of a link are known, its hits of the last sixty seconds are asked for.
pub proof fn law_last_minute_is_asked_for(
    total: Result<LinkStats, RepoError>,
    outcome: Result<StatsQuery, AppError>,
)
    requires
        is_inquired(total, outcome),
    ensures
        outcome is Ok <==> total is Ok,
        outcome matches Ok(query) ==> query.window@ == 60_000_000_000 && query.total == total->Ok_0,
        total matches Err(err) ==> is_error_for(outcome->Err_0@, err),
{
}

/// The statistics tell the link as it is, with the counts of the repository.
pub proof fn law_counts_are_handed_on(
    total: LinkStats,
    window: Result<WindowStats, RepoError>,
    answer: Result<LinkStatsWindowResponse, AppError>,
)
    requires
        is_counted(total, window, answer),
    ensures
        answer is Ok <==> window is Ok,
        answer matches Ok(response) ==> {
            &&& response.code@ == total.link.code@
            &&& response.target_url@ == total.link.target_url@
            &&& is_whole_secs(response.created_at_unix as int, total.link.created_at@)
            &&& response.expires_at_unix is Some <==> total.link.expires_at is Some
            &&& total.link.expires_at matches Some(at) ==> is_whole_secs(
                response.expires_at_unix->0 as int,
                at@,
            )
            &&& response.total_hits == total.hits
            &&& response.hits_last_60s == window->Ok_0.hits
        },
        window matches Err(err) ==> is_error_for(answer->Err_0@, err),
{
}

/// As many lines of the ranking are asked for as were wanted, but one at least and a hundred at
/// most, and ten if nothing was said.
pub proof fn law_lines_of_the_ranking(limit: Option<usize>)
    ensures
        1 <= lines_wanted(limit) <= 100,
        limit is None ==> lines_wanted(limit) == 10,
        limit matches Some(n) ==> {
            &&& 1 <= n <= 100 ==> lines_wanted(limit) == n
            &&& n < 1 ==> lines_wanted(limit) == 1
            &&& n > 100 ==> lines_wanted(limit) == 100
        },
{
}

/// The ranking is told line by line, whole and in its order.
pub proof fn law_ranking_is_told_in_order(
    top: Result<Vec<TopLink>, RepoError>,
    answer: Result<Vec<TopLinkResponse>, AppError>,
    i: int,
)
    requires
        is_ranked(top, answer),
    ensures
        answer is Ok <==> top is Ok,
        top matches Ok(lines) ==> {
            &&& answer->Ok_0@.len() == lines@.len()
            &&& 0 <= i < lines@.len() ==> {
                &&& answer->Ok_0@[i].code@ == lines@[i].code@
                &&& answer->Ok_0@[i].hits == lines@[i].hits
            }
        },
        top matches Err(err) ==> is_error_for(answer->Err_0@, err),
{
    if let Ok(lines) = top {
        if 0 <= i < lines@.len() {
            assert(answer->Ok_0@[i].code@ == lines@[i].code@);
        }
    }
}

} // verus!

//! What holds of the API over more than one decision.

use vstd::prelude::*;

use crate::client::client_of;
use crate::domain::{LinkStats, LinkView, RepoError, ShortLink, WindowStats};
use crate::dto::{
    bad_code, expiry, is_custom_code, target, LinkStatsWindowResponse, MAX_CODE_LEN, MIN_CODE_LEN,
    MIN_TTL_SECS,
};
use crate::error::{
    refusal, AppError, ErrorView, CONFLICT, NOT_FOUND, TEMPORARY_REDIRECT, TOO_MANY_REQUESTS,
    UNPROCESSABLE_ENTITY,
};
use crate::handlers::{
    asks_window, is_decided, is_generated, is_placed, is_sent, link_to_follow, out_of_codes,
    tells_window, Config, CreateStep, Insertion, Redirect, StatsQuery, STATS_WINDOW_SECS,
};
use crate::limiter_laws::count_between;
use crate::rate_limit::{Allowance, LimiterState};
use crate::text::{decimal, first_item, is_blank, trim, trim_end, trim_start};
use crate::time::NANOS_PER_SEC;

verus! {

/// The answer to an internal error is the same whatever its details are.
pub proof fn law_internal_details_are_hidden(left: Seq<char>, right: Seq<char>)
    ensures
        ErrorView::Internal(left).status() == ErrorView::Internal(right).status(),
        ErrorView::Internal(left).code() == ErrorView::Internal(right).code(),
        ErrorView::Internal(left).message() == ErrorView::Internal(right).message(),
        ErrorView::Internal(left).retry_after() == ErrorView::Internal(right).retry_after(),
{
}

/// `Retry-After` comes with the refusals of the rate limiter and with nothing else, and these
/// are answered with 429.
pub proof fn law_retry_after_marks_rate_limit(error: ErrorView)
    ensures
        error.retry_after() is Some <==> error is RateLimited,
        error is RateLimited ==> error.status() == TOO_MANY_REQUESTS,
{
}

/// A request for a link that the limiter refuses is answered with 429, whatever it asks for, and
/// leaves no trace in the limiter. `Retry-After` names the whole seconds of the time to wait, at
/// least one, and that time is never longer than the window.
pub proof fn law_refused_creation_is_429(
    pre: LimiterState,
    key: Seq<char>,
    instant: nat,
    post: LimiterState,
    verdict: Allowance,
    url: Result<Seq<char>, ErrorView>,
    custom_code: Option<Seq<char>>,
    ttl_seconds: Option<u64>,
    config: Config,
    now: nat,
    outcome: Result<Insertion, AppError>,
) -> (secs: nat)
    requires
        pre.admits(key, instant, post, verdict),
        verdict is Denied,
        is_decided(verdict, url, custom_code, ttl_seconds, config, now, outcome),
    ensures
        post == pre.expire(instant),
        outcome is Err,
        outcome->Err_0@.status() == TOO_MANY_REQUESTS,
        outcome->Err_0@.code() == "rate_limited"@,
        outcome->Err_0@.retry_after() == Some(decimal(secs)),
        secs >= 1,
        secs > 1 ==> secs * NANOS_PER_SEC <= verdict->retry_after@,
        verdict->retry_after@ < (secs + 1) * NANOS_PER_SEC,
        verdict->retry_after@ <= pre.window,
{
    let whole = verdict->retry_after@ / (NANOS_PER_SEC as nat);
    if whole >= 1 {
        whole
    } else {
        1
    }
}

/// Whatever makes a request for a link unacceptable is answered with 422.
pub proof fn law_unacceptable_requests_are_422(raw: Seq<char>, ttl: Option<u64>, now: nat)
    ensures
        target(raw) matches Err(e) ==> e.status() == UNPROCESSABLE_ENTITY && e.code()
            == "validation_error"@,
        expiry(ttl, now) matches Err(e) ==> e.status() == UNPROCESSABLE_ENTITY && e.code()
            == "validation_error"@,
        bad_code().status() == UNPROCESSABLE_ENTITY && bad_code().code() == "validation_error"@,
{
}

/// Every link that is to be inserted lives for at least the shortest lifetime.
pub proof fn law_new_links_are_alive(
    url: Result<Seq<char>, ErrorView>,
    custom_code: Option<Seq<char>>,
    ttl_seconds: Option<u64>,
    config: Config,
    now: nat,
    outcome: Result<Insertion, AppError>,
    then: nat,
)
    requires
        is_placed(url, custom_code, ttl_seconds, config, now, outcome),
        outcome is Ok,
        then < now + MIN_TTL_SECS * NANOS_PER_SEC,
    ensures
        !outcome->Ok_0.link@.expired(then),
{
}

/// Every generated code is one that a client might have chosen, if codes of that length can be.
pub proof fn law_generated_codes_are_acceptable(code: Seq<char>, config: Config)
    requires
        is_generated(code, config),
        MIN_CODE_LEN <= config.code_length <= MAX_CODE_LEN,
    ensures
        is_custom_code(code),
{
}

/// A code that the client chose is never replaced: if it is taken, the answer is 409.
pub proof fn law_chosen_code_is_not_replaced(
    insertion: Insertion,
    err: RepoError,
    config: Config,
    now: nat,
    step: Result<CreateStep, AppError>,
)
    requires
        insertion.attempts_left is None,
        err is CodeTaken,
        insertion.leads_to(Err(err), config, now, step),
    ensures
        step is Err,
        step->Err_0@ == ErrorView::CodeTaken,
        step->Err_0@.status() == CONFLICT,
{
}

/// Whether `insertions` are what is tried, one after the other, while every code is taken.
pub open spec fn all_taken(
    insertions: Seq<Insertion>,
    errors: Seq<RepoError>,
    times: Seq<nat>,
    config: Config,
) -> bool {
    &&& errors.len() == insertions.len() == times.len()
    &&& forall|i: int| 0 <= i < errors.len() ==> #[trigger] errors[i] is CodeTaken
    &&& forall|i: int|
        0 <= i < insertions.len() - 1 ==> (#[trigger] insertions[i]).leads_to(
            Err(errors[i]),
            config,
            times[i],
            Ok(CreateStep::Insert(insertions[i + 1])),
        )
}

/// While generated codes are taken, new ones are tried for the same target and lifetime, as
/// often as the configuration allows and no more; then the answer is an internal error.
pub proof fn law_generation_ends(
    url: Result<Seq<char>, ErrorView>,
    ttl_seconds: Option<u64>,
    config: Config,
    now: nat,
    insertions: Seq<Insertion>,
    errors: Seq<RepoError>,
    times: Seq<nat>,
    step: Result<CreateStep, AppError>,
)
    requires
        insertions.len() > 0,
        is_placed(url, None, ttl_seconds, config, now, Ok(insertions[0])),
        all_taken(insertions, errors, times, config),
        insertions.last().leads_to(Err(errors.last()), config, times.last(), step),
    ensures
        insertions.len() <= config.max_generate_attempts,
        is_generated(insertions.last().link@.code, config),
        insertions.last().link@.target_url == insertions[0].link@.target_url,
        insertions.last().link@.expires_at == insertions[0].link@.expires_at,
        if insertions.len() == config.max_generate_attempts {
            step matches Err(e) && e@ == out_of_codes(config.max_generate_attempts as nat)
        } else {
            step matches Ok(CreateStep::Insert(_))
        },
{
    lemma_attempts_left(url, ttl_seconds, config, now, insertions, errors, times);
    assert(errors[errors.len() - 1] is CodeTaken);
}

/// Every insertion after the first uses up one attempt and keeps target and lifetime.
proof fn lemma_attempts_left(
    url: Result<Seq<char>, ErrorView>,
    ttl_seconds: Option<u64>,
    config: Config,
    now: nat,
    insertions: Seq<Insertion>,
    errors: Seq<RepoError>,
    times: Seq<nat>,
)
    requires
        insertions.len() > 0,
        is_placed(url, None, ttl_seconds, config, now, Ok(insertions[0])),
        all_taken(insertions, errors, times, config),
    ensures
        insertions.len() <= config.max_generate_attempts,
        insertions.last().attempts_left == Some(
            (config.max_generate_attempts - insertions.len()) as usize,
        ),
        is_generated(insertions.last().link@.code, config),
        insertions.last().link@.target_url == insertions[0].link@.target_url,
        insertions.last().link@.expires_at == insertions[0].link@.expires_at,
    decreases insertions.len(),
{
    let n = insertions.len() - 1;
    if n > 0 {
        let insertions0 = insertions.drop_last();
        let errors0 = errors.drop_last();
        let times0 = times.drop_last();
        assert forall|i: int| 0 <= i < errors0.len() implies #[trigger] errors0[i] is CodeTaken by {
            assert(errors[i] is CodeTaken);
        }
        assert forall|i: int| 0 <= i < insertions0.len() - 1 implies (#[trigger]
        insertions0[i]).leads_to(
            Err(errors0[i]),
            config,
            times0[i],
            Ok(CreateStep::Insert(insertions0[i + 1])),
        ) by {
            assert(insertions[i].leads_to(
                Err(errors[i]),
                config,
                times[i],
                Ok(CreateStep::Insert(insertions[i + 1])),
            ));
        }
        lemma_attempts_left(url, ttl_seconds, config, now, insertions0, errors0, times0);
        assert(errors[n - 1] is CodeTaken);
        assert(insertions[n - 1].leads_to(
            Err(errors[n - 1]),
            config,
            times[n - 1],
            Ok(CreateStep::Insert(insertions[n])),
        ));
    }
}

/// From outside, a link whose lifetime is over cannot be told from one that does not exist.
pub proof fn law_expired_link_is_like_absent(link: ShortLink, absent: RepoError, now: nat)
    requires
        link@.expired(now),
        absent is NotFound,
    ensures
        link_to_follow(Ok(link), now) == link_to_follow(Err(absent), now),
        link_to_follow(Ok(link), now)->Err_0.status() == NOT_FOUND,
{
}

/// One request that follows a link: what the repository found at `now`, what it answered when
/// the hit was to be counted, and what the client got.
pub ghost struct Visit {
    pub found: Result<ShortLink, RepoError>,
    pub now: nat,
    pub recorded: Result<(), RepoError>,
    pub answer: Result<Redirect, AppError>,
}

impl Visit {
    /// Whether the repository is asked to count a hit.
    pub open spec fn asks_for_hit(self) -> bool {
        link_to_follow(self.found, self.now) is Ok
    }

    /// Whether the decisions of the route were taken on these answers.
    pub open spec fn is_served(self) -> bool {
        match link_to_follow(self.found, self.now) {
            Ok(link) => is_sent(link, self.recorded, self.answer),
            Err(error) => self.answer matches Err(e) && e@ == error,
        }
    }
}

/// The hits of a link with `before` hits after `visits`, where the repository adds one for every
/// hit that it confirms.
pub open spec fn hits_after(before: nat, visits: Seq<Visit>) -> nat
    decreases visits.len(),
{
    if visits.len() == 0 {
        before
    } else {
        let last = visits.last();
        hits_after(before, visits.drop_last()) + if last.asks_for_hit() && last.recorded is Ok {
            1nat
        } else {
            0nat
        }
    }
}

/// Every visit of a live link is sent to the same target with 307 and counted once, in whatever
/// order the visits are counted.
pub proof fn law_every_visit_is_counted_once(before: nat, visits: Seq<Visit>, link: LinkView)
    requires
        forall|i: int|
            0 <= i < visits.len() ==> {
                let v = #[trigger] visits[i];
                &&& v.is_served()
                &&& v.found matches Ok(l) && l@ == link && !link.expired(v.now)
                &&& v.recorded is Ok
            },
    ensures
        hits_after(before, visits) == before + visits.len(),
        forall|i: int|
            0 <= i < visits.len() ==> {
                &&& (#[trigger] visits[i]).answer matches Ok(r)
                &&& r.status == TEMPORARY_REDIRECT
                &&& r.location@ == link.target_url
            },
    decreases visits.len(),
{
    if visits.len() > 0 {
        let earlier = visits.drop_last();
        assert(forall|i: int| 0 <= i < earlier.len() ==> #[trigger] earlier[i] == visits[i]);
        law_every_visit_is_counted_once(before, earlier, link);
        assert(visits[visits.len() - 1].is_served());
    }
}

/// A client is redirected exactly when its visit is counted.
pub proof fn law_redirect_means_counted(visit: Visit, before: nat)
    requires
        visit.is_served(),
    ensures
        visit.answer is Ok <==> hits_after(before, seq![visit]) == before + 1,
{
    let visits = seq![visit];
    assert(visits.drop_last() =~= Seq::<Visit>::empty());
    assert(visits.last() == visit);
    assert(hits_after(before, visits.drop_last()) == before);
}

/// Where the repository counts the hits of a link that were made at `hits`, and those among them
/// that lie in the window it is asked for, the statistics tell all of them as the total, and as
/// recent ones those of the last minute: all while the first is at most a minute old, none once
/// the last is older.
pub proof fn law_statistics_tell_all_and_recent_hits(
    hits: Seq<nat>,
    now: nat,
    stats: LinkStats,
    query: StatsQuery,
    recent: WindowStats,
    response: LinkStatsWindowResponse,
)
    requires
        forall|i: int| 0 <= i < hits.len() ==> hits[i] <= now,
        stats.hits == hits.len(),
        asks_window(query, stats),
        recent.hits == count_between(hits, now - query.window@, now as int),
        tells_window(response, query.total, recent),
    ensures
        response.total_hits == hits.len(),
        response.hits_last_60s == count_between(
            hits,
            now - STATS_WINDOW_SECS * NANOS_PER_SEC,
            now as int,
        ),
        (forall|i: int|
            0 <= i < hits.len() ==> now - hits[i] <= STATS_WINDOW_SECS * NANOS_PER_SEC)
            ==> response.hits_last_60s == hits.len(),
        (forall|i: int|
            0 <= i < hits.len() ==> now - hits[i] > STATS_WINDOW_SECS * NANOS_PER_SEC)
            ==> response.hits_last_60s == 0,
{
    lemma_count_extremes(hits, now - query.window@, now as int);
}

/// Where all times lie in the range they all count, and where none does none counts.
proof fn lemma_count_extremes(times: Seq<nat>, from: int, to: int)
    ensures
        (forall|i: int| 0 <= i < times.len() ==> from <= #[trigger] times[i] <= to) ==> count_between(
            times,
            from,
            to,
        ) == times.len(),
        (forall|i: int| 0 <= i < times.len() ==> times[i] < from) ==> count_between(
            times,
            from,
            to,
        ) == 0,
    decreases times.len(),
{
    if times.len() > 0 {
        let rest = times.drop_last();
        lemma_count_extremes(rest, from, to);
        assert(forall|i: int| 0 <= i < rest.len() ==> rest[i] == times[i]);
        assert(times.last() == times[times.len() - 1]);
    }
}

/// What a repository refuses is answered with 404 or with 409.
pub proof fn law_refusals_are_404_or_409(err: RepoError)
    ensures
        err is NotFound ==> refusal(err).status() == NOT_FOUND,
        err is CodeTaken ==> refusal(err).status() == CONFLICT,
{
}

/// What is left after trimming the start begins with no white space.
proof fn lemma_trim_start(text: Seq<char>)
    ensures
        trim_start(text).len() > 0 ==> !is_blank(trim_start(text).first()),
    decreases text.len(),
{
    if text.len() > 0 && is_blank(text.first()) {
        lemma_trim_start(text.drop_first());
    }
}

/// What is left after trimming the end has no white space there and begins as before.
proof fn lemma_trim_end(text: Seq<char>)
    ensures
        trim_end(text).len() > 0 ==> text.len() > 0 && !is_blank(trim_end(text).last())
            && trim_end(text).first() == text.first(),
    decreases text.len(),
{
    if text.len() > 0 && is_blank(text.last()) {
        lemma_trim_end(text.drop_last());
    }
}

/// Trimming twice is trimming once.
proof fn lemma_trim_twice(text: Seq<char>)
    ensures
        trim(trim(text)) == trim(text),
{
    lemma_trim_start(text);
    lemma_trim_end(trim_start(text));
}

/// White space around a name never makes another client: every client is trimmed already.
pub proof fn law_client_is_trimmed(forwarded_for: Option<Seq<char>>, api_key: Option<Seq<char>>)
    ensures
        trim(client_of(forwarded_for, api_key)) == client_of(forwarded_for, api_key),
{
    if forwarded_for is Some && trim(forwarded_for->0).len() > 0 {
        lemma_trim_twice(first_item(trim(forwarded_for->0)));
    } else if api_key is Some {
        lemma_trim_twice(api_key->0);
    } else {
        reveal_strlit("unknown");
    }
}

/// A request that names its address is counted under it, whatever key it carries.
pub proof fn law_address_comes_before_key(
    forwarded_for: Seq<char>,
    left: Option<Seq<char>>,
    right: Option<Seq<char>>,
)
    requires
        trim(forwarded_for).len() > 0,
    ensures
        client_of(Some(forwarded_for), left) == client_of(Some(forwarded_for), right),
{
}

} // verus!

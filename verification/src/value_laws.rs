//! What the values of the API mean, told in their own fields, in plain numbers and in characters.

use vstd::prelude::*;
use vstd::utf8::encode_utf8;

use crate::domain::{view_time, LinkStats, LinkView, RepoError, ShortLink, WindowStats};
use crate::dto::{
    expiry, is_code_char, is_code_text, is_custom_code, same_secs, secs_of, target, tells,
    url_parse, view_url, web_target, LinkResponse, LinkStatsWindowResponse, ParsedUrl,
};
use crate::error::{refusal, AppError, ErrorView};
use crate::handlers::{
    is_generated, link_to_follow, out_of_codes, tells_window, view_target, view_text, Config,
};
use crate::text::decimal;
use crate::text_laws::{is_numeral, law_numeral_denotes_its_number, numeral_value};
use crate::time::Duration;

verus! {

/// The view of a link shows its fields as they are.
pub proof fn law_link_view_is_faithful(link: ShortLink)
    ensures
        link@.code == link.code@,
        link@.target_url == link.target_url@,
        link@.created_at == link.created_at@,
        link@.expires_at is Some <==> link.expires_at is Some,
        link.expires_at matches Some(at) ==> link@.expires_at == Some(at@),
{
}

/// The views of values that may be absent, and of results, show what they hold.
pub proof fn law_views_are_faithful(
    time: Option<Duration>,
    text: Option<String>,
    url: Result<String, AppError>,
    parsed: Option<ParsedUrl>,
)
    ensures
        view_time(time) is Some <==> time is Some,
        time matches Some(t) ==> view_time(time) == Some(t@),
        view_text(text) is Some <==> text is Some,
        text matches Some(t) ==> view_text(text) == Some(t@),
        url matches Ok(t) ==> view_target(url) == Ok::<Seq<char>, ErrorView>(t@),
        url matches Err(e) ==> view_target(url) == Err::<Seq<char>, ErrorView>(e@),
        view_url(parsed) is Some <==> parsed is Some,
        parsed matches Some(u) ==> view_url(parsed) == Some((u.scheme@, u.text@)),
{
}

/// The view of an error shows its kind and all that it carries.
pub proof fn law_error_view_is_faithful(error: AppError)
    ensures
        error is NotFound <==> error@ == ErrorView::NotFound,
        error is CodeTaken <==> error@ == ErrorView::CodeTaken,
        error matches AppError::RateLimited { retry_after } ==> error@ == (ErrorView::RateLimited {
            retry_after: retry_after@,
        }),
        error matches AppError::Validation(m) ==> error@ == ErrorView::Validation(m@),
        error matches AppError::InvalidBody { status, message } ==> error@ == (
        ErrorView::InvalidBody { status, message: message@ }),
        error matches AppError::Internal(d) ==> error@ == ErrorView::Internal(d@),
{
}

/// A repository that finds nothing, and one that has the code already, are told apart.
pub proof fn law_refusals_keep_their_meaning(err: RepoError)
    ensures
        err is NotFound <==> refusal(err) == ErrorView::NotFound,
        err is CodeTaken <==> refusal(err) == ErrorView::CodeTaken,
{
}

/// Whether `secs` is the number of whole seconds in `nanos` nanoseconds.
pub open spec fn is_whole_secs(secs: int, nanos: nat) -> bool {
    secs * 1_000_000_000 <= nanos < (secs + 1) * 1_000_000_000
}

/// Times are told in the whole seconds since the epoch.
pub proof fn law_times_are_told_in_whole_seconds(
    time: nat,
    unix: Option<u64>,
    maybe: Option<Duration>,
)
    requires
        same_secs(unix, maybe),
    ensures
        is_whole_secs(secs_of(time) as int, time),
        unix is Some <==> maybe is Some,
        maybe matches Some(t) ==> is_whole_secs(unix->0 as int, t@),
{
}

/// Of two times the later is never told as an earlier second.
pub proof fn law_told_times_keep_their_order(earlier: nat, later: nat)
    requires
        earlier <= later,
    ensures
        secs_of(earlier) <= secs_of(later),
        later >= earlier + 1_000_000_000 ==> secs_of(earlier) < secs_of(later),
{
}

/// What is told about a link is its code, its target, its times in whole seconds and its hits.
pub proof fn law_link_is_told_as_it_is(response: LinkResponse, stats: LinkStats)
    requires
        tells(response, stats),
    ensures
        response.code@ == stats.link.code@,
        response.target_url@ == stats.link.target_url@,
        is_whole_secs(response.created_at_unix as int, stats.link.created_at@),
        response.expires_at_unix is Some <==> stats.link.expires_at is Some,
        stats.link.expires_at matches Some(at) ==> is_whole_secs(
            response.expires_at_unix->0 as int,
            at@,
        ),
        response.hits == stats.hits,
{
}

/// What the statistics of a link tell is its code, its target, its times in whole seconds, all
/// its hits and its recent ones.
pub proof fn law_statistics_are_told_as_they_are(
    response: LinkStatsWindowResponse,
    total: LinkStats,
    recent: WindowStats,
)
    requires
        tells_window(response, total, recent),
    ensures
        response.code@ == total.link.code@,
        response.target_url@ == total.link.target_url@,
        is_whole_secs(response.created_at_unix as int, total.link.created_at@),
        response.expires_at_unix is Some <==> total.link.expires_at is Some,
        total.link.expires_at matches Some(at) ==> is_whole_secs(
            response.expires_at_unix->0 as int,
            at@,
        ),
        response.total_hits == total.hits,
        response.hits_last_60s == recent.hits,
{
}

/// A link with an end is over from that end on and for ever, and alive before it; one without an
/// end is never over.
pub proof fn law_links_end_for_ever(link: LinkView, now: nat, later: nat)
    requires
        now <= later,
    ensures
        link.expires_at matches Some(at) ==> {
            &&& now >= at ==> link.expired(now) && link.expired(later)
            &&& later < at ==> !link.expired(later) && !link.expired(now)
        },
        link.expires_at is None ==> !link.expired(now),
        link.expired(now) ==> link.expired(later),
{
}

/// Who follows a link gets the whole link until its end and `NotFound` at its end and at any time
/// after it; who follows a code that the repository refuses gets that refusal.
pub proof fn law_following_a_link(found: Result<ShortLink, RepoError>, now: nat)
    ensures
        match found {
            Ok(link) => if link.expires_at is Some && now >= link.expires_at->0@ {
                link_to_follow(found, now) == Err::<LinkView, ErrorView>(ErrorView::NotFound)
            } else {
                &&& link_to_follow(found, now) matches Ok(followed)
                &&& followed.code == link.code@
                &&& followed.target_url == link.target_url@
                &&& followed.created_at == link.created_at@
                &&& followed.expires_at is Some <==> link.expires_at is Some
                &&& followed.expires_at is Some ==> followed.expires_at->0 == link.expires_at->0@
            },
            Err(RepoError::NotFound(_)) => link_to_follow(found, now) == Err::<
                LinkView,
                ErrorView,
            >(ErrorView::NotFound),
            Err(RepoError::CodeTaken(_)) => link_to_follow(found, now) == Err::<
                LinkView,
                ErrorView,
            >(ErrorView::CodeTaken),
        },
{
}

/// Once a link is refused for its age it stays refused.
pub proof fn law_over_stays_over(link: ShortLink, now: nat, later: nat)
    requires
        link_to_follow(Ok(link), now) is Err,
        now <= later,
    ensures
        link_to_follow(Ok(link), later) == Err::<LinkView, ErrorView>(ErrorView::NotFound),
{
}

/// Whether `c` is a letter of the English alphabet, a digit, a hyphen or an underscore, by its
/// code point.
pub open spec fn is_url_safe(c: char) -> bool {
    let p = c as int;
    97 <= p <= 122 || 65 <= p <= 90 || 48 <= p <= 57 || p == 45 || p == 95
}

/// A text for codes is one of such characters.
proof fn lemma_code_text_is_url_safe(code: Seq<char>)
    ensures
        is_code_text(code) <==> forall|i: int|
            0 <= i < code.len() ==> is_url_safe(#[trigger] code[i]),
{
    assert forall|c: char| #[trigger] is_code_char(c) == is_url_safe(c) by {}
    if forall|i: int| 0 <= i < code.len() ==> is_url_safe(#[trigger] code[i]) {
        assert forall|i: int| 0 <= i < code.len() implies is_code_char(#[trigger] code[i]) by {
            assert(is_url_safe(code[i]));
        }
    }
}

/// A client may choose exactly the codes of 4 to 32 letters, digits, hyphens and underscores.
pub proof fn law_codes_that_may_be_chosen(code: Seq<char>)
    ensures
        is_custom_code(code) <==> 4 <= code.len() <= 32 && forall|i: int|
            0 <= i < code.len() ==> is_url_safe(#[trigger] code[i]),
{
    lemma_code_text_is_url_safe(code);
}

/// A generated code has the length that is configured, and any letters, digits, hyphens and
/// underscores of that length may be one.
pub proof fn law_codes_that_may_be_generated(code: Seq<char>, config: Config)
    ensures
        is_generated(code, config) <==> code.len() == config.code_length && forall|i: int|
            0 <= i < code.len() ==> is_url_safe(#[trigger] code[i]),
{
    lemma_code_text_is_url_safe(code);
}

/// A link lives for exactly the seconds that were asked for, 60 at least, and for ever if none
/// were; other lifetimes are refused.
pub proof fn law_lifetime_is_what_was_asked_for(ttl: Option<u64>, now: nat)
    ensures
        match ttl {
            None => expiry(ttl, now) == Ok::<Option<nat>, ErrorView>(None),
            Some(secs) => if secs < 60 {
                expiry(ttl, now) == Err::<Option<nat>, ErrorView>(
                    ErrorView::Validation("ttl_seconds must be at least 60"@),
                )
            } else if now + secs * 1_000_000_000 <= 18_446_744_073_709_551_615_999_999_999 {
                &&& expiry(ttl, now) matches Ok(Some(at))
                &&& at - now == secs * 1_000_000_000
            } else {
                expiry(ttl, now) == Err::<Option<nat>, ErrorView>(
                    ErrorView::Validation("ttl_seconds is too large"@),
                )
            },
        },
{
}

/// A longer lifetime ends later, and a link that is made later ends later.
pub proof fn law_longer_lifetimes_end_later(left: u64, right: u64, now: nat, later: nat)
    requires
        left <= right,
        now <= later,
        expiry(Some(left), now) is Ok,
        expiry(Some(right), later) is Ok,
    ensures
        expiry(Some(right), later)->Ok_0->0 - expiry(Some(left), now)->Ok_0->0 == (later - now) + (
        right - left) * 1_000_000_000,
{
}

/// The target of a link is the whole URL that was parsed, character for character, if it leads
/// to `http` or `https`; nothing else is accepted.
pub proof fn law_accepted_target_is_the_whole_url(scheme: Seq<char>, text: Seq<char>)
    ensures
        scheme == seq!['h', 't', 't', 'p'] || scheme == seq!['h', 't', 't', 'p', 's']
            ==> web_target(Some((scheme, text))) == Ok::<Seq<char>, ErrorView>(text),
        scheme != seq!['h', 't', 't', 'p'] && scheme != seq!['h', 't', 't', 'p', 's']
            ==> web_target(Some((scheme, text))) == Err::<Seq<char>, ErrorView>(
            ErrorView::Validation("target_url must use http or https"@),
        ),
        web_target(None) == Err::<Seq<char>, ErrorView>(
            ErrorView::Validation("target_url is not an absolute URL"@),
        ),
{
    reveal_strlit("http");
    reveal_strlit("https");
    assert("http"@ =~= seq!['h', 't', 't', 'p']);
    assert("https"@ =~= seq!['h', 't', 't', 'p', 's']);
}

/// A raw text of at most 2048 bytes that parses as a URL of `http` or `https` is accepted with
/// that whole URL as its target; any other is refused, for its length before anything else.
pub proof fn law_target_of_a_raw_text(raw: Seq<char>)
    ensures
        if encode_utf8(raw).len() > 2048 {
            target(raw) == Err::<Seq<char>, ErrorView>(
                ErrorView::Validation("target_url is longer than 2048 bytes"@),
            )
        } else {
            match url_parse(raw) {
                Some((scheme, text)) => if scheme == seq!['h', 't', 't', 'p'] || scheme
                    == seq!['h', 't', 't', 'p', 's'] {
                    target(raw) == Ok::<Seq<char>, ErrorView>(text)
                } else {
                    target(raw) == Err::<Seq<char>, ErrorView>(
                        ErrorView::Validation("target_url must use http or https"@),
                    )
                },
                None => target(raw) == Err::<Seq<char>, ErrorView>(
                    ErrorView::Validation("target_url is not an absolute URL"@),
                ),
            }
        },
{
    if let Some((scheme, text)) = url_parse(raw) {
        law_accepted_target_is_the_whole_url(scheme, text);
    }
}

/// The details of a failed generation end in the number of attempts, as a numeral that denotes
/// it, between fixed words.
pub proof fn law_failed_generation_names_the_attempts(attempts: nat) -> (numeral: Seq<char>)
    ensures
        out_of_codes(attempts) == ErrorView::Internal(
            "failed to generate a unique code in "@ + numeral + " attempts"@,
        ),
        is_numeral(numeral),
        numeral_value(numeral) == attempts,
{
    law_numeral_denotes_its_number(attempts);
    decimal(attempts)
}

} // verus!

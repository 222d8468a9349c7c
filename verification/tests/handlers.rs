use shorty::domain::{LinkStats, RepoError, ShortLink, TopLink, WindowStats};
use shorty::dto::{
    accept_url, expires_at_from_ttl, parse_target_url, validate_custom_code, CreateLinkRequest,
    ParsedUrl,
};
use shorty::error::AppError;
use shorty::handlers::{
    create_link, delete_link, fallback_404, generate_code, get_link, healthz, hit_recorded,
    link_created, link_stats, redirect, top_limit, top_links, try_create_link, version,
    window_counted, Config, CreateStep, Insertion, TopQuery,
};
use shorty::rate_limit::{Allowance, RateLimiter};
use shorty::time::{Duration, Instant};

const CONFIG: Config = Config { code_length: 8, max_generate_attempts: 3 };

fn secs(n: u64) -> Duration {
    Duration::from_secs(n)
}

fn request(url: &str, code: Option<&str>, ttl: Option<u64>) -> CreateLinkRequest {
    CreateLinkRequest {
        target_url: url.to_string(),
        custom_code: code.map(|c| c.to_string()),
        ttl_seconds: ttl,
    }
}

fn place(url: &str, code: Option<&str>, ttl: Option<u64>) -> Result<Insertion, AppError> {
    create_link(Allowance::Allowed, request(url, code, ttl), &CONFIG, secs(1000))
}

fn message(error: AppError) -> String {
    match error {
        AppError::Validation(message) => message,
        _ => panic!("not a validation error"),
    }
}

fn link(code: &str, expires_at: Option<Duration>) -> ShortLink {
    ShortLink {
        code: code.to_string(),
        target_url: "https://example.com/".to_string(),
        created_at: Duration::new(1000, 5),
        expires_at,
    }
}

fn missing() -> RepoError {
    RepoError::NotFound("absent".to_string())
}

fn taken() -> RepoError {
    RepoError::CodeTaken("promo2026".to_string())
}

fn is_code(text: &str) -> bool {
    text.bytes().all(|b| b.is_ascii_alphanumeric() || b == b'_' || b == b'-')
}

#[test]
fn chosen_codes() {
    for good in ["abcd", "promo2026", "A_b-9", &"x".repeat(32)] {
        assert!(validate_custom_code(good).is_ok());
    }
    let cyrillic = "\u{44f}\u{44f}\u{44f}\u{44f}";
    for bad in ["", "abc", &"x".repeat(33), "ab cd", "abcd!", cyrillic, "ab/cd"] {
        assert_eq!(
            message(validate_custom_code(bad).unwrap_err()),
            "custom_code must be 4 to 32 characters of a-z, A-Z, 0-9, _ and -"
        );
    }
}

#[test]
fn lifetimes() {
    assert!(matches!(expires_at_from_ttl(None, secs(1000)), Ok(None)));
    assert!(matches!(expires_at_from_ttl(Some(60), secs(1000)), Ok(Some(t)) if t == secs(1060)));
    let short = expires_at_from_ttl(Some(59), secs(1000)).unwrap_err();
    assert_eq!(message(short), "ttl_seconds must be at least 60");
    let long = expires_at_from_ttl(Some(u64::MAX), secs(1000)).unwrap_err();
    assert_eq!(message(long), "ttl_seconds is too large");
}

#[test]
fn target_urls_are_normalised() {
    assert_eq!(parse_target_url("HTTPS://Example.COM").unwrap(), "https://example.com/");
    assert_eq!(parse_target_url("http://a/b/../c?q=1").unwrap(), "http://a/c?q=1");
}

#[test]
fn target_urls_that_are_refused() {
    let error = |raw: &str| message(parse_target_url(raw).unwrap_err());
    assert_eq!(error("ftp://x"), "target_url must use http or https");
    assert_eq!(error("/only/a/path"), "target_url is not an absolute URL");
    let longest = format!("http://a/{}", "b".repeat(2048 - 9));
    assert!(parse_target_url(&longest).is_ok());
    let longer = format!("http://a/{}", "b".repeat(2048 - 8));
    assert_eq!(error(&longer), "target_url is longer than 2048 bytes");
}

#[test]
fn parsed_urls_are_accepted_by_scheme() {
    let parsed = |scheme: &str| {
        Some(ParsedUrl { scheme: scheme.to_string(), text: "text".to_string() })
    };
    assert_eq!(accept_url(parsed("http")).unwrap(), "text");
    assert_eq!(accept_url(parsed("https")).unwrap(), "text");
    assert!(accept_url(parsed("file")).is_err());
    assert!(accept_url(None).is_err());
}

#[test]
fn denied_creation_is_rate_limited() {
    let denied = Allowance::Denied { retry_after: secs(7) };
    match create_link(denied, request("nonsense", None, None), &CONFIG, secs(1000)) {
        Err(AppError::RateLimited { retry_after }) => assert_eq!(retry_after, secs(7)),
        _ => panic!("the rate limit comes first"),
    }
}

#[test]
fn refused_creation_is_answered_with_429() {
    let mut limiter = RateLimiter::new(1, secs(60), 10);
    assert!(matches!(limiter.check("ip", Instant::at(secs(5))), Allowance::Allowed));
    let verdict = limiter.check("ip", Instant::at(secs(8)));
    let error = create_link(verdict, request("http://x", None, None), &CONFIG, secs(1000));
    let answer = error.unwrap_err().into_response(None);
    assert_eq!(answer.status, 429);
    assert_eq!(answer.body.code, "rate_limited");
    assert_eq!(answer.retry_after.as_deref(), Some("57"));
}

#[test]
fn chosen_code_is_inserted() {
    let insertion = place("https://example.com", Some("promo2026"), Some(3600)).unwrap();
    assert_eq!(insertion.link.code, "promo2026");
    assert_eq!(insertion.link.target_url, "https://example.com/");
    assert_eq!(insertion.link.created_at, secs(1000));
    assert_eq!(insertion.link.expires_at, Some(secs(4600)));
    assert_eq!(insertion.attempts_left, None);
}

#[test]
fn unacceptable_creations_in_the_order_of_the_checks() {
    let error = |url: &str, code: Option<&str>, ttl: Option<u64>| {
        message(place(url, code, ttl).unwrap_err())
    };
    assert_eq!(error("ftp://x", Some("!"), Some(1)), "target_url must use http or https");
    assert_eq!(error("http://x", Some("!"), Some(1)), "ttl_seconds must be at least 60");
    assert_eq!(
        error("http://x", Some("!"), Some(60)),
        "custom_code must be 4 to 32 characters of a-z, A-Z, 0-9, _ and -"
    );
}

#[test]
fn generated_codes_have_their_length_and_alphabet() {
    let first = place("http://x", None, None).unwrap();
    let second = place("http://x", None, None).unwrap();
    assert_eq!(first.link.code.len(), 8);
    assert!(is_code(&first.link.code));
    assert!(validate_custom_code(&first.link.code).is_ok());
    assert_ne!(first.link.code, second.link.code);
    assert_eq!(first.attempts_left, Some(2));
    assert_eq!(first.link.expires_at, None);
    let long = Config { code_length: 100, max_generate_attempts: 1 };
    let code = generate_code(&long, 1).unwrap();
    assert!(code.len() == 100 && is_code(&code));
}

#[test]
fn generation_ends_after_the_attempts_allowed() {
    let mut insertion = place("http://x", None, Some(60)).unwrap();
    let mut inserted: usize = 1;
    loop {
        let before = insertion.link.code.clone();
        match insertion.answered(Err(taken()), &CONFIG, secs(1001)) {
            Ok(CreateStep::Insert(next)) => {
                assert_ne!(next.link.code, before);
                assert_eq!(next.link.target_url, "http://x/");
                assert_eq!(next.link.created_at, secs(1001));
                assert_eq!(next.link.expires_at, Some(secs(1060)));
                insertion = next;
                inserted += 1;
            }
            Ok(CreateStep::Stats { .. }) => panic!("nothing was inserted"),
            Err(AppError::Internal(details)) => {
                assert_eq!(details, "failed to generate a unique code in 3 attempts");
                break;
            }
            Err(_) => panic!("another error"),
        }
    }
    assert_eq!(inserted, 3);
}

#[test]
fn no_attempts_allowed() {
    let never = Config { code_length: 8, max_generate_attempts: 0 };
    match create_link(Allowance::Allowed, request("http://x", None, None), &never, secs(1)) {
        Err(AppError::Internal(details)) => {
            assert_eq!(details, "failed to generate a unique code in 0 attempts")
        }
        _ => panic!("no code may be generated"),
    }
}

#[test]
fn codes_that_are_too_long_to_draw() {
    let huge = Config { code_length: usize::MAX, max_generate_attempts: 1 };
    let create = |allowance: Allowance, req: CreateLinkRequest| {
        try_create_link(allowance, req, &huge, secs(1000))
    };
    assert!(create(Allowance::Allowed, request("http://x", None, None)).is_none());
    let denied = Allowance::Denied { retry_after: secs(7) };
    let refused = create(denied, request("http://x", None, None)).unwrap();
    assert!(matches!(refused, Err(AppError::RateLimited { .. })));
    assert!(create(Allowance::Allowed, request("x", None, None)).unwrap().is_err());
    assert!(create(Allowance::Allowed, request("http://x", None, Some(1))).unwrap().is_err());
    assert!(create(Allowance::Allowed, request("http://x", Some("abcd"), None)).unwrap().is_ok());
    let usual = try_create_link(
        Allowance::Allowed,
        request("http://x", None, None),
        &CONFIG,
        secs(1000),
    );
    assert_eq!(usual.unwrap().unwrap().link.code.len(), 8);
}

#[test]
fn chosen_code_that_is_taken_is_a_conflict() {
    let insertion = place("http://x", Some("promo2026"), None).unwrap();
    let step = insertion.answered(Err(taken()), &CONFIG, secs(1000));
    assert!(matches!(step, Err(AppError::CodeTaken)));
}

#[test]
fn other_refusals_end_the_creation() {
    for code in [Some("promo2026"), None] {
        let insertion = place("http://x", code, None).unwrap();
        let step = insertion.answered(Err(missing()), &CONFIG, secs(1000));
        assert!(matches!(step, Err(AppError::NotFound)));
    }
}

#[test]
fn inserted_link_is_answered_with_its_location() {
    let insertion = place("http://x", Some("promo2026"), None).unwrap();
    let code = match insertion.answered(Ok(()), &CONFIG, secs(1000)) {
        Ok(CreateStep::Stats { code }) => code,
        _ => panic!("the link is in"),
    };
    let stats = LinkStats { link: link("promo2026", Some(secs(2000))), hits: 0 };
    let created = link_created(&code, Ok(stats)).unwrap();
    assert_eq!(created.status, 201);
    assert_eq!(created.location, "/api/v1/links/promo2026");
    assert_eq!(created.body.code, "promo2026");
    assert_eq!(created.body.created_at_unix, 1000);
    assert_eq!(created.body.expires_at_unix, Some(2000));
    assert_eq!(created.body.hits, 0);
    assert!(matches!(link_created("x", Err(missing())), Err(AppError::NotFound)));
}

#[test]
fn link_is_told() {
    let told = get_link(Ok(LinkStats { link: link("abcd", None), hits: 3 })).unwrap();
    assert_eq!(told.code, "abcd");
    assert_eq!(told.target_url, "https://example.com/");
    assert_eq!(told.created_at_unix, 1000);
    assert_eq!(told.expires_at_unix, None);
    assert_eq!(told.hits, 3);
    assert!(matches!(get_link(Err(missing())), Err(AppError::NotFound)));
}

#[test]
fn live_link_redirects() {
    let found = redirect(Ok(link("abcd", Some(secs(2000)))), Duration::new(1999, 999_999_999));
    let sent = hit_recorded(found.unwrap(), Ok(())).unwrap();
    assert_eq!(sent.status, 307);
    assert_eq!(sent.location, "https://example.com/");
    assert!(redirect(Ok(link("abcd", None)), secs(u64::MAX)).is_ok());
}

#[test]
fn every_visit_is_sent_to_the_same_target() {
    let mut hits: u64 = 0;
    for _ in 0..100 {
        let found = redirect(Ok(link("abcd", None)), secs(2000)).unwrap();
        hits += 1;
        let sent = hit_recorded(found, Ok(())).unwrap();
        assert!(sent.status == 307 && sent.location == "https://example.com/");
    }
    let query = link_stats(Ok(LinkStats { link: link("abcd", None), hits })).unwrap();
    let told = window_counted(query.total, Ok(WindowStats { hits: 0 })).unwrap();
    assert_eq!(told.total_hits, 100);
    assert_eq!(told.hits_last_60s, 0);
}

#[test]
fn expired_link_is_like_an_absent_one() {
    let over = link("abcd", Some(secs(2000)));
    assert!(matches!(redirect(Ok(over), secs(2000)), Err(AppError::NotFound)));
    assert!(matches!(redirect(Err(missing()), secs(2000)), Err(AppError::NotFound)));
}

#[test]
fn link_that_vanishes_before_the_hit() {
    assert!(matches!(hit_recorded(link("abcd", None), Err(missing())), Err(AppError::NotFound)));
}

#[test]
fn deletion() {
    assert!(matches!(delete_link(Ok(())), Ok(204)));
    assert!(matches!(delete_link(Err(missing())), Err(AppError::NotFound)));
    assert!(matches!(fallback_404(), AppError::NotFound));
}

#[test]
fn stats_of_a_link() {
    let query = link_stats(Ok(LinkStats { link: link("abcd", Some(secs(2000))), hits: 5 }));
    let query = query.unwrap();
    assert_eq!(query.window, secs(60));
    let told = window_counted(query.total, Ok(WindowStats { hits: 2 })).unwrap();
    assert_eq!(told.code, "abcd");
    assert_eq!(told.target_url, "https://example.com/");
    assert_eq!(told.created_at_unix, 1000);
    assert_eq!(told.expires_at_unix, Some(2000));
    assert_eq!(told.total_hits, 5);
    assert_eq!(told.hits_last_60s, 2);
    assert!(matches!(link_stats(Err(missing())), Err(AppError::NotFound)));
    let total = LinkStats { link: link("abcd", None), hits: 5 };
    assert!(matches!(window_counted(total, Err(missing())), Err(AppError::NotFound)));
}

#[test]
fn lines_of_the_ranking() {
    assert_eq!(top_limit(&TopQuery::default()), 10);
    for (asked, sent) in [(0, 1), (1, 1), (3, 3), (100, 100), (101, 100), (usize::MAX, 100)] {
        assert_eq!(top_limit(&TopQuery { limit: Some(asked) }), sent);
    }
}

#[test]
fn ranking_is_told_in_order() {
    let lines = vec![
        TopLink { code: "first".to_string(), hits: 9 },
        TopLink { code: "second".to_string(), hits: 4 },
    ];
    let told = top_links(Ok(lines)).unwrap();
    assert_eq!(told.len(), 2);
    assert!(told[0].code == "first" && told[0].hits == 9);
    assert!(told[1].code == "second" && told[1].hits == 4);
    assert!(matches!(top_links(Err(missing())), Err(AppError::NotFound)));
}

#[test]
fn technical_routes() {
    assert_eq!(healthz().status, "ok");
    assert_eq!(version("1.2.3").version, "1.2.3");
}

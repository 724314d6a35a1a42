use skills_man::remote::{archive_result, listing_result, status_error, RemoteReply};
use skills_man::resolve::{commit_outcome, CommitHistory, QueryOutcome, Resolution, ResolveAction};
use skills_man::{GitHubUrlSpec, SkillsError};

fn spec(url: &str) -> GitHubUrlSpec {
    GitHubUrlSpec::parse(url).unwrap()
}

fn query_ref(a: &ResolveAction) -> String {
    match a {
        ResolveAction::Query(u) => u.git_ref.clone(),
        other => panic!("expected a query, got {}", describe(other)),
    }
}

fn describe(a: &ResolveAction) -> String {
    match a {
        ResolveAction::Query(u) => format!("query {}", u.git_ref),
        ResolveAction::Resolved { location, commit } => format!("resolved {} {}", location.git_ref, commit),
        ResolveAction::Abort(e) => format!("abort {:?}", e),
    }
}

#[test]
fn resolution_falls_back_to_longest_ref() {
    let s = spec("https://github.com/o/r/tree/release/v1.0/skill");
    let (mut res, first) = Resolution::start(&s);
    assert_eq!(query_ref(&first), "release");
    let second = res.advance(QueryOutcome::NotFound);
    assert_eq!(query_ref(&second), "release/v1.0");
    match res.advance(QueryOutcome::Confirmed("abc123".to_string())) {
        ResolveAction::Resolved { location, commit } => {
            assert_eq!(location.git_ref, "release/v1.0");
            assert_eq!(location.path, "skill");
            assert_eq!(location.slug, "o/r");
            assert_eq!(commit, "abc123");
        }
        other => panic!("unexpected {}", describe(&other)),
    }
}

#[test]
fn resolution_accepts_first_confirmed_candidate() {
    let s = spec("https://github.com/acme/tools/tree/main/skills/foo");
    let (mut res, first) = Resolution::start(&s);
    assert_eq!(query_ref(&first), "main");
    match res.advance(QueryOutcome::Confirmed("c0ffee".to_string())) {
        ResolveAction::Resolved { location, commit } => {
            assert_eq!(location.git_ref, "main");
            assert_eq!(location.path, "skills/foo");
            assert_eq!(commit, "c0ffee");
        }
        other => panic!("unexpected {}", describe(&other)),
    }
}

#[test]
fn resolution_aborts_on_first_hard_error() {
    let s = spec("https://github.com/o/r/tree/a/b/c/d");
    let (mut res, first) = Resolution::start(&s);
    assert_eq!(res.candidates.len(), 3);
    assert_eq!(query_ref(&first), "a");
    let next = res.advance(QueryOutcome::Failed(SkillsError::Forbidden));
    assert!(matches!(next, ResolveAction::Abort(SkillsError::Forbidden)));
    assert_eq!(res.current, 0);
}

#[test]
fn resolution_aborts_after_not_found_then_rate_limit() {
    let s = spec("https://github.com/o/r/tree/a/b/c/d");
    let (mut res, _) = Resolution::start(&s);
    let second = res.advance(QueryOutcome::NotFound);
    assert_eq!(query_ref(&second), "a/b");
    let next = res.advance(QueryOutcome::Failed(SkillsError::RateLimited));
    assert!(matches!(next, ResolveAction::Abort(SkillsError::RateLimited)));
    assert_eq!(res.current, 1);
}

#[test]
fn resolution_exhausted_reports_not_found_for_whole_tail() {
    let s = spec("https://github.com/o/r/tree/a/b/c");
    let (mut res, _) = Resolution::start(&s);
    let _ = res.advance(QueryOutcome::NotFound);
    match res.advance(QueryOutcome::NotFound) {
        ResolveAction::Abort(SkillsError::NotFound { url }) => assert_eq!(url, "a/b/c"),
        other => panic!("unexpected {}", describe(&other)),
    }
}

#[test]
fn resolution_without_candidates_is_invalid_url() {
    let s = GitHubUrlSpec { slug: "o/r".to_string(), tail: vec!["main".to_string()] };
    let (_, first) = Resolution::start(&s);
    assert!(matches!(first, ResolveAction::Abort(SkillsError::InvalidUrl(_))));
}

#[test]
fn status_errors_by_code() {
    assert!(matches!(status_error(404, "u".to_string()), SkillsError::NotFound { url } if url == "u"));
    assert!(matches!(status_error(403, "u".to_string()), SkillsError::Forbidden));
    assert!(matches!(status_error(429, "u".to_string()), SkillsError::RateLimited));
    assert!(matches!(
        status_error(500, "u".to_string()),
        SkillsError::HttpError { status: 500, message } if message == "u"
    ));
}

#[test]
fn commit_outcomes() {
    assert!(matches!(
        commit_outcome(RemoteReply::Body(CommitHistory::Latest("abc".to_string())), "u".to_string()),
        QueryOutcome::Confirmed(s) if s == "abc"
    ));
    assert!(matches!(
        commit_outcome(RemoteReply::Body(CommitHistory::Unreadable), "u".to_string()),
        QueryOutcome::Failed(SkillsError::NetworkError(m)) if m == "Missing sha in response"
    ));
    assert!(matches!(
        commit_outcome(RemoteReply::Body(CommitHistory::Empty), "u".to_string()),
        QueryOutcome::NotFound
    ));
    assert!(matches!(commit_outcome(RemoteReply::Status(404), "u".to_string()), QueryOutcome::NotFound));
    assert!(matches!(commit_outcome(RemoteReply::Status(422), "u".to_string()), QueryOutcome::NotFound));
    assert!(matches!(
        commit_outcome(RemoteReply::Status(403), "u".to_string()),
        QueryOutcome::Failed(SkillsError::Forbidden)
    ));
    assert!(matches!(
        commit_outcome(RemoteReply::Transport("down".to_string()), "u".to_string()),
        QueryOutcome::Failed(SkillsError::NetworkError(m)) if m == "down"
    ));
}

#[test]
fn listing_and_archive_results() {
    let r: Result<u8, SkillsError> = listing_result(RemoteReply::Status(404), "skills".to_string(), "u".to_string());
    assert!(matches!(r, Err(SkillsError::PathNotFound(p)) if p == "skills"));
    let r: Result<u8, SkillsError> = listing_result(RemoteReply::Status(502), "skills".to_string(), "u".to_string());
    assert!(matches!(r, Err(SkillsError::HttpError { status: 502, .. })));
    let r: Result<u8, SkillsError> = listing_result(RemoteReply::Body(7), "skills".to_string(), "u".to_string());
    assert!(matches!(r, Ok(7)));
    let r: Result<u8, SkillsError> = archive_result(RemoteReply::Status(404), "u".to_string());
    assert!(matches!(r, Err(SkillsError::NotFound { .. })));
    let r: Result<u8, SkillsError> = archive_result(RemoteReply::Transport("x".to_string()), "u".to_string());
    assert!(matches!(r, Err(SkillsError::NetworkError(_))));
}

use moat::checks::common::{
    evaluate_webhooks, is_security_advisory_fork, noun, permission_error, public_repos_word,
    repos_word, FeatureState, WebhookInfo,
};
use moat::support::outcome::Status;

#[test]
fn detects_github_advisory_temp_fork_names() {
    assert!(is_security_advisory_fork(
        "public-php-workflow-ghsa-8xq3-q5v5-wg6h"
    ));
    assert!(is_security_advisory_fork("moat-ghsa-abcd-1234-wxyz"));
    // Case-insensitive on the marker.
    assert!(is_security_advisory_fork("Repo-GHSA-8xq3-q5v5-wg6h"));
}

#[test]
fn leaves_ordinary_repos_alone() {
    assert!(!is_security_advisory_fork("ghsa-toolkit"));
    assert!(!is_security_advisory_fork("my-ghsa-helper"));
    // Right marker, wrong id shape (groups not 4 chars / wrong count).
    assert!(!is_security_advisory_fork("repo-ghsa-8xq3-q5v5"));
    assert!(!is_security_advisory_fork("repo-ghsa-8xq3-q5v5-wg6h-extra"));
    assert!(!is_security_advisory_fork("repo-ghsa-8xq-q5v5-wg6h"));
}

#[test]
fn advisory_id_is_taken_after_the_last_marker() {
    assert!(is_security_advisory_fork("a-ghsa-zzzz-ghsa-abcd-efgh-ijkl"));
    assert!(!is_security_advisory_fork("a-ghsa-abcd-efgh-ijkl-ghsa-x"));
    assert!(!is_security_advisory_fork("repo-ghsa-ab_d-efgh-ijkl"));
}

#[test]
fn nouns_follow_the_count() {
    assert_eq!(noun(1, "member", "members"), "member");
    assert_eq!(noun(0, "member", "members"), "members");
    assert_eq!(repos_word(1), "repository");
    assert_eq!(repos_word(2), "repositories");
    assert_eq!(public_repos_word(1), "public repository");
    assert_eq!(public_repos_word(3), "public repositories");
}

#[test]
fn permission_error_names_the_target() {
    assert_eq!(
        permission_error("webhooks", "acme", Some("demo")),
        "missing permission to read webhooks for `acme/demo` — check that your token has the required scopes (`admin:org`, `repo`, `workflow`) and that the account is an organization admin"
    );
    assert!(permission_error("members", "acme", None).contains("for `acme` —"));
}

#[test]
fn feature_states_map_to_outcomes() {
    let o = FeatureState::Enabled.to_outcome();
    assert_eq!(o.status, Status::Pass);
    assert_eq!(o.summary, "✓");
    let o = FeatureState::Disabled.to_outcome();
    assert_eq!(o.status, Status::Fail);
    assert_eq!(o.summary, "✗");
    let o = FeatureState::PlanGated.to_outcome();
    assert_eq!(o.status, Status::Skipped);
    assert_eq!(o.summary, "N/A (plan)");
    assert!(o.plan_gated);
}

fn hook(url: &str, has_secret: bool) -> WebhookInfo {
    WebhookInfo {
        url: url.into(),
        has_secret,
    }
}

#[test]
fn webhooks_empty_passes() {
    let o = evaluate_webhooks(&[]);
    assert_eq!(o.status, Status::Pass);
    assert_eq!(o.summary, "—");
}

#[test]
fn webhooks_secure_hook_passes() {
    let o = evaluate_webhooks(&[hook("https://example.com/hook", true)]);
    assert_eq!(o.status, Status::Pass);
    assert_eq!(o.summary, "✓");
}

#[test]
fn webhooks_http_url_fails_with_not_https() {
    let o = evaluate_webhooks(&[hook("http://example.com/hook", true)]);
    assert_eq!(o.status, Status::Fail);
    assert_eq!(o.items, vec!["http://example.com/hook: not HTTPS"]);
}

#[test]
fn webhooks_no_secret_fails() {
    let o = evaluate_webhooks(&[hook("https://example.com/hook", false)]);
    assert_eq!(o.status, Status::Fail);
    assert_eq!(o.items, vec!["https://example.com/hook: no secret"]);
}

#[test]
fn webhooks_empty_url_renders_as_unknown() {
    let o = evaluate_webhooks(&[hook("", true)]);
    assert_eq!(o.status, Status::Fail);
    assert_eq!(o.items, vec!["<unknown>: not HTTPS"]);
}

#[test]
fn webhooks_both_failures_reported() {
    let o = evaluate_webhooks(&[hook("http://example.com/hook", false)]);
    assert_eq!(o.status, Status::Fail);
    assert_eq!(o.items.len(), 2);
    assert_eq!(o.summary, "✗");
}

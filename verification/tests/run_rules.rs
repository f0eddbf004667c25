use countme::agent::ReleaseInfo;
use countme::cookie::{Cookie, HALF_YEAR_LENGTH, WINDOW_LENGTH};
use countme::repo::RepoEntry;
use countme::reporter::{
    conclude_run, exit_code, plan_run, RunError, RunPlan, RunResult, SkipReason,
};

fn entry(id: &str, enabled: bool, countme: bool, metalink: &str) -> RepoEntry {
    RepoEntry {
        id: id.to_string(),
        enabled,
        countme,
        metalink: metalink.to_string(),
    }
}

fn release() -> ReleaseInfo {
    ReleaseInfo {
        name: "Fedora".to_string(),
        version_id: "39".to_string(),
        variant_id: Some("coreos".to_string()),
    }
}

#[test]
fn unsupported_platform_is_rejected_before_anything_else() {
    let repos = vec![entry("fedora", true, true, "https://example/m")];
    let plan = plan_run(false, repos, &None, 0, &release(), "x86_64");
    assert!(matches!(plan, RunPlan::Reject));
    assert_ne!(exit_code(&RunResult::Failed(RunError::UnsupportedPlatform)), 0);
}

#[test]
fn no_eligible_repository_skips_the_run() {
    let repos = vec![
        entry("a", false, true, "m"),
        entry("b", true, false, "m"),
        entry("c", true, true, ""),
    ];
    let plan = plan_run(true, repos, &None, 0, &release(), "x86_64");
    assert!(matches!(plan, RunPlan::SkipNoRepos));
    assert_eq!(exit_code(&RunResult::Skipped(SkipReason::NoEligibleRepos)), 0);
}

#[test]
fn fresh_window_skips_the_run() {
    let repos = vec![entry("fedora", true, true, "https://example/m")];
    let cookie = Some(Cookie { last_counted: 1000 });
    let plan = plan_run(true, repos, &cookie, 1000 + WINDOW_LENGTH - 1, &release(), "x86_64");
    assert!(matches!(plan, RunPlan::SkipWindow));
    assert_eq!(exit_code(&RunResult::Skipped(SkipReason::WindowNotElapsed)), 0);
}

#[test]
fn eligible_repositories_dispatch_in_catalog_order() {
    let repos = vec![
        entry("one", true, true, "https://a/$releasever"),
        entry("skipme", true, false, "https://x"),
        entry("two", true, true, "https://b/$releasever"),
    ];
    let cookie = Some(Cookie { last_counted: 1000 });
    let now = 1000 + WINDOW_LENGTH;
    match plan_run(true, repos, &cookie, now, &release(), "x86_64") {
        RunPlan::Dispatch { urls, ua, bucket } => {
            assert_eq!(bucket, 2);
            assert_eq!(urls, vec!["https://a/39&countme=2", "https://b/39&countme=2"]);
            assert_eq!(ua, "rpm-ostree (Fedora 39; coreos; Linux.x86_64)");
        }
        _ => panic!("expected a dispatch plan"),
    }
}

#[test]
fn first_run_uses_the_base_bucket() {
    let repos = vec![entry("fedora", true, true, "https://example/m?r=$releasever")];
    match plan_run(true, repos, &None, 0, &release(), "x86_64") {
        RunPlan::Dispatch { urls, bucket, .. } => {
            assert_eq!(bucket, 1);
            assert_eq!(urls, vec!["https://example/m?r=39&countme=1"]);
        }
        _ => panic!("expected a dispatch plan"),
    }
}

#[test]
fn long_idle_cookie_reports_the_top_bucket() {
    let repos = vec![entry("fedora", true, true, "https://example/m?r=$releasever")];
    let cookie = Some(Cookie { last_counted: 0 });
    match plan_run(true, repos, &cookie, HALF_YEAR_LENGTH, &release(), "x86_64") {
        RunPlan::Dispatch { bucket, .. } => assert_eq!(bucket, 4),
        _ => panic!("expected a dispatch plan"),
    }
}

#[test]
fn example_catalog_builds_exactly_one_request() {
    let repos = vec![
        entry("fedora", true, true, "https://example/m?r={v}"),
        entry("rpmfusion", true, false, "https://other/m"),
    ];
    match plan_run(true, repos, &None, 0, &release(), "x86_64") {
        RunPlan::Dispatch { urls, bucket, .. } => {
            assert_eq!(urls.len(), 1);
            assert_eq!(urls[0], format!("https://example/m?r={{v}}&countme={}", bucket));
        }
        _ => panic!("expected a dispatch plan"),
    }
}

#[test]
fn all_requests_failing_leaves_cookie_and_exits_nonzero() {
    let (result, persist) = conclude_run(0, 3);
    assert!(!persist);
    assert_eq!(result, RunResult::Failed(RunError::AllRequestsFailed));
    assert_ne!(exit_code(&result), 0);
}

#[test]
fn partial_success_counts_and_persists() {
    let (result, persist) = conclude_run(2, 3);
    assert!(persist);
    assert_eq!(
        result,
        RunResult::Counted {
            successes: 2,
            total: 3
        }
    );
    assert_eq!(exit_code(&result), 0);
    let (full, persist_full) = conclude_run(3, 3);
    assert!(persist_full);
    assert_eq!(
        full,
        RunResult::Counted {
            successes: 3,
            total: 3
        }
    );
}

#[test]
fn config_error_exits_nonzero() {
    assert_ne!(exit_code(&RunResult::Failed(RunError::ConfigError)), 0);
}

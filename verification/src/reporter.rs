//! Orchestration rules for one run: whether to proceed at all, which
//! requests to dispatch, and how the outcome of the dispatches determines
//! the run result, the persistence of the cookie, and the exit code.

use vstd::prelude::*;
use crate::agent::{spec_user_agent, spec_variant, user_agent, ReleaseInfo};
use crate::cookie::{spec_bucket, spec_elapsed, Cookie, BASE_BUCKET, WINDOW_LENGTH};
use crate::repo::{build_urls, eligible_entries, filter_eligible, spec_url, RepoEntry};

verus! {

/// Why a run did nothing, without being an error.
#[derive(Clone, Copy, PartialEq, Eq, Structural, Debug)]
pub enum SkipReason {
    /// No repository is enabled, opted in, and provided with a metalink.
    NoEligibleRepos,
    /// The window opened by the last successful report has not elapsed yet.
    WindowNotElapsed,
}

/// Why a run failed; every variant exits non-zero.
#[derive(Clone, Copy, PartialEq, Eq, Structural, Debug)]
pub enum RunError {
    /// The host is not in the supported deployment mode.
    UnsupportedPlatform,
    /// The repository catalog exists but cannot be read.
    ConfigError,
    /// Every dispatched request failed; the cookie is left untouched so the
    /// next scheduled run retries the same window.
    AllRequestsFailed,
}

/// The outcome of one run.
#[derive(Clone, Copy, PartialEq, Eq, Structural, Debug)]
pub enum RunResult {
    /// Nothing to do this time.
    Skipped(SkipReason),
    /// Requests were dispatched and at least one succeeded.
    Counted { successes: usize, total: usize },
    /// The run failed.
    Failed(RunError),
}

/// What a run should do, decided before any request is sent.
pub enum RunPlan {
    /// The platform gate is closed: fail without further action.
    Reject,
    /// No eligible repository: skip.
    SkipNoRepos,
    /// Still inside the current window: skip.
    SkipWindow,
    /// Dispatch one GET per URL, in order, under the given user agent.
    Dispatch { urls: Vec<String>, ua: String, bucket: u32 },
}

/// A new window is open when no cookie exists (first run) or when the stored
/// timestamp is at least one window length in the past.
pub open spec fn spec_window_open(cookie: Option<Cookie>, now: u64) -> bool {
    match cookie {
        None => true,
        Some(c) => spec_elapsed(c.last_counted, now) >= WINDOW_LENGTH as int,
    }
}

/// The bucket counter reported this run: the base bucket on a first run,
/// otherwise the bucket for the elapsed time.
pub open spec fn spec_run_bucket(cookie: Option<Cookie>, now: u64) -> u32 {
    match cookie {
        None => BASE_BUCKET,
        Some(c) => spec_bucket(spec_elapsed(c.last_counted, now)),
    }
}

/// The run result once `successes` of `total` dispatched requests came back
/// successfully: failure when none did, a count otherwise.
pub open spec fn spec_outcome(successes: usize, total: usize) -> RunResult {
    if successes == 0 {
        RunResult::Failed(RunError::AllRequestsFailed)
    } else {
        RunResult::Counted { successes, total }
    }
}

/// The cookie is rewritten only when at least one request succeeded.
pub open spec fn spec_persist(successes: usize) -> bool {
    successes > 0
}

/// The process exit code for a result: zero unless the run failed.
pub open spec fn spec_exit_code(r: RunResult) -> i32 {
    if r matches RunResult::Failed(_) {
        1
    } else {
        0
    }
}

/// Decides one run: gate, repository selection, window check, and the full
/// set of requests to dispatch, in catalog order.
pub fn plan_run(
    platform_supported: bool,
    repos: Vec<RepoEntry>,
    cookie: &Option<Cookie>,
    now: u64,
    release: &ReleaseInfo,
    arch: &str,
) -> (plan: RunPlan)
    ensures
        match plan {
            RunPlan::Reject => !platform_supported,
            RunPlan::SkipNoRepos => platform_supported && eligible_entries(repos@).len() == 0,
            RunPlan::SkipWindow => platform_supported && eligible_entries(repos@).len() > 0
                && !spec_window_open(*cookie, now),
            RunPlan::Dispatch { urls, ua, bucket } => {
                &&& platform_supported
                &&& eligible_entries(repos@).len() > 0
                &&& spec_window_open(*cookie, now)
                &&& bucket == spec_run_bucket(*cookie, now)
                &&& 1 <= bucket <= 4
                &&& urls@.len() == eligible_entries(repos@).len()
                &&& (forall|i: int|
                    0 <= i < urls@.len() ==> urls@[i]@ == spec_url(
                        eligible_entries(repos@)[i].metalink@,
                        release.version_id@,
                        bucket,
                    ))
                &&& ua@ == spec_user_agent(
                    release.name@,
                    release.version_id@,
                    spec_variant(release.variant_id),
                    arch@,
                )
            },
        },
{
    if !platform_supported {
        return RunPlan::Reject;
    }
    let eligible = filter_eligible(repos);
    if eligible.len() == 0 {
        return RunPlan::SkipNoRepos;
    }
    let window_open = match cookie {
        None => true,
        Some(c) => !c.existing_window(now),
    };
    if !window_open {
        return RunPlan::SkipWindow;
    }
    let bucket = match cookie {
        None => BASE_BUCKET,
        Some(c) => c.window_counter(now),
    };
    let urls = build_urls(&eligible, release.version_id.as_str(), bucket);
    let ua = user_agent(release, arch);
    RunPlan::Dispatch { urls, ua, bucket }
}

/// Turns the dispatch tally into the run result and the decision whether to
/// rewrite the cookie.
pub fn conclude_run(successes: usize, total: usize) -> (r: (RunResult, bool))
    requires
        successes <= total,
    ensures
        r.0 == spec_outcome(successes, total),
        r.1 == spec_persist(successes),
{
    if successes == 0 {
        (RunResult::Failed(RunError::AllRequestsFailed), false)
    } else {
        (RunResult::Counted { successes, total }, true)
    }
}

/// The process exit code for a run result.
pub fn exit_code(r: &RunResult) -> (code: i32)
    ensures
        code == spec_exit_code(*r),
{
    match r {
        RunResult::Failed(_) => 1,
        _ => 0,
    }
}

/// A run in which every dispatched request failed does not persist the
/// cookie and exits non-zero; a run with at least one success persists the
/// cookie, reports the tally, and exits zero.
pub proof fn lemma_outcome_rules(successes: usize, total: usize)
    requires
        successes <= total,
    ensures
        successes == 0 ==> !spec_persist(successes) && spec_exit_code(
            spec_outcome(successes, total),
        ) != 0,
        successes >= 1 ==> spec_persist(successes) && spec_exit_code(
            spec_outcome(successes, total),
        ) == 0 && spec_outcome(successes, total) == (RunResult::Counted { successes, total }),
{
}

} // verus!

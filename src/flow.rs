//! The install flow as a state machine. The caller performs each action
//! (prompt, repository search, download, inventory, uninstall, installer,
//! launch) and hands back what came of it as the next event; the machine
//! decides what follows, until it finishes with one outcome.
use vstd::prelude::*;

use crate::cache::{entry_matches, locate_in_cache};
use crate::candidate::{
    InstallOverwriteOptions, InstallationCandidate, InstallationResult, InstalledProduct,
    SearchCandidate,
};
use crate::install::{
    CacheDecision, ConflictDecision, FetchDecision, UpgradeDecision, cache_decision, conflict_decision,
    conflict_of, effective_choice, eligible_installed, fetch_decision, is_eligible_list,
    lemma_discovered_in_cache_not_downloaded, lemma_same_version_installed_skips, matches_discovered,
    should_autorun, upgrade_decision, upgrade_ok,
};
use crate::text::lower_of;
use crate::version::version_eq;
use crate::repository::ResolveAction;

verus! {

/// What an install is for, and how it may ask.
#[derive(Debug)]
pub struct InstallContext {
    pub search: SearchCandidate,
    /// The cache index
    pub entries: Vec<InstallationCandidate>,
    pub automatic_upgrade: Option<bool>,
    pub prompt: Option<bool>,
    pub autorun: Option<bool>,
    /// Whether the platform can install beside an existing installation
    pub supports_add: bool,
}

/// Why an install failed.
#[derive(Debug, Clone, Copy, PartialEq, Eq, Structural)]
pub enum InstallFailure {
    /// The repositories could not be searched
    Search,
    Download,
    Uninstall,
    Installer,
    /// An event that the flow was not waiting for
    UnexpectedEvent,
}

/// How an install ended.
#[derive(Debug, Clone, Copy, PartialEq, Eq, Structural)]
pub enum InstallOutcome {
    Finished(InstallationResult),
    Failed(InstallFailure),
}

/// Where an install stands.
#[derive(Debug)]
pub enum InstallState {
    /// Waiting for the answer whether to look for a newer build than `cached`
    AwaitUpgradeAnswer { cached: InstallationCandidate },
    /// Waiting for the repository search; `cached` is the fallback of an
    /// upgrade check
    AwaitResolve { cached: Option<InstallationCandidate> },
    AwaitDownload { candidate: InstallationCandidate },
    AwaitInventory { candidate: InstallationCandidate },
    AwaitChoice {
        candidate: InstallationCandidate,
        installed: Vec<InstalledProduct>,
        eligible: Vec<usize>,
    },
    /// Removing `installed[eligible[next]]`
    Uninstalling {
        candidate: InstallationCandidate,
        installed: Vec<InstalledProduct>,
        eligible: Vec<usize>,
        next: usize,
    },
    AwaitInstaller { candidate: InstallationCandidate, mode: InstallOverwriteOptions },
    AwaitLaunch { result: InstallationResult },
    Done,
}

/// What came of the last action.
#[derive(Debug)]
pub enum InstallEvent {
    UpgradeAnswer(bool),
    Resolved(ResolveAction),
    /// Whether the download succeeded
    Downloaded(bool),
    /// The installed products, and which of them the platform marks as
    /// colliding with the candidate
    Inventory { installed: Vec<InstalledProduct>, marked: Vec<bool> },
    Choice(InstallOverwriteOptions),
    /// Whether stopping and removing the product succeeded
    Uninstalled(bool),
    /// The installer's result, `None` where it failed
    InstallerDone(Option<InstallationResult>),
    /// The launch was attempted; its failure does not undo the install
    Launched,
}

/// What the caller is to do next.
#[derive(Debug)]
pub enum InstallAction {
    AskUpgrade(InstallationCandidate),
    /// Search the repositories for the context's search
    Resolve,
    /// Download the candidate from repository `usize` into the cache
    Download(InstallationCandidate, usize),
    /// List the installed products, with the platform's collision marks for
    /// the candidate
    ListInstalled(InstallationCandidate),
    AskChoice,
    /// Stop, then remove, this product
    Uninstall(InstalledProduct),
    RunInstaller(InstallationCandidate, InstallOverwriteOptions),
    Launch(InstallationCandidate),
    Finish(InstallOutcome),
}

/// Whether `(st, act)` goes on with `mode` for `candidate`: cancel, remove
/// the first colliding product, or run the installer.
pub open spec fn mode_step_ok(
    candidate: InstallationCandidate,
    installed: Seq<InstalledProduct>,
    eligible: Seq<usize>,
    mode: InstallOverwriteOptions,
    st: InstallState,
    act: InstallAction,
) -> bool {
    if mode == InstallOverwriteOptions::Cancel {
        st is Done && act == InstallAction::Finish(InstallOutcome::Finished(InstallationResult::Canceled))
    } else if mode == InstallOverwriteOptions::Overwrite && eligible.len() > 0 {
        &&& st matches InstallState::Uninstalling { candidate: c, installed: i, eligible: e, next }
            && c == candidate && i@ == installed && e@ == eligible && next == 0
        &&& eligible[0] < installed.len() ==> act == InstallAction::Uninstall(installed[eligible[0] as int])
    } else {
        &&& st matches InstallState::AwaitInstaller { candidate: c, mode: m } && c == candidate && m == mode
        &&& act == InstallAction::RunInstaller(candidate, mode)
    }
}

/// Whether `cached` is the first entry of `entries` that satisfies `search`,
/// or `None` where none does.
pub open spec fn lookup_ok(
    entries: Seq<InstallationCandidate>,
    search: SearchCandidate,
    cached: Option<InstallationCandidate>,
) -> bool {
    match cached {
        Some(c) => exists|i: int|
            0 <= i < entries.len() && c == entries[i] && entry_matches(entries[i], search) && forall|j: int|
                0 <= j < i ==> !entry_matches(#[trigger] entries[j], search),
        None => forall|j: int| 0 <= j < entries.len() ==> !entry_matches(#[trigger] entries[j], search),
    }
}

/// Whether `d` is the cache decision on the lookup result `cached`.
pub open spec fn cache_decision_ok(
    cached: Option<InstallationCandidate>,
    search: SearchCandidate,
    automatic_upgrade: Option<bool>,
    d: CacheDecision,
) -> bool {
    match cached {
        None => d is Fetch,
        Some(c) => match (search.version, automatic_upgrade) {
            (Some(_), _) => d == CacheDecision::UseCached(c),
            (None, Some(false)) => d == CacheDecision::UseCached(c),
            (None, Some(true)) => d == CacheDecision::CheckUpgrade(c),
            (None, None) => d == CacheDecision::AskUpgrade(c),
        },
    }
}

/// Whether `(st, act)` carries out the cache decision `d`.
pub open spec fn decision_step_ok(d: CacheDecision, st: InstallState, act: InstallAction) -> bool {
    match d {
        CacheDecision::UseCached(c) => st == InstallState::AwaitInventory { candidate: c } && act
            == InstallAction::ListInstalled(c),
        CacheDecision::AskUpgrade(c) => st == InstallState::AwaitUpgradeAnswer { cached: c } && act
            == InstallAction::AskUpgrade(c),
        CacheDecision::CheckUpgrade(c) => st == InstallState::AwaitResolve { cached: Some(c) } && act is Resolve,
        CacheDecision::Fetch => st == InstallState::AwaitResolve { cached: None } && act is Resolve,
    }
}

/// Whether `(st, act)` is how an install in context `ctx` starts: from the
/// cache lookup and the cache decision.
pub open spec fn start_ok(ctx: InstallContext, st: InstallState, act: InstallAction) -> bool {
    exists|cached: Option<InstallationCandidate>, d: CacheDecision|
        #![trigger lookup_ok(ctx.entries@, ctx.search, cached), cache_decision_ok(cached, ctx.search, ctx.automatic_upgrade, d)]
        lookup_ok(ctx.entries@, ctx.search, cached) && cache_decision_ok(
            cached,
            ctx.search,
            ctx.automatic_upgrade,
            d,
        ) && decision_step_ok(d, st, act)
}

/// The first step of an install: look the search up in the cache and
/// decide between the cache, the user and the repositories.
pub fn install_start(ctx: &InstallContext) -> (r: (InstallState, InstallAction))
    ensures
        start_ok(*ctx, r.0, r.1),
{
    let cached = locate_in_cache(&ctx.entries, &ctx.search);
    let ghost gc = cached;
    let d = cache_decision(cached, &ctx.search, ctx.automatic_upgrade);
    let ghost gd = d;
    let r = match d {
        CacheDecision::UseCached(c) => {
            let a = c.clone();
            (InstallState::AwaitInventory { candidate: c }, InstallAction::ListInstalled(a))
        },
        CacheDecision::AskUpgrade(c) => {
            let a = c.clone();
            (InstallState::AwaitUpgradeAnswer { cached: c }, InstallAction::AskUpgrade(a))
        },
        CacheDecision::CheckUpgrade(c) => (InstallState::AwaitResolve { cached: Some(c) }, InstallAction::Resolve),
        CacheDecision::Fetch => (InstallState::AwaitResolve { cached: None }, InstallAction::Resolve),
    };
    assert(lookup_ok(ctx.entries@, ctx.search, gc));
    assert(cache_decision_ok(gc, ctx.search, ctx.automatic_upgrade, gd));
    assert(decision_step_ok(gd, r.0, r.1));
    r
}

fn go_with_mode(
    candidate: InstallationCandidate,
    installed: Vec<InstalledProduct>,
    eligible: Vec<usize>,
    mode: InstallOverwriteOptions,
) -> (r: (InstallState, InstallAction))
    ensures
        mode_step_ok(candidate, installed@, eligible@, mode, r.0, r.1),
{
    match mode {
        InstallOverwriteOptions::Cancel => (
            InstallState::Done,
            InstallAction::Finish(InstallOutcome::Finished(InstallationResult::Canceled)),
        ),
        InstallOverwriteOptions::Overwrite => {
            if eligible.len() > 0 {
                let act = if eligible[0] < installed.len() {
                    InstallAction::Uninstall(installed[eligible[0]].clone())
                } else {
                    InstallAction::Finish(InstallOutcome::Failed(InstallFailure::UnexpectedEvent))
                };
                (InstallState::Uninstalling { candidate, installed, eligible, next: 0 }, act)
            } else {
                let a = candidate.clone();
                (InstallState::AwaitInstaller { candidate, mode }, InstallAction::RunInstaller(a, mode))
            }
        },
        InstallOverwriteOptions::Add => {
            let a = candidate.clone();
            (InstallState::AwaitInstaller { candidate, mode }, InstallAction::RunInstaller(a, mode))
        },
    }
}

/// Whether `(st, act)` follows state `s` on event `e` in context `ctx`.
pub open spec fn step_ok(
    ctx: InstallContext,
    s: InstallState,
    e: InstallEvent,
    st: InstallState,
    act: InstallAction,
) -> bool {
    match (s, e) {
        (InstallState::AwaitUpgradeAnswer { cached }, InstallEvent::UpgradeAnswer(yes)) => if yes {
            st == InstallState::AwaitResolve { cached: Some(cached) } && act is Resolve
        } else {
            st == InstallState::AwaitInventory { candidate: cached } && act
                == InstallAction::ListInstalled(cached)
        },
        (InstallState::AwaitResolve { cached: Some(cached) }, InstallEvent::Resolved(a)) => exists|
            d: UpgradeDecision,
        |
            upgrade_ok(cached, a, ctx.entries@, ctx.search, d) && match d {
                UpgradeDecision::UseCached(c) => st == InstallState::AwaitInventory { candidate: c }
                    && act == InstallAction::ListInstalled(c),
                UpgradeDecision::Download(c, k) => st == InstallState::AwaitDownload { candidate: c }
                    && act == InstallAction::Download(c, k),
            },
        (InstallState::AwaitResolve { cached: None }, InstallEvent::Resolved(a)) => match a {
            ResolveAction::Found { candidate, repository } => st == InstallState::AwaitDownload {
                candidate,
            } && act == InstallAction::Download(candidate, repository),
            ResolveAction::NotFound => st is Done && act == InstallAction::Finish(
                InstallOutcome::Finished(InstallationResult::Skipped),
            ),
            _ => st is Done && act == InstallAction::Finish(InstallOutcome::Failed(InstallFailure::Search)),
        },
        (InstallState::AwaitDownload { candidate }, InstallEvent::Downloaded(ok)) => if ok {
            st == InstallState::AwaitInventory { candidate } && act == InstallAction::ListInstalled(
                candidate,
            )
        } else {
            st is Done && act == InstallAction::Finish(InstallOutcome::Failed(InstallFailure::Download))
        },
        (InstallState::AwaitInventory { candidate }, InstallEvent::Inventory { installed, marked }) => {
            if marked.len() != installed.len() {
                st is Done && act == InstallAction::Finish(
                    InstallOutcome::Failed(InstallFailure::UnexpectedEvent),
                )
            } else {
                exists|eligible: Seq<usize>|
                    is_eligible_list(eligible, installed@, marked@, ctx.search.product_name@) && match conflict_of(
                        installed@,
                        eligible,
                        candidate,
                        ctx.prompt,
                    ) {
                        ConflictDecision::Skip => st is Done && act == InstallAction::Finish(
                            InstallOutcome::Finished(InstallationResult::Skipped),
                        ),
                        ConflictDecision::Ask => st matches InstallState::AwaitChoice {
                            candidate: c,
                            installed: i,
                            eligible: el,
                        } && c == candidate && i@ == installed@ && el@ == eligible && act is AskChoice,
                        ConflictDecision::Proceed(m) => mode_step_ok(candidate, installed@, eligible, m, st, act),
                    }
            }
        },
        (InstallState::AwaitChoice { candidate, installed, eligible }, InstallEvent::Choice(c)) => {
            let m = if c == InstallOverwriteOptions::Add && !ctx.supports_add {
                InstallOverwriteOptions::Overwrite
            } else {
                c
            };
            mode_step_ok(candidate, installed@, eligible@, m, st, act)
        },
        (InstallState::Uninstalling { candidate, installed, eligible, next }, InstallEvent::Uninstalled(ok)) => {
            if !ok {
                st is Done && act == InstallAction::Finish(InstallOutcome::Failed(InstallFailure::Uninstall))
            } else if next + 1 < eligible.len() {
                &&& st matches InstallState::Uninstalling { candidate: c, installed: i, eligible: el, next: n }
                    && c == candidate && i == installed && el == eligible && n == next + 1
                &&& eligible@[next + 1] < installed.len() ==> act == InstallAction::Uninstall(
                    installed@[eligible@[next + 1] as int],
                )
            } else {
                st == InstallState::AwaitInstaller { candidate, mode: InstallOverwriteOptions::Overwrite }
                    && act == InstallAction::RunInstaller(candidate, InstallOverwriteOptions::Overwrite)
            }
        },
        (InstallState::AwaitInstaller { candidate, mode }, InstallEvent::InstallerDone(r)) => match r {
            None => st is Done && act == InstallAction::Finish(InstallOutcome::Failed(InstallFailure::Installer)),
            Some(res) => if res == InstallationResult::Succeeded && match ctx.autorun {
                Some(a) => a,
                None => candidate.flavor.autorun,
            } {
                st == InstallState::AwaitLaunch { result: res } && act == InstallAction::Launch(candidate)
            } else {
                st is Done && act == InstallAction::Finish(InstallOutcome::Finished(res))
            },
        },
        (InstallState::AwaitLaunch { result }, InstallEvent::Launched) => st is Done && act
            == InstallAction::Finish(InstallOutcome::Finished(result)),
        _ => st is Done && act == InstallAction::Finish(InstallOutcome::Failed(InstallFailure::UnexpectedEvent)),
    }
}

/// One step of an install: what follows state `s` on event `e`.
pub fn install_step(ctx: &InstallContext, s: InstallState, e: InstallEvent) -> (r: (InstallState, InstallAction))
    ensures
        step_ok(*ctx, s, e, r.0, r.1),
{
    let unexpected = (InstallState::Done, InstallAction::Finish(InstallOutcome::Failed(InstallFailure::UnexpectedEvent)));
    match s {
        InstallState::AwaitUpgradeAnswer { cached } => match e {
            InstallEvent::UpgradeAnswer(yes) => {
                if yes {
                    (InstallState::AwaitResolve { cached: Some(cached) }, InstallAction::Resolve)
                } else {
                    let a = cached.clone();
                    (InstallState::AwaitInventory { candidate: cached }, InstallAction::ListInstalled(a))
                }
            },
            _ => unexpected,
        },
        InstallState::AwaitResolve { cached } => match e {
            InstallEvent::Resolved(a) => match cached {
                Some(c) => {
                    let d = upgrade_decision(c, a, &ctx.entries, &ctx.search);
                    match d {
                        UpgradeDecision::UseCached(x) => {
                            let y = x.clone();
                            (InstallState::AwaitInventory { candidate: x }, InstallAction::ListInstalled(y))
                        },
                        UpgradeDecision::Download(x, k) => {
                            let y = x.clone();
                            (InstallState::AwaitDownload { candidate: x }, InstallAction::Download(y, k))
                        },
                    }
                },
                None => match fetch_decision(a) {
                    FetchDecision::Download(x, k) => {
                        let y = x.clone();
                        (InstallState::AwaitDownload { candidate: x }, InstallAction::Download(y, k))
                    },
                    FetchDecision::Skip => (
                        InstallState::Done,
                        InstallAction::Finish(InstallOutcome::Finished(InstallationResult::Skipped)),
                    ),
                    FetchDecision::Fail => (
                        InstallState::Done,
                        InstallAction::Finish(InstallOutcome::Failed(InstallFailure::Search)),
                    ),
                },
            },
            _ => unexpected,
        },
        InstallState::AwaitDownload { candidate } => match e {
            InstallEvent::Downloaded(ok) => {
                if ok {
                    let a = candidate.clone();
                    (InstallState::AwaitInventory { candidate }, InstallAction::ListInstalled(a))
                } else {
                    (InstallState::Done, InstallAction::Finish(InstallOutcome::Failed(InstallFailure::Download)))
                }
            },
            _ => unexpected,
        },
        InstallState::AwaitInventory { candidate } => match e {
            InstallEvent::Inventory { installed, marked } => {
                if marked.len() != installed.len() {
                    return unexpected;
                }
                let eligible = eligible_installed(&installed, ctx.search.product_name.as_str(), &marked);
                match conflict_decision(&installed, &eligible, &candidate, ctx.prompt) {
                    ConflictDecision::Skip => (
                        InstallState::Done,
                        InstallAction::Finish(InstallOutcome::Finished(InstallationResult::Skipped)),
                    ),
                    ConflictDecision::Ask => (
                        InstallState::AwaitChoice { candidate, installed, eligible },
                        InstallAction::AskChoice,
                    ),
                    ConflictDecision::Proceed(m) => go_with_mode(candidate, installed, eligible, m),
                }
            },
            _ => unexpected,
        },
        InstallState::AwaitChoice { candidate, installed, eligible } => match e {
            InstallEvent::Choice(c) => {
                let m = effective_choice(c, ctx.supports_add);
                go_with_mode(candidate, installed, eligible, m)
            },
            _ => unexpected,
        },
        InstallState::Uninstalling { candidate, installed, eligible, next } => match e {
            InstallEvent::Uninstalled(ok) => {
                if !ok {
                    (InstallState::Done, InstallAction::Finish(InstallOutcome::Failed(InstallFailure::Uninstall)))
                } else if next < eligible.len() && next + 1 < eligible.len() {
                    let n = next + 1;
                    let act = if eligible[n] < installed.len() {
                        InstallAction::Uninstall(installed[eligible[n]].clone())
                    } else {
                        InstallAction::Finish(InstallOutcome::Failed(InstallFailure::UnexpectedEvent))
                    };
                    (InstallState::Uninstalling { candidate, installed, eligible, next: n }, act)
                } else {
                    let a = candidate.clone();
                    (
                        InstallState::AwaitInstaller { candidate, mode: InstallOverwriteOptions::Overwrite },
                        InstallAction::RunInstaller(a, InstallOverwriteOptions::Overwrite),
                    )
                }
            },
            _ => unexpected,
        },
        InstallState::AwaitInstaller { candidate, mode } => match e {
            InstallEvent::InstallerDone(r) => match r {
                None => (InstallState::Done, InstallAction::Finish(InstallOutcome::Failed(InstallFailure::Installer))),
                Some(res) => {
                    if should_autorun(res, ctx.autorun, candidate.flavor.autorun) {
                        (InstallState::AwaitLaunch { result: res }, InstallAction::Launch(candidate))
                    } else {
                        (InstallState::Done, InstallAction::Finish(InstallOutcome::Finished(res)))
                    }
                },
            },
            _ => unexpected,
        },
        InstallState::AwaitLaunch { result } => match e {
            InstallEvent::Launched => (InstallState::Done, InstallAction::Finish(InstallOutcome::Finished(result))),
            _ => unexpected,
        },
        InstallState::Done => unexpected,
    }
}

/// An install whose build is already installed (a product of the searched
/// name up to case with an equal version, marked by the platform) ends as
/// skipped once the inventory is in: the flow is done, so no uninstall, no
/// installer run and no launch follow.
pub proof fn lemma_installed_version_is_skipped(
    ctx: InstallContext,
    candidate: InstallationCandidate,
    installed: Vec<InstalledProduct>,
    marked: Vec<bool>,
    st: InstallState,
    act: InstallAction,
    j: usize,
)
    requires
        step_ok(
            ctx,
            InstallState::AwaitInventory { candidate },
            InstallEvent::Inventory { installed, marked },
            st,
            act,
        ),
        marked.len() == installed.len(),
        j < installed.len(),
        lower_of(installed@[j as int].product_name@) == lower_of(ctx.search.product_name@),
        marked@[j as int],
        version_eq(installed@[j as int].version@, candidate.version@),
    ensures
        st is Done,
        act == InstallAction::Finish(InstallOutcome::Finished(InstallationResult::Skipped)),
{
    let eligible = choose|eligible: Seq<usize>|
        is_eligible_list(eligible, installed@, marked@, ctx.search.product_name@) && match conflict_of(
            installed@,
            eligible,
            candidate,
            ctx.prompt,
        ) {
            ConflictDecision::Skip => st is Done && act == InstallAction::Finish(
                InstallOutcome::Finished(InstallationResult::Skipped),
            ),
            ConflictDecision::Ask => st matches InstallState::AwaitChoice {
                candidate: c,
                installed: i,
                eligible: el,
            } && c == candidate && i@ == installed@ && el@ == eligible && act is AskChoice,
            ConflictDecision::Proceed(m) => mode_step_ok(candidate, installed@, eligible, m, st, act),
        };
    lemma_same_version_installed_skips(
        installed@,
        marked@,
        ctx.search.product_name@,
        eligible,
        candidate,
        ctx.prompt,
        j,
    );
}

/// In an upgrade check, a discovered build that the cache already holds is
/// installed from the cache: the step after the search asks for the
/// inventory with a cached entry of the discovered version, and never for a
/// download.
pub proof fn lemma_cached_discovery_is_not_downloaded(
    ctx: InstallContext,
    cached: InstallationCandidate,
    found: InstallationCandidate,
    repository: usize,
    st: InstallState,
    act: InstallAction,
    i: int,
)
    requires
        step_ok(
            ctx,
            InstallState::AwaitResolve { cached: Some(cached) },
            InstallEvent::Resolved(ResolveAction::Found { candidate: found, repository }),
            st,
            act,
        ),
        0 <= i < ctx.entries.len(),
        matches_discovered(ctx.entries@[i], ctx.search, found),
    ensures
        act matches InstallAction::ListInstalled(c) && exists|k: int|
            0 <= k < ctx.entries.len() && c == ctx.entries@[k] && matches_discovered(
                ctx.entries@[k],
                ctx.search,
                found,
            ),
        !(act is Download),
{
    let d = choose|d: UpgradeDecision|
        upgrade_ok(
            cached,
            ResolveAction::Found { candidate: found, repository },
            ctx.entries@,
            ctx.search,
            d,
        ) && match d {
            UpgradeDecision::UseCached(c) => st == InstallState::AwaitInventory { candidate: c } && act
                == InstallAction::ListInstalled(c),
            UpgradeDecision::Download(c, k) => st == InstallState::AwaitDownload { candidate: c } && act
                == InstallAction::Download(c, k),
        };
    lemma_discovered_in_cache_not_downloaded(cached, found, repository, ctx.entries@, ctx.search, d, i);
}

/// The upgrade-check shortcut, from the start of an install: with no
/// pinned version, automatic upgrade on and a cached build, the install first
/// searches the repositories; when the build they discover is in the cache
/// under its own entry, the next step asks for the inventory with that cached
/// entry and never for a download.
pub proof fn lemma_upgrade_check_uses_cached_build(
    ctx: InstallContext,
    st1: InstallState,
    act1: InstallAction,
    found: InstallationCandidate,
    repository: usize,
    st2: InstallState,
    act2: InstallAction,
    cached_at: int,
    found_at: int,
)
    requires
        ctx.search.version is None,
        ctx.automatic_upgrade == Some(true),
        0 <= cached_at < ctx.entries.len(),
        entry_matches(ctx.entries@[cached_at], ctx.search),
        start_ok(ctx, st1, act1),
        step_ok(ctx, st1, InstallEvent::Resolved(ResolveAction::Found { candidate: found, repository }), st2, act2),
        0 <= found_at < ctx.entries.len(),
        matches_discovered(ctx.entries@[found_at], ctx.search, found),
    ensures
        act1 is Resolve,
        act2 matches InstallAction::ListInstalled(c) && exists|k: int|
            0 <= k < ctx.entries.len() && c == ctx.entries@[k] && matches_discovered(
                ctx.entries@[k],
                ctx.search,
                found,
            ),
        !(act2 is Download),
{
    let (cached, d) = choose|cached: Option<InstallationCandidate>, d: CacheDecision|
        #![trigger lookup_ok(ctx.entries@, ctx.search, cached), cache_decision_ok(cached, ctx.search, ctx.automatic_upgrade, d)]
        lookup_ok(ctx.entries@, ctx.search, cached) && cache_decision_ok(
            cached,
            ctx.search,
            ctx.automatic_upgrade,
            d,
        ) && decision_step_ok(d, st1, act1);
    match cached {
        Some(c) => {
            assert(d == CacheDecision::CheckUpgrade(c));
            assert(st1 == InstallState::AwaitResolve { cached: Some(c) });
            lemma_cached_discovery_is_not_downloaded(ctx, c, found, repository, st2, act2, found_at);
        },
        None => {
            assert(!entry_matches(ctx.entries@[cached_at], ctx.search));
        },
    }
}

} // verus!

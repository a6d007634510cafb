//! The install and uninstall decisions: cache or remote, the upgrade check,
//! duplicate detection, conflict resolution and autorun. The caller performs
//! each outside step (prompt, query, download, installer) and hands the
//! result to the next decision.
use vstd::prelude::*;

use crate::cache::{entry_matches, locate_in_cache};
use crate::candidate::{
    InstallOverwriteOptions, InstallationCandidate, InstallationResult, InstalledProduct,
    SearchCandidate,
};
use crate::platform::Platform;
use crate::product::Flavor;
use crate::repository::ResolveAction;
use crate::text::{decimal, eq_ignore_case, lower_of, str_eq, u64_text};
use crate::version::{Version, version_cmp, version_eq};
use std::cmp::Ordering;

verus! {

/// What to do once the cache was searched.
#[derive(Debug)]
pub enum CacheDecision {
    /// Install the cached build
    UseCached(InstallationCandidate),
    /// Ask the user whether to look for a newer build
    AskUpgrade(InstallationCandidate),
    /// Look for a newer build, with the cached one as fallback
    CheckUpgrade(InstallationCandidate),
    /// Nothing cached: resolve the search on the repositories
    Fetch,
}

/// The decision after the cache lookup: a pinned version never looks
/// further; otherwise `automatic_upgrade` decides, or the user when it is
/// unset.
pub fn cache_decision(
    cached: Option<InstallationCandidate>,
    search: &SearchCandidate,
    automatic_upgrade: Option<bool>,
) -> (r: CacheDecision)
    ensures
        match cached {
            None => r is Fetch,
            Some(c) => match (search.version, automatic_upgrade) {
                (Some(_), _) => r == CacheDecision::UseCached(c),
                (None, Some(false)) => r == CacheDecision::UseCached(c),
                (None, Some(true)) => r == CacheDecision::CheckUpgrade(c),
                (None, None) => r == CacheDecision::AskUpgrade(c),
            },
        },
{
    match cached {
        None => CacheDecision::Fetch,
        Some(c) => {
            if search.version.is_some() {
                CacheDecision::UseCached(c)
            } else {
                match automatic_upgrade {
                    Some(false) => CacheDecision::UseCached(c),
                    Some(true) => CacheDecision::CheckUpgrade(c),
                    None => CacheDecision::AskUpgrade(c),
                }
            }
        },
    }
}

/// Which build to install after an upgrade check.
#[derive(Debug)]
pub enum UpgradeDecision {
    /// Install this cached build
    UseCached(InstallationCandidate),
    /// Download this build from repository `repository`, then install it
    Download(InstallationCandidate, usize),
}

/// Whether cache entry `e` holds the build `found` that was discovered for
/// `search`: same platform, product and flavor, and the discovered version.
pub open spec fn matches_discovered(e: InstallationCandidate, search: SearchCandidate, found: InstallationCandidate) -> bool {
    &&& e.flavor.platform == search.flavor.platform
    &&& lower_of(e.product_name@) == lower_of(search.product_name@)
    &&& lower_of(e.flavor.id@) == lower_of(search.flavor.id@)
    &&& lower_of(found.version@) == lower_of(e.version@)
}

/// Whether `r` is the outcome of an upgrade check of `cached` for `search`,
/// given what the repositories answered and the cache index `entries`.
pub open spec fn upgrade_ok(
    cached: InstallationCandidate,
    resolved: ResolveAction,
    entries: Seq<InstallationCandidate>,
    search: SearchCandidate,
    r: UpgradeDecision,
) -> bool {
    match resolved {
        ResolveAction::Found { candidate: found, repository } => {
            if exists|i: int| 0 <= i < entries.len() && matches_discovered(#[trigger] entries[i], search, found) {
                exists|i: int|
                    {
                        &&& 0 <= i < entries.len()
                        &&& matches_discovered(entries[i], search, found)
                        &&& forall|j: int| 0 <= j < i ==> !matches_discovered(#[trigger] entries[j], search, found)
                        &&& r == UpgradeDecision::UseCached(entries[i])
                    }
            } else if version_cmp(found.version@, cached.version@) == Some(Ordering::Greater) {
                r == UpgradeDecision::Download(found, repository)
            } else {
                r == UpgradeDecision::UseCached(cached)
            }
        },
        _ => r == UpgradeDecision::UseCached(cached),
    }
}

/// The upgrade check: a discovered build already in the cache is used from
/// there; else a discovered build that is strictly newer is downloaded; in
/// every other case, a failed or empty search included, the cached build is
/// used.
pub fn upgrade_decision(
    cached: InstallationCandidate,
    resolved: ResolveAction,
    entries: &Vec<InstallationCandidate>,
    search: &SearchCandidate,
) -> (r: UpgradeDecision)
    ensures
        upgrade_ok(cached, resolved, entries@, *search, r),
{
    match resolved {
        ResolveAction::Found { candidate: found, repository } => {
            let pinned = SearchCandidate {
                product_name: search.product_name.clone(),
                version: Some(found.version.clone()),
                identifier: Some(found.identifier.clone()),
                flavor: search.flavor.clone(),
            };
            let hit = locate_in_cache(entries, &pinned);
            proof {
                assert forall|i: int| 0 <= i < entries.len() implies entry_matches(#[trigger] entries@[i], pinned)
                    == matches_discovered(entries@[i], *search, found) by {}
            }
            match hit {
                Some(e) => UpgradeDecision::UseCached(e),
                None => {
                    match found.version.compare(&cached.version) {
                        Some(Ordering::Greater) => UpgradeDecision::Download(found, repository),
                        _ => UpgradeDecision::UseCached(cached),
                    }
                },
            }
        },
        _ => UpgradeDecision::UseCached(cached),
    }
}

/// A build that was discovered and is already in the cache under its own
/// entry is installed from the cache: the upgrade check never downloads it.
pub proof fn lemma_discovered_in_cache_not_downloaded(
    cached: InstallationCandidate,
    found: InstallationCandidate,
    repository: usize,
    entries: Seq<InstallationCandidate>,
    search: SearchCandidate,
    r: UpgradeDecision,
    i: int,
)
    requires
        upgrade_ok(cached, ResolveAction::Found { candidate: found, repository }, entries, search, r),
        0 <= i < entries.len(),
        matches_discovered(entries[i], search, found),
    ensures
        r matches UpgradeDecision::UseCached(e) && exists|k: int|
            0 <= k < entries.len() && e == entries[k] && matches_discovered(entries[k], search, found),
{
}

/// What to do after the repositories were searched for a build that was
/// not cached.
#[derive(Debug)]
pub enum FetchDecision {
    /// Download this build from repository `repository`, then install it
    Download(InstallationCandidate, usize),
    /// No repository has the build: nothing to install
    Skip,
    /// The search failed
    Fail,
}

/// The decision on the result of a search for a build that was not cached.
pub fn fetch_decision(resolved: ResolveAction) -> (r: FetchDecision)
    ensures
        match resolved {
            ResolveAction::Found { candidate, repository } => r == FetchDecision::Download(candidate, repository),
            ResolveAction::NotFound => r is Skip,
            _ => r is Fail,
        },
{
    match resolved {
        ResolveAction::Found { candidate, repository } => FetchDecision::Download(candidate, repository),
        ResolveAction::NotFound => FetchDecision::Skip,
        _ => FetchDecision::Fail,
    }
}

/// Whether `r` lists, in order, the positions of the installed products
/// named `name` (up to case) that the platform marks for removal.
pub open spec fn is_eligible_list(r: Seq<usize>, installed: Seq<InstalledProduct>, marked: Seq<bool>, name: Seq<char>) -> bool {
    &&& forall|k: int| 0 <= k < r.len() ==> (#[trigger] r[k]) < installed.len()
    &&& forall|a: int, b: int| 0 <= a < b < r.len() ==> r[a] < r[b]
    &&& forall|j: int|
        0 <= j < installed.len() ==> (r.contains(j as usize) <==> (lower_of(
            (#[trigger] installed[j]).product_name@,
        ) == lower_of(name) && marked[j]))
}

/// The installed products that an install of `product_name` collides with:
/// same name up to case, and marked by the platform in `marked`.
pub fn eligible_installed(installed: &Vec<InstalledProduct>, product_name: &str, marked: &Vec<bool>) -> (r: Vec<usize>)
    requires
        marked.len() == installed.len(),
    ensures
        is_eligible_list(r@, installed@, marked@, product_name@),
{
    let mut out: Vec<usize> = Vec::new();
    let mut i: usize = 0;
    while i < installed.len()
        invariant
            i <= installed.len(),
            marked.len() == installed.len(),
            forall|k: int| 0 <= k < out.len() ==> (#[trigger] out@[k]) < i,
            forall|a: int, b: int| 0 <= a < b < out.len() ==> out@[a] < out@[b],
            forall|j: int|
                0 <= j < i ==> (out@.contains(j as usize) <==> (lower_of(
                    (#[trigger] installed@[j]).product_name@,
                ) == lower_of(product_name@) && marked@[j])),
        decreases installed.len() - i,
    {
        let ghost before = out@;
        if marked[i] && eq_ignore_case(installed[i].product_name.as_str(), product_name) {
            out.push(i);
            proof {
                assert(out@[out.len() - 1] == i);
                assert forall|j: int| 0 <= j < i + 1 implies (out@.contains(j as usize) <==> (lower_of(
                    (#[trigger] installed@[j]).product_name@,
                ) == lower_of(product_name@) && marked@[j])) by {
                    if j < i {
                        if before.contains(j as usize) {
                            let w = choose|w: int| 0 <= w < before.len() && before[w] == j as usize;
                            assert(out@[w] == j as usize);
                        }
                        if out@.contains(j as usize) {
                            let w = choose|w: int| 0 <= w < out.len() && out@[w] == j as usize;
                            assert(w < before.len());
                        }
                    }
                }
            }
        } else {
            proof {
                assert(!out@.contains(i)) by {
                    if out@.contains(i) {
                        let w = choose|w: int| 0 <= w < out.len() && out@[w] == i;
                    }
                }
            }
        }
        i += 1;
    }
    out
}

/// What to do about the installations an install collides with.
#[derive(Debug, Clone, Copy, PartialEq, Eq, Structural)]
pub enum ConflictDecision {
    /// The same version is installed already: nothing to do
    Skip,
    /// Go on with this choice
    Proceed(InstallOverwriteOptions),
    /// Ask the user to overwrite, add or cancel
    Ask,
}

/// The conflict decision for the colliding products `eligible`.
pub open spec fn conflict_of(
    installed: Seq<InstalledProduct>,
    eligible: Seq<usize>,
    candidate: InstallationCandidate,
    prompt: Option<bool>,
) -> ConflictDecision {
    if exists|k: int|
        0 <= k < eligible.len() && version_eq(installed[#[trigger] eligible[k] as int].version@, candidate.version@) {
        ConflictDecision::Skip
    } else if eligible.len() > 1 && (prompt is None || prompt == Some(true)) {
        ConflictDecision::Ask
    } else {
        ConflictDecision::Proceed(InstallOverwriteOptions::Overwrite)
    }
}

/// Duplicate detection and conflict resolution: the same version installed
/// skips the install; several colliding installations ask the user when
/// prompting is on (the default); anything else overwrites.
pub fn conflict_decision(
    installed: &Vec<InstalledProduct>,
    eligible: &Vec<usize>,
    candidate: &InstallationCandidate,
    prompt: Option<bool>,
) -> (r: ConflictDecision)
    requires
        forall|k: int| 0 <= k < eligible.len() ==> (#[trigger] eligible@[k]) < installed.len(),
    ensures
        r == conflict_of(installed@, eligible@, *candidate, prompt),
{
    let mut k: usize = 0;
    while k < eligible.len()
        invariant
            k <= eligible.len(),
            forall|q: int| 0 <= q < eligible.len() ==> (#[trigger] eligible@[q]) < installed.len(),
            forall|q: int|
                0 <= q < k ==> !version_eq(installed@[#[trigger] eligible@[q] as int].version@, candidate.version@),
        decreases eligible.len() - k,
    {
        if installed[eligible[k]].version.equals(&candidate.version) {
            return ConflictDecision::Skip;
        }
        k += 1;
    }
    let asks = match prompt {
        Some(p) => p,
        None => true,
    };
    if eligible.len() > 1 && asks {
        ConflictDecision::Ask
    } else {
        ConflictDecision::Proceed(InstallOverwriteOptions::Overwrite)
    }
}

/// An install whose build is installed already, same product name up to
/// case and same version, and marked by the platform, is skipped: neither
/// uninstall nor installer runs.
pub proof fn lemma_same_version_installed_skips(
    installed: Seq<InstalledProduct>,
    marked: Seq<bool>,
    name: Seq<char>,
    eligible: Seq<usize>,
    candidate: InstallationCandidate,
    prompt: Option<bool>,
    j: usize,
)
    requires
        is_eligible_list(eligible, installed, marked, name),
        marked.len() == installed.len(),
        j < installed.len(),
        lower_of(installed[j as int].product_name@) == lower_of(name),
        marked[j as int],
        version_eq(installed[j as int].version@, candidate.version@),
    ensures
        conflict_of(installed, eligible, candidate, prompt) == ConflictDecision::Skip,
{
    assert(eligible.contains(j));
    let k = choose|k: int| 0 <= k < eligible.len() && eligible[k] == j;
    assert(version_eq(installed[eligible[k] as int].version@, candidate.version@));
}

/// The user's choice, with Add turned into Overwrite where the platform
/// cannot install side by side.
pub fn effective_choice(choice: InstallOverwriteOptions, supports_add: bool) -> (r: InstallOverwriteOptions)
    ensures
        r == if choice == InstallOverwriteOptions::Add && !supports_add {
            InstallOverwriteOptions::Overwrite
        } else {
            choice
        },
{
    if choice == InstallOverwriteOptions::Add && !supports_add {
        InstallOverwriteOptions::Overwrite
    } else {
        choice
    }
}

/// Whether to launch the application after the install: only after success,
/// and as `autorun` says, or else the flavor.
pub fn should_autorun(result: InstallationResult, autorun: Option<bool>, flavor_autorun: bool) -> (r: bool)
    ensures
        r == (result == InstallationResult::Succeeded && match autorun {
            Some(a) => a,
            None => flavor_autorun,
        }),
{
    result == InstallationResult::Succeeded && match autorun {
        Some(a) => a,
        None => flavor_autorun,
    }
}

/// Whether `r` lists, in order, the positions of the installed products
/// named `name` up to case, with version `version` where one is given.
pub open spec fn is_uninstall_list(r: Seq<usize>, installed: Seq<InstalledProduct>, name: Seq<char>, version: Option<Version>) -> bool {
    &&& forall|k: int| 0 <= k < r.len() ==> (#[trigger] r[k]) < installed.len()
    &&& forall|a: int, b: int| 0 <= a < b < r.len() ==> r[a] < r[b]
    &&& forall|j: int|
        0 <= j < installed.len() ==> (r.contains(j as usize) <==> (lower_of(
            (#[trigger] installed[j]).product_name@,
        ) == lower_of(name) && match version {
            Some(v) => version_eq(installed[j].version@, v@),
            None => true,
        }))
}

/// The installed products that an uninstall of `name` removes: same name up
/// to case, and the given version if any.
pub fn uninstall_targets(installed: &Vec<InstalledProduct>, name: &str, version: &Option<Version>) -> (r: Vec<usize>)
    ensures
        is_uninstall_list(r@, installed@, name@, *version),
{
    let mut out: Vec<usize> = Vec::new();
    let mut i: usize = 0;
    while i < installed.len()
        invariant
            i <= installed.len(),
            forall|k: int| 0 <= k < out.len() ==> (#[trigger] out@[k]) < i,
            forall|a: int, b: int| 0 <= a < b < out.len() ==> out@[a] < out@[b],
            forall|j: int|
                0 <= j < i ==> (out@.contains(j as usize) <==> (lower_of(
                    (#[trigger] installed@[j]).product_name@,
                ) == lower_of(name@) && match *version {
                    Some(v) => version_eq(installed@[j].version@, v@),
                    None => true,
                })),
        decreases installed.len() - i,
    {
        let ghost before = out@;
        let same_version = match version {
            Some(v) => installed[i].version.equals(v),
            None => true,
        };
        if same_version && eq_ignore_case(installed[i].product_name.as_str(), name) {
            out.push(i);
            proof {
                assert(out@[out.len() - 1] == i);
                assert forall|j: int| 0 <= j < i + 1 implies (out@.contains(j as usize) <==> (lower_of(
                    (#[trigger] installed@[j]).product_name@,
                ) == lower_of(name@) && match *version {
                    Some(v) => version_eq(installed@[j].version@, v@),
                    None => true,
                })) by {
                    if j < i {
                        if before.contains(j as usize) {
                            let w = choose|w: int| 0 <= w < before.len() && before[w] == j as usize;
                            assert(out@[w] == j as usize);
                        }
                        if out@.contains(j as usize) {
                            let w = choose|w: int| 0 <= w < out.len() && out@[w] == j as usize;
                            assert(w < before.len());
                        }
                    }
                }
            }
        } else {
            proof {
                assert(!out@.contains(i)) by {
                    if out@.contains(i) {
                        let w = choose|w: int| 0 <= w < out.len() && out@[w] == i;
                    }
                }
            }
        }
        i += 1;
    }
    out
}

/// Whether an uninstall asks before each removal: prompting is on (the
/// default) and there is more than one target.
pub fn uninstall_prompts(prompt: Option<bool>, targets: usize) -> (r: bool)
    ensures
        r == ((prompt is None || prompt == Some(true)) && targets > 1),
{
    let p = match prompt {
        Some(p) => p,
        None => true,
    };
    p && targets > 1
}

/// The most attempts at a free destination for an added installation.
pub const MAX_TRY_LIMIT: u64 = 200;

/// The `k`-th destination tried for an added installation of `name`:
/// `name`, then `name_1`, `name_2`, ...
pub open spec fn add_destination(name: Seq<char>, k: nat) -> Seq<char> {
    if k == 0 {
        name
    } else {
        name + seq!['_'] + decimal(k)
    }
}

/// Whether `s` is one of the texts of `existing`.
pub open spec fn text_in(existing: Seq<String>, s: Seq<char>) -> bool {
    exists|j: int| 0 <= j < existing.len() && (#[trigger] existing[j])@ == s
}

/// Whether `s` is one of `existing`.
pub fn contains_text(existing: &Vec<String>, s: &str) -> (r: bool)
    ensures
        r == text_in(existing@, s@),
{
    let mut j: usize = 0;
    while j < existing.len()
        invariant
            j <= existing.len(),
            forall|q: int| 0 <= q < j ==> (#[trigger] existing@[q])@ != s@,
        decreases existing.len() - j,
    {
        if str_eq(existing[j].as_str(), s) {
            return true;
        }
        j += 1;
    }
    false
}

/// The destination name of an installation added beside existing ones: the
/// first of `name`, `name_1`, ... `name_198` that is not among `existing`;
/// `None` where all of them are taken.
pub fn choose_add_destination(name: &str, existing: &Vec<String>) -> (r: Option<String>)
    ensures
        match r {
            Some(d) => exists|k: nat|
                k < MAX_TRY_LIMIT - 1 && d@ == add_destination(name@, k) && !text_in(existing@, d@)
                    && forall|q: nat| q < k ==> text_in(existing@, #[trigger] add_destination(name@, q)),
            None => forall|q: nat| q < MAX_TRY_LIMIT - 1 ==> text_in(existing@, #[trigger] add_destination(name@, q)),
        },
{
    let mut k: u64 = 0;
    while k < MAX_TRY_LIMIT - 1
        invariant
            k <= MAX_TRY_LIMIT - 1,
            forall|q: nat| q < k ==> text_in(existing@, #[trigger] add_destination(name@, q)),
        decreases MAX_TRY_LIMIT - 1 - k,
    {
        let candidate = if k == 0 {
            String::from_str(name)
        } else {
            let s = String::from_str(name);
            let s = s.concat("_");
            let n = u64_text(k);
            proof {
                reveal_strlit("_");
            }
            s.concat(n.as_str())
        };
        assert(candidate@ == add_destination(name@, k as nat)) by {
            reveal_strlit("_");
            if k > 0 {
                assert(candidate@ =~= name@ + seq!['_'] + decimal(k as nat));
            }
        }
        if !contains_text(existing, candidate.as_str()) {
            return Some(candidate);
        }
        k += 1;
    }
    None
}

/// Whether candidate `c` is the build that installed product `p` is: same
/// product name and equal version.
pub open spec fn is_build_of(c: InstallationCandidate, p: InstalledProduct) -> bool {
    c.product_name@ == p.product_name@ && version_eq(c.version@, p.version@)
}

/// Whether some installed product is the build `c`.
pub open spec fn is_installed_build(c: InstallationCandidate, installed: Seq<InstalledProduct>) -> bool {
    exists|j: int| 0 <= j < installed.len() && is_build_of(c, #[trigger] installed[j])
}

/// Whether `c` stands in a listing for installed product `p`, which no
/// candidate offers.
pub open spec fn is_placeholder_of(c: InstallationCandidate, p: InstalledProduct, platform: Platform) -> bool {
    &&& c.product_name@ == p.product_name@
    &&& c.version@ == p.version@
    &&& c.identifier@ == "--"@
    &&& c.remote_id@.len() == 0
    &&& c.repo_location@.len() == 0
    &&& c.installed
    &&& c.flavor.platform == platform
    &&& c.flavor.id@ == "--"@
}

/// Whether `list` shows installed product `p`: an entry that is its build,
/// or a placeholder for it.
pub open spec fn shows_installed(list: Seq<InstallationCandidate>, p: InstalledProduct, platform: Platform) -> bool {
    exists|i: int|
        0 <= i < list.len() && (is_build_of(#[trigger] list[i], p) || is_placeholder_of(list[i], p, platform))
}

/// Whether `c` is a placeholder for one of the installed products.
pub open spec fn is_placeholder_among(c: InstallationCandidate, installed: Seq<InstalledProduct>, platform: Platform) -> bool {
    exists|q: int| 0 <= q < installed.len() && is_placeholder_of(c, #[trigger] installed[q], platform)
}

/// Whether some installed product has the product name of `c`.
pub open spec fn product_is_installed(c: InstallationCandidate, installed: Seq<InstalledProduct>) -> bool {
    exists|j: int| 0 <= j < installed.len() && (#[trigger] installed[j]).product_name@ == c.product_name@
}

/// Whether some installed product is the build `c`.
fn installed_build(c: &InstallationCandidate, installed: &Vec<InstalledProduct>) -> (r: bool)
    ensures
        r == is_installed_build(*c, installed@),
{
    let mut j: usize = 0;
    while j < installed.len()
        invariant
            j <= installed.len(),
            forall|q: int| 0 <= q < j ==> !is_build_of(*c, #[trigger] installed@[q]),
        decreases installed.len() - j,
    {
        if c.product_equals(&installed[j]) && c.version.equals(&installed[j].version) {
            return true;
        }
        j += 1;
    }
    false
}

/// Whether some installed product has the product name of `c`.
fn installed_product(c: &InstallationCandidate, installed: &Vec<InstalledProduct>) -> (r: bool)
    ensures
        r == product_is_installed(*c, installed@),
{
    let mut j: usize = 0;
    while j < installed.len()
        invariant
            j <= installed.len(),
            forall|q: int| 0 <= q < j ==> (#[trigger] installed@[q]).product_name@ != c.product_name@,
        decreases installed.len() - j,
    {
        if c.product_equals(&installed[j]) {
            return true;
        }
        j += 1;
    }
    false
}

/// Whether some entry of `list` is the build of installed product `p`.
fn listed_build(list: &Vec<InstallationCandidate>, p: &InstalledProduct) -> (r: bool)
    ensures
        r == exists|i: int| 0 <= i < list.len() && is_build_of(#[trigger] list@[i], *p),
{
    let mut i: usize = 0;
    while i < list.len()
        invariant
            i <= list.len(),
            forall|q: int| 0 <= q < i ==> !is_build_of(#[trigger] list@[q], *p),
        decreases list.len() - i,
    {
        if list[i].product_equals(p) && list[i].version.equals(&p.version) {
            return true;
        }
        i += 1;
    }
    false
}

/// The listing of available candidates against what is installed. Without
/// `show_installed`, candidates of installed products are left out. With it,
/// every candidate is kept and flagged when it is installed, and each
/// installed product that no entry offers gets a placeholder entry.
pub fn annotate_listing(
    candidates: Vec<InstallationCandidate>,
    installed: &Vec<InstalledProduct>,
    show_installed: bool,
    platform: Platform,
) -> (r: Vec<InstallationCandidate>)
    ensures
        !show_installed ==> {
            &&& forall|i: int| 0 <= i < r.len() ==> !product_is_installed(#[trigger] r@[i], installed@)
            &&& forall|i: int| 0 <= i < r.len() ==> candidates@.contains(#[trigger] r@[i])
            &&& forall|k: int|
                0 <= k < candidates.len() && !product_is_installed(#[trigger] candidates@[k], installed@)
                    ==> r@.contains(candidates@[k])
        },
        show_installed ==> {
            &&& r.len() >= candidates.len()
            &&& forall|i: int|
                0 <= i < candidates.len() ==> #[trigger] r@[i] == (InstallationCandidate {
                    installed: candidates@[i].installed || is_installed_build(candidates@[i], installed@),
                    ..candidates@[i]
                })
            &&& forall|i: int|
                candidates.len() <= i < r.len() ==> is_placeholder_among(#[trigger] r@[i], installed@, platform)
            &&& forall|j: int| 0 <= j < installed.len() ==> shows_installed(r@, #[trigger] installed@[j], platform)
        },
{
    let mut out: Vec<InstallationCandidate> = Vec::new();
    if !show_installed {
        let mut k: usize = 0;
        while k < candidates.len()
            invariant
                k <= candidates.len(),
                forall|i: int| 0 <= i < out.len() ==> !product_is_installed(#[trigger] out@[i], installed@),
                forall|i: int| 0 <= i < out.len() ==> candidates@.contains(#[trigger] out@[i]),
                forall|q: int|
                    0 <= q < k && !product_is_installed(#[trigger] candidates@[q], installed@) ==> out@.contains(
                        candidates@[q],
                    ),
            decreases candidates.len() - k,
        {
            let c = &candidates[k];
            if !installed_product(c, installed) {
                let ghost before = out@;
                out.push(c.clone());
                proof {
                    assert(out@[out.len() - 1] == candidates@[k as int]);
                    assert forall|q: int|
                        0 <= q < k + 1 && !product_is_installed(#[trigger] candidates@[q], installed@) implies out@.contains(
                            candidates@[q],
                        ) by {
                        if q < k {
                            let w = choose|w: int| 0 <= w < before.len() && before[w] == candidates@[q];
                            assert(out@[w] == before[w]);
                        }
                    }
                }
            }
            k += 1;
        }
        return out;
    }
    let mut k: usize = 0;
    while k < candidates.len()
        invariant
            k <= candidates.len(),
            out.len() == k,
            forall|i: int|
                0 <= i < k ==> #[trigger] out@[i] == (InstallationCandidate {
                    installed: candidates@[i].installed || is_installed_build(candidates@[i], installed@),
                    ..candidates@[i]
                }),
        decreases candidates.len() - k,
    {
        let mut c = candidates[k].clone();
        let flag = installed_build(&c, installed);
        c.installed = c.installed || flag;
        out.push(c);
        k += 1;
    }
    let mut j: usize = 0;
    while j < installed.len()
        invariant
            j <= installed.len(),
            out.len() >= candidates.len(),
            forall|i: int|
                0 <= i < candidates.len() ==> #[trigger] out@[i] == (InstallationCandidate {
                    installed: candidates@[i].installed || is_installed_build(candidates@[i], installed@),
                    ..candidates@[i]
                }),
            forall|i: int|
                candidates.len() <= i < out.len() ==> is_placeholder_among(#[trigger] out@[i], installed@, platform),
            forall|q: int| 0 <= q < j ==> shows_installed(out@, #[trigger] installed@[q], platform),
        decreases installed.len() - j,
    {
        let p = &installed[j];
        let ghost before = out@;
        if !listed_build(&out, p) {
            let placeholder = InstallationCandidate {
                remote_id: String::new(),
                repo_location: String::new(),
                product_name: p.product_name.clone(),
                version: p.version.clone(),
                identifier: String::from_str("--"),
                flavor: Flavor::empty(platform),
                installed: true,
            };
            out.push(placeholder);
            proof {
                assert(is_placeholder_of(out@[out.len() - 1], installed@[j as int], platform));
                assert forall|i: int| candidates.len() <= i < out.len() implies is_placeholder_among(#[trigger] out@[i], installed@, platform) by {
                    if i < before.len() {
                        assert(out@[i] == before[i]);
                    } else {
                        assert(is_placeholder_of(out@[i], installed@[j as int], platform));
                    }
                }
                assert forall|q: int| 0 <= q < j + 1 implies shows_installed(out@, #[trigger] installed@[q], platform) by {
                    if q < j {
                        let i = choose|i: int|
                            0 <= i < before.len() && (is_build_of(#[trigger] before[i], installed@[q]) || is_placeholder_of(
                                before[i],
                                installed@[q],
                                platform,
                            ));
                        assert(out@[i] == before[i]);
                    } else {
                        assert(is_placeholder_of(out@[out.len() - 1], installed@[q], platform));
                    }
                }
            }
        }
        j += 1;
    }
    out
}

} // verus!

//! The build-repository protocol: which repositories may be asked, the
//! query URLs, and what a reply means.
use vstd::prelude::*;

use crate::candidate::{InstallationCandidate, SearchCandidate};
use crate::platform::Platform;
use crate::product::{Flavor, Product};
use crate::text::{decimal, u64_text};
use crate::version::Version;

verus! {

/// Credentials attached to every request to one repository.
#[derive(Debug)]
pub enum RepositoryCredentials {
    BearerToken { token: String },
    BasicAuth { username: String, password: Option<String> },
}

/// A configured source of builds.
#[derive(Debug)]
pub struct CandidateRepository {
    /// Display name of this repository
    pub name: String,
    /// Repository type, such as TeamCity
    pub repository_type: String,
    /// The platforms whose builds it holds; empty for all
    pub platforms: Vec<Platform>,
    /// A local folder holding builds
    pub repository_folder: Option<String>,
    /// The build server
    pub repository_server: Option<String>,
    pub repository_credentials: Option<RepositoryCredentials>,
    /// The products it holds
    pub products: Vec<String>,
}

/// Whether a repository may be asked on `platform`: it has a location, and
/// its platform list is empty or holds `platform`.
pub open spec fn is_valid_repository(r: CandidateRepository, platform: Option<Platform>) -> bool {
    &&& (r.repository_folder is Some || r.repository_server is Some)
    &&& (r.platforms@.len() == 0 || (platform matches Some(p) && r.platforms@.contains(p)))
}

/// Whether `p` is in `platforms`.
pub fn contains_platform(platforms: &Vec<Platform>, p: Platform) -> (r: bool)
    ensures
        r == platforms@.contains(p),
{
    let mut i: usize = 0;
    while i < platforms.len()
        invariant
            i <= platforms.len(),
            forall|j: int| 0 <= j < i ==> platforms@[j] != p,
        decreases platforms.len() - i,
    {
        if platforms[i] == p {
            return true;
        }
        i += 1;
    }
    false
}

impl CandidateRepository {
    /// Whether this repository may be asked on `platform`.
    pub fn is_valid_for(&self, platform: Option<Platform>) -> (r: bool)
        ensures
            r == is_valid_repository(*self, platform),
    {
        (self.repository_folder.is_some() || self.repository_server.is_some()) && (
        self.platforms.len() == 0 || match platform {
            Some(p) => contains_platform(&self.platforms, p),
            None => false,
        })
    }
}

/// The positions of the repositories that may be asked on `platform`, in
/// configured order.
pub fn valid_repositories(repos: &Vec<CandidateRepository>, platform: Option<Platform>) -> (r: Vec<usize>)
    ensures
        forall|k: int| 0 <= k < r.len() ==> (#[trigger] r@[k]) < repos.len(),
        forall|a: int, b: int| 0 <= a < b < r.len() ==> r@[a] < r@[b],
        forall|j: int|
            0 <= j < repos.len() ==> (is_valid_repository(#[trigger] repos@[j], platform)
                <==> r@.contains(j as usize)),
{
    let mut out: Vec<usize> = Vec::new();
    let mut i: usize = 0;
    while i < repos.len()
        invariant
            i <= repos.len(),
            forall|k: int| 0 <= k < out.len() ==> (#[trigger] out@[k]) < i,
            forall|a: int, b: int| 0 <= a < b < out.len() ==> out@[a] < out@[b],
            forall|j: int|
                0 <= j < i ==> (is_valid_repository(#[trigger] repos@[j], platform)
                    <==> out@.contains(j as usize)),
        decreases repos.len() - i,
    {
        let ghost before = out@;
        if repos[i].is_valid_for(platform) {
            out.push(i);
            proof {
                assert(out@[out.len() - 1] == i);
                assert forall|j: int| 0 <= j < i + 1 implies (is_valid_repository(#[trigger] repos@[j], platform)
                    <==> out@.contains(j as usize)) by {
                    if j < i {
                        if before.contains(j as usize) {
                            let w = choose|w: int| 0 <= w < before.len() && before[w] == j as usize;
                            assert(out@[w] == j as usize);
                        }
                        if out@.contains(j as usize) {
                            let w = choose|w: int| 0 <= w < out.len() && out@[w] == j as usize;
                            assert(w < before.len());
                        }
                    }
                }
            }
        } else {
            proof {
                assert(!out@.contains(i)) by {
                    if out@.contains(i) {
                        let w = choose|w: int| 0 <= w < out.len() && out@[w] == i;
                    }
                }
            }
        }
        i += 1;
    }
    out
}

/// Artifact count of a build.
#[derive(Debug)]
pub struct TeamCityArtifacts {
    pub count: u32,
}

/// One build as the server describes it.
#[derive(Debug)]
pub struct TeamCityBuild {
    pub id: u32,
    pub build_number: String,
    pub finish_date: Option<String>,
    pub artifacts: Option<TeamCityArtifacts>,
    pub build_type_id: Option<String>,
    pub status: Option<String>,
    pub branch_name: Option<String>,
}

/// A list of builds.
#[derive(Debug)]
pub struct TeamCityBuilds {
    pub count: u32,
    pub builds: Vec<TeamCityBuild>,
}

/// A branch and its latest builds.
#[derive(Debug)]
pub struct TeamCityBranch {
    pub name: String,
    pub builds: Vec<TeamCityBuild>,
}

/// The branch listing of a build configuration.
#[derive(Debug)]
pub struct TeamCityRoot {
    pub branches: Vec<TeamCityBranch>,
}

/// Whether `s` starts with `p`.
pub open spec fn starts_with(s: Seq<char>, p: Seq<char>) -> bool {
    p.len() <= s.len() && s.subrange(0, p.len() as int) == p
}

/// `url` with `https://` in front unless it starts with `http://` or
/// `https://`.
pub open spec fn with_scheme(url: Seq<char>) -> Seq<char> {
    if starts_with(url, "http://"@) || starts_with(url, "https://"@) {
        url
    } else {
        "https://"@ + url
    }
}

/// Whether the text `s` starts with the text `p`.
pub fn text_starts_with(s: &str, p: &str) -> (r: bool)
    ensures
        r == starts_with(s@, p@),
{
    let n = s.unicode_len();
    let m = p.unicode_len();
    if m > n {
        return false;
    }
    let mut i: usize = 0;
    while i < m
        invariant
            i <= m <= n,
            n == s@.len(),
            m == p@.len(),
            forall|j: int| 0 <= j < i ==> s@[j] == p@[j],
        decreases m - i,
    {
        if s.get_char(i) != p.get_char(i) {
            return false;
        }
        i += 1;
    }
    assert(s@.subrange(0, m as int) =~= p@);
    true
}

/// Ensures that `url` starts with `http://` or `https://`, putting
/// `https://` in front otherwise.
pub fn ensure_scheme(url: &str) -> (r: String)
    ensures
        r@ == with_scheme(url@),
{
    if text_starts_with(url, "http://") || text_starts_with(url, "https://") {
        String::from_str(url)
    } else {
        let s = String::from_str("https://");
        s.concat(url)
    }
}

/// The branch listing URL of a build configuration.
pub open spec fn branches_url_of(server: Seq<char>, build_type: Seq<char>) -> Seq<char> {
    with_scheme(server) + "/app/rest/buildTypes/id:"@ + build_type
        + "/branches?locator=default:true,policy:ACTIVE_HISTORY_AND_ACTIVE_VCS_BRANCHES&fields=branch(name,builds(build(id,number,finishDate,artifacts($locator(count:1),count:1)),count,$locator(state:finished,status:SUCCESS,count:1)))"@
}

/// The locator filter of a search: its build number where it has a version,
/// else its branch.
pub open spec fn search_filter(search: SearchCandidate) -> Seq<char> {
    match search.version {
        Some(v) => "number:"@ + v@,
        None => match search.identifier {
            Some(i) => "branch:"@ + i@,
            None => "branch:"@,
        },
    }
}

/// The build resolution URL of a search.
pub open spec fn build_url_of(server: Seq<char>, search: SearchCandidate) -> Seq<char> {
    with_scheme(server) + "/app/rest/builds?locator=default:false,policy:ALL_BRANCHES&locator=buildType:"@
        + search.flavor.teamcity_metadata.teamcity_id@ + ",count:1,"@ + search_filter(search)
}

/// The URL that lists the branches and latest successful builds of
/// `flavor`'s build configuration on `server`.
pub fn branches_url(server: &str, flavor: &Flavor) -> (r: String)
    ensures
        r@ == branches_url_of(server@, flavor.teamcity_metadata.teamcity_id@),
{
    let s = ensure_scheme(server);
    let s = s.concat("/app/rest/buildTypes/id:");
    let s = s.concat(flavor.teamcity_metadata.teamcity_id.as_str());
    s.concat(
        "/branches?locator=default:true,policy:ACTIVE_HISTORY_AND_ACTIVE_VCS_BRANCHES&fields=branch(name,builds(build(id,number,finishDate,artifacts($locator(count:1),count:1)),count,$locator(state:finished,status:SUCCESS,count:1)))",
    )
}

/// The URL that asks `server` for the one build that `search` names.
pub fn build_url(server: &str, search: &SearchCandidate) -> (r: String)
    ensures
        r@ == build_url_of(server@, *search),
{
    let s = ensure_scheme(server);
    let s = s.concat("/app/rest/builds?locator=default:false,policy:ALL_BRANCHES&locator=buildType:");
    let s = s.concat(search.flavor.teamcity_metadata.teamcity_id.as_str());
    let s = s.concat(",count:1,");
    match &search.version {
        Some(v) => s.concat("number:").concat(v.as_str()),
        None => match &search.identifier {
            Some(i) => s.concat("branch:").concat(i.as_str()),
            None => s.concat("branch:"),
        },
    }
}

/// Whether `c` is the candidate that build `b` of a branch listing stands
/// for.
pub open spec fn is_listed_candidate(
    c: InstallationCandidate,
    b: TeamCityBuild,
    branch: Seq<char>,
    product: Product,
    flavor: Flavor,
    server: Seq<char>,
) -> bool {
    &&& c.remote_id@ == decimal(b.id as nat)
    &&& c.version@ == b.build_number@
    &&& c.identifier@ == branch
    &&& c.product_name@ == product.name@
    &&& c.flavor == flavor
    &&& c.repo_location@ == server
    &&& !c.installed
}

/// Whether `c` is the candidate that build `b` resolves `search` to.
pub open spec fn is_resolved_candidate(
    c: InstallationCandidate,
    b: TeamCityBuild,
    search: SearchCandidate,
    server: Seq<char>,
) -> bool {
    &&& c.remote_id@ == decimal(b.id as nat)
    &&& c.version@ == b.build_number@
    &&& c.identifier@ == match b.branch_name {
        Some(n) => n@,
        None => b.build_number@,
    }
    &&& c.product_name@ == search.product_name@
    &&& c.flavor == search.flavor
    &&& c.repo_location@ == server
    &&& !c.installed
}

/// The candidates of a branch listing: one per build, branch by branch, in
/// the order of the reply.
pub open spec fn listed_candidates_ok(
    r: Seq<InstallationCandidate>,
    root: TeamCityRoot,
    product: Product,
    flavor: Flavor,
    server: Seq<char>,
) -> bool {
    let pairs = branch_build_pairs(root.branches@);
    &&& r.len() == pairs.len()
    &&& forall|k: int|
        0 <= k < r.len() ==> is_listed_candidate(
            #[trigger] r[k],
            root.branches@[pairs[k].0].builds@[pairs[k].1],
            root.branches@[pairs[k].0].name@,
            product,
            flavor,
            server,
        )
}

/// The (branch, build) positions of a listing, branch by branch.
pub open spec fn branch_build_pairs(branches: Seq<TeamCityBranch>) -> Seq<(int, int)>
    decreases branches.len(),
{
    if branches.len() == 0 {
        Seq::empty()
    } else {
        let last = branches.len() - 1;
        branch_build_pairs(branches.drop_last()) + Seq::new(
            branches[last].builds@.len(),
            |j: int| (last, j),
        )
    }
}

/// A copy of a text.
fn clone_text(s: &String) -> (r: String)
    ensures
        r == *s,
{
    s.clone()
}

/// The candidates that a branch listing of `flavor` of `product` on `server`
/// offers.
pub fn candidates_from_branches(root: &TeamCityRoot, product: &Product, flavor: &Flavor, server: &str) -> (r: Vec<InstallationCandidate>)
    ensures
        listed_candidates_ok(r@, *root, *product, *flavor, server@),
{
    let mut out: Vec<InstallationCandidate> = Vec::new();
    let mut i: usize = 0;
    while i < root.branches.len()
        invariant
            i <= root.branches.len(),
            out@.len() == branch_build_pairs(root.branches@.subrange(0, i as int)).len(),
            forall|k: int|
                0 <= k < out@.len() ==> {
                    let p = branch_build_pairs(root.branches@.subrange(0, i as int))[k];
                    is_listed_candidate(
                        #[trigger] out@[k],
                        root.branches@[p.0].builds@[p.1],
                        root.branches@[p.0].name@,
                        *product,
                        *flavor,
                        server@,
                    )
                },
        decreases root.branches.len() - i,
    {
        let branch = &root.branches[i];
        let ghost pre = root.branches@.subrange(0, i as int);
        let ghost next = root.branches@.subrange(0, i + 1);
        proof {
            assert(next.drop_last() =~= pre);
        }
        let ghost base = out@.len();
        let mut j: usize = 0;
        while j < branch.builds.len()
            invariant
                j <= branch.builds.len(),
                *branch == root.branches@[i as int],
                i < root.branches.len(),
                next == root.branches@.subrange(0, i + 1),
                next.drop_last() == pre,
                base == branch_build_pairs(pre).len(),
                out@.len() == base + j,
                forall|k: int|
                    0 <= k < out@.len() ==> {
                        let p = branch_build_pairs(next)[k];
                        is_listed_candidate(
                            #[trigger] out@[k],
                            root.branches@[p.0].builds@[p.1],
                            root.branches@[p.0].name@,
                            *product,
                            *flavor,
                            server@,
                        )
                    },
            decreases branch.builds.len() - j,
        {
            let build = &branch.builds[j];
            let c = InstallationCandidate {
                remote_id: u64_text(build.id as u64),
                version: Version::new(build.build_number.as_str()),
                identifier: clone_text(&branch.name),
                product_name: clone_text(&product.name),
                flavor: flavor.clone(),
                repo_location: String::from_str(server),
                installed: false,
            };
            out.push(c);
            proof {
                assert(branch_build_pairs(next)[base + j] == (i as int, j as int));
            }
            j += 1;
        }
        proof {
            assert forall|k: int| 0 <= k < out@.len() implies {
                let p = branch_build_pairs(next)[k];
                is_listed_candidate(
                    #[trigger] out@[k],
                    root.branches@[p.0].builds@[p.1],
                    root.branches@[p.0].name@,
                    *product,
                    *flavor,
                    server@,
                )
            } by {}
        }
        i += 1;
    }
    assert(root.branches@.subrange(0, root.branches.len() as int) =~= root.branches@);
    out
}

/// The candidate that build `build` of `server` resolves `search` to.
pub fn resolved_candidate(search: &SearchCandidate, build: &TeamCityBuild, server: &str) -> (r: InstallationCandidate)
    ensures
        is_resolved_candidate(r, *build, *search, server@),
{
    let identifier = match &build.branch_name {
        Some(n) => clone_text(n),
        None => clone_text(&build.build_number),
    };
    InstallationCandidate {
        remote_id: u64_text(build.id as u64),
        product_name: clone_text(&search.product_name),
        version: Version::new(build.build_number.as_str()),
        identifier,
        flavor: search.flavor.clone(),
        repo_location: String::from_str(server),
        installed: false,
    }
}

/// What a repository answered to a build-resolution query.
#[derive(Debug)]
pub enum RepositoryReply {
    /// The request could not be sent, or its answer not read
    TransportFailed,
    /// The server answered with this status, other than 200
    Status(u16),
    /// A 200 answer whose body is not a build list
    Malformed,
    /// A 200 answer with this build list
    Builds(TeamCityBuilds),
}

/// Where a resolution across the repositories stands.
#[derive(Debug, Clone, Copy, PartialEq, Eq, Structural)]
pub struct ResolveState {
    /// The position in the list of valid repositories to look at next
    pub next: usize,
    /// Whether some repository could not be reached
    pub transport_failed: bool,
    /// The repository asked last
    pub asked: Option<usize>,
}

/// What the resolution asks of its caller, or how it ended.
#[derive(Debug)]
pub enum ResolveAction {
    /// Send `url` to repository `repository` and hand back its reply
    Query { repository: usize, url: String },
    /// Repository `repository` has the build
    Found { candidate: InstallationCandidate, repository: usize },
    /// Every repository was asked and none has the build
    NotFound,
    /// No repository could be asked, or one could not be reached and none
    /// has the build
    Failed,
}

/// Whether `p` is the first position from `from` on whose repository has a
/// server.
pub open spec fn is_next_queryable(repos: Seq<CandidateRepository>, valid: Seq<usize>, from: int, p: int) -> bool {
    &&& from <= p < valid.len()
    &&& repos[valid[p] as int].repository_server is Some
    &&& forall|q: int| from <= q < p ==> (#[trigger] repos[valid[q] as int]).repository_server is None
}

/// Whether no position from `from` on has a repository with a server.
pub open spec fn none_queryable(repos: Seq<CandidateRepository>, valid: Seq<usize>, from: int) -> bool {
    forall|q: int| from <= q < valid.len() ==> (#[trigger] repos[valid[q] as int]).repository_server is None
}

/// Whether `(next, action)` is the step of a resolution that goes on from
/// `state`: ask the next repository with a server, or end.
pub open spec fn is_next_step(
    repos: Seq<CandidateRepository>,
    valid: Seq<usize>,
    search: SearchCandidate,
    state: ResolveState,
    next: ResolveState,
    action: ResolveAction,
) -> bool {
    match action {
        ResolveAction::Query { repository, url } => exists|p: int|
            {
                &&& is_next_queryable(repos, valid, state.next as int, p)
                &&& repository == valid[p]
                &&& next == ResolveState {
                    next: (p + 1) as usize,
                    transport_failed: state.transport_failed,
                    asked: Some(repository),
                }
                &&& url@ == build_url_of(repos[repository as int].repository_server->0@, search)
            },
        ResolveAction::NotFound => {
            &&& none_queryable(repos, valid, state.next as int)
            &&& valid.len() > 0
            &&& !state.transport_failed
            &&& next == state
        },
        ResolveAction::Failed => {
            &&& none_queryable(repos, valid, state.next as int)
            &&& (valid.len() == 0 || state.transport_failed)
            &&& next == state
        },
        ResolveAction::Found { .. } => false,
    }
}

/// Whether `valid` lists positions of `repos`.
pub open spec fn positions_in(valid: Seq<usize>, n: int) -> bool {
    forall|k: int| 0 <= k < valid.len() ==> (#[trigger] valid[k]) < n
}

impl ResolveState {
    /// The state before any repository was asked.
    pub fn new() -> (r: ResolveState)
        ensures
            r == (ResolveState { next: 0, transport_failed: false, asked: None }),
    {
        ResolveState { next: 0, transport_failed: false, asked: None }
    }
}

/// Goes on with a resolution of `search` across the repositories at the
/// positions `valid`: asks the next one that has a server, or ends.
pub fn resolve_next(
    search: &SearchCandidate,
    repos: &Vec<CandidateRepository>,
    valid: &Vec<usize>,
    state: ResolveState,
) -> (r: (ResolveState, ResolveAction))
    requires
        positions_in(valid@, repos.len() as int),
    ensures
        is_next_step(repos@, valid@, *search, state, r.0, r.1),
{
    let mut p: usize = state.next;
    while p < valid.len()
        invariant
            state.next <= p,
            positions_in(valid@, repos.len() as int),
            forall|q: int| state.next <= q < p ==> (#[trigger] repos@[valid@[q] as int]).repository_server is None,
        decreases valid.len() - p,
    {
        let k = valid[p];
        match &repos[k].repository_server {
            Some(server) => {
                let url = build_url(server.as_str(), search);
                let next = ResolveState {
                    next: p + 1,
                    transport_failed: state.transport_failed,
                    asked: Some(k),
                };
                return (next, ResolveAction::Query { repository: k, url });
            },
            None => {},
        }
        p += 1;
    }
    if valid.len() == 0 || state.transport_failed {
        (state, ResolveAction::Failed)
    } else {
        (state, ResolveAction::NotFound)
    }
}

/// Whether `(next, action)` follows the reply `reply` of the repository
/// asked last in state `state`: a non-empty build list gives its first build;
/// anything else moves on, remembering a transport failure.
pub open spec fn reply_ok(
    repos: Seq<CandidateRepository>,
    valid: Seq<usize>,
    search: SearchCandidate,
    state: ResolveState,
    reply: RepositoryReply,
    next: ResolveState,
    action: ResolveAction,
) -> bool {
    match reply {
        RepositoryReply::Builds(b) if b.builds.len() > 0 => {
            let k = state.asked->0;
            &&& next == state
            &&& action matches ResolveAction::Found { candidate, repository } && repository == k
                && is_resolved_candidate(candidate, b.builds@[0], search, repos[k as int].repository_server->0@)
        },
        _ => is_next_step(
            repos,
            valid,
            search,
            ResolveState { transport_failed: state.transport_failed || reply is TransportFailed, ..state },
            next,
            action,
        ),
    }
}

/// Takes the reply of the repository asked last: the first build of a
/// non-empty build list is the result; any other reply moves on to the next
/// repository, remembering a transport failure.
pub fn resolve_reply(
    search: &SearchCandidate,
    repos: &Vec<CandidateRepository>,
    valid: &Vec<usize>,
    state: ResolveState,
    reply: RepositoryReply,
) -> (r: (ResolveState, ResolveAction))
    requires
        positions_in(valid@, repos.len() as int),
        state.asked matches Some(k) && k < repos.len() && repos@[k as int].repository_server is Some,
    ensures
        reply_ok(repos@, valid@, *search, state, reply, r.0, r.1),
{
    let k = match state.asked {
        Some(k) => k,
        None => {
            return (state, ResolveAction::Failed);
        },
    };
    match reply {
        RepositoryReply::Builds(b) => {
            if b.builds.len() > 0 {
                let server = match &repos[k].repository_server {
                    Some(s) => s,
                    None => {
                        return (state, ResolveAction::Failed);
                    },
                };
                let candidate = resolved_candidate(search, &b.builds[0], server.as_str());
                return (state, ResolveAction::Found { candidate, repository: k });
            }
            resolve_next(search, repos, valid, state)
        },
        RepositoryReply::TransportFailed => {
            let st = ResolveState { transport_failed: true, ..state };
            resolve_next(search, repos, valid, st)
        },
        _ => resolve_next(search, repos, valid, state),
    }
}

/// One branch listing query of an enumeration: repository, product and
/// flavor positions, and the URL to ask.
#[derive(Debug)]
pub struct BranchQuery {
    /// The position of the repository in the list of valid repositories
    pub position: usize,
    pub repository: usize,
    pub product: usize,
    pub flavor: usize,
    pub url: String,
}

/// Whether `r` lists one query per repository with a server among `valid`,
/// per product, per flavor for `platform`: no other query, none twice, in
/// the order of repository position, then product, then flavor.
pub open spec fn branch_queries_ok(
    r: Seq<BranchQuery>,
    repos: Seq<CandidateRepository>,
    valid: Seq<usize>,
    products: Seq<Product>,
    platform: Platform,
) -> bool {
    &&& forall|k: int|
        0 <= k < r.len() ==> {
            let q = #[trigger] r[k];
            &&& q.position < valid.len() && q.repository == valid[q.position as int]
            &&& q.product < products.len()
            &&& q.flavor < products[q.product as int].flavors.len()
            &&& products[q.product as int].flavors@[q.flavor as int].platform == platform
            &&& repos[q.repository as int].repository_server matches Some(s) && q.url@
                == branches_url_of(
                s@,
                products[q.product as int].flavors@[q.flavor as int].teamcity_metadata.teamcity_id@,
            )
        }
    &&& forall|v: int, pi: int, fi: int|
        0 <= v < valid.len() && 0 <= pi < products.len() && 0 <= fi < products[pi].flavors.len()
            && repos[valid[v] as int].repository_server is Some
            && products[pi].flavors@[fi].platform == platform ==> #[trigger] has_query(r, valid, v, pi, fi)
    &&& forall|a: int, b: int| 0 <= a < b < r.len() ==> #[trigger] query_before(r[a], r[b])
}

/// Whether query `q` comes before repository position `v`, product `pi` and
/// flavor `fi`, in that order of keys.
pub open spec fn key_before(q: BranchQuery, v: int, pi: int, fi: int) -> bool {
    q.position < v || (q.position == v && (q.product < pi || (q.product == pi && q.flavor < fi)))
}

/// Whether query `a` comes strictly before query `b`: by repository
/// position, then product, then flavor.
pub open spec fn query_before(a: BranchQuery, b: BranchQuery) -> bool {
    key_before(a, b.position as int, b.product as int, b.flavor as int)
}

/// Whether `r` has the query of repository position `v`, product `pi` and
/// flavor `fi`.
pub open spec fn has_query(r: Seq<BranchQuery>, valid: Seq<usize>, v: int, pi: int, fi: int) -> bool {
    exists|k: int| 0 <= k < r.len() && (#[trigger] r[k]).position == v && r[k].product == pi && r[k].flavor == fi
}

/// The branch listing queries of an enumeration on `platform`: for each
/// repository among `valid` that has a server, each product, and each of its
/// flavors for `platform`.
pub fn branch_queries(
    repos: &Vec<CandidateRepository>,
    valid: &Vec<usize>,
    products: &Vec<Product>,
    platform: Platform,
) -> (r: Vec<BranchQuery>)
    requires
        positions_in(valid@, repos.len() as int),
    ensures
        branch_queries_ok(r@, repos@, valid@, products@, platform),
{
    let mut out: Vec<BranchQuery> = Vec::new();
    let mut v: usize = 0;
    while v < valid.len()
        invariant
            v <= valid.len(),
            positions_in(valid@, repos.len() as int),
            forall|k: int|
                0 <= k < out.len() ==> {
                    let q = #[trigger] out@[k];
                    &&& q.position < valid.len() && q.repository == valid@[q.position as int]
                    &&& q.product < products.len()
                    &&& q.flavor < products@[q.product as int].flavors.len()
                    &&& products@[q.product as int].flavors@[q.flavor as int].platform == platform
                    &&& repos@[q.repository as int].repository_server matches Some(s) && q.url@
                        == branches_url_of(
                        s@,
                        products@[q.product as int].flavors@[q.flavor as int].teamcity_metadata.teamcity_id@,
                    )
                },
            forall|vv: int, pi: int, fi: int|
                0 <= vv < v && 0 <= pi < products.len() && 0 <= fi < products@[pi].flavors.len()
                    && repos@[valid@[vv] as int].repository_server is Some
                    && products@[pi].flavors@[fi].platform == platform ==> #[trigger] has_query(out@, valid@, vv, pi, fi),
            forall|a: int, b: int| 0 <= a < b < out.len() ==> #[trigger] query_before(out@[a], out@[b]),
            forall|a: int| 0 <= a < out.len() ==> key_before(#[trigger] out@[a], v as int, 0, 0),
        decreases valid.len() - v,
    {
        let k = valid[v];
        assert(valid@.contains(k));
        match &repos[k].repository_server {
            Some(server) => {
                let mut pi: usize = 0;
                while pi < products.len()
                    invariant
                        v < valid.len(),
                        k == valid@[v as int],
                        valid@.contains(k),
                        k < repos.len(),
                        repos@[k as int].repository_server == Some(*server),
                        pi <= products.len(),
                        forall|j: int|
                            0 <= j < out.len() ==> {
                                let q = #[trigger] out@[j];
                                &&& q.position < valid.len() && q.repository == valid@[q.position as int]
                                &&& q.product < products.len()
                                &&& q.flavor < products@[q.product as int].flavors.len()
                                &&& products@[q.product as int].flavors@[q.flavor as int].platform == platform
                                &&& repos@[q.repository as int].repository_server matches Some(s) && q.url@
                                    == branches_url_of(
                                    s@,
                                    products@[q.product as int].flavors@[q.flavor as int].teamcity_metadata.teamcity_id@,
                                )
                            },
                        forall|vv: int, pp: int, fi: int|
                            (0 <= vv < v || (vv == v && 0 <= pp < pi)) && 0 <= pp < products.len() && 0 <= fi < products@[pp].flavors.len()
                                && repos@[valid@[vv] as int].repository_server is Some
                                && products@[pp].flavors@[fi].platform == platform ==> #[trigger] has_query(out@, valid@, vv, pp, fi),
                        forall|a: int, b: int| 0 <= a < b < out.len() ==> #[trigger] query_before(out@[a], out@[b]),
                        forall|a: int| 0 <= a < out.len() ==> key_before(#[trigger] out@[a], v as int, pi as int, 0),
                    decreases products.len() - pi,
                {
                    let product = &products[pi];
                    let mut fi: usize = 0;
                    while fi < product.flavors.len()
                        invariant
                            v < valid.len(),
                            k == valid@[v as int],
                            valid@.contains(k),
                            k < repos.len(),
                            repos@[k as int].repository_server == Some(*server),
                            pi < products.len(),
                            *product == products@[pi as int],
                            fi <= product.flavors.len(),
                            forall|j: int|
                                0 <= j < out.len() ==> {
                                    let q = #[trigger] out@[j];
                                    &&& q.position < valid.len() && q.repository == valid@[q.position as int]
                                    &&& q.product < products.len()
                                    &&& q.flavor < products@[q.product as int].flavors.len()
                                    &&& products@[q.product as int].flavors@[q.flavor as int].platform == platform
                                    &&& repos@[q.repository as int].repository_server matches Some(s) && q.url@
                                        == branches_url_of(
                                        s@,
                                        products@[q.product as int].flavors@[q.flavor as int].teamcity_metadata.teamcity_id@,
                                    )
                                },
                            forall|vv: int, pp: int, ff: int|
                                (0 <= vv < v || (vv == v && 0 <= pp < pi) || (vv == v && pp == pi && 0 <= ff < fi)) && 0 <= pp < products.len() && 0 <= ff < products@[pp].flavors.len()
                                    && repos@[valid@[vv] as int].repository_server is Some
                                    && products@[pp].flavors@[ff].platform == platform ==> #[trigger] has_query(out@, valid@, vv, pp, ff),
                            forall|a: int, b: int| 0 <= a < b < out.len() ==> #[trigger] query_before(out@[a], out@[b]),
                            forall|a: int| 0 <= a < out.len() ==> key_before(#[trigger] out@[a], v as int, pi as int, fi as int),
                        decreases product.flavors.len() - fi,
                    {
                        let flavor = &product.flavors[fi];
                        if flavor.platform == platform {
                            let url = branches_url(server.as_str(), flavor);
                            let ghost before = out@;
                            out.push(BranchQuery { position: v, repository: k, product: pi, flavor: fi, url });
                            proof {
                                assert forall|vv: int, pp: int, ff: int|
                                    (0 <= vv < v || (vv == v && 0 <= pp < pi) || (vv == v && pp == pi && 0 <= ff < fi + 1)) && 0 <= pp < products.len() && 0 <= ff < products@[pp].flavors.len()
                                        && repos@[valid@[vv] as int].repository_server is Some
                                        && products@[pp].flavors@[ff].platform == platform implies #[trigger] has_query(out@, valid@, vv, pp, ff) by {
                                    if vv == v && pp == pi && ff == fi {
                                        assert(out@[out.len() - 1].position == vv);
                                    } else {
                                        assert(has_query(before, valid@, vv, pp, ff));
                                        let w = choose|w: int| 0 <= w < before.len() && (#[trigger] before[w]).position == vv && before[w].product == pp && before[w].flavor == ff;
                                        assert(out@[w] == before[w]);
                                    }
                                }
                                assert forall|a: int, b: int| 0 <= a < b < out.len() implies #[trigger] query_before(out@[a], out@[b]) by {
                                    if b < out.len() - 1 {
                                        assert(out@[a] == before[a] && out@[b] == before[b]);
                                        assert(query_before(before[a], before[b]));
                                    } else {
                                        assert(out@[a] == before[a]);
                                        assert(key_before(before[a], v as int, pi as int, fi as int));
                                    }
                                }
                            }
                        }
                        fi += 1;
                    }
                    pi += 1;
                }
            },
            None => {},
        }
        v += 1;
    }
    out
}

/// A repository that refuses a request does not end a resolution: with two
/// repositories that both have a server, the first step asks the first one;
/// after it answers 401 the next step asks the second one; and when that one
/// answers with a non-empty build list, the resolution ends with the second
/// repository's first build, not with a failure.
pub proof fn lemma_refusal_falls_back(
    repos: Seq<CandidateRepository>,
    valid: Seq<usize>,
    search: SearchCandidate,
    st1: ResolveState,
    act1: ResolveAction,
    st2: ResolveState,
    act2: ResolveAction,
    builds: TeamCityBuilds,
    st3: ResolveState,
    act3: ResolveAction,
)
    requires
        positions_in(valid, repos.len() as int),
        valid.len() == 2,
        repos[valid[0] as int].repository_server is Some,
        repos[valid[1] as int].repository_server is Some,
        is_next_step(repos, valid, search, ResolveState { next: 0, transport_failed: false, asked: None }, st1, act1),
        reply_ok(repos, valid, search, st1, RepositoryReply::Status(401), st2, act2),
        builds.builds.len() > 0,
        reply_ok(repos, valid, search, st2, RepositoryReply::Builds(builds), st3, act3),
    ensures
        act1 matches ResolveAction::Query { repository, .. } && repository == valid[0],
        act2 matches ResolveAction::Query { repository, .. } && repository == valid[1],
        act3 matches ResolveAction::Found { candidate, repository } && repository == valid[1]
            && is_resolved_candidate(
            candidate,
            builds.builds@[0],
            search,
            repos[valid[1] as int].repository_server->0@,
        ),
{
    let st0 = ResolveState { next: 0, transport_failed: false, asked: None };
    assert(!none_queryable(repos, valid, 0)) by {
        assert(repos[valid[0] as int].repository_server is Some);
    }
    match act1 {
        ResolveAction::Query { repository, url } => {
            let p = choose|p: int|
                {
                    &&& is_next_queryable(repos, valid, st0.next as int, p)
                    &&& repository == valid[p]
                    &&& st1 == ResolveState {
                        next: (p + 1) as usize,
                        transport_failed: st0.transport_failed,
                        asked: Some(repository),
                    }
                    &&& url@ == build_url_of(repos[repository as int].repository_server->0@, search)
                };
            assert(p == 0) by {
                if p > 0 {
                    assert(repos[valid[0] as int].repository_server is None);
                }
            }
        },
        _ => {},
    }
    assert(!none_queryable(repos, valid, 1)) by {
        assert(repos[valid[1] as int].repository_server is Some);
    }
    match act2 {
        ResolveAction::Query { repository, url } => {
            let p = choose|p: int|
                {
                    &&& is_next_queryable(repos, valid, st1.next as int, p)
                    &&& repository == valid[p]
                    &&& st2 == ResolveState {
                        next: (p + 1) as usize,
                        transport_failed: st1.transport_failed,
                        asked: Some(repository),
                    }
                    &&& url@ == build_url_of(repos[repository as int].repository_server->0@, search)
                };
            assert(p == 1);
        },
        _ => {},
    }
}

} // verus!

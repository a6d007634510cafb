use gman::cache::{index_cache, locate_in_cache, sort_cache_entries};
use gman::candidate::{InstallationCandidate, InstallationResult, InstalledProduct, InstallOverwriteOptions, SearchCandidate};
use gman::config::{ClientConfig, LogLevel, default_chunk_size, default_empty_products, default_empty_publisher};
use gman::download::{DownloadFailure, PartialRangeIter, accepts_range_status, artifact_url, download_ranges, probe_failure, range_header};
use gman::error::GManError;
use gman::flow::{InstallAction, InstallContext, InstallEvent, InstallFailure, InstallOutcome, InstallState, install_start, install_step};
use gman::install::{annotate_listing, CacheDecision, ConflictDecision, FetchDecision, UpgradeDecision, cache_decision, choose_add_destination, conflict_decision, effective_choice, eligible_installed, fetch_decision, should_autorun, uninstall_prompts, uninstall_targets, upgrade_decision};
use gman::inventory::{mac_installed_product, products_for_platform};
use gman::platform::Platform;
use gman::product::{Flavor, FlavorMetadata, PackageType, Product, TeamCityMetadata};
use gman::repository::{
    CandidateRepository, RepositoryReply, ResolveAction, ResolveState, TeamCityBranch, TeamCityBuild,
    TeamCityBuilds, TeamCityRoot, branch_queries, branches_url, build_url, candidates_from_branches,
    ensure_scheme, resolve_next, resolve_reply, valid_repositories,
};
use gman::version::Version;

fn flavor(platform: Platform, id: &str, tc: &str, path: &str) -> Flavor {
    Flavor {
        platform,
        id: id.into(),
        teamcity_metadata: TeamCityMetadata { teamcity_id: tc.into(), teamcity_binary_path: path.into() },
        package_type: PackageType::Msi,
        metadata: None,
        autorun: false,
    }
}

fn catalog() -> Vec<Product> {
    vec![
        Product {
            name: "HubKit".into(),
            flavors: vec![
                flavor(Platform::Windows, "WindowsHubkit", "Gravio_GravioHubKit4", "GravioHubKit.msi"),
                flavor(Platform::Mac, "MacHubkit", "Gravio_GravioHubKit4", "GravioHubKit.dmg"),
            ],
        },
        Product {
            name: "GravioStudio".into(),
            flavors: vec![flavor(Platform::Windows, "Sideloading", "Gravio_Studio", "graviostudio.zip")],
        },
    ]
}

fn names(v: &[&str]) -> Vec<String> {
    v.iter().map(|s| s.to_string()).collect()
}

fn search(version: Option<&str>, identifier: Option<&str>) -> SearchCandidate {
    SearchCandidate::new("HubKit", version, identifier, None, &catalog(), Platform::Windows).unwrap()
}

fn repo(name: &str, server: Option<&str>, platforms: Vec<Platform>) -> CandidateRepository {
    CandidateRepository {
        name: name.into(),
        repository_type: "TeamCity".into(),
        platforms,
        repository_folder: None,
        repository_server: server.map(|s| s.to_string()),
        repository_credentials: None,
        products: vec![],
    }
}

fn build(id: u32, number: &str, branch: Option<&str>) -> TeamCityBuild {
    TeamCityBuild {
        id,
        build_number: number.into(),
        finish_date: None,
        artifacts: None,
        build_type_id: None,
        status: None,
        branch_name: branch.map(|s| s.to_string()),
    }
}

#[test]
fn cache_matching_precedence() {
    let entries = index_cache(
        &names(&[
            "HubKit@Windows@WindowsHubkit@develop@5.2.3-7023@GravioHubKit.msi",
            "HubKit@Windows@WindowsHubkit@master@5.3.0-7100@GravioHubKit.msi",
        ]),
        &catalog(),
        Platform::Windows,
    );
    assert_eq!(entries.len(), 2);
    assert_eq!(entries[0].identifier, "master");
    let found = locate_in_cache(&entries, &search(Some("5.2.3-7023"), None)).unwrap();
    assert_eq!(found.identifier, "develop");
    let found = locate_in_cache(&entries, &search(None, None)).unwrap();
    assert_eq!(found.identifier, "master");
    let found = locate_in_cache(&entries, &search(None, Some("DEVELOP"))).unwrap();
    assert_eq!(found.version.as_str(), "5.2.3-7023");
    assert!(locate_in_cache(&entries, &search(Some("9.9.9"), None)).is_none());
    assert!(locate_in_cache(&entries, &search(None, Some("feature"))).is_none());
}

#[test]
fn cache_index_drops_unknown_and_orders() {
    let entries = index_cache(
        &names(&[
            "hubkit@Windows@windowshubkit@a@5.2.0-1@GravioHubKit.msi",
            "Other@Windows@X@a@1@x",
            "HubKit@Windows@Nope@a@1@x",
            "not a cache entry",
            "GravioStudio@Windows@Sideloading@develop@5.2.4683@graviostudio.zip",
            "HubKit@macOS@MacHubkit@b@5.2.0-1@GravioHubKit.dmg",
            "HubKit@Windows@WindowsHubkit@b@5.2.0-1@GravioHubKit.msi",
        ]),
        &catalog(),
        Platform::Windows,
    );
    let got: Vec<(String, String)> = entries.iter().map(|e| (e.flavor.id.clone(), e.identifier.clone())).collect();
    assert_eq!(
        got,
        vec![
            ("MacHubkit".to_string(), "b".to_string()),
            ("Sideloading".to_string(), "develop".to_string()),
            ("WindowsHubkit".to_string(), "a".to_string()),
            ("WindowsHubkit".to_string(), "b".to_string()),
        ]
    );
    assert_eq!(entries[0].flavor.platform, Platform::Mac);
    assert_eq!(entries[2].product_name, "hubkit");
}

#[test]
fn sort_keeps_incomparable_versions_together() {
    let mk = |v: &str, i: &str| InstallationCandidate {
        remote_id: String::new(),
        repo_location: String::new(),
        product_name: "HubKit".into(),
        version: Version::new(v),
        identifier: i.into(),
        flavor: flavor(Platform::Windows, "F", "t", "p"),
        installed: false,
    };
    let sorted = sort_cache_entries(vec![mk("1.0", "b"), mk("2.0", "c"), mk("x", "a")]);
    assert_eq!(sorted.len(), 3);
    for w in sorted.windows(2) {
        let v = w[1].version.compare(&w[0].version).unwrap_or(std::cmp::Ordering::Equal);
        assert!(v != std::cmp::Ordering::Greater || w[0].identifier < w[1].identifier);
    }
    let idx2 = sorted.iter().position(|e| e.version.as_str() == "2.0").unwrap();
    let idx1 = sorted.iter().position(|e| e.version.as_str() == "1.0").unwrap();
    assert!(idx2 < idx1);
}

#[test]
fn repository_fallback() {
    let repos = vec![repo("A", Some("a.example.com"), vec![]), repo("B", Some("https://b.example.com"), vec![Platform::Windows])];
    let valid = valid_repositories(&repos, Some(Platform::Windows));
    assert_eq!(valid, vec![0, 1]);
    let s = search(Some("5.2.0-7015"), None);
    let (st, act) = resolve_next(&s, &repos, &valid, ResolveState::new());
    match act {
        ResolveAction::Query { repository, url } => {
            assert_eq!(repository, 0);
            assert_eq!(
                url,
                "https://a.example.com/app/rest/builds?locator=default:false,policy:ALL_BRANCHES&locator=buildType:Gravio_GravioHubKit4,count:1,number:5.2.0-7015"
            );
        }
        other => panic!("{:?}", other),
    }
    let (st, act) = resolve_reply(&s, &repos, &valid, st, RepositoryReply::Status(401));
    match act {
        ResolveAction::Query { repository, .. } => assert_eq!(repository, 1),
        other => panic!("{:?}", other),
    }
    let builds = TeamCityBuilds { count: 1, builds: vec![build(20211, "5.2.0-7015", Some("develop"))] };
    let (_, act) = resolve_reply(&s, &repos, &valid, st, RepositoryReply::Builds(builds));
    match act {
        ResolveAction::Found { candidate, repository } => {
            assert_eq!(repository, 1);
            assert_eq!(candidate.remote_id, "20211");
            assert_eq!(candidate.identifier, "develop");
            assert_eq!(candidate.version.as_str(), "5.2.0-7015");
            assert_eq!(candidate.repo_location, "https://b.example.com");
            assert_eq!(candidate.flavor.id, "WindowsHubkit");
        }
        other => panic!("{:?}", other),
    }
}

#[test]
fn resolve_ends_not_found_or_failed() {
    let repos = vec![repo("A", Some("a"), vec![]), repo("B", Some("b"), vec![])];
    let valid = valid_repositories(&repos, Some(Platform::Windows));
    let s = search(None, Some("1a361e15"));
    let (st, _) = resolve_next(&s, &repos, &valid, ResolveState::new());
    let (st, _) = resolve_reply(&s, &repos, &valid, st, RepositoryReply::Builds(TeamCityBuilds { count: 0, builds: vec![] }));
    let (_, act) = resolve_reply(&s, &repos, &valid, st, RepositoryReply::Status(404));
    assert!(matches!(act, ResolveAction::NotFound));

    let (st, _) = resolve_next(&s, &repos, &valid, ResolveState::new());
    let (st, _) = resolve_reply(&s, &repos, &valid, st, RepositoryReply::TransportFailed);
    let (_, act) = resolve_reply(&s, &repos, &valid, st, RepositoryReply::Malformed);
    assert!(matches!(act, ResolveAction::Failed));

    let (_, act) = resolve_next(&s, &repos, &vec![], ResolveState::new());
    assert!(matches!(act, ResolveAction::Failed));
}

#[test]
fn build_without_branch_uses_number_as_identifier() {
    let s = search(None, Some("develop"));
    let repos = vec![repo("A", Some("http://a"), vec![])];
    let valid = vec![0];
    let (st, act) = resolve_next(&s, &repos, &valid, ResolveState::new());
    match act {
        ResolveAction::Query { url, .. } => assert_eq!(
            url,
            "http://a/app/rest/builds?locator=default:false,policy:ALL_BRANCHES&locator=buildType:Gravio_GravioHubKit4,count:1,branch:develop"
        ),
        other => panic!("{:?}", other),
    }
    let builds = TeamCityBuilds { count: 1, builds: vec![build(7, "5.2.1-7043", None)] };
    match resolve_reply(&s, &repos, &valid, st, RepositoryReply::Builds(builds)).1 {
        ResolveAction::Found { candidate, .. } => assert_eq!(candidate.identifier, "5.2.1-7043"),
        other => panic!("{:?}", other),
    }
}

#[test]
fn valid_repositories_filter() {
    let mut folder = repo("F", None, vec![]);
    folder.repository_folder = Some("/srv/builds".into());
    let repos = vec![
        repo("none", None, vec![]),
        repo("mac", Some("m"), vec![Platform::Mac]),
        folder,
        repo("all", Some("x"), vec![]),
    ];
    assert_eq!(valid_repositories(&repos, Some(Platform::Windows)), vec![2, 3]);
    assert_eq!(valid_repositories(&repos, Some(Platform::Mac)), vec![1, 2, 3]);
    assert_eq!(valid_repositories(&repos, None), vec![2, 3]);
}

#[test]
fn enumerate_branches() {
    let repos = vec![repo("A", Some("a"), vec![]), repo("B", None, vec![])];
    let products = catalog();
    let queries = branch_queries(&repos, &vec![0, 1], &products, Platform::Windows);
    assert_eq!(queries.len(), 2);
    assert_eq!((queries[0].position, queries[0].product, queries[0].flavor), (0, 0, 0));
    assert_eq!(queries[0].repository, 0);
    assert_eq!((queries[1].product, queries[1].flavor), (1, 0));
    assert_eq!(
        queries[0].url,
        "https://a/app/rest/buildTypes/id:Gravio_GravioHubKit4/branches?locator=default:true,policy:ACTIVE_HISTORY_AND_ACTIVE_VCS_BRANCHES&fields=branch(name,builds(build(id,number,finishDate,artifacts($locator(count:1),count:1)),count,$locator(state:finished,status:SUCCESS,count:1)))"
    );
    assert_eq!(branches_url("a", &products[0].flavors[0]), queries[0].url);
    let root = TeamCityRoot {
        branches: vec![
            TeamCityBranch { name: "master".into(), builds: vec![build(1, "5.3.0-7100", None)] },
            TeamCityBranch { name: "develop".into(), builds: vec![build(2, "5.2.3-7023", None), build(3, "5.2.3-7024", None)] },
        ],
    };
    let c = candidates_from_branches(&root, &products[0], &products[0].flavors[0], "a");
    let got: Vec<(String, String, String)> = c.iter().map(|x| (x.remote_id.clone(), x.identifier.clone(), x.version.as_str().to_string())).collect();
    assert_eq!(
        got,
        vec![
            ("1".to_string(), "master".to_string(), "5.3.0-7100".to_string()),
            ("2".to_string(), "develop".to_string(), "5.2.3-7023".to_string()),
            ("3".to_string(), "develop".to_string(), "5.2.3-7024".to_string()),
        ]
    );
    assert_eq!(c[0].product_name, "HubKit");
    assert_eq!(c[0].repo_location, "a");
}

#[test]
fn scheme_is_added_once() {
    assert_eq!(ensure_scheme("example.com"), "https://example.com");
    assert_eq!(ensure_scheme("http://example.com"), "http://example.com");
    assert_eq!(ensure_scheme("https://example.com"), "https://example.com");
    let s = search(None, None);
    assert_eq!(
        build_url("b", &s),
        "https://b/app/rest/builds?locator=default:false,policy:ALL_BRANCHES&locator=buildType:Gravio_GravioHubKit4,count:1,branch:"
    );
}

#[test]
fn download_plan() {
    let c = InstallationCandidate {
        remote_id: "20211".into(),
        repo_location: "tc".into(),
        product_name: "HubKit".into(),
        version: Version::new("5.2.1-7043"),
        identifier: "develop".into(),
        flavor: flavor(Platform::Windows, "WindowsHubkit", "Gravio_GravioHubKit4", "GravioHubKit.msi"),
        installed: false,
    };
    assert_eq!(
        artifact_url(&c, "tc.example.com"),
        "https://tc.example.com/repository/download/Gravio_GravioHubKit4/20211:id/GravioHubKit.msi"
    );
    assert_eq!(download_ranges(10, 4), vec![(0, 3), (4, 7), (8, 9)]);
    assert_eq!(download_ranges(8, 4), vec![(0, 3), (4, 7)]);
    assert_eq!(download_ranges(1, 1024 * 1024), vec![(0, 0)]);
    assert!(download_ranges(0, 4).is_empty());
    assert_eq!(range_header(1048576, 2097151), "bytes=1048576-2097151");
    assert_eq!(range_header(0, 0), "bytes=0-0");
    let mut it = PartialRangeIter::new(5, 9, 3).unwrap();
    assert_eq!(it.next_range(), Some((5, 7)));
    assert_eq!(it.next_range(), Some((8, 9)));
    assert_eq!(it.next_range(), None);
    assert!(PartialRangeIter::new(0, 9, 0).is_err());
    assert!(accepts_range_status(206) && accepts_range_status(200) && !accepts_range_status(416));
    assert_eq!(probe_failure(200), None);
    assert_eq!(probe_failure(403), Some(DownloadFailure::NotAuthorized));
    assert_eq!(probe_failure(404), Some(DownloadFailure::FileNotFound));
    assert_eq!(probe_failure(500), Some(DownloadFailure::UnexpectedStatus(500)));
}

fn cached(version: &str, identifier: &str) -> InstallationCandidate {
    InstallationCandidate {
        remote_id: String::new(),
        repo_location: String::new(),
        product_name: "HubKit".into(),
        version: Version::new(version),
        identifier: identifier.into(),
        flavor: flavor(Platform::Windows, "WindowsHubkit", "Gravio_GravioHubKit4", "GravioHubKit.msi"),
        installed: false,
    }
}

#[test]
fn cache_decisions() {
    let pinned = search(Some("5.2.0-7000"), None);
    assert!(matches!(cache_decision(Some(cached("5.2.0-7000", "develop")), &pinned, Some(true)), CacheDecision::UseCached(_)));
    let free = search(None, Some("develop"));
    assert!(matches!(cache_decision(Some(cached("5.2.0-7000", "develop")), &free, Some(true)), CacheDecision::CheckUpgrade(_)));
    assert!(matches!(cache_decision(Some(cached("5.2.0-7000", "develop")), &free, Some(false)), CacheDecision::UseCached(_)));
    assert!(matches!(cache_decision(Some(cached("5.2.0-7000", "develop")), &free, None), CacheDecision::AskUpgrade(_)));
    assert!(matches!(cache_decision(None, &free, None), CacheDecision::Fetch));
}

#[test]
fn upgrade_check_uses_cached_discovery() {
    let entries = index_cache(
        &names(&[
            "HubKit@Windows@WindowsHubkit@develop@5.2.0-7000@GravioHubKit.msi",
            "HubKit@Windows@WindowsHubkit@develop@5.2.5-7100@GravioHubKit.msi",
        ]),
        &catalog(),
        Platform::Windows,
    );
    let s = search(None, Some("develop"));
    let found = ResolveAction::Found { candidate: cached("5.2.5-7100", "develop"), repository: 0 };
    match upgrade_decision(cached("5.2.0-7000", "develop"), found, &entries, &s) {
        UpgradeDecision::UseCached(c) => assert_eq!(c.version.as_str(), "5.2.5-7100"),
        other => panic!("{:?}", other),
    }
}

#[test]
fn upgrade_check_downloads_newer_or_keeps_cache() {
    let entries = index_cache(
        &names(&["HubKit@Windows@WindowsHubkit@develop@5.2.0-7000@GravioHubKit.msi"]),
        &catalog(),
        Platform::Windows,
    );
    let s = search(None, Some("develop"));
    let newer = ResolveAction::Found { candidate: cached("5.2.5-7100", "develop"), repository: 2 };
    match upgrade_decision(cached("5.2.0-7000", "develop"), newer, &entries, &s) {
        UpgradeDecision::Download(c, r) => {
            assert_eq!(c.version.as_str(), "5.2.5-7100");
            assert_eq!(r, 2);
        }
        other => panic!("{:?}", other),
    }
    let older = ResolveAction::Found { candidate: cached("5.1.0-1", "develop"), repository: 0 };
    match upgrade_decision(cached("5.2.0-7000", "develop"), older, &entries, &s) {
        UpgradeDecision::UseCached(c) => assert_eq!(c.version.as_str(), "5.2.0-7000"),
        other => panic!("{:?}", other),
    }
    match upgrade_decision(cached("5.2.0-7000", "develop"), ResolveAction::Failed, &entries, &s) {
        UpgradeDecision::UseCached(c) => assert_eq!(c.version.as_str(), "5.2.0-7000"),
        other => panic!("{:?}", other),
    }
    assert!(matches!(fetch_decision(ResolveAction::NotFound), FetchDecision::Skip));
    assert!(matches!(fetch_decision(ResolveAction::Failed), FetchDecision::Fail));
    assert!(matches!(fetch_decision(ResolveAction::Found { candidate: cached("1", "d"), repository: 0 }), FetchDecision::Download(_, 0)));
}

fn installed(name: &str, version: &str) -> InstalledProduct {
    InstalledProduct {
        product_name: name.into(),
        version: Version::new(version),
        package_name: "key".into(),
        package_type: PackageType::Msi,
        path: String::new(),
    }
}

#[test]
fn idempotent_install() {
    let inv = vec![installed("GravioStudio", "5.2.3.7023"), installed("hubkit", "5.2.3.7023")];
    let eligible = eligible_installed(&inv, "HubKit", &vec![true, true]);
    assert_eq!(eligible, vec![1]);
    let c = cached("5.2.3-7023", "develop");
    assert_eq!(conflict_decision(&inv, &eligible, &c, None), ConflictDecision::Skip);
    let other = cached("5.2.4-7030", "develop");
    assert_eq!(conflict_decision(&inv, &eligible, &other, None), ConflictDecision::Proceed(InstallOverwriteOptions::Overwrite));
    assert_eq!(conflict_decision(&inv, &vec![], &c, None), ConflictDecision::Proceed(InstallOverwriteOptions::Overwrite));
    let two = vec![installed("HubKit", "5.2.0"), installed("HubKit", "5.2.1")];
    let both = eligible_installed(&two, "hubkit", &vec![true, true]);
    assert_eq!(conflict_decision(&two, &both, &other, None), ConflictDecision::Ask);
    assert_eq!(conflict_decision(&two, &both, &other, Some(false)), ConflictDecision::Proceed(InstallOverwriteOptions::Overwrite));
    assert_eq!(eligible_installed(&two, "hubkit", &vec![false, true]), vec![1]);
}

#[test]
fn add_path_disambiguation() {
    let existing = names(&["X", "X_1", "X_2"]);
    assert_eq!(choose_add_destination("X", &existing), Some("X_3".to_string()));
    assert_eq!(choose_add_destination("Y", &existing), Some("Y".to_string()));
    let mut full = vec!["Z".to_string()];
    for i in 1..199 {
        full.push(format!("Z_{}", i));
    }
    assert_eq!(choose_add_destination("Z", &full), None);
    full.pop();
    assert_eq!(choose_add_destination("Z", &full), Some("Z_198".to_string()));
}

#[test]
fn choices_autorun_and_uninstall() {
    assert_eq!(effective_choice(InstallOverwriteOptions::Add, false), InstallOverwriteOptions::Overwrite);
    assert_eq!(effective_choice(InstallOverwriteOptions::Add, true), InstallOverwriteOptions::Add);
    assert_eq!(effective_choice(InstallOverwriteOptions::Cancel, false), InstallOverwriteOptions::Cancel);
    assert!(should_autorun(InstallationResult::Succeeded, None, true));
    assert!(!should_autorun(InstallationResult::Succeeded, Some(false), true));
    assert!(should_autorun(InstallationResult::Succeeded, Some(true), false));
    assert!(!should_autorun(InstallationResult::Canceled, Some(true), true));
    let inv = vec![installed("HubKit", "5.2.0"), installed("hubkit", "5.2.1"), installed("Other", "5.2.0")];
    assert_eq!(uninstall_targets(&inv, "HUBKIT", &None), vec![0, 1]);
    assert_eq!(uninstall_targets(&inv, "hubkit", &Some(Version::new("5.2.1.0"))), vec![1]);
    assert!(uninstall_prompts(None, 2));
    assert!(!uninstall_prompts(None, 1));
    assert!(!uninstall_prompts(Some(false), 3));
}

#[test]
fn config_defaults_and_sample() {
    assert_eq!(default_chunk_size(), 1048576);
    assert!(default_empty_products().is_empty());
    assert!(default_empty_publisher().is_empty());
    let c = ClientConfig::make_sample("/tmp/dl", "/home/u/.cache/c");
    assert_eq!(c.temp_download_directory, "/tmp/dl");
    assert_eq!(c.cache_directory, "/home/u/.cache/c");
    assert_eq!(c.log_level, LogLevel::Off);
    assert_eq!(c.products[0].flavors[1].id, "MacApp");
    assert_eq!(c.repositories[0].repository_server.as_deref(), Some("yourbuildserver.yourcompany.example.com"));
    assert_eq!(GManError::new("boom").details, "boom");
}

#[test]
fn platforms_and_packages() {
    assert_eq!(Platform::platform_for_current_platform("windows"), Some(Platform::Windows));
    assert_eq!(Platform::platform_for_current_platform("macos"), Some(Platform::Mac));
    assert_eq!(Platform::platform_for_current_platform("freebsd"), None);
    assert_eq!(Platform::from_name("MacOS"), Some(Platform::Mac));
    assert_eq!(Platform::from_name("rpi"), Some(Platform::RaspberryPi));
    assert_eq!(Platform::from_name("beos"), None);
    assert_eq!(Platform::Mac.name(), "macOS");
    assert!(PackageType::Msi.supported_for_platform(&Platform::Windows));
    assert!(!PackageType::Deb.supported_for_platform(&Platform::Windows));
    assert!(PackageType::Deb.supported_for_platform(&Platform::Linux));
    assert!(PackageType::App.supported_for_platform(&Platform::Mac));
    assert!(PackageType::Pkg.supported_for_platform(&Platform::Mac));
    assert!(!PackageType::Apk.supported_for_platform(&Platform::Mac));
    assert_eq!(PackageType::from_name("MSIX"), Some(PackageType::MsiX));
    assert_eq!(PackageType::from_name("zip"), None);
    let products = catalog();
    assert_eq!(Product::from_name("graviostudio", &products).unwrap().name, "GravioStudio");
    assert!(Product::from_name("none", &products).is_none());
    let e = Flavor::empty(Platform::Linux);
    assert_eq!(e.id, "--");
    assert_eq!(e.platform, Platform::Linux);
}

#[test]
fn listing_against_installed() {
    let list = vec![cached("5.2.3-7023", "develop"), cached("5.2.4-7030", "master")];
    let inv = vec![installed("HubKit", "5.2.3.7023"), installed("GravioStudio", "5.2.4683")];
    let hidden = annotate_listing(list.clone(), &inv, false, Platform::Windows);
    assert!(hidden.is_empty());
    let shown = annotate_listing(list, &inv, true, Platform::Windows);
    assert_eq!(shown.len(), 3);
    assert!(shown[0].installed);
    assert!(!shown[1].installed);
    assert_eq!(shown[2].product_name, "GravioStudio");
    assert_eq!(shown[2].identifier, "--");
    assert!(shown[2].installed);
    let other = annotate_listing(vec![cached("1", "x")], &vec![installed("Studio", "1")], false, Platform::Windows);
    assert_eq!(other.len(), 1);
}

#[test]
fn inventory_helpers() {
    let mut products = catalog();
    assert_eq!(products_for_platform(&products, Platform::Windows), vec![0, 1]);
    assert_eq!(products_for_platform(&products, Platform::Mac), vec![0]);
    assert!(products_for_platform(&products, Platform::Linux).is_empty());
    products[0].flavors[1].metadata = Some(FlavorMetadata {
        name_regex: None,
        display_name_regex: None,
        install_path: None,
        cf_bundle_id: Some("com.asteria.mac.gravio4".into()),
        cf_bundle_name: Some("Gravio HubKit".into()),
        launch_args: None,
        run_as_service: None,
        stop_command: None,
    });
    let p = mac_installed_product(&products, "com.asteria.mac.gravio4", "5.2.1", "8213", "/Applications/Gravio HubKit.app").unwrap();
    assert_eq!(p.product_name, "HubKit");
    assert_eq!(p.version.as_str(), "5.2.1.8213");
    assert_eq!(p.package_type, PackageType::App);
    assert!(mac_installed_product(&products, "com.other", "1", "2", "/x").is_none());
}

fn context(search: SearchCandidate, entries: Vec<InstallationCandidate>, automatic_upgrade: Option<bool>) -> InstallContext {
    InstallContext { search, entries, automatic_upgrade, prompt: None, autorun: None, supports_add: false }
}

#[test]
fn flow_skips_installed_version() {
    let entries = index_cache(
        &names(&["HubKit@Windows@WindowsHubkit@develop@5.2.3-7023@GravioHubKit.msi"]),
        &catalog(),
        Platform::Windows,
    );
    let ctx = context(search(Some("5.2.3-7023"), None), entries, None);
    let (st, act) = install_start(&ctx);
    let c = match act {
        InstallAction::ListInstalled(c) => c,
        other => panic!("{:?}", other),
    };
    assert_eq!(c.identifier, "develop");
    let inv = vec![installed("HubKit", "5.2.3.7023")];
    let (st, act) = install_step(&ctx, st, InstallEvent::Inventory { installed: inv, marked: vec![true] });
    assert!(matches!(st, InstallState::Done));
    assert!(matches!(act, InstallAction::Finish(InstallOutcome::Finished(InstallationResult::Skipped))));
}

#[test]
fn flow_upgrade_uses_cached_discovery() {
    let entries = index_cache(
        &names(&[
            "HubKit@Windows@WindowsHubkit@develop@5.2.0-7000@GravioHubKit.msi",
            "HubKit@Windows@WindowsHubkit@develop@5.2.5-7100@GravioHubKit.msi",
        ]),
        &catalog(),
        Platform::Windows,
    );
    let ctx = context(search(None, Some("develop")), entries, Some(true));
    let (st, act) = install_start(&ctx);
    assert!(matches!(act, InstallAction::Resolve));
    let found = ResolveAction::Found { candidate: cached("5.2.5-7100", "develop"), repository: 0 };
    let (_, act) = install_step(&ctx, st, InstallEvent::Resolved(found));
    match act {
        InstallAction::ListInstalled(c) => assert_eq!(c.version.as_str(), "5.2.5-7100"),
        other => panic!("{:?}", other),
    }
}

#[test]
fn flow_fetch_download_overwrite_install_launch() {
    let mut ctx = context(search(None, Some("develop")), vec![], None);
    ctx.autorun = Some(true);
    let (st, act) = install_start(&ctx);
    assert!(matches!(act, InstallAction::Resolve));
    let found = ResolveAction::Found { candidate: cached("5.2.5-7100", "develop"), repository: 1 };
    let (st, act) = install_step(&ctx, st, InstallEvent::Resolved(found));
    assert!(matches!(act, InstallAction::Download(_, 1)));
    let (st, act) = install_step(&ctx, st, InstallEvent::Downloaded(true));
    assert!(matches!(act, InstallAction::ListInstalled(_)));
    let inv = vec![installed("HubKit", "5.2.0"), installed("Other", "1"), installed("hubkit", "5.2.1")];
    let (st, act) = install_step(&ctx, st, InstallEvent::Inventory { installed: inv, marked: vec![true, true, true] });
    assert!(matches!(act, InstallAction::AskChoice));
    let (st, act) = install_step(&ctx, st, InstallEvent::Choice(InstallOverwriteOptions::Add));
    match act {
        InstallAction::Uninstall(p) => assert_eq!(p.version.as_str(), "5.2.0"),
        other => panic!("{:?}", other),
    }
    let (st, act) = install_step(&ctx, st, InstallEvent::Uninstalled(true));
    match act {
        InstallAction::Uninstall(p) => assert_eq!(p.version.as_str(), "5.2.1"),
        other => panic!("{:?}", other),
    }
    let (st, act) = install_step(&ctx, st, InstallEvent::Uninstalled(true));
    assert!(matches!(act, InstallAction::RunInstaller(_, InstallOverwriteOptions::Overwrite)));
    let (st, act) = install_step(&ctx, st, InstallEvent::InstallerDone(Some(InstallationResult::Succeeded)));
    assert!(matches!(act, InstallAction::Launch(_)));
    let (_, act) = install_step(&ctx, st, InstallEvent::Launched);
    assert!(matches!(act, InstallAction::Finish(InstallOutcome::Finished(InstallationResult::Succeeded))));
}

#[test]
fn flow_failures_and_cancel() {
    let ctx = context(search(None, Some("develop")), vec![], None);
    let (st, _) = install_start(&ctx);
    let (_, act) = install_step(&ctx, st, InstallEvent::Resolved(ResolveAction::NotFound));
    assert!(matches!(act, InstallAction::Finish(InstallOutcome::Finished(InstallationResult::Skipped))));
    let (st, _) = install_start(&ctx);
    let (_, act) = install_step(&ctx, st, InstallEvent::Resolved(ResolveAction::Failed));
    assert!(matches!(act, InstallAction::Finish(InstallOutcome::Failed(InstallFailure::Search))));
    let (st, _) = install_start(&ctx);
    let (_, act) = install_step(&ctx, st, InstallEvent::Launched);
    assert!(matches!(act, InstallAction::Finish(InstallOutcome::Failed(InstallFailure::UnexpectedEvent))));
    let (st, _) = install_start(&ctx);
    let found = ResolveAction::Found { candidate: cached("5.2.5-7100", "develop"), repository: 0 };
    let (st, _) = install_step(&ctx, st, InstallEvent::Resolved(found));
    let (_, act) = install_step(&ctx, st, InstallEvent::Downloaded(false));
    assert!(matches!(act, InstallAction::Finish(InstallOutcome::Failed(InstallFailure::Download))));
    let cached_entries = index_cache(
        &names(&["HubKit@Windows@WindowsHubkit@develop@5.2.0-7000@GravioHubKit.msi"]),
        &catalog(),
        Platform::Windows,
    );
    let ctx = context(search(None, Some("develop")), cached_entries, None);
    let (st, act) = install_start(&ctx);
    assert!(matches!(act, InstallAction::AskUpgrade(_)));
    let (st, act) = install_step(&ctx, st, InstallEvent::UpgradeAnswer(false));
    assert!(matches!(act, InstallAction::ListInstalled(_)));
    let inv = vec![installed("HubKit", "5.1.0"), installed("HubKit", "5.1.1")];
    let (st, _) = install_step(&ctx, st, InstallEvent::Inventory { installed: inv, marked: vec![true, true] });
    let (_, act) = install_step(&ctx, st, InstallEvent::Choice(InstallOverwriteOptions::Cancel));
    assert!(matches!(act, InstallAction::Finish(InstallOutcome::Finished(InstallationResult::Canceled))));
}

#[test]
fn decimal_text() {
    assert_eq!(gman::text::u64_text(0), "0");
    assert_eq!(gman::text::u64_text(10), "10");
    assert_eq!(gman::text::u64_text(20211), "20211");
    assert_eq!(gman::text::u64_text(u64::MAX), u64::MAX.to_string());
}

//! The client configuration, as the engine receives it.
use vstd::prelude::*;

use crate::platform::Platform;
use crate::product::{Flavor, FlavorMetadata, PackageType, Product, TeamCityMetadata};
use crate::repository::{CandidateRepository, RepositoryCredentials};

verus! {

/// A publisher whose installed packages belong to the catalog.
#[derive(Debug)]
pub struct PublisherIdentity {
    /// Display name of this publisher
    pub name: String,
    /// The publisher's key, byte for byte
    pub id: String,
    /// The platforms this publisher is used for
    pub platforms: Vec<Platform>,
    /// The products it publishes
    pub products: Vec<String>,
}

/// How much is logged.
#[derive(Debug, Clone, Copy, PartialEq, Eq, Structural)]
pub enum LogLevel {
    Off,
    Error,
    Warn,
    Info,
    Debug,
    Trace,
}

/// Everything the engine is configured with.
#[derive(Debug)]
pub struct ClientConfig {
    /// Repositories to download builds from, in order of preference
    pub repositories: Vec<CandidateRepository>,
    /// Where downloads land while in progress
    pub temp_download_directory: String,
    /// Where complete downloads are kept
    pub cache_directory: String,
    pub log_level: LogLevel,
    /// The size of one range request of a download
    pub teamcity_download_chunk_size: u64,
    /// Publishers whose installed packages are looked for
    pub publisher_identities: Vec<PublisherIdentity>,
    pub products: Vec<Product>,
}

/// The default size of one range request: 1 MiB.
pub fn default_chunk_size() -> (r: u64)
    ensures
        r == 1024 * 1024,
{
    1024 * 1024
}

/// No publishers.
pub fn default_empty_publisher() -> (r: Vec<PublisherIdentity>)
    ensures
        r@.len() == 0,
{
    Vec::new()
}

/// No products.
pub fn default_empty_products() -> (r: Vec<Product>)
    ensures
        r@.len() == 0,
{
    Vec::new()
}

/// Whether no log is written by default.
pub fn default_log_level() -> (r: LogLevel)
    ensures
        r == LogLevel::Off,
{
    LogLevel::Off
}

fn some_text(s: &str) -> (r: Option<String>)
    ensures
        r matches Some(t) && t@ == s@,
{
    Some(String::from_str(s))
}

impl ClientConfig {
    /// A sample configuration to start from: one repository, one product
    /// with a Windows and a Mac flavor, one publisher; downloads in
    /// `download_dir` and the cache in `cache_dir`.
    pub fn make_sample(download_dir: &str, cache_dir: &str) -> (r: ClientConfig)
        ensures
            r.temp_download_directory@ == download_dir@,
            r.cache_directory@ == cache_dir@,
            r.log_level == LogLevel::Off,
            r.teamcity_download_chunk_size == 1024 * 1024,
            r.repositories@.len() == 1,
            r.products@.len() == 1,
            r.products@[0].flavors@.len() == 2,
            r.products@[0].flavors@[0].platform == Platform::Windows,
            r.products@[0].flavors@[0].package_type == PackageType::AppX,
            r.products@[0].flavors@[1].platform == Platform::Mac,
            r.products@[0].flavors@[1].package_type == PackageType::App,
            r.publisher_identities@.len() == 1,
    {
        let mut platforms: Vec<Platform> = Vec::new();
        platforms.push(Platform::Windows);
        platforms.push(Platform::Mac);
        let mut repo_products: Vec<String> = Vec::new();
        repo_products.push(String::from_str("SampleProduct"));
        let mut repositories: Vec<CandidateRepository> = Vec::new();
        repositories.push(
            CandidateRepository {
                name: String::from_str("SampleRepository"),
                repository_type: String::from_str("TeamCity"),
                platforms,
                products: repo_products,
                repository_server: some_text("yourbuildserver.yourcompany.example.com"),
                repository_credentials: Some(
                    RepositoryCredentials::BearerToken { token: String::from_str("your_token") },
                ),
                repository_folder: None,
            },
        );
        let mut flavors: Vec<Flavor> = Vec::new();
        flavors.push(
            Flavor {
                autorun: false,
                id: String::from_str("UWP"),
                package_type: PackageType::AppX,
                platform: Platform::Windows,
                teamcity_metadata: TeamCityMetadata {
                    teamcity_binary_path: String::from_str("path/to/WindowsUWP.zip"),
                    teamcity_id: String::from_str("SomeUwpSample"),
                },
                metadata: Some(
                    FlavorMetadata {
                        cf_bundle_name: None,
                        cf_bundle_id: None,
                        display_name_regex: None,
                        install_path: None,
                        name_regex: some_text("some.uwp.sampleproduct"),
                        launch_args: None,
                        run_as_service: None,
                        stop_command: None,
                    },
                ),
            },
        );
        flavors.push(
            Flavor {
                autorun: false,
                id: String::from_str("MacApp"),
                package_type: PackageType::App,
                platform: Platform::Mac,
                teamcity_metadata: TeamCityMetadata {
                    teamcity_binary_path: String::from_str("path/to/MacApp.dmg"),
                    teamcity_id: String::from_str("SomeMacSample"),
                },
                metadata: Some(
                    FlavorMetadata {
                        cf_bundle_name: some_text("SampleProduct"),
                        cf_bundle_id: some_text("com.somecompany.sampleproduct"),
                        display_name_regex: None,
                        install_path: None,
                        name_regex: None,
                        launch_args: None,
                        run_as_service: None,
                        stop_command: None,
                    },
                ),
            },
        );
        let mut products: Vec<Product> = Vec::new();
        products.push(Product { name: String::from_str("SampleProduct"), flavors });
        let mut publisher_platforms: Vec<Platform> = Vec::new();
        publisher_platforms.push(Platform::Windows);
        let mut publisher_products: Vec<String> = Vec::new();
        publisher_products.push(String::from_str("SomeProduct"));
        let mut publisher_identities: Vec<PublisherIdentity> = Vec::new();
        publisher_identities.push(
            PublisherIdentity {
                id: String::from_str("CN=ab94ddc1-6575-33ed-8832-1a5d98a25117"),
                name: String::from_str("SomeCompany Windows Identifier"),
                products: publisher_products,
                platforms: publisher_platforms,
            },
        );
        ClientConfig {
            log_level: default_log_level(),
            cache_directory: String::from_str(cache_dir),
            temp_download_directory: String::from_str(download_dir),
            teamcity_download_chunk_size: default_chunk_size(),
            repositories,
            products,
            publisher_identities,
        }
    }
}

} // verus!

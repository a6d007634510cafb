use gman::candidate::{InstallationCandidate, InstalledAppXProduct, InstalledProduct, InstallOverwriteOptions, SearchCandidate, TablePrinter, is_console_confirm};
use gman::platform::Platform;
use gman::product::{Flavor, FlavorMetadata, PackageType, Product, TeamCityMetadata};
use gman::version::Version;

fn hubkit_flavor(id: &str) -> Flavor {
    Flavor {
        autorun: false,
        id: id.into(),
        metadata: Some(FlavorMetadata {
            cf_bundle_name: None,
            cf_bundle_id: None,
            display_name_regex: Some("Gravio HubKit*".into()),
            install_path: None,
            name_regex: None,
            launch_args: None,
            run_as_service: None,
            stop_command: None,
        }),
        package_type: PackageType::Msi,
        teamcity_metadata: TeamCityMetadata {
            teamcity_binary_path: "GravioHubKit.msi".into(),
            teamcity_id: "Gravio_GravioHubKit4".into(),
        },
        platform: Platform::Windows,
    }
}

#[test]
fn test_cached_file_name() {
    let i = InstallationCandidate {
        flavor: hubkit_flavor("WindowsHubkit"),
        identifier: "develop".to_owned(),
        version: Version::new("5.2.3-7023"),
        product_name: "HubKit".into(),
        remote_id: String::default(),
        repo_location: String::default(),
        installed: false,
    };

    let fname = i.make_cached_file_name();
    assert_eq!(
        fname,
        "HubKit@Windows@WindowsHubkit@develop@5.2.3-7023@GravioHubKit.msi"
    );
}

#[test]
fn cached_file_name_takes_file_name_of_nested_artifact_path() {
    let mut f = hubkit_flavor("MacHubkit");
    f.platform = Platform::Mac;
    f.teamcity_metadata.teamcity_binary_path = "developerid/GravioStudio.dmg".into();
    let i = InstallationCandidate {
        flavor: f,
        identifier: "master".to_owned(),
        version: Version::new("5.3.0-7100"),
        product_name: "GravioStudio".into(),
        remote_id: String::new(),
        repo_location: String::new(),
        installed: false,
    };
    assert_eq!(i.get_binary_file_name(), "GravioStudio.dmg");
    let mut bare = i.clone();
    bare.flavor.teamcity_metadata.teamcity_binary_path = String::new();
    assert_eq!(bare.get_binary_file_name(), "--");
    bare.flavor.teamcity_metadata.teamcity_binary_path = "dir/..".into();
    assert_eq!(bare.get_binary_file_name(), "--");
    assert_eq!(
        i.make_cached_file_name(),
        "GravioStudio@macOS@MacHubkit@master@5.3.0-7100@GravioStudio.dmg"
    );
    assert_eq!(i.cached_file_name_with("x.bin"), "GravioStudio@macOS@MacHubkit@master@5.3.0-7100@x.bin");
}

#[test]
fn cached_file_name_round_trip() {
    let i = InstallationCandidate {
        flavor: hubkit_flavor("WindowsHubkit"),
        identifier: "develop".to_owned(),
        version: Version::new("5.2.3-7023"),
        product_name: "HubKit".into(),
        remote_id: "17".into(),
        repo_location: "server".into(),
        installed: true,
    };
    let name = i.make_cached_file_name();
    let back = InstallationCandidate::from_cached_file_name(&name, Platform::Linux).unwrap();
    assert_eq!(back.product_name, "HubKit");
    assert_eq!(back.flavor.id, "WindowsHubkit");
    assert_eq!(back.identifier, "develop");
    assert_eq!(back.version.as_str(), "5.2.3-7023");
    assert_eq!(back.remote_id, "");
    assert!(!back.installed);
}

#[test]
fn cached_file_name_needs_six_fields() {
    assert!(InstallationCandidate::from_cached_file_name("a@b@c@d@e", Platform::Windows).is_err());
    assert!(InstallationCandidate::from_cached_file_name("a@b@c@d@e@f@g", Platform::Windows).is_err());
    assert!(InstallationCandidate::from_cached_file_name("a@b@c@d@e@f", Platform::Windows).is_ok());
    assert!(InstallationCandidate::from_cached_file_name("", Platform::Windows).is_err());
}

#[test]
fn test_version_cmp_greater_full() {
    let v0 = Version::new("5.2.0.2222");
    let v1 = Version::new("5.2.0.0001");

    let o = v0.partial_cmp(&v1);
    assert_eq!(o.unwrap(), std::cmp::Ordering::Greater);

    let v0 = Version::new("5.2.1.0001");
    let v1 = Version::new("5.2.0.0001");

    let o = v0.partial_cmp(&v1);
    assert_eq!(o.unwrap(), std::cmp::Ordering::Greater);

    let v0 = Version::new("5.3.0.0001");
    let v1 = Version::new("5.2.0.0001");

    let o = v0.partial_cmp(&v1);
    assert_eq!(o.unwrap(), std::cmp::Ordering::Greater);

    let v0 = Version::new("6.2.0.2222");
    let v1 = Version::new("5.2.0.0001");

    let o = v0.partial_cmp(&v1);
    assert_eq!(o.unwrap(), std::cmp::Ordering::Greater);

    let v0 = Version::new("6.2.0.2222");
    let v1 = Version::new("5.2.0.0001");

    let o = v0.partial_cmp(&v1);
    assert_eq!(o.unwrap(), std::cmp::Ordering::Greater);
}

#[test]
fn test_version_cmp_greater_half() {
    let v0 = Version::new("5.2.3");
    let v1 = Version::new("5.2.0.0001");

    let o = v0.partial_cmp(&v1);
    assert_eq!(o.unwrap(), std::cmp::Ordering::Greater);
}

#[test]
fn test_version_cmp_less_full() {
    let v1 = Version::new("5.2.0.2222");
    let v0 = Version::new("5.2.0.0001");

    let o = v0.partial_cmp(&v1);
    assert_eq!(o.unwrap(), std::cmp::Ordering::Less);

    let v1 = Version::new("5.2.1.0001");
    let v0 = Version::new("5.2.0.0001");

    let o = v0.partial_cmp(&v1);
    assert_eq!(o.unwrap(), std::cmp::Ordering::Less);

    let v1 = Version::new("5.3.0.0001");
    let v0 = Version::new("5.2.0.0001");

    let o = v0.partial_cmp(&v1);
    assert_eq!(o.unwrap(), std::cmp::Ordering::Less);

    let v1 = Version::new("6.2.0.2222");
    let v0 = Version::new("5.2.0.0001");

    let o = v0.partial_cmp(&v1);
    assert_eq!(o.unwrap(), std::cmp::Ordering::Less);
}

#[test]
fn version_padding_and_incomparable() {
    assert!(Version::new("5.2.3").equals(&Version::new("5.2.3.0")));
    assert!(Version::new("5.2.3") == Version::new("5.2.3.0"));
    assert!(Version::new("5.2.1-7033").equals(&Version::new("5.2.1.7033")));
    assert!(Version::new("5.2.0.1").equals(&Version::new("5.2.0.0001")));
    assert_eq!(Version::new("abc").compare(&Version::new("1.2.3")), None);
    assert_eq!(Version::new("1.2.3").partial_cmp(&Version::new("1..2")), None);
    assert_eq!(Version::new("1.2.3.4.5").compare(&Version::new("1")), None);
    assert!(!Version::new("abc").equals(&Version::new("abc")));
    assert_eq!(
        Version::new("5.2.3").compare(&Version::new("5.2.3.1")),
        Some(std::cmp::Ordering::Less)
    );
    assert_eq!(
        Version::new("5.2.1-7033").compare(&Version::new("5.2.1-990")),
        Some(std::cmp::Ordering::Greater)
    );
    assert_eq!(
        Version::new("99999999999999999999999").compare(&Version::new("99999999999999999999998")),
        Some(std::cmp::Ordering::Greater)
    );
}

#[test]
fn version_four_parts() {
    assert_eq!(Version::new("5.2").make_version_4_parts().as_str(), "5.2.0.0");
    assert_eq!(Version::new("5.2.3.4").make_version_4_parts().as_str(), "5.2.3.4");
    assert_eq!(Version::new("5.2.1-7033").make_version_4_parts().as_str(), "5.2.1-7033.0");
}

fn catalog() -> Vec<Product> {
    let mut mac = hubkit_flavor("MacHubkit");
    mac.platform = Platform::Mac;
    mac.package_type = PackageType::App;
    vec![Product { name: "HubKit".into(), flavors: vec![hubkit_flavor("WindowsHubkit"), mac] }]
}

#[test]
fn search_candidate_picks_flavor() {
    let products = catalog();
    let s = SearchCandidate::new("hubkit", Some("5.2.0-7015"), None, None, &products, Platform::Mac).unwrap();
    assert_eq!(s.flavor.id, "MacHubkit");
    assert_eq!(s.product_name, "hubkit");
    assert_eq!(s.version_or_identifier_string(), "5.2.0-7015");
    let s = SearchCandidate::new("HubKit", None, Some("develop"), Some("windowshubkit"), &products, Platform::Mac).unwrap();
    assert_eq!(s.flavor.id, "WindowsHubkit");
    assert_eq!(s.version_or_identifier_string(), "develop");
    assert!(SearchCandidate::new("Studio", None, None, None, &products, Platform::Windows).is_none());
    assert!(SearchCandidate::new("HubKit", None, None, None, &products, Platform::Linux).is_none());
    assert!(SearchCandidate::new("HubKit", None, None, Some("nope"), &products, Platform::Windows).is_none());
}

#[test]
fn console_confirm_and_choices() {
    assert!(is_console_confirm("y\n"));
    assert!(is_console_confirm(" YES "));
    assert!(!is_console_confirm("no"));
    assert!(!is_console_confirm(""));
    assert_eq!(InstallOverwriteOptions::from_answer("O\n"), InstallOverwriteOptions::Overwrite);
    assert_eq!(InstallOverwriteOptions::from_answer("add"), InstallOverwriteOptions::Add);
    assert_eq!(InstallOverwriteOptions::from_answer("x"), InstallOverwriteOptions::Cancel);
    assert_eq!(InstallOverwriteOptions::from_name("a"), InstallOverwriteOptions::Add);
}

#[test]
fn should_uninstall_on_mac_compares_paths() {
    let p = InstalledProduct {
        product_name: "HubKit".into(),
        version: Version::new("5.2.1.8213"),
        package_name: "com.asteria.mac.gravio4".into(),
        package_type: PackageType::App,
        path: "/Applications/Gravio HubKit.app".into(),
    };
    assert!(p.should_uninstall(Platform::Mac, Some("Gravio HubKit.app")));
    assert!(!p.should_uninstall(Platform::Mac, Some("Other.app")));
    assert!(!p.should_uninstall(Platform::Mac, None));
    assert!(p.should_uninstall(Platform::Windows, None));
}

#[test]
fn appx_product_named_by_last_part() {
    let a = InstalledAppXProduct {
        name: "Asteria.GravioStudio".into(),
        version: Version::new("5.2.4683.0"),
        package_full_name: "Asteria.GravioStudio_5.2.4683.0_x64".into(),
    };
    let p = a.into_installed();
    assert_eq!(p.product_name, "GravioStudio");
    assert_eq!(p.package_type, PackageType::AppX);
    assert_eq!(p.package_name, "Asteria.GravioStudio_5.2.4683.0_x64");
}

#[test]
fn table_rows() {
    let c = InstallationCandidate {
        flavor: hubkit_flavor("WindowsHubkit"),
        identifier: "develop".to_owned(),
        version: Version::new("5.2.3-7023"),
        product_name: "HubKit".into(),
        remote_id: String::new(),
        repo_location: String::new(),
        installed: true,
    };
    let row = TablePrinter::from_candidate(c);
    assert_eq!(row.path, "HubKit@Windows@WindowsHubkit@develop@5.2.3-7023@GravioHubKit.msi");
    assert_eq!(row.flavor, "WindowsHubkit");
    assert!(row.installed);
    let p = InstalledProduct {
        product_name: "HubKit".into(),
        version: Version::new("5.2.1"),
        package_name: "{KEY}".into(),
        package_type: PackageType::Msi,
        path: String::new(),
    };
    let row = TablePrinter::from_installed(p);
    assert_eq!(row.identifier, "{KEY}");
    assert_eq!(row.flavor, "");
    assert!(row.installed);
}

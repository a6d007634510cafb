//! The catalog: products, their per-platform flavors and package types.
use vstd::prelude::*;

use crate::platform::Platform;
use crate::text::{eq_ignore_case, lower_of, str_eq, to_lower};

verus! {

/// How a build is packaged, which decides how it is installed.
#[derive(Debug, Clone, Copy, PartialEq, Eq, Structural)]
pub enum PackageType {
    /// Windows UWP style
    AppX,
    /// Traditional Windows installer
    Msi,
    /// Modern Windows MSI
    MsiX,
    /// A Windows executable
    StandaloneExe,
    /// Mac installation (image)
    App,
    /// Mac installation (package)
    Pkg,
    /// Linux Debian package
    Deb,
    /// Android package
    Apk,
    /// iOS app package
    Ipa,
}

/// Which package types are accepted on which platform.
pub open spec fn package_supported(t: PackageType, p: Platform) -> bool {
    match p {
        Platform::Android => t == PackageType::Apk,
        Platform::IOS => t == PackageType::Ipa,
        Platform::Windows => t == PackageType::Msi || t == PackageType::MsiX || t
            == PackageType::AppX,
        Platform::Mac => t == PackageType::App || t == PackageType::Pkg,
        Platform::RaspberryPi => t == PackageType::Deb,
        Platform::Linux => t == PackageType::Deb,
    }
}

/// The package type that a lowercase configuration name stands for.
pub open spec fn package_type_of_lower_name(l: Seq<char>) -> Option<PackageType> {
    if l == "appx"@ {
        Some(PackageType::AppX)
    } else if l == "msi"@ {
        Some(PackageType::Msi)
    } else if l == "msix"@ {
        Some(PackageType::MsiX)
    } else if l == "standaloneexe"@ {
        Some(PackageType::StandaloneExe)
    } else if l == "app"@ {
        Some(PackageType::App)
    } else if l == "pkg"@ {
        Some(PackageType::Pkg)
    } else if l == "deb"@ {
        Some(PackageType::Deb)
    } else if l == "apk"@ {
        Some(PackageType::Apk)
    } else if l == "ipa"@ {
        Some(PackageType::Ipa)
    } else {
        None
    }
}

impl PackageType {
    pub fn supported_for_platform(&self, platform: &Platform) -> (r: bool)
        ensures
            r == package_supported(*self, *platform),
    {
        match platform {
            Platform::Android => *self == PackageType::Apk,
            Platform::IOS => *self == PackageType::Ipa,
            Platform::Windows => *self == PackageType::Msi || *self == PackageType::MsiX || *self
                == PackageType::AppX,
            Platform::Mac => *self == PackageType::App || *self == PackageType::Pkg,
            Platform::RaspberryPi => *self == PackageType::Deb,
            Platform::Linux => *self == PackageType::Deb,
        }
    }

    /// The package type that a configuration name stands for, in any case.
    pub fn from_name(s: &str) -> (r: Option<PackageType>)
        ensures
            r == package_type_of_lower_name(lower_of(s@)),
    {
        let l = to_lower(s);
        let l = l.as_str();
        if str_eq(l, "appx") {
            Some(PackageType::AppX)
        } else if str_eq(l, "msi") {
            Some(PackageType::Msi)
        } else if str_eq(l, "msix") {
            Some(PackageType::MsiX)
        } else if str_eq(l, "standaloneexe") {
            Some(PackageType::StandaloneExe)
        } else if str_eq(l, "app") {
            Some(PackageType::App)
        } else if str_eq(l, "pkg") {
            Some(PackageType::Pkg)
        } else if str_eq(l, "deb") {
            Some(PackageType::Deb)
        } else if str_eq(l, "apk") {
            Some(PackageType::Apk)
        } else if str_eq(l, "ipa") {
            Some(PackageType::Ipa)
        } else {
            None
        }
    }
}

/// A copy of an optional text.
pub fn clone_opt_string(o: &Option<String>) -> (r: Option<String>)
    ensures
        r == *o,
{
    match o {
        Some(s) => Some(s.clone()),
        None => None,
    }
}

/// Where a flavor's builds come from on the build server.
#[derive(Debug)]
pub struct TeamCityMetadata {
    /// The build configuration that makes this flavor.
    pub teamcity_id: String,
    /// The path of the artifact within a build's output.
    pub teamcity_binary_path: String,
}

impl Clone for TeamCityMetadata {
    fn clone(&self) -> (r: TeamCityMetadata)
        ensures
            r == *self,
    {
        TeamCityMetadata {
            teamcity_id: self.teamcity_id.clone(),
            teamcity_binary_path: self.teamcity_binary_path.clone(),
        }
    }
}

/// Optional platform-specific hints of a flavor.
#[derive(Debug)]
pub struct FlavorMetadata {
    /// For Windows AppX: matches the store name of the package
    pub name_regex: Option<String>,
    /// For Windows MSI: matches the display name in the registry
    pub display_name_regex: Option<String>,
    /// For a standalone executable
    pub install_path: Option<String>,
    /// For a Mac app: its bundle identifier
    pub cf_bundle_id: Option<String>,
    /// For a Mac app: its bundle name
    pub cf_bundle_name: Option<String>,
    /// Arguments given when the application is launched after install
    pub launch_args: Option<String>,
    /// Whether the application runs as a service
    pub run_as_service: Option<bool>,
    /// The command that stops the application
    pub stop_command: Option<String>,
}

impl Clone for FlavorMetadata {
    fn clone(&self) -> (r: FlavorMetadata)
        ensures
            r == *self,
    {
        FlavorMetadata {
            name_regex: clone_opt_string(&self.name_regex),
            display_name_regex: clone_opt_string(&self.display_name_regex),
            install_path: clone_opt_string(&self.install_path),
            cf_bundle_id: clone_opt_string(&self.cf_bundle_id),
            cf_bundle_name: clone_opt_string(&self.cf_bundle_name),
            launch_args: clone_opt_string(&self.launch_args),
            run_as_service: self.run_as_service,
            stop_command: clone_opt_string(&self.stop_command),
        }
    }
}

/// A platform- and packaging-specific variant of a product.
#[derive(Debug)]
pub struct Flavor {
    pub platform: Platform,
    pub id: String,
    pub teamcity_metadata: TeamCityMetadata,
    pub package_type: PackageType,
    pub metadata: Option<FlavorMetadata>,
    /// Whether the application is launched after a successful install
    pub autorun: bool,
}

impl Clone for Flavor {
    fn clone(&self) -> (r: Flavor)
        ensures
            r == *self,
    {
        let metadata = match &self.metadata {
            Some(m) => Some(m.clone()),
            None => None,
        };
        Flavor {
            platform: self.platform,
            id: self.id.clone(),
            teamcity_metadata: self.teamcity_metadata.clone(),
            package_type: self.package_type,
            metadata,
            autorun: self.autorun,
        }
    }
}

impl Flavor {
    /// A placeholder flavor for `platform`, with `--` for its names.
    pub fn empty(platform: Platform) -> (r: Flavor)
        ensures
            r.platform == platform,
            r.id@ == "--"@,
            r.teamcity_metadata.teamcity_id@ == "--"@,
            r.teamcity_metadata.teamcity_binary_path@.len() == 0,
            r.package_type == PackageType::Msi,
            r.metadata is None,
            !r.autorun,
    {
        Flavor {
            platform,
            id: String::from_str("--"),
            package_type: PackageType::Msi,
            teamcity_metadata: TeamCityMetadata {
                teamcity_id: String::from_str("--"),
                teamcity_binary_path: String::new(),
            },
            metadata: None,
            autorun: false,
        }
    }
}

/// A product and its flavors.
#[derive(Debug)]
pub struct Product {
    pub name: String,
    pub flavors: Vec<Flavor>,
}

/// Whether `i` is the first position in `products` whose name is `name` up
/// to case.
pub open spec fn is_first_product_named(products: Seq<Product>, name: Seq<char>, i: int) -> bool {
    &&& 0 <= i < products.len()
    &&& lower_of(products[i].name@) == lower_of(name)
    &&& forall|j: int| 0 <= j < i ==> lower_of(#[trigger] products[j].name@) != lower_of(name)
}

/// Whether no product in `products` is named `name` up to case.
pub open spec fn no_product_named(products: Seq<Product>, name: Seq<char>) -> bool {
    forall|j: int| 0 <= j < products.len() ==> lower_of(#[trigger] products[j].name@) != lower_of(name)
}

/// The position of the first product named `name` up to case.
pub fn find_product(product_name: &str, products: &Vec<Product>) -> (r: Option<usize>)
    ensures
        match r {
            Some(i) => is_first_product_named(products@, product_name@, i as int),
            None => no_product_named(products@, product_name@),
        },
{
    let mut i: usize = 0;
    while i < products.len()
        invariant
            i <= products.len(),
            forall|j: int| 0 <= j < i ==> lower_of(#[trigger] products@[j].name@) != lower_of(
                product_name@,
            ),
        decreases products.len() - i,
    {
        if eq_ignore_case(products[i].name.as_str(), product_name) {
            return Some(i);
        }
        i += 1;
    }
    None
}

impl Product {
    /// The first product of the catalog named `product_name`, up to case.
    pub fn from_name<'a>(product_name: &str, products: &'a Vec<Product>) -> (r: Option<&'a Product>)
        ensures
            match r {
                Some(p) => exists|i: int|
                    is_first_product_named(products@, product_name@, i) && *p == products@[i],
                None => no_product_named(products@, product_name@),
            },
    {
        match find_product(product_name, products) {
            Some(i) => Some(&products[i]),
            None => None,
        }
    }
}

} // verus!

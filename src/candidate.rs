//! What is searched for, what can be installed, and what is installed; and
//! the file names under which downloaded builds are cached.
use vstd::prelude::*;

use crate::error::GManError;
use crate::platform::{platform_name, Platform};
use crate::product::{Flavor, PackageType, Product, find_product, is_first_product_named, no_product_named};
use crate::text::{
    eq_ignore_case, has_char, lower_of, split_fields, split_on, str_eq, to_lower, trim,
    trim_of,
};
use crate::version::Version;

verus! {

/// A resolved installation request.
#[derive(Debug)]
pub struct SearchCandidate {
    pub product_name: String,
    pub version: Option<Version>,
    pub identifier: Option<String>,
    pub flavor: Flavor,
}

/// Whether `i` is the first flavor whose id is `id` up to case.
pub open spec fn is_first_flavor_with_id(flavors: Seq<Flavor>, id: Seq<char>, i: int) -> bool {
    &&& 0 <= i < flavors.len()
    &&& lower_of(flavors[i].id@) == lower_of(id)
    &&& forall|j: int| 0 <= j < i ==> lower_of(#[trigger] flavors[j].id@) != lower_of(id)
}

/// Whether `i` is the first flavor for `platform`.
pub open spec fn is_first_flavor_for(flavors: Seq<Flavor>, platform: Platform, i: int) -> bool {
    &&& 0 <= i < flavors.len()
    &&& flavors[i].platform == platform
    &&& forall|j: int| 0 <= j < i ==> (#[trigger] flavors[j]).platform != platform
}

/// The position of the first flavor whose id is `id` up to case.
pub fn find_flavor_by_id(flavors: &Vec<Flavor>, id: &str) -> (r: Option<usize>)
    ensures
        match r {
            Some(i) => is_first_flavor_with_id(flavors@, id@, i as int),
            None => forall|j: int|
                0 <= j < flavors.len() ==> lower_of(#[trigger] flavors@[j].id@) != lower_of(id@),
        },
{
    let mut i: usize = 0;
    while i < flavors.len()
        invariant
            i <= flavors.len(),
            forall|j: int| 0 <= j < i ==> lower_of(#[trigger] flavors@[j].id@) != lower_of(id@),
        decreases flavors.len() - i,
    {
        if eq_ignore_case(flavors[i].id.as_str(), id) {
            return Some(i);
        }
        i += 1;
    }
    None
}

/// The position of the first flavor for `platform`.
pub fn find_flavor_for_platform(flavors: &Vec<Flavor>, platform: Platform) -> (r: Option<usize>)
    ensures
        match r {
            Some(i) => is_first_flavor_for(flavors@, platform, i as int),
            None => forall|j: int| 0 <= j < flavors.len() ==> (#[trigger] flavors@[j]).platform != platform,
        },
{
    let mut i: usize = 0;
    while i < flavors.len()
        invariant
            i <= flavors.len(),
            forall|j: int| 0 <= j < i ==> (#[trigger] flavors@[j]).platform != platform,
        decreases flavors.len() - i,
    {
        if flavors[i].platform == platform {
            return Some(i);
        }
        i += 1;
    }
    None
}

impl SearchCandidate {
    /// The request for `product_name` in the catalog `available_products`:
    /// the flavor named `flavor`, or else the first flavor for
    /// `current_platform`. `None` where the product or the flavor is not in
    /// the catalog.
    pub fn new(
        product_name: &str,
        version: Option<&str>,
        identifier: Option<&str>,
        flavor: Option<&str>,
        available_products: &Vec<Product>,
        current_platform: Platform,
    ) -> (r: Option<SearchCandidate>)
        ensures
            no_product_named(available_products@, product_name@) ==> r is None,
            forall|i: int|
                is_first_product_named(available_products@, product_name@, i) ==> {
                    let flavors = #[trigger] available_products@[i].flavors@;
                    match r {
                        Some(s) => {
                            &&& s.product_name@ == product_name@
                            &&& (match (s.version, version) {
                                (Some(a), Some(b)) => a@ == b@,
                                (None, None) => true,
                                _ => false,
                            })
                            &&& (match (s.identifier, identifier) {
                                (Some(a), Some(b)) => a@ == b@,
                                (None, None) => true,
                                _ => false,
                            })
                            &&& exists|k: int|
                                {
                                    &&& s.flavor == flavors[k]
                                    &&& match flavor {
                                        Some(f) => is_first_flavor_with_id(flavors, f@, k),
                                        None => is_first_flavor_for(flavors, current_platform, k),
                                    }
                                }
                        },
                        None => match flavor {
                            Some(f) => forall|j: int|
                                0 <= j < flavors.len() ==> lower_of(#[trigger] flavors[j].id@)
                                    != lower_of(f@),
                            None => forall|j: int|
                                0 <= j < flavors.len() ==> (#[trigger] flavors[j]).platform
                                    != current_platform,
                        },
                    }
                },
    {
        let pi = match find_product(product_name, available_products) {
            Some(i) => i,
            None => {
                return None;
            },
        };
        let product = &available_products[pi];
        let found = match flavor {
            Some(f) => find_flavor_by_id(&product.flavors, f),
            None => find_flavor_for_platform(&product.flavors, current_platform),
        };
        let k = match found {
            Some(k) => k,
            None => {
                return None;
            },
        };
        let version = match version {
            Some(v) => Some(Version::new(v)),
            None => None,
        };
        let identifier = match identifier {
            Some(i) => Some(String::from_str(i)),
            None => None,
        };
        Some(
            SearchCandidate {
                product_name: String::from_str(product_name),
                version,
                identifier,
                flavor: product.flavors[k].clone(),
            },
        )
    }

    /// The version text if one is set, else the identifier, else empty.
    pub fn version_or_identifier_string(&self) -> (r: &str)
        ensures
            r@ == match self.version {
                Some(v) => v@,
                None => match self.identifier {
                    Some(i) => i@,
                    None => Seq::<char>::empty(),
                },
            },
    {
        if let Some(v) = &self.version {
            v.as_str()
        } else if let Some(i) = &self.identifier {
            i.as_str()
        } else {
            proof {
                reveal_strlit("");
            }
            ""
        }
    }
}

/// The result of an install that did not fail.
#[derive(Debug, Clone, Copy, PartialEq, Eq, Structural)]
pub enum InstallationResult {
    Canceled,
    Succeeded,
    Skipped,
}

/// What to do with installations that an install would collide with.
#[derive(Debug, Clone, Copy, PartialEq, Eq, Structural)]
pub enum InstallOverwriteOptions {
    Overwrite,
    Add,
    Cancel,
}

/// The choice that a (trimmed, lowercase) answer stands for.
pub open spec fn overwrite_choice(s: Seq<char>) -> InstallOverwriteOptions {
    if s == "o"@ || s == "overwrite"@ {
        InstallOverwriteOptions::Overwrite
    } else if s == "a"@ || s == "add"@ {
        InstallOverwriteOptions::Add
    } else {
        InstallOverwriteOptions::Cancel
    }
}

impl InstallOverwriteOptions {
    /// The choice that `s` names: `o`/`overwrite`, `a`/`add`, anything else
    /// cancels.
    pub fn from_name(s: &str) -> (r: InstallOverwriteOptions)
        ensures
            r == overwrite_choice(s@),
    {
        if str_eq(s, "o") || str_eq(s, "overwrite") {
            InstallOverwriteOptions::Overwrite
        } else if str_eq(s, "a") || str_eq(s, "add") {
            InstallOverwriteOptions::Add
        } else {
            InstallOverwriteOptions::Cancel
        }
    }
}

/// A build that can be installed.
#[derive(Debug)]
pub struct InstallationCandidate {
    /// The build's id on the repository
    pub remote_id: String,
    /// The server of the repository it was found on
    pub repo_location: String,
    pub product_name: String,
    pub version: Version,
    /// The branch the build was made from
    pub identifier: String,
    pub flavor: Flavor,
    pub installed: bool,
}

impl Clone for InstallationCandidate {
    fn clone(&self) -> (r: InstallationCandidate)
        ensures
            r == *self,
    {
        InstallationCandidate {
            remote_id: self.remote_id.clone(),
            repo_location: self.repo_location.clone(),
            product_name: self.product_name.clone(),
            version: Version(self.version.0.clone()),
            identifier: self.identifier.clone(),
            flavor: self.flavor.clone(),
            installed: self.installed,
        }
    }
}

/// A product that is present on the machine.
#[derive(Debug)]
pub struct InstalledProduct {
    pub product_name: String,
    pub version: Version,
    /// The platform's identifier of the package (registry key, bundle id)
    pub package_name: String,
    pub package_type: PackageType,
    pub path: String,
}

impl Clone for InstalledProduct {
    fn clone(&self) -> (r: InstalledProduct)
        ensures
            r == *self,
    {
        InstalledProduct {
            product_name: self.product_name.clone(),
            version: Version(self.version.0.clone()),
            package_name: self.package_name.clone(),
            package_type: self.package_type,
            path: self.path.clone(),
        }
    }
}

/// The cache file name of a build:
/// `product@platform@flavor@identifier@version@artifact`.
pub open spec fn cache_name(
    product: Seq<char>,
    platform: Platform,
    flavor_id: Seq<char>,
    identifier: Seq<char>,
    version: Seq<char>,
    binary: Seq<char>,
) -> Seq<char> {
    product + seq!['@'] + platform_name(platform) + seq!['@'] + flavor_id + seq!['@'] + identifier
        + seq!['@'] + version + seq!['@'] + binary
}

/// The cache file name of `c` with `binary` as the artifact's file name.
pub open spec fn candidate_cache_name(c: InstallationCandidate, binary: Seq<char>) -> Seq<char> {
    cache_name(
        c.product_name@,
        c.flavor.platform,
        c.flavor.id@,
        c.identifier@,
        c.version@,
        binary,
    )
}

/// What `std::path::Path::file_name` gives for a path: its final
/// component, if it has one.
pub uninterp spec fn file_name_of(p: Seq<char>) -> Option<Seq<char>>;

/// Whether `p` is a single plain path component: not empty, not `.` or
/// `..`, and without `/`, `\` or `:`.
pub open spec fn is_plain_name(p: Seq<char>) -> bool {
    &&& p.len() > 0
    &&& p != "."@
    &&& p != ".."@
    &&& !has_char(p, '/')
    &&& !has_char(p, '\\')
    &&& !has_char(p, ':')
}

/// The artifact's file name of the artifact path `path`: its final
/// component, or `--` where it has none.
pub open spec fn artifact_file_name(path: Seq<char>) -> Seq<char> {
    match file_name_of(path) {
        Some(n) => n,
        None => "--"@,
    }
}

/// Whether `c` is what the cache file name `s` decodes to on `platform`.
pub open spec fn decodes_to(s: Seq<char>, platform: Platform, c: InstallationCandidate) -> bool {
    let f = split_on(s, '@');
    &&& f.len() == 6
    &&& c.product_name@ == f[0]
    &&& c.flavor.id@ == f[2]
    &&& c.identifier@ == f[3]
    &&& c.version@ == f[4]
    &&& c.remote_id@.len() == 0
    &&& c.repo_location@.len() == 0
    &&& !c.installed
    &&& c.flavor.platform == platform
}

/// Relies on `std::path::Path::file_name`: the final component of the path,
/// if any; a path that is one plain component is its own file name.
#[verifier::external_body]
fn path_file_name(p: &str) -> (r: Option<String>)
    ensures
        r is Some ==> file_name_of(p@) == Some(r->0@),
        r is None ==> file_name_of(p@) is None,
        is_plain_name(p@) ==> r is Some && r->0@ == p@,
{
    std::path::Path::new(p).file_name().map(|n| n.to_string_lossy().into_owned())
}

impl InstallationCandidate {
    /// Whether `installed_product` is this candidate's product (same name).
    pub fn product_equals(&self, installed_product: &InstalledProduct) -> (r: bool)
        ensures
            r == (installed_product.product_name@ == self.product_name@),
    {
        str_eq(installed_product.product_name.as_str(), self.product_name.as_str())
    }

    /// The file name of this candidate's artifact, `--` where its path has
    /// none.
    pub fn get_binary_file_name(&self) -> (r: String)
        ensures
            r@ == artifact_file_name(self.flavor.teamcity_metadata.teamcity_binary_path@),
    {
        match path_file_name(self.flavor.teamcity_metadata.teamcity_binary_path.as_str()) {
            Some(n) => n,
            None => {
                proof {
                    reveal_strlit("--");
                }
                String::from_str("--")
            },
        }
    }

    /// The cache file name of this candidate with `binary` as the artifact's
    /// file name.
    pub fn cached_file_name_with(&self, binary: &str) -> (r: String)
        ensures
            r@ == candidate_cache_name(*self, binary@),
    {
        let mut s = String::from_str(self.product_name.as_str());
        s.append("@");
        s.append(self.flavor.platform.name());
        s.append("@");
        s.append(self.flavor.id.as_str());
        s.append("@");
        s.append(self.identifier.as_str());
        s.append("@");
        s.append(self.version.as_str());
        s.append("@");
        s.append(binary);
        proof {
            reveal_strlit("@");
            assert(s@ =~= candidate_cache_name(*self, binary@));
        }
        s
    }

    /// The name under which this candidate's artifact is cached:
    /// `product@platform@flavor@identifier@version@artifact`.
    pub fn make_cached_file_name(&self) -> (r: String)
        ensures
            r@ == candidate_cache_name(
                *self,
                artifact_file_name(self.flavor.teamcity_metadata.teamcity_binary_path@),
            ),
    {
        let b = self.get_binary_file_name();
        self.cached_file_name_with(b.as_str())
    }

    /// Decodes a cache file name; the flavor is a placeholder for `platform`
    /// with the encoded flavor id. Fails unless the name has exactly six
    /// `@`-separated fields.
    pub fn from_cached_file_name(s: &str, platform: Platform) -> (r: Result<InstallationCandidate, GManError>)
        ensures
            match r {
                Ok(c) => decodes_to(s@, platform, c),
                Err(_) => split_on(s@, '@').len() != 6,
            },
    {
        let splits = split_fields(s, '@');
        if splits.len() != 6 {
            return Err(GManError::new("Not an InstallationCandidate string"));
        }
        let ghost f = split_on(s@, '@');
        assert(splits@.map_values(|x: String| x@)[0] == splits@[0]@);
        assert(splits@.map_values(|x: String| x@)[2] == splits@[2]@);
        assert(splits@.map_values(|x: String| x@)[3] == splits@[3]@);
        assert(splits@.map_values(|x: String| x@)[4] == splits@[4]@);
        let mut flavor = Flavor::empty(platform);
        flavor.id = splits[2].clone();
        let c = InstallationCandidate {
            remote_id: String::new(),
            repo_location: String::new(),
            product_name: splits[0].clone(),
            version: Version(splits[4].clone()),
            identifier: splits[3].clone(),
            flavor,
            installed: false,
        };
        Ok(c)
    }
}

/// Whether none of the encoded fields of `c`, its artifact's file name
/// included, holds `@`.
pub open spec fn fields_without_at(c: InstallationCandidate) -> bool {
    &&& !has_char(c.product_name@, '@')
    &&& !has_char(c.flavor.id@, '@')
    &&& !has_char(c.identifier@, '@')
    &&& !has_char(c.version@, '@')
    &&& !has_char(artifact_file_name(c.flavor.teamcity_metadata.teamcity_binary_path@), '@')
}

proof fn lemma_platform_name_without_at(p: Platform)
    ensures
        !has_char(platform_name(p), '@'),
{
    reveal_strlit("Android");
    reveal_strlit("iOS");
    reveal_strlit("Windows");
    reveal_strlit("macOS");
    reveal_strlit("rpi");
    reveal_strlit("Linux");
}

/// Decoding the cache file name of a candidate gives back its product name,
/// flavor id, identifier and version, whenever none of its fields holds `@`:
/// the name has exactly the six fields, so decoding succeeds, and what it
/// decodes to has those four fields of the candidate.
pub proof fn lemma_cache_name_round_trip(c: InstallationCandidate)
    requires
        fields_without_at(c),
    ensures
        split_on(
            candidate_cache_name(c, artifact_file_name(c.flavor.teamcity_metadata.teamcity_binary_path@)),
            '@',
        ) == seq![
            c.product_name@,
            platform_name(c.flavor.platform),
            c.flavor.id@,
            c.identifier@,
            c.version@,
            artifact_file_name(c.flavor.teamcity_metadata.teamcity_binary_path@),
        ],
        forall|p: Platform, d: InstallationCandidate|
            #[trigger] decodes_to(
                candidate_cache_name(c, artifact_file_name(c.flavor.teamcity_metadata.teamcity_binary_path@)),
                p,
                d,
            ) ==> {
                &&& d.product_name@ == c.product_name@
                &&& d.flavor.id@ == c.flavor.id@
                &&& d.identifier@ == c.identifier@
                &&& d.version@ == c.version@
            },
{
    let binary = artifact_file_name(c.flavor.teamcity_metadata.teamcity_binary_path@);
    lemma_platform_name_without_at(c.flavor.platform);
    let name_part = c.product_name@;
    let upto_platform = name_part + seq!['@'] + platform_name(c.flavor.platform);
    let upto_flavor = upto_platform + seq!['@'] + c.flavor.id@;
    let upto_identifier = upto_flavor + seq!['@'] + c.identifier@;
    let upto_version = upto_identifier + seq!['@'] + c.version@;
    let whole = upto_version + seq!['@'] + binary;
    crate::text::lemma_split_on_single(name_part, '@');
    crate::text::lemma_split_on_append(name_part, platform_name(c.flavor.platform), '@');
    crate::text::lemma_split_on_append(upto_platform, c.flavor.id@, '@');
    crate::text::lemma_split_on_append(upto_flavor, c.identifier@, '@');
    crate::text::lemma_split_on_append(upto_identifier, c.version@, '@');
    crate::text::lemma_split_on_append(upto_version, binary, '@');
    assert(whole == candidate_cache_name(c, binary));
    assert(split_on(whole, '@') =~= seq![
        c.product_name@,
        platform_name(c.flavor.platform),
        c.flavor.id@,
        c.identifier@,
        c.version@,
        binary,
    ]);
}

/// Whether an answer to a yes/no question is yes: `y` or `yes` in any case,
/// around white space.
pub fn is_console_confirm(val: &str) -> (r: bool)
    ensures
        r == (lower_of(trim_of(val@)) == "y"@ || lower_of(trim_of(val@)) == "yes"@),
{
    let l = to_lower(trim(val));
    str_eq(l.as_str(), "y") || str_eq(l.as_str(), "yes")
}

impl InstallOverwriteOptions {
    /// The choice that a typed answer stands for, in any case and around
    /// white space.
    pub fn from_answer(s: &str) -> (r: InstallOverwriteOptions)
        ensures
            r == overwrite_choice(trim_of(lower_of(s@))),
    {
        let l = to_lower(s);
        InstallOverwriteOptions::from_name(trim(l.as_str()))
    }
}

/// The directory that Mac applications are installed to.
pub open spec fn applications_dir() -> Seq<char> {
    "/Applications/"@
}

impl InstalledProduct {
    /// Whether this installation collides with the candidate being installed
    /// on `host`. A Mac app collides only where the app inside the
    /// candidate's image, named `mounted_app`, has this installation's path;
    /// everything else collides.
    pub fn should_uninstall(&self, host: Platform, mounted_app: Option<&str>) -> (r: bool)
        ensures
            r == if host == Platform::Mac && self.package_type == PackageType::App {
                match mounted_app {
                    Some(n) => self.path@ == applications_dir() + n@,
                    None => false,
                }
            } else {
                true
            },
    {
        if host == Platform::Mac && self.package_type == PackageType::App {
            match mounted_app {
                Some(n) => {
                    let p = String::from_str("/Applications/").concat(n);
                    str_eq(p.as_str(), self.path.as_str())
                },
                None => false,
            }
        } else {
            true
        }
    }
}

/// An AppX package as the platform lists it.
#[derive(Debug)]
pub struct InstalledAppXProduct {
    pub name: String,
    pub version: Version,
    pub package_full_name: String,
}

impl InstalledAppXProduct {
    /// The installed product: named by the last `.`-separated part of the
    /// package name.
    pub fn into_installed(self) -> (r: InstalledProduct)
        ensures
            r.product_name@ == split_on(self.name@, '.').last(),
            r.version@ == self.version@,
            r.package_name@ == self.package_full_name@,
            r.package_type == PackageType::AppX,
            r.path@.len() == 0,
    {
        let parts = split_fields(self.name.as_str(), '.');
        proof {
            crate::text::lemma_split_on_nonempty(self.name@, '.');
            assert(parts@.map_values(|x: String| x@)[parts.len() - 1] == parts@[parts.len() - 1]@);
        }
        let last = parts[parts.len() - 1].clone();
        InstalledProduct {
            product_name: last,
            version: self.version,
            package_name: self.package_full_name,
            package_type: PackageType::AppX,
            path: String::new(),
        }
    }
}

/// One row of a listing of candidates or installed products.
#[derive(Debug)]
pub struct TablePrinter {
    pub name: String,
    pub version: String,
    pub identifier: String,
    pub flavor: String,
    pub installed: bool,
    pub path: String,
}

impl TablePrinter {
    /// The row of a candidate; its path is its cache file name.
    pub fn from_candidate(c: InstallationCandidate) -> (r: TablePrinter)
        ensures
            r.name@ == c.product_name@,
            r.version@ == c.version@,
            r.identifier@ == c.identifier@,
            r.flavor@ == c.flavor.id@,
            r.installed == c.installed,
            r.path@ == candidate_cache_name(
                c,
                artifact_file_name(c.flavor.teamcity_metadata.teamcity_binary_path@),
            ),
    {
        let path = c.make_cached_file_name();
        TablePrinter {
            path,
            identifier: c.identifier,
            name: c.product_name,
            version: c.version.0,
            flavor: c.flavor.id,
            installed: c.installed,
        }
    }

    /// The row of an installed product.
    pub fn from_installed(p: InstalledProduct) -> (r: TablePrinter)
        ensures
            r.name@ == p.product_name@,
            r.version@ == p.version@,
            r.identifier@ == p.package_name@,
            r.flavor@.len() == 0,
            r.installed,
            r.path@ == p.path@,
    {
        TablePrinter {
            path: p.path,
            identifier: p.package_name,
            name: p.product_name,
            version: p.version.0,
            flavor: String::new(),
            installed: true,
        }
    }
}

} // verus!

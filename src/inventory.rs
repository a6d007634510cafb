//! What the platform inventory needs from the catalog: which products run
//! on a platform, and which product a Mac bundle belongs to.
use vstd::prelude::*;

use crate::candidate::InstalledProduct;
use crate::platform::Platform;
use crate::product::{Flavor, PackageType, Product};
use crate::text::str_eq;
use crate::version::Version;

verus! {

/// Whether `product` has a flavor for `platform`.
pub open spec fn has_flavor_for(product: Product, platform: Platform) -> bool {
    exists|k: int| 0 <= k < product.flavors.len() && (#[trigger] product.flavors@[k]).platform == platform
}

fn product_has_flavor_for(product: &Product, platform: Platform) -> (r: bool)
    ensures
        r == has_flavor_for(*product, platform),
{
    let mut k: usize = 0;
    while k < product.flavors.len()
        invariant
            k <= product.flavors.len(),
            forall|q: int| 0 <= q < k ==> (#[trigger] product.flavors@[q]).platform != platform,
        decreases product.flavors.len() - k,
    {
        if product.flavors[k].platform == platform {
            return true;
        }
        k += 1;
    }
    false
}

/// The positions of the products that have a flavor for `platform`, in
/// catalog order.
pub fn products_for_platform(products: &Vec<Product>, platform: Platform) -> (r: Vec<usize>)
    ensures
        forall|k: int| 0 <= k < r.len() ==> (#[trigger] r@[k]) < products.len(),
        forall|a: int, b: int| 0 <= a < b < r.len() ==> r@[a] < r@[b],
        forall|j: int|
            0 <= j < products.len() ==> (has_flavor_for(#[trigger] products@[j], platform) <==> r@.contains(
                j as usize,
            )),
{
    let mut out: Vec<usize> = Vec::new();
    let mut i: usize = 0;
    while i < products.len()
        invariant
            i <= products.len(),
            forall|k: int| 0 <= k < out.len() ==> (#[trigger] out@[k]) < i,
            forall|a: int, b: int| 0 <= a < b < out.len() ==> out@[a] < out@[b],
            forall|j: int|
                0 <= j < i ==> (has_flavor_for(#[trigger] products@[j], platform) <==> out@.contains(
                    j as usize,
                )),
        decreases products.len() - i,
    {
        let ghost before = out@;
        if product_has_flavor_for(&products[i], platform) {
            out.push(i);
            proof {
                assert(out@[out.len() - 1] == i);
                assert forall|j: int| 0 <= j < i + 1 implies (has_flavor_for(#[trigger] products@[j], platform)
                    <==> out@.contains(j as usize)) by {
                    if j < i {
                        if before.contains(j as usize) {
                            let w = choose|w: int| 0 <= w < before.len() && before[w] == j as usize;
                            assert(out@[w] == j as usize);
                        }
                        if out@.contains(j as usize) {
                            let w = choose|w: int| 0 <= w < out.len() && out@[w] == j as usize;
                            assert(w < before.len());
                        }
                    }
                }
            }
        } else {
            proof {
                assert(!out@.contains(i)) by {
                    if out@.contains(i) {
                        let w = choose|w: int| 0 <= w < out.len() && out@[w] == i;
                    }
                }
            }
        }
        i += 1;
    }
    out
}

/// Whether `f` is a Mac flavor whose bundle identifier is `id`.
pub open spec fn is_mac_bundle_flavor(f: Flavor, id: Seq<char>) -> bool {
    f.platform == Platform::Mac && match f.metadata {
        Some(m) => match m.cf_bundle_id {
            Some(b) => b@ == id,
            None => false,
        },
        None => false,
    }
}

/// Whether `product` has a Mac flavor whose bundle identifier is `id`.
pub open spec fn has_mac_bundle(product: Product, id: Seq<char>) -> bool {
    exists|k: int| 0 <= k < product.flavors.len() && is_mac_bundle_flavor(#[trigger] product.flavors@[k], id)
}

fn product_has_mac_bundle(product: &Product, id: &str) -> (r: bool)
    ensures
        r == has_mac_bundle(*product, id@),
{
    let mut k: usize = 0;
    while k < product.flavors.len()
        invariant
            k <= product.flavors.len(),
            forall|q: int| 0 <= q < k ==> !is_mac_bundle_flavor(#[trigger] product.flavors@[q], id@),
        decreases product.flavors.len() - k,
    {
        let f = &product.flavors[k];
        if f.platform == Platform::Mac {
            if let Some(m) = &f.metadata {
                if let Some(b) = &m.cf_bundle_id {
                    if str_eq(b.as_str(), id) {
                        return true;
                    }
                }
            }
        }
        k += 1;
    }
    false
}

/// The installed product of a Mac application bundle: the last catalog
/// product with a Mac flavor of that bundle identifier, with the version
/// `short.build`. `None` where no product has the bundle.
pub fn mac_installed_product(
    products: &Vec<Product>,
    bundle_id: &str,
    short_version: &str,
    build: &str,
    path: &str,
) -> (r: Option<InstalledProduct>)
    ensures
        match r {
            Some(p) => exists|i: int|
                {
                    &&& 0 <= i < products.len()
                    &&& has_mac_bundle(products@[i], bundle_id@)
                    &&& forall|j: int| i < j < products.len() ==> !has_mac_bundle(#[trigger] products@[j], bundle_id@)
                    &&& p.product_name@ == products@[i].name@
                }
                && p.version@ == short_version@ + seq!['.'] + build@
                && p.package_name@ == bundle_id@
                && p.package_type == PackageType::App
                && p.path@ == path@,
            None => forall|j: int| 0 <= j < products.len() ==> !has_mac_bundle(#[trigger] products@[j], bundle_id@),
        },
{
    let mut i: usize = products.len();
    while i > 0
        invariant
            i <= products.len(),
            forall|j: int| i <= j < products.len() ==> !has_mac_bundle(#[trigger] products@[j], bundle_id@),
        decreases i,
    {
        i -= 1;
        if product_has_mac_bundle(&products[i], bundle_id) {
            let version = String::from_str(short_version).concat(".").concat(build);
            proof {
                reveal_strlit(".");
            }
            return Some(
                InstalledProduct {
                    product_name: products[i].name.clone(),
                    version: Version(version),
                    package_name: String::from_str(bundle_id),
                    package_type: PackageType::App,
                    path: String::from_str(path),
                },
            );
        }
    }
    None
}

} // verus!

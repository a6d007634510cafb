//! The local cache index: entries decoded from cache file names, tied back
//! to the catalog, ordered, and searched.
use std::cmp::Ordering;
use vstd::prelude::*;

use crate::candidate::{
    InstallationCandidate, SearchCandidate, find_flavor_by_id, is_first_flavor_with_id,
};
use crate::platform::Platform;
use crate::product::{Product, find_product, is_first_product_named};
use crate::text::{cmp_text, eq_ignore_case, flip, lemma_text_cmp_flip, lower_of, split_on, text_cmp};
use crate::version::{lemma_version_cmp_flip, version_cmp};

verus! {

/// Whether the cache file name `name` names an entry of the catalog: it has
/// six fields, and its product and flavor are found up to case.
pub open spec fn is_cache_entry_name(name: Seq<char>, products: Seq<Product>) -> bool {
    let f = split_on(name, '@');
    &&& f.len() == 6
    &&& exists|i: int, k: int|
        is_first_product_named(products, f[0], i) && #[trigger] is_first_flavor_with_id(
            products[i].flavors@,
            f[2],
            k,
        )
}

/// Whether `c` is the cache entry that the file name `name` stands for: its
/// fields decoded, with the catalog's flavor.
pub open spec fn is_cache_entry_of(name: Seq<char>, products: Seq<Product>, c: InstallationCandidate) -> bool {
    let f = split_on(name, '@');
    &&& f.len() == 6
    &&& c.product_name@ == f[0]
    &&& c.identifier@ == f[3]
    &&& c.version@ == f[4]
    &&& c.remote_id@.len() == 0
    &&& c.repo_location@.len() == 0
    &&& !c.installed
    &&& exists|i: int, k: int|
        is_first_product_named(products, f[0], i) && #[trigger] is_first_flavor_with_id(
            products[i].flavors@,
            f[2],
            k,
        ) && c.flavor == products[i].flavors@[k]
}

/// The order of the cache index: flavor id ascending, then version
/// descending (incomparable versions tie), then identifier ascending.
#[verifier::opaque]
pub open spec fn entry_cmp(a: InstallationCandidate, b: InstallationCandidate) -> Ordering {
    let f = text_cmp(a.flavor.id@, b.flavor.id@);
    if f != Ordering::Equal {
        f
    } else {
        let v = match version_cmp(b.version@, a.version@) {
            Some(o) => o,
            None => Ordering::Equal,
        };
        if v != Ordering::Equal {
            v
        } else {
            text_cmp(a.identifier@, b.identifier@)
        }
    }
}

/// Whether no entry of `s` is ordered after its successor.
pub open spec fn is_ordered(s: Seq<InstallationCandidate>) -> bool {
    forall|i: int| 0 <= i < s.len() - 1 ==> #[trigger] entry_cmp(s[i], s[i + 1]) != Ordering::Greater
}

/// The order of the cache index is antisymmetric.
pub proof fn lemma_entry_cmp_flip(a: InstallationCandidate, b: InstallationCandidate)
    ensures
        entry_cmp(b, a) == flip(entry_cmp(a, b)),
{
    reveal(entry_cmp);
    lemma_text_cmp_flip(a.flavor.id@, b.flavor.id@);
    lemma_text_cmp_flip(a.identifier@, b.identifier@);
    lemma_version_cmp_flip(a.version@, b.version@);
}

/// Compares two cache entries in the order of the index.
pub fn compare_entries(a: &InstallationCandidate, b: &InstallationCandidate) -> (r: Ordering)
    ensures
        r == entry_cmp(*a, *b),
{
    reveal(entry_cmp);
    let f = cmp_text(a.flavor.id.as_str(), b.flavor.id.as_str());
    match f {
        Ordering::Equal => {},
        _ => {
            return f;
        },
    }
    let v = match b.version.compare(&a.version) {
        Some(o) => o,
        None => Ordering::Equal,
    };
    match v {
        Ordering::Equal => cmp_text(a.identifier.as_str(), b.identifier.as_str()),
        _ => v,
    }
}

/// Whether `a` comes after `b` in the order of the index.
fn is_after(a: &InstallationCandidate, b: &InstallationCandidate) -> (r: bool)
    ensures
        r == (entry_cmp(*a, *b) == Ordering::Greater),
{
    match compare_entries(a, b) {
        Ordering::Greater => true,
        _ => false,
    }
}

proof fn lemma_insert_multiset(s: Seq<InstallationCandidate>, j: int, x: InstallationCandidate)
    requires
        0 <= j <= s.len(),
    ensures
        s.insert(j, x).to_multiset() =~= s.to_multiset().insert(x),
{
    broadcast use vstd::seq_lib::group_to_multiset_ensures;

    let t = s.insert(j, x);
    assert(t.remove(j) =~= s);
    assert(t[j] == x);
    assert(t.contains(x));
}

proof fn lemma_insert_ordered(s: Seq<InstallationCandidate>, j: int, x: InstallationCandidate)
    requires
        is_ordered(s),
        0 <= j <= s.len(),
        j > 0 ==> entry_cmp(s[j - 1], x) != Ordering::Greater,
        j < s.len() ==> entry_cmp(s[j], x) == Ordering::Greater,
    ensures
        is_ordered(s.insert(j, x)),
{
    if j < s.len() {
        lemma_entry_cmp_flip(s[j], x);
    }
    let n = s.insert(j, x);
    assert forall|q: int| 0 <= q < n.len() - 1 implies #[trigger] entry_cmp(n[q], n[q + 1]) != Ordering::Greater by {
        if q < j - 1 {
            assert(n[q] == s[q] && n[q + 1] == s[q + 1]);
            assert(entry_cmp(s[q], s[q + 1]) != Ordering::Greater);
        } else if q == j - 1 {
            assert(n[q] == s[q] && n[q + 1] == x);
        } else if q == j {
            assert(n[q] == x && n[q + 1] == s[q]);
        } else {
            let p = q - 1;
            assert(n[q] == s[p] && n[q + 1] == s[p + 1]);
            assert(entry_cmp(s[p], s[p + 1]) != Ordering::Greater);
        }
    }
}

/// Orders cache entries: flavor id ascending, then version descending, then
/// identifier ascending. The result holds the same entries.
pub fn sort_cache_entries(entries: Vec<InstallationCandidate>) -> (r: Vec<InstallationCandidate>)
    ensures
        r@.to_multiset() == entries@.to_multiset(),
        is_ordered(r@),
{
    let ghost orig = entries@;
    let mut rest = entries;
    let mut out: Vec<InstallationCandidate> = Vec::new();
    let ghost mut i: int = 0;
    assert(orig.subrange(0, 0) =~= Seq::<InstallationCandidate>::empty());
    while rest.len() > 0
        invariant
            0 <= i <= orig.len(),
            rest@ == orig.subrange(i, orig.len() as int),
            out@.to_multiset() == orig.subrange(0, i).to_multiset(),
            is_ordered(out@),
        decreases rest.len(),
    {
        let x = rest.remove(0);
        assert(x == orig[i]);
        let mut j: usize = out.len();
        while j > 0 && is_after(&out[j - 1], &x)
            invariant
                j <= out.len(),
                forall|q: int| j <= q < out.len() ==> entry_cmp(#[trigger] out@[q], x) == Ordering::Greater,
            decreases j,
        {
            j -= 1;
        }
        let ghost old_out = out@;
        proof {
            lemma_insert_ordered(old_out, j as int, x);
            lemma_insert_multiset(old_out, j as int, x);
            assert(orig.subrange(0, i + 1) =~= orig.subrange(0, i).push(x));
            vstd::seq_lib::to_multiset_build(orig.subrange(0, i), x);
        }
        out.insert(j, x);
        proof {
            i = i + 1;
        }
    }
    assert(orig.subrange(0, i) =~= orig);
    out
}

/// Whether `f` holds, in the order of `names`, the cache entry of each
/// name that names one, and nothing else.
pub open spec fn is_resolution_of(names: Seq<String>, products: Seq<Product>, f: Seq<InstallationCandidate>) -> bool {
    exists|idx: Seq<int>|
        {
            &&& idx.len() == f.len()
            &&& forall|a: int, b: int| 0 <= a < b < idx.len() ==> idx[a] < idx[b]
            &&& forall|k: int|
                0 <= k < idx.len() ==> 0 <= #[trigger] idx[k] < names.len() && is_cache_entry_of(
                    names[idx[k]]@,
                    products,
                    f[k],
                )
            &&& forall|j: int|
                0 <= j < names.len() ==> (is_cache_entry_name(#[trigger] names[j]@, products)
                    <==> idx.contains(j))
        }
}

/// Decodes the cache file names `names` into entries, keeping those whose
/// product and flavor are in the catalog, in the order of `names`.
pub fn resolve_cache_entries(names: &Vec<String>, products: &Vec<Product>, platform: Platform) -> (r: Vec<InstallationCandidate>)
    ensures
        is_resolution_of(names@, products@, r@),
{
    let mut out: Vec<InstallationCandidate> = Vec::new();
    let ghost mut idx: Seq<int> = Seq::empty();
    let mut j: usize = 0;
    while j < names.len()
        invariant
            j <= names.len(),
            idx.len() == out.len(),
            forall|a: int, b: int| 0 <= a < b < idx.len() ==> idx[a] < idx[b],
            forall|k: int|
                0 <= k < idx.len() ==> 0 <= #[trigger] idx[k] < j && is_cache_entry_of(
                    names@[idx[k]]@,
                    products@,
                    out@[k],
                ),
            forall|q: int|
                0 <= q < j ==> (is_cache_entry_name(#[trigger] names@[q]@, products@) <==> idx.contains(q)),
        decreases names.len() - j,
    {
        let ghost f = split_on(names@[j as int]@, '@');
        let ghost old_idx = idx;
        match InstallationCandidate::from_cached_file_name(names[j].as_str(), platform) {
            Ok(mut ci) => {
                match find_product(ci.product_name.as_str(), products) {
                    Some(pi) => {
                        let product = &products[pi];
                        match find_flavor_by_id(&product.flavors, ci.flavor.id.as_str()) {
                            Some(k) => {
                                ci.flavor = product.flavors[k].clone();
                                out.push(ci);
                                proof {
                                    idx = idx.push(j as int);
                                    assert(is_cache_entry_of(names@[j as int]@, products@, out@[out.len() - 1]));
                                    assert forall|q: int| 0 <= q < j + 1 implies (is_cache_entry_name(#[trigger] names@[q]@, products@) <==> idx.contains(q)) by {
                                        if q < j {
                                            if old_idx.contains(q) {
                                                let w = choose|w: int| 0 <= w < old_idx.len() && old_idx[w] == q;
                                                assert(idx[w] == q);
                                            }
                                            if idx.contains(q) {
                                                let w = choose|w: int| 0 <= w < idx.len() && idx[w] == q;
                                                assert(w < old_idx.len());
                                                assert(old_idx[w] == q);
                                            }
                                        } else {
                                            assert(idx[idx.len() - 1] == q);
                                        }
                                    }
                                }
                            },
                            None => {
                                proof {
                                    assert(!is_cache_entry_name(names@[j as int]@, products@)) by {
                                        if is_cache_entry_name(names@[j as int]@, products@) {
                                            let (i2, k2) = choose|i2: int, k2: int|
                                                is_first_product_named(products@, f[0], i2) && #[trigger] is_first_flavor_with_id(
                                                    products@[i2].flavors@,
                                                    f[2],
                                                    k2,
                                                );
                                            assert(i2 == pi as int);
                                            assert(lower_of(products@[i2].flavors@[k2].id@) != lower_of(f[2]));
                                        }
                                    }
                                }
                            },
                        }
                    },
                    None => {
                        proof {
                            assert(!is_cache_entry_name(names@[j as int]@, products@)) by {
                                if is_cache_entry_name(names@[j as int]@, products@) {
                                    let (i2, k2) = choose|i2: int, k2: int|
                                        is_first_product_named(products@, f[0], i2) && #[trigger] is_first_flavor_with_id(
                                            products@[i2].flavors@,
                                            f[2],
                                            k2,
                                        );
                                    assert(lower_of(products@[i2].name@) != lower_of(f[0]));
                                }
                            }
                        }
                    },
                }
            },
            Err(_) => {},
        }
        proof {
            assert forall|q: int| 0 <= q < j + 1 implies (is_cache_entry_name(#[trigger] names@[q]@, products@) <==> idx.contains(q)) by {
                if q == j && idx.contains(q) {
                    let w = choose|w: int| 0 <= w < idx.len() && idx[w] == q;
                    if w < old_idx.len() {
                        assert(old_idx[w] < j);
                    }
                }
            }
        }
        j += 1;
    }
    out
}

/// Whether `c` is the cache entry of one of the file names `names`.
pub open spec fn is_entry_of_some_name(names: Seq<String>, products: Seq<Product>, c: InstallationCandidate) -> bool {
    exists|j: int| 0 <= j < names.len() && is_cache_entry_of(#[trigger] names[j]@, products, c)
}

/// Whether `entries` holds the cache entry of the file name `name`.
pub open spec fn has_entry_of_name(entries: Seq<InstallationCandidate>, products: Seq<Product>, name: Seq<char>) -> bool {
    exists|k: int| 0 <= k < entries.len() && is_cache_entry_of(name, products, #[trigger] entries[k])
}

proof fn lemma_index_entries(
    names: Seq<String>,
    products: Seq<Product>,
    f: Seq<InstallationCandidate>,
    sorted: Seq<InstallationCandidate>,
)
    requires
        sorted.to_multiset() == f.to_multiset(),
        is_resolution_of(names, products, f),
    ensures
        forall|k: int| 0 <= k < sorted.len() ==> is_entry_of_some_name(names, products, #[trigger] sorted[k]),
        forall|j: int|
            0 <= j < names.len() && is_cache_entry_name(#[trigger] names[j]@, products) ==> has_entry_of_name(sorted, products, names[j]@),
{
    sorted.to_multiset_ensures();
    f.to_multiset_ensures();
    let idx = choose|idx: Seq<int>|
        {
            &&& idx.len() == f.len()
            &&& forall|a: int, b: int| 0 <= a < b < idx.len() ==> idx[a] < idx[b]
            &&& forall|k: int|
                0 <= k < idx.len() ==> 0 <= #[trigger] idx[k] < names.len() && is_cache_entry_of(
                    names[idx[k]]@,
                    products,
                    f[k],
                )
            &&& forall|j: int|
                0 <= j < names.len() ==> (is_cache_entry_name(#[trigger] names[j]@, products)
                    <==> idx.contains(j))
        };
    assert forall|k: int| 0 <= k < sorted.len() implies is_entry_of_some_name(names, products, #[trigger] sorted[k]) by {
        assert(sorted.contains(sorted[k]));
        assert(sorted.to_multiset().count(sorted[k]) > 0);
        assert(f.to_multiset().count(sorted[k]) > 0);
        assert(f.contains(sorted[k]));
        let w = choose|w: int| 0 <= w < f.len() && f[w] == sorted[k];
        assert(0 <= idx[w] < names.len());
        assert(is_cache_entry_of(names[idx[w]]@, products, sorted[k]));
    }
    assert forall|j: int| 0 <= j < names.len() && is_cache_entry_name(#[trigger] names[j]@, products) implies has_entry_of_name(sorted, products, names[j]@) by {
        assert(idx.contains(j));
        let w = choose|w: int| 0 <= w < idx.len() && idx[w] == j;
        assert(f.contains(f[w]));
        assert(f.to_multiset().count(f[w]) > 0);
        assert(sorted.to_multiset().count(f[w]) > 0);
        assert(sorted.contains(f[w]));
        let k = choose|k: int| 0 <= k < sorted.len() && sorted[k] == f[w];
        assert(is_cache_entry_of(names[j]@, products, sorted[k]));
    }
}

/// The cache index of the directory entries `names`: the entries that name
/// a product and flavor of the catalog, one per such name, in the order of
/// the index.
pub fn index_cache(names: &Vec<String>, products: &Vec<Product>, platform: Platform) -> (r: Vec<InstallationCandidate>)
    ensures
        is_ordered(r@),
        forall|k: int| 0 <= k < r.len() ==> is_entry_of_some_name(names@, products@, #[trigger] r@[k]),
        forall|j: int|
            0 <= j < names.len() && is_cache_entry_name(#[trigger] names@[j]@, products@) ==> has_entry_of_name(r@, products@, names@[j]@),
        exists|f: Seq<InstallationCandidate>|
            #[trigger] is_resolution_of(names@, products@, f) && r@.to_multiset() == f.to_multiset(),
{
    let found = resolve_cache_entries(names, products, platform);
    let ghost f = found@;
    let sorted = sort_cache_entries(found);
    proof {
        lemma_index_entries(names@, products@, f, sorted@);
        assert(is_resolution_of(names@, products@, f));
    }
    sorted
}

/// Whether cache entry `e` satisfies `search`: same platform, product and
/// flavor (up to case), and the version if one is set, else the identifier if
/// one is set.
pub open spec fn entry_matches(e: InstallationCandidate, search: SearchCandidate) -> bool {
    &&& e.flavor.platform == search.flavor.platform
    &&& lower_of(e.product_name@) == lower_of(search.product_name@)
    &&& lower_of(e.flavor.id@) == lower_of(search.flavor.id@)
    &&& match search.version {
        Some(v) => lower_of(v@) == lower_of(e.version@),
        None => match search.identifier {
            Some(i) => lower_of(i@) == lower_of(e.identifier@),
            None => true,
        },
    }
}

/// The first entry of the cache index that satisfies `search`.
pub fn locate_in_cache(entries: &Vec<InstallationCandidate>, search: &SearchCandidate) -> (r: Option<InstallationCandidate>)
    ensures
        match r {
            Some(c) => exists|i: int|
                0 <= i < entries.len() && c == entries@[i] && entry_matches(entries@[i], *search)
                    && forall|j: int| 0 <= j < i ==> !entry_matches(#[trigger] entries@[j], *search),
            None => forall|j: int| 0 <= j < entries.len() ==> !entry_matches(#[trigger] entries@[j], *search),
        },
{
    let mut i: usize = 0;
    while i < entries.len()
        invariant
            i <= entries.len(),
            forall|j: int| 0 <= j < i ==> !entry_matches(#[trigger] entries@[j], *search),
        decreases entries.len() - i,
    {
        let e = &entries[i];
        let same = e.flavor.platform == search.flavor.platform && eq_ignore_case(
            e.product_name.as_str(),
            search.product_name.as_str(),
        ) && eq_ignore_case(e.flavor.id.as_str(), search.flavor.id.as_str());
        if same {
            let hit = match &search.version {
                Some(v) => eq_ignore_case(v.as_str(), e.version.as_str()),
                None => match &search.identifier {
                    Some(id) => eq_ignore_case(id.as_str(), e.identifier.as_str()),
                    None => true,
                },
            };
            if hit {
                return Some(e.clone());
            }
        }
        i += 1;
    }
    None
}

/// A version in a search is a hard filter: an entry of another version is
/// passed over even where it sorts first, and the first entry of the
/// searched version (same platform, product and flavor, all up to case) is
/// the one found.
pub proof fn lemma_version_is_hard_filter(entries: Seq<InstallationCandidate>, search: SearchCandidate, i: int)
    requires
        search.version is Some,
        0 <= i < entries.len(),
        entries[i].flavor.platform == search.flavor.platform,
        lower_of(entries[i].product_name@) == lower_of(search.product_name@),
        lower_of(entries[i].flavor.id@) == lower_of(search.flavor.id@),
        lower_of(entries[i].version@) == lower_of(search.version->0@),
        forall|j: int|
            0 <= j < i ==> lower_of(#[trigger] entries[j].version@) != lower_of(search.version->0@),
    ensures
        entry_matches(entries[i], search),
        forall|j: int| 0 <= j < i ==> !entry_matches(#[trigger] entries[j], search),
{
}

} // verus!

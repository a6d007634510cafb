//! Build versions: one to four numeric groups separated by `.` or `-`,
//! compared group by group as integers, with a shorter version padded by
//! zero groups. A text outside that grammar compares with nothing.
use std::cmp::Ordering;
use vstd::prelude::*;

use crate::text::{all_digits, chars_of, flip, is_digit};

verus! {

/// Whether `c` separates two groups of a version.
pub open spec fn is_separator(c: char) -> bool {
    c == '.' || c == '-'
}

/// The pieces of `s` between separator characters, empty pieces included.
pub open spec fn split_groups(s: Seq<char>) -> Seq<Seq<char>>
    decreases s.len(),
{
    if s.len() == 0 {
        seq![Seq::<char>::empty()]
    } else {
        let g = split_groups(s.drop_last());
        if is_separator(s.last()) {
            g.push(Seq::<char>::empty())
        } else {
            g.update(g.len() - 1, g.last().push(s.last()))
        }
    }
}

/// Whether `s` is one to four non-empty digit groups joined by separators.
pub open spec fn is_version_text(s: Seq<char>) -> bool {
    let g = split_groups(s);
    &&& g.len() <= 4
    &&& forall|i: int| 0 <= i < g.len() ==> (#[trigger] g[i]).len() > 0 && all_digits(g[i])
}

/// The value of a decimal digit.
pub open spec fn digit_value(c: char) -> nat {
    (c as nat - '0' as nat) as nat
}

/// The number written by the digits of `s`; the empty text is zero.
pub open spec fn digits_value(s: Seq<char>) -> nat
    decreases s.len(),
{
    if s.len() == 0 {
        0
    } else {
        digits_value(s.drop_last()) * 10 + digit_value(s.last())
    }
}

/// The value of group `k`, zero past the last group.
pub open spec fn group_value(g: Seq<Seq<char>>, k: int) -> nat {
    if 0 <= k < g.len() {
        digits_value(g[k])
    } else {
        0
    }
}

/// Three-way comparison of two naturals.
pub open spec fn cmp_nat(a: nat, b: nat) -> Ordering {
    if a < b {
        Ordering::Less
    } else if a > b {
        Ordering::Greater
    } else {
        Ordering::Equal
    }
}

/// Comparison of the padded groups from position `k` on: the first
/// difference decides.
pub open spec fn cmp_groups_from(a: Seq<Seq<char>>, b: Seq<Seq<char>>, k: int) -> Ordering
    decreases 4 - k,
{
    if k >= 4 {
        Ordering::Equal
    } else {
        let c = cmp_nat(group_value(a, k), group_value(b, k));
        if c == Ordering::Equal {
            cmp_groups_from(a, b, k + 1)
        } else {
            c
        }
    }
}

/// The comparison of two version texts: `None` where either is outside the
/// grammar.
pub open spec fn version_cmp(a: Seq<char>, b: Seq<char>) -> Option<Ordering> {
    if is_version_text(a) && is_version_text(b) {
        Some(cmp_groups_from(split_groups(a), split_groups(b), 0))
    } else {
        None
    }
}

/// Two version texts are equal when both are in the grammar and their padded
/// groups have the same values.
pub open spec fn version_eq(a: Seq<char>, b: Seq<char>) -> bool {
    version_cmp(a, b) == Some(Ordering::Equal)
}

/// The number of `.` characters in `s`.
pub open spec fn count_dots(s: Seq<char>) -> nat
    decreases s.len(),
{
    if s.len() == 0 {
        0
    } else {
        count_dots(s.drop_last()) + if s.last() == '.' { 1nat } else { 0nat }
    }
}

/// `n` copies of `.0`.
pub open spec fn zero_parts(n: nat) -> Seq<char>
    decreases n,
{
    if n == 0 {
        Seq::<char>::empty()
    } else {
        zero_parts((n - 1) as nat) + seq!['.', '0']
    }
}

/// `s` followed by as many `.0` as make four `.`-separated parts.
pub open spec fn four_part_text(s: Seq<char>) -> Seq<char> {
    if count_dots(s) >= 3 {
        s
    } else {
        s + zero_parts((3 - count_dots(s)) as nat)
    }
}

proof fn lemma_cmp_groups_flip(a: Seq<Seq<char>>, b: Seq<Seq<char>>, k: int)
    ensures
        cmp_groups_from(b, a, k) == flip(cmp_groups_from(a, b, k)),
    decreases 4 - k,
{
    if k < 4 {
        lemma_cmp_groups_flip(a, b, k + 1);
    }
}

/// Swapping the two sides of a version comparison flips its result.
pub proof fn lemma_version_cmp_flip(a: Seq<char>, b: Seq<char>)
    ensures
        version_cmp(b, a) == match version_cmp(a, b) {
            Some(o) => Some(flip(o)),
            None => None,
        },
{
    lemma_cmp_groups_flip(split_groups(a), split_groups(b), 0);
}

/// A build version as written by the repository or the user.
#[derive(Debug)]
pub struct Version(pub String);

impl Clone for Version {
    fn clone(&self) -> (r: Version)
        ensures
            r@ == self@,
    {
        Version(self.0.clone())
    }
}

impl View for Version {
    type V = Seq<char>;

    open spec fn view(&self) -> Seq<char> {
        self.0@
    }
}

proof fn lemma_split_groups_nonempty(s: Seq<char>)
    ensures
        split_groups(s).len() >= 1,
    decreases s.len(),
{
    if s.len() > 0 {
        lemma_split_groups_nonempty(s.drop_last());
    }
}

proof fn lemma_value_step(a: nat, b: nat, da: nat, db: nat)
    requires
        da < 10,
        db < 10,
    ensures
        a < b ==> a * 10 + da < b * 10 + db,
        a > b ==> a * 10 + da > b * 10 + db,
        a == b ==> cmp_nat(a * 10 + da, b * 10 + db) == cmp_nat(da, db),
{
    if a < b {
        assert(a * 10 + 10 <= b * 10) by (nonlinear_arith)
            requires
                a < b,
        ;
    }
    if a > b {
        assert(b * 10 + 10 <= a * 10) by (nonlinear_arith)
            requires
                a > b,
        ;
    }
}

/// The digit text `s` left-padded with `0` to length `n`.
spec fn padded(s: Seq<char>, n: int) -> Seq<char> {
    Seq::new(n as nat, |k: int| if k < n - s.len() { '0' } else { s[k - (n - s.len())] })
}

proof fn lemma_padded_value(s: Seq<char>, n: int)
    requires
        s.len() <= n,
    ensures
        digits_value(padded(s, n)) == digits_value(s),
    decreases n,
{
    if n == 0 {
    } else if s.len() == 0 {
        lemma_padded_value(s, n - 1);
        assert(padded(s, n).drop_last() =~= padded(s, n - 1));
    } else {
        lemma_padded_value(s.drop_last(), n - 1);
        assert(padded(s, n).drop_last() =~= padded(s.drop_last(), n - 1));
    }
}

/// Compares two digit texts as the numbers they write.
fn compare_digits(a: &Vec<char>, b: &Vec<char>) -> (r: Ordering)
    requires
        all_digits(a@),
        all_digits(b@),
    ensures
        r == cmp_nat(digits_value(a@), digits_value(b@)),
{
    let n: usize = if a.len() < b.len() { b.len() } else { a.len() };
    let ghost pa = padded(a@, n as int);
    let ghost pb = padded(b@, n as int);
    let mut r = Ordering::Equal;
    let mut k: usize = 0;
    while k < n
        invariant
            k <= n,
            n >= a.len(),
            n >= b.len(),
            pa == padded(a@, n as int),
            pb == padded(b@, n as int),
            all_digits(a@),
            all_digits(b@),
            r == cmp_nat(digits_value(pa.subrange(0, k as int)), digits_value(pb.subrange(0, k as int))),
        decreases n - k,
    {
        let da: char = if k < n - a.len() { '0' } else { a[k - (n - a.len())] };
        let db: char = if k < n - b.len() { '0' } else { b[k - (n - b.len())] };
        proof {
            assert(pa[k as int] == da);
            assert(pb[k as int] == db);
            assert(is_digit(da));
            assert(is_digit(db));
            assert(pa.subrange(0, k + 1).drop_last() =~= pa.subrange(0, k as int));
            assert(pb.subrange(0, k + 1).drop_last() =~= pb.subrange(0, k as int));
            lemma_value_step(
                digits_value(pa.subrange(0, k as int)),
                digits_value(pb.subrange(0, k as int)),
                digit_value(da),
                digit_value(db),
            );
        }
        match r {
            Ordering::Equal => {
                if da < db {
                    r = Ordering::Less;
                } else if da > db {
                    r = Ordering::Greater;
                }
            },
            _ => {},
        }
        k += 1;
    }
    proof {
        assert(pa.subrange(0, n as int) =~= pa);
        assert(pb.subrange(0, n as int) =~= pb);
        lemma_padded_value(a@, n as int);
        lemma_padded_value(b@, n as int);
    }
    r
}

/// Splits `s` into its groups; `None` where `s` is outside the grammar.
fn parse_groups(s: &Vec<char>) -> (r: Option<Vec<Vec<char>>>)
    ensures
        match r {
            Some(g) => is_version_text(s@) && g@.map_values(|v: Vec<char>| v@) == split_groups(
                s@,
            ),
            None => !is_version_text(s@),
        },
{
    let mut groups: Vec<Vec<char>> = Vec::new();
    let mut cur: Vec<char> = Vec::new();
    let mut i: usize = 0;
    while i < s.len()
        invariant
            i <= s.len(),
            groups@.map_values(|v: Vec<char>| v@).push(cur@) == split_groups(
                s@.subrange(0, i as int),
            ),
        decreases s.len() - i,
    {
        let c = s[i];
        proof {
            assert(s@.subrange(0, i + 1).drop_last() =~= s@.subrange(0, i as int));
            lemma_split_groups_nonempty(s@.subrange(0, i as int));
        }
        if c == '.' || c == '-' {
            let done = cur;
            groups.push(done);
            cur = Vec::new();
            proof {
                assert(groups@.map_values(|v: Vec<char>| v@).push(cur@) =~= split_groups(
                    s@.subrange(0, i + 1),
                ));
            }
        } else {
            cur.push(c);
            proof {
                assert(groups@.map_values(|v: Vec<char>| v@).push(cur@) =~= split_groups(
                    s@.subrange(0, i + 1),
                ));
            }
        }
        i += 1;
    }
    groups.push(cur);
    proof {
        assert(s@.subrange(0, s@.len() as int) =~= s@);
        assert(groups@.map_values(|v: Vec<char>| v@) =~= split_groups(s@));
    }
    let ghost g = split_groups(s@);
    if groups.len() > 4 {
        return None;
    }
    let mut j: usize = 0;
    while j < groups.len()
        invariant
            j <= groups.len(),
            groups.len() <= 4,
            groups@.map_values(|v: Vec<char>| v@) == g,
            g == split_groups(s@),
            forall|i: int| 0 <= i < j ==> (#[trigger] g[i]).len() > 0 && all_digits(g[i]),
        decreases groups.len() - j,
    {
        assert(groups@[j as int]@ == g[j as int]);
        if groups[j].len() == 0 {
            return None;
        }
        let mut m: usize = 0;
        while m < groups[j].len()
            invariant
                j < groups.len(),
                groups@.map_values(|v: Vec<char>| v@) == g,
                g == split_groups(s@),
                m <= groups@[j as int]@.len(),
                groups@[j as int]@ == g[j as int],
                forall|q: int| 0 <= q < m ==> is_digit(#[trigger] g[j as int][q]),
            decreases groups@[j as int]@.len() - m,
        {
            let c = groups[j][m];
            if !('0' <= c && c <= '9') {
                assert(!is_digit(g[j as int][m as int]));
                return None;
            }
            m += 1;
        }
        j += 1;
    }
    Some(groups)
}

/// Compares two group lists after padding both with zero groups to four.
fn compare_groups(a: &Vec<Vec<char>>, b: &Vec<Vec<char>>) -> (r: Ordering)
    requires
        a.len() <= 4,
        b.len() <= 4,
        forall|i: int| 0 <= i < a.len() ==> all_digits(#[trigger] a@[i]@),
        forall|i: int| 0 <= i < b.len() ==> all_digits(#[trigger] b@[i]@),
    ensures
        r == cmp_groups_from(
            a@.map_values(|v: Vec<char>| v@),
            b@.map_values(|v: Vec<char>| v@),
            0,
        ),
{
    let ghost ga = a@.map_values(|v: Vec<char>| v@);
    let ghost gb = b@.map_values(|v: Vec<char>| v@);
    let empty: Vec<char> = Vec::new();
    let mut k: usize = 0;
    while k < 4
        invariant
            k <= 4,
            empty@.len() == 0,
            ga == a@.map_values(|v: Vec<char>| v@),
            gb == b@.map_values(|v: Vec<char>| v@),
            forall|i: int| 0 <= i < a.len() ==> all_digits(#[trigger] a@[i]@),
            forall|i: int| 0 <= i < b.len() ==> all_digits(#[trigger] b@[i]@),
            cmp_groups_from(ga, gb, 0) == cmp_groups_from(ga, gb, k as int),
        decreases 4 - k,
    {
        let x: &Vec<char> = if k < a.len() { &a[k] } else { &empty };
        let y: &Vec<char> = if k < b.len() { &b[k] } else { &empty };
        assert(digits_value(x@) == group_value(ga, k as int));
        assert(digits_value(y@) == group_value(gb, k as int));
        let c = compare_digits(x, y);
        match c {
            Ordering::Equal => {},
            _ => {
                return c;
            },
        }
        k += 1;
    }
    Ordering::Equal
}

impl Version {
    pub fn new(version_str: &str) -> (r: Version)
        ensures
            r@ == version_str@,
    {
        Version(String::from_str(version_str))
    }

    /// The text of this version.
    pub fn as_str(&self) -> (r: &str)
        ensures
            r@ == self@,
    {
        self.0.as_str()
    }

    /// This version with `.0` appended until it has four `.`-separated parts.
    pub fn make_version_4_parts(&self) -> (r: Version)
        ensures
            r@ == four_part_text(self@),
    {
        let s = self.as_str();
        let n = s.unicode_len();
        let mut dots: usize = 0;
        let mut i: usize = 0;
        while i < n
            invariant
                i <= n,
                n == s@.len(),
                s@ == self@,
                dots == count_dots(s@.subrange(0, i as int)),
                dots <= i,
            decreases n - i,
        {
            assert(s@.subrange(0, i + 1).drop_last() =~= s@.subrange(0, i as int));
            if s.get_char(i) == '.' {
                dots += 1;
            }
            i += 1;
        }
        assert(s@.subrange(0, n as int) =~= s@);
        let mut out = String::from_str(s);
        if dots < 3 {
            let mut added: usize = 0;
            while added < 3 - dots
                invariant
                    dots < 3,
                    dots == count_dots(self@),
                    added <= 3 - dots,
                    out@ == self@ + zero_parts(added as nat),
                decreases 3 - dots - added,
            {
                out.append(".0");
                proof {
                    reveal_strlit(".0");
                    assert(out@ =~= self@ + zero_parts((added + 1) as nat));
                }
                added += 1;
            }
        } else {
            assert(out@ =~= self@);
        }
        Version(out)
    }

    /// The three-way comparison of two versions, `None` where either is
    /// outside the version grammar.
    pub fn compare(&self, other: &Version) -> (r: Option<Ordering>)
        ensures
            r == version_cmp(self@, other@),
    {
        let a = chars_of(self.as_str());
        let b = chars_of(other.as_str());
        let ga = parse_groups(&a);
        let gb = parse_groups(&b);
        match (ga, gb) {
            (Some(x), Some(y)) => {
                proof {
                    assert forall|i: int| 0 <= i < x.len() implies all_digits(#[trigger] x@[i]@) by {
                        assert(x@.map_values(|v: Vec<char>| v@)[i] == x@[i]@);
                    }
                    assert forall|i: int| 0 <= i < y.len() implies all_digits(#[trigger] y@[i]@) by {
                        assert(y@.map_values(|v: Vec<char>| v@)[i] == y@[i]@);
                    }
                }
                Some(compare_groups(&x, &y))
            },
            _ => None,
        }
    }

    /// Whether both versions are in the grammar and name the same build.
    pub fn equals(&self, other: &Version) -> (r: bool)
        ensures
            r == version_eq(self@, other@),
    {
        match self.compare(other) {
            Some(Ordering::Equal) => true,
            _ => false,
        }
    }
}

impl PartialEq for Version {
    fn eq(&self, other: &Version) -> (r: bool) {
        self.equals(other)
    }
}

impl vstd::std_specs::cmp::PartialEqSpecImpl for Version {
    open spec fn obeys_eq_spec() -> bool {
        true
    }

    open spec fn eq_spec(&self, other: &Version) -> bool {
        version_eq(self@, other@)
    }
}

impl PartialOrd for Version {
    fn partial_cmp(&self, other: &Version) -> (r: Option<Ordering>) {
        self.compare(other)
    }
}

impl vstd::std_specs::cmp::PartialOrdSpecImpl for Version {
    open spec fn obeys_partial_cmp_spec() -> bool {
        true
    }

    open spec fn partial_cmp_spec(&self, other: &Version) -> Option<Ordering> {
        version_cmp(self@, other@)
    }
}

} // verus!

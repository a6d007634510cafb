//! What the user asked to install: a build number or a branch.
use vstd::prelude::*;

use crate::error::GManError;
use crate::text::{chars_of, is_digit};
use crate::version::is_separator;

verus! {

/// A build number, or a branch or tag name.
#[derive(Debug, PartialEq, Eq)]
pub enum Target {
    Version(String),
    Identifier(String),
}

/// Whether `s` reads as a build number: digit groups, each optionally
/// followed by one `.` or `-`.
pub open spec fn is_build_number(s: Seq<char>) -> bool {
    &&& s.len() > 0
    &&& is_digit(s[0])
    &&& forall|i: int| 0 <= i < s.len() ==> is_digit(#[trigger] s[i]) || is_separator(s[i])
    &&& forall|i: int| 0 <= i < s.len() - 1 && is_separator(#[trigger] s[i]) ==> is_digit(s[i + 1])
}

impl Target {
    /// A build number where `s` reads as one, else a branch name.
    pub fn parse(s: &str) -> (r: Target)
        ensures
            match r {
                Target::Version(v) => is_build_number(s@) && v@ == s@,
                Target::Identifier(i) => !is_build_number(s@) && i@ == s@,
            },
    {
        let c = chars_of(s);
        let n = c.len();
        let mut ok = n > 0 && '0' <= c[0] && c[0] <= '9';
        let mut i: usize = 0;
        while i < n && ok
            invariant
                i <= n,
                n == s@.len(),
                c@ == s@,
                ok ==> s@.len() > 0 && is_digit(s@[0]),
                ok ==> forall|j: int| 0 <= j < i ==> is_digit(#[trigger] s@[j]) || is_separator(s@[j]),
                ok ==> forall|j: int| 0 <= j < i && j < n - 1 && is_separator(#[trigger] s@[j]) ==> is_digit(s@[j + 1]),
                !ok ==> !is_build_number(s@),
            decreases n - i,
        {
            let x = c[i];
            if x == '.' || x == '-' {
                if i + 1 < n && !('0' <= c[i + 1] && c[i + 1] <= '9') {
                    ok = false;
                }
            } else if !('0' <= x && x <= '9') {
                ok = false;
            }
            i += 1;
        }
        if ok {
            Target::Version(String::from_str(s))
        } else {
            Target::Identifier(String::from_str(s))
        }
    }

    /// The text of the target.
    pub fn to_string(&self) -> (r: String)
        ensures
            r@ == match self {
                Target::Version(s) => s@,
                Target::Identifier(s) => s@,
            },
    {
        match self {
            Target::Version(s) => s.clone(),
            Target::Identifier(s) => s.clone(),
        }
    }
}

impl std::str::FromStr for Target {
    type Err = GManError;

    fn from_str(s: &str) -> Result<Target, GManError> {
        Ok(Target::parse(s))
    }
}

} // verus!

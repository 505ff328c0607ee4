//! Filters that narrow the findings and assets a dashboard lists.
use vstd::prelude::*;
use crate::model::{Severity, severity_name};
use crate::text::{chars_of, eq_str};

verus! {

/// ASCII letters folded to lower case; every other character unchanged.
pub open spec fn ascii_lower(c: char) -> char {
    if 'A' <= c && c <= 'Z' {
        ((c as u8) + 32) as char
    } else {
        c
    }
}

/// Equality up to ASCII case, as `str::eq_ignore_ascii_case` decides it.
pub open spec fn eq_ignore_ascii_case(a: Seq<char>, b: Seq<char>) -> bool {
    a.len() == b.len() && forall|i: int| 0 <= i < a.len() ==> ascii_lower(a[i]) == ascii_lower(b[i])
}

fn lower_char(c: char) -> (r: char)
    ensures
        r == ascii_lower(c),
{
    if 'A' <= c && c <= 'Z' {
        ((c as u8) + 32) as char
    } else {
        c
    }
}

/// Whether two strings are equal up to ASCII case.
pub fn same_ignoring_ascii_case(a: &str, b: &str) -> (r: bool)
    ensures
        r == eq_ignore_ascii_case(a@, b@),
{
    let x = chars_of(a);
    let y = chars_of(b);
    if x.len() != y.len() {
        return false;
    }
    let mut i: usize = 0;
    while i < x.len()
        invariant
            x@ == a@,
            y@ == b@,
            x@.len() == y@.len(),
            i <= x@.len(),
            forall|j: int| 0 <= j < i ==> ascii_lower(x@[j]) == ascii_lower(y@[j]),
        decreases x.len() - i,
    {
        if lower_char(x[i]) != lower_char(y[i]) {
            return false;
        }
        i = i + 1;
    }
    true
}

/// Asset criticality filter.
#[derive(Clone, Copy, PartialEq, Eq, Debug, Structural)]
pub enum CriticalityFilter {
    All,
    Critical,
    High,
    Medium,
    Low,
}

pub open spec fn criticality_name(f: CriticalityFilter) -> Seq<char> {
    match f {
        CriticalityFilter::All => "All"@,
        CriticalityFilter::Critical => "Critical"@,
        CriticalityFilter::High => "High"@,
        CriticalityFilter::Medium => "Medium"@,
        CriticalityFilter::Low => "Low"@,
    }
}

impl CriticalityFilter {
    pub fn as_str(&self) -> (r: &'static str)
        ensures
            r@ == criticality_name(*self),
    {
        match self {
            CriticalityFilter::All => "All",
            CriticalityFilter::Critical => "Critical",
            CriticalityFilter::High => "High",
            CriticalityFilter::Medium => "Medium",
            CriticalityFilter::Low => "Low",
        }
    }

    /// `All` admits everything; another filter admits its own name in any ASCII case.
    pub fn matches(&self, criticality: &str) -> (r: bool)
        ensures
            r == (*self == CriticalityFilter::All || eq_ignore_ascii_case(criticality_name(*self), criticality@)),
    {
        match self {
            CriticalityFilter::All => true,
            other => same_ignoring_ascii_case(other.as_str(), criticality),
        }
    }
}

/// Severity filter: every severity, or one.
#[derive(Clone, Copy, PartialEq, Eq, Debug, Structural)]
pub enum SeverityFilter {
    All,
    Only(Severity),
}

impl SeverityFilter {
    pub fn as_str(&self) -> (r: &'static str)
        ensures
            r@ == match *self {
                SeverityFilter::All => "All"@,
                SeverityFilter::Only(s) => severity_name(s),
            },
    {
        match self {
            SeverityFilter::All => "All",
            SeverityFilter::Only(s) => s.as_str(),
        }
    }

    pub fn matches(&self, severity: Severity) -> (r: bool)
        ensures
            r == match *self {
                SeverityFilter::All => true,
                SeverityFilter::Only(s) => s == severity,
            },
    {
        match self {
            SeverityFilter::All => true,
            SeverityFilter::Only(s) => *s == severity,
        }
    }
}

/// Asset filter: every asset, or the one of the given name.
#[derive(Clone, PartialEq, Debug)]
pub enum AssetFilter {
    All,
    Only(String),
}

impl AssetFilter {
    pub fn as_str(&self) -> (r: &str)
        ensures
            r@ == match self {
                AssetFilter::All => "All"@,
                AssetFilter::Only(s) => s@,
            },
    {
        match self {
            AssetFilter::All => "All",
            AssetFilter::Only(s) => s.as_str(),
        }
    }

    pub fn matches(&self, asset: &str) -> (r: bool)
        ensures
            r == match self {
                AssetFilter::All => true,
                AssetFilter::Only(s) => s@ == asset@,
            },
    {
        match self {
            AssetFilter::All => true,
            AssetFilter::Only(s) => {
                let cs = chars_of(asset);
                eq_str(cs.as_slice(), s.as_str())
            },
        }
    }
}

} // verus!

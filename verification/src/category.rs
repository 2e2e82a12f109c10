use vstd::prelude::*;

verus! {

/// The closed set of record collections the remote case-management service
/// exposes. A run crawls exactly one of them.
#[derive(Clone, Copy, PartialEq, Eq, Structural, Debug)]
pub enum CaseCategory {
    MissingPersons,
    UnidentifiedPersons,
    UnclaimedPersons,
}

/// The path segment that names a category in the remote API.
pub open spec fn category_label(c: CaseCategory) -> Seq<char> {
    match c {
        CaseCategory::MissingPersons => "MissingPersons"@,
        CaseCategory::UnidentifiedPersons => "UnidentifiedPersons"@,
        CaseCategory::UnclaimedPersons => "UnclaimedPersons"@,
    }
}

impl CaseCategory {
    /// The display mapping used when a category is spliced into a request
    /// path: a pure, total function with no fallback arm, since an unmapped
    /// variant would be a programming error rather than a runtime condition.
    pub fn label(&self) -> (r: String)
        ensures
            r@ == category_label(*self),
    {
        match self {
            CaseCategory::MissingPersons => "MissingPersons".to_owned(),
            CaseCategory::UnidentifiedPersons => "UnidentifiedPersons".to_owned(),
            CaseCategory::UnclaimedPersons => "UnclaimedPersons".to_owned(),
        }
    }
}

} // verus!

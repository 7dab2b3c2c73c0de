//! Turning the label that a user picked into the revision to activate.

use crate::history::{lookup, VersionHistory};
use vstd::prelude::*;

verus! {

/// Why a picked label gives no revision.
#[derive(Clone, Debug, PartialEq, Eq)]
pub enum SelectionError {
    /// The label is not in the history of the package.
    UnknownVersion { package: String, version: String },
}

/// The revision recorded for `label` in the history of `package`.
pub fn resolve_selection(history: &VersionHistory, package: &String, label: &String) -> (r: Result<
    String,
    SelectionError,
>)
    ensures
        lookup(history@, label@) is Some ==> r is Ok && r.unwrap()@ == lookup(history@, label@).unwrap(),
        lookup(history@, label@) is None ==> (match r {
            Err(SelectionError::UnknownVersion { package: p, version: v }) => p@ == package@ && v@ == label@,
            Ok(_) => false,
        }),
{
    match history.get(label) {
        Some(rev) => Ok(rev),
        None => Err(SelectionError::UnknownVersion { package: package.clone(), version: label.clone() }),
    }
}

} // verus!

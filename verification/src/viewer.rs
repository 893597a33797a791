//! The `whoami` row.

use vstd::prelude::*;

verus! {

/// The authenticated user's row.
pub struct ViewerRow {
    pub id: String,
    pub display_name: String,
    pub email: String,
    pub active: bool,
    pub organization: OrgRef,
}

/// The user's organization.
pub struct OrgRef {
    pub name: String,
}

impl OrgRef {
    /// How the organization is shown in the table: its name.
    pub fn display_text(&self) -> (r: String)
        ensures
            r@ == self.name@,
    {
        self.name.clone()
    }
}

} // verus!

//! The hint that a newer release is available, shown after `--help` and `usage`.

use vstd::prelude::*;
use crate::text::text_equal;

verus! {

/// The hint for the installed version `current` and the latest known release:
/// empty unless a latest release is known and differs from `current`.
pub open spec fn update_hint(current: Seq<char>, latest: Option<Seq<char>>) -> Seq<char> {
    match latest {
        Some(v) => if v != current {
            "\nUpdate available: "@ + current + " → "@ + v + "\nRun `lineark self update` to upgrade.\n"@
        } else {
            Seq::empty()
        },
        None => Seq::empty(),
    }
}

/// Formats the update hint; `current` is the version of this build.
pub fn format_update_hint(current: &str, latest: Option<&str>) -> (r: String)
    ensures
        r@ == update_hint(current@, match latest {
            Some(v) => Some(v@),
            None => None,
        }),
{
    match latest {
        Some(v) => {
            if !text_equal(v, current) {
                let mut s = String::from_str("\nUpdate available: ");
                s.append(current);
                s.append(" → ");
                s.append(v);
                s.append("\nRun `lineark self update` to upgrade.\n");
                s
            } else {
                String::new()
            }
        },
        None => String::new(),
    }
}

/// Law: no hint is shown when the latest release is the installed one.
pub proof fn law_no_hint_when_current(current: Seq<char>)
    ensures
        update_hint(current, Some(current)).len() == 0,
        update_hint(current, None).len() == 0,
{
}

/// Law: a hint is shown for every other known release.
pub proof fn law_hint_when_newer(current: Seq<char>, latest: Seq<char>)
    requires
        latest != current,
    ensures
        update_hint(current, Some(latest)).len() > 0,
{
}

} // verus!

//! The inclusion policy, shared by every annotation source.

use crate::demo::Reason;
use vstd::prelude::*;

verus! {

/// Whether every one of the labels denotes a killstreak.
pub open spec fn all_killstreaks(flags: Seq<bool>) -> bool {
    forall|i: int| 0 <= i < flags.len() ==> flags[i]
}

/// What the policy says of a demo. `killstreaks` is `None` where nothing is
/// annotated for the demo; otherwise it tells of each annotated event label
/// whether the label denotes a killstreak. The first component of the result
/// is whether the demo is kept.
pub open spec fn decision(killstreaks: Option<Seq<bool>>, filter_ks_only: bool) -> (bool, Reason) {
    match killstreaks {
        None => (true, Reason::NoEvents),
        Some(flags) => if !filter_ks_only {
            (false, Reason::HasEvents)
        } else if all_killstreaks(flags) {
            (true, Reason::OnlyKillstreaks)
        } else {
            (false, Reason::HasCustomBookmark)
        },
    }
}

/// Applies the policy to the labels of one demo, each given as whether it
/// denotes a killstreak.
pub fn decide(killstreaks: Option<&Vec<bool>>, filter_ks_only: bool) -> (d: (bool, Reason))
    ensures
        d == decision(
            match killstreaks {
                Some(flags) => Some(flags@),
                None => None,
            },
            filter_ks_only,
        ),
{
    match killstreaks {
        None => (true, Reason::NoEvents),
        Some(flags) => {
            if !filter_ks_only {
                return (false, Reason::HasEvents);
            }
            let mut i: usize = 0;
            while i < flags.len()
                invariant
                    i <= flags.len(),
                    filter_ks_only,
                    killstreaks == Some(flags),
                    forall|j: int| 0 <= j < i ==> flags@[j],
                decreases flags.len() - i,
            {
                if !flags[i] {
                    assert(!flags@[i as int]);
                    return (false, Reason::HasCustomBookmark);
                }
                i += 1;
            }
            (true, Reason::OnlyKillstreaks)
        },
    }
}

} // verus!

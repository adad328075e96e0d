//! The temp janitor's sweep: on every cycle, every regular file in the
//! temp area is reclaimed unconditionally — no age threshold, no
//! reference counting against in-flight transfers; anything that is not a
//! regular file is left untouched. The caller runs the cycle on its
//! configured interval and performs the deletions.

use vstd::prelude::*;
use crate::listing::{DirEntry, file_names};

verus! {

/// The names one sweep reclaims: exactly the regular files of the temp
/// area's direct entries, in reading order.
pub fn sweep_targets(entries: &Vec<DirEntry>) -> (r: Vec<String>)
    ensures
        r.deep_view() == file_names(entries@),
{
    let mut targets: Vec<String> = Vec::new();
    let mut i: usize = 0;
    proof {
        assert(entries@.subrange(0, 0) =~= Seq::<DirEntry>::empty());
        assert(targets.deep_view() =~= file_names(entries@.subrange(0, 0)));
    }
    while i < entries.len()
        invariant
            i <= entries@.len(),
            targets.deep_view() == file_names(entries@.subrange(0, i as int)),
        decreases entries@.len() - i,
    {
        proof {
            assert(entries@.subrange(0, i as int + 1).drop_last() =~= entries@.subrange(
                0,
                i as int,
            ));
            assert(entries@.subrange(0, i as int + 1).last() == entries@[i as int]);
        }
        if matches!(entries[i].class, crate::paths::ExistenceClass::File) {
            let ghost before = targets.deep_view();
            targets.push(entries[i].name.clone());
            proof {
                assert(targets.deep_view() =~= before.push(entries@[i as int].name@));
            }
        }
        i = i + 1;
    }
    proof {
        assert(entries@.subrange(0, entries@.len() as int) =~= entries@);
    }
    targets
}

} // verus!

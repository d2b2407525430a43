//! Layout animation bookkeeping that needs no interpolation.
use crate::managed::ManagedWindow;
use vstd::prelude::*;

verus! {

/// `w` shown at its layout target.
pub open spec fn snapped<T, I>(w: ManagedWindow<T, I>) -> ManagedWindow<T, I> {
    ManagedWindow { display_rect: w.target_rect, ..w }
}

/// Cancels an animation in progress: every window is shown at its target.
pub fn cancel<T, I>(windows: &mut Vec<ManagedWindow<T, I>>)
    ensures
        final(windows)@.len() == old(windows)@.len(),
        forall|i: int|
            0 <= i < old(windows)@.len() ==> #[trigger] final(windows)@[i] == snapped(
                old(windows)@[i],
            ),
{
    let n = windows.len();
    let mut i: usize = 0;
    while i < n
        invariant
            n == windows@.len(),
            n == old(windows)@.len(),
            i <= n,
            forall|j: int| 0 <= j < i ==> #[trigger] windows@[j] == snapped(old(windows)@[j]),
            forall|j: int| i <= j < n ==> #[trigger] windows@[j] == old(windows)@[j],
        decreases n - i,
    {
        let mut w = windows.remove(i);
        w.display_rect = w.target_rect;
        windows.insert(i, w);
        i = i + 1;
    }
}

} // verus!

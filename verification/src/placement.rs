//! Which window owns a secondary window (settings, about, tag dialog).
use vstd::prelude::*;

verus! {

/// The owner of a new secondary window among the visible dashboard windows
/// `owners`: the foreground window if it is one of them, else the first of
/// them, else the main window.
pub fn resolve_secondary_window_owner(owners: &Vec<isize>, foreground: isize, main_hwnd: isize) -> (r:
    isize)
    ensures
        owners@.contains(foreground) ==> r == foreground,
        !owners@.contains(foreground) && owners@.len() > 0 ==> r == owners@[0],
        owners@.len() == 0 ==> r == main_hwnd,
{
    let mut i: usize = 0;
    while i < owners.len()
        invariant
            i <= owners.len(),
            forall|j: int| 0 <= j < i ==> owners@[j] != foreground,
        decreases owners.len() - i,
    {
        if owners[i] == foreground {
            return foreground;
        }
        i = i + 1;
    }
    if owners.len() > 0 {
        owners[0]
    } else {
        main_hwnd
    }
}

} // verus!

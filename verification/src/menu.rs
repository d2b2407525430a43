//! Flags of entries in the dashboard's native popup menus.
use vstd::prelude::*;

verus! {

/// Menu-entry flag: the entry shows a check mark.
pub const MF_CHECKED: u32 = 0x0008;
/// Menu-entry flag: the entry shows no check mark.
pub const MF_UNCHECKED: u32 = 0x0000;
/// Menu-entry flag: the entry is greyed out and cannot be chosen.
pub const MF_GRAYED: u32 = 0x0001;

/// The check-mark flag of an entry: checked when `enabled`.
pub fn checked_flag(enabled: bool) -> (r: u32)
    ensures
        r == if enabled {
            MF_CHECKED
        } else {
            MF_UNCHECKED
        },
{
    if enabled {
        MF_CHECKED
    } else {
        MF_UNCHECKED
    }
}

/// The availability flag of an entry: greyed out when `disabled`, no flag
/// otherwise.
pub fn disabled_flag(disabled: bool) -> (r: u32)
    ensures
        r == if disabled {
            MF_GRAYED
        } else {
            0
        },
{
    if disabled {
        MF_GRAYED
    } else {
        0
    }
}

} // verus!

//! Distribution-channel policy: which builds manage their own updates.
//!
//! Direct builds keep the release checker; Microsoft Store builds are
//! compiled with the channel set to `store` so updates are left to the Store.
use vstd::prelude::*;

use crate::text::{eq_ignore_ascii_case, eq_ignore_case_spec};

verus! {

/// The channel of a build that was not told otherwise.
pub const DEFAULT_CHANNEL: &'static str = "direct";

/// A channel name denotes the Microsoft Store, compared without ASCII case.
pub open spec fn channel_is_store_spec(value: Seq<char>) -> bool {
    eq_ignore_case_spec(value, "store"@) || eq_ignore_case_spec(value, "microsoft-store"@)
}

/// The channel a build was configured with, or the default direct channel.
pub fn channel(configured: Option<&'static str>) -> (r: &'static str)
    ensures
        r@ == match configured {
            Some(c) => c@,
            None => DEFAULT_CHANNEL@,
        },
{
    match configured {
        Some(c) => c,
        None => DEFAULT_CHANNEL,
    }
}

/// Whether updates of a build with the given configured channel are managed
/// by the Microsoft Store.
pub fn updates_managed_by_store(configured: Option<&'static str>) -> (r: bool)
    ensures
        r == channel_is_store_spec(
            match configured {
                Some(c) => c@,
                None => DEFAULT_CHANNEL@,
            },
        ),
{
    channel_is_store(channel(configured))
}

/// Whether a channel name denotes the Microsoft Store (`store` or
/// `microsoft-store`, without regard to ASCII case).
pub fn channel_is_store(value: &str) -> (r: bool)
    ensures
        r == channel_is_store_spec(value@),
{
    eq_ignore_ascii_case(value, "store") || eq_ignore_ascii_case(value, "microsoft-store")
}

} // verus!

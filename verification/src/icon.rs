//! Per-application icon cache shared by the windows of one application.
use crate::cache::{after_insert, has_key, without_key, BoundedCache};
use crate::managed::{ManagedWindow, WindowInfo};
use vstd::prelude::*;

verus! {

/// How many application icons are kept.
pub const APP_ICON_CACHE_CAPACITY: usize = 64;

/// `b` is a clone of `a`: both absent, or both present with cloned contents.
pub open spec fn option_cloned<I: Clone>(a: Option<I>, b: Option<I>) -> bool {
    match a {
        None => b is None,
        Some(x) => b matches Some(y) && cloned(x, y),
    }
}

/// Gives a window its application icon: a window that has one keeps it;
/// otherwise the icon cached for its application is used (and marked as
/// recently used); otherwise `render` draws it, the result (also when no icon
/// could be found) is cached under the application id and given to the window.
pub fn populate_cached_icon<T, I: Clone, F: FnOnce(&WindowInfo) -> Option<I>>(
    mw: &mut ManagedWindow<T, I>,
    cache: &mut BoundedCache<Option<I>>,
    render: F,
)
    requires
        render.requires((&old(mw).info,)),
    ensures
        final(cache).capacity_spec() == old(cache).capacity_spec(),
        old(mw).cached_icon is Some ==> *final(mw) == *old(mw) && final(cache)@ == old(cache)@,
        old(mw).cached_icon is None && has_key(old(cache)@, old(mw).info.app_id@) ==> forall|i: int|
            0 <= i < old(cache)@.len() && old(cache)@[i].0 == old(mw).info.app_id@ ==> {
                &&& cloned(old(cache)@[i].1, final(mw).cached_icon)
                &&& final(cache)@ == old(cache)@.remove(i).push(old(cache)@[i])
                &&& *final(mw) == (ManagedWindow { cached_icon: final(mw).cached_icon, ..*old(mw) })
            },
        old(mw).cached_icon is None && !has_key(old(cache)@, old(mw).info.app_id@) ==> {
            &&& render.ensures((&old(mw).info,), final(mw).cached_icon)
            &&& *final(mw) == (ManagedWindow { cached_icon: final(mw).cached_icon, ..*old(mw) })
            &&& exists|copy: Option<I>|
                option_cloned(final(mw).cached_icon, copy) && final(cache)@ == after_insert(
                    old(cache)@,
                    old(cache).capacity_spec(),
                    old(mw).info.app_id@,
                    copy,
                )
        },
{
    if mw.cached_icon.is_some() {
        return;
    }
    let cached = cache.get_cloned(mw.info.app_id.as_str());
    if let Some(entry) = cached {
        mw.cached_icon = entry;
        return;
    }
    let image = render(&mw.info);
    let copy = image.clone();
    let ghost stored = copy;
    cache.insert(mw.info.app_id.as_str(), copy);
    mw.cached_icon = image;
    assert(option_cloned(mw.cached_icon, stored));
}

/// Drops the cached icon of an application so that it is drawn again on demand.
pub fn invalidate_cached_app_icon<V>(cache: &mut BoundedCache<V>, app_id: &str)
    ensures
        final(cache)@ == without_key(old(cache)@, app_id@),
        final(cache).capacity_spec() == old(cache).capacity_spec(),
{
    let _ = cache.remove(app_id);
}

} // verus!

//! The holder of the most recently loaded settings.
//!
//! A cache is an ordinary value that its owner hands to whoever needs it. A
//! reader takes it by shared reference, so any number may read at once; a
//! writer takes it by exclusive reference, so nothing reads while it writes.
//! Where one cache serves a whole process, the owner keeps it behind a
//! reader-writer lock.

use crate::record::{Settings, SettingsView};
use vstd::prelude::*;

verus! {

/// A slot for one settings value, empty until the first store.
#[derive(Debug)]
pub struct SettingsCache {
    slot: Option<Settings>,
}

impl View for SettingsCache {
    type V = Option<SettingsView>;

    closed spec fn view(&self) -> Option<SettingsView> {
        match self.slot {
            Some(settings) => Some(settings@),
            None => None,
        }
    }
}

/// Optional settings as contracts see them.
pub open spec fn settings_view(settings: Option<Settings>) -> Option<SettingsView> {
    match settings {
        Some(settings) => Some(settings@),
        None => None,
    }
}

impl SettingsCache {
    /// An empty cache.
    pub fn new() -> (cache: SettingsCache)
        ensures
            cache@ is None,
    {
        SettingsCache { slot: None }
    }
}

/// Puts `settings` in the cache in place of whatever it held: the last write
/// wins, and nothing of the old value is kept.
pub fn store_settings_in_global_state(cache: &mut SettingsCache, settings: Settings)
    ensures
        final(cache)@ == Some(settings@),
{
    cache.slot = Some(settings);
}

/// A copy of the settings in the cache, or nothing while it is empty.
pub fn get_settings(cache: &SettingsCache) -> (settings: Option<Settings>)
    ensures
        settings_view(settings) == cache@,
{
    match &cache.slot {
        Some(settings) => Some(settings.duplicate()),
        None => None,
    }
}

} // verus!

//! Stored preferences: what is kept of the monitor's view between runs.
use vstd::prelude::*;

use crate::app::{sort_config_name, sort_key_named, tab_title, SortKey, Tab};

verus! {

/// The current layout version of stored preferences.
pub const CONFIG_VERSION: u32 = 1;

/// The preferences as stored.
#[derive(Debug)]
pub struct Preferences {
    pub version: u32,
    pub tab: String,
    pub sort_key: String,
    pub sort_desc: bool,
    pub show_details: bool,
    pub overview_visible: bool,
    pub interval_ms: u64,
    pub filter: String,
    pub compact_mode: bool,
}

/// The view a stored tab name stands for; unknown names mean CPU.
pub open spec fn tab_named(name: Seq<char>) -> Tab {
    if name == "Cpu"@ {
        Tab::Cpu
    } else if name == "Memory"@ {
        Tab::Memory
    } else if name == "Energy"@ {
        Tab::Energy
    } else if name == "Disk"@ {
        Tab::Disk
    } else if name == "Network"@ {
        Tab::Network
    } else if name == "Movers"@ {
        Tab::Movers
    } else {
        Tab::Cpu
    }
}

impl Default for Preferences {
    fn default() -> (r: Self)
        ensures
            r.version == CONFIG_VERSION,
            r.tab@ == "Cpu"@,
            r.sort_key@ == "Cpu"@,
            r.sort_desc,
            r.show_details,
            r.overview_visible,
            r.interval_ms == 1_000,
            r.filter@ == Seq::<char>::empty(),
            !r.compact_mode,
    {
        Preferences {
            version: CONFIG_VERSION,
            tab: String::from_str("Cpu"),
            sort_key: String::from_str("Cpu"),
            sort_desc: true,
            show_details: true,
            overview_visible: true,
            interval_ms: 1_000,
            filter: String::new(),
            compact_mode: false,
        }
    }
}

/// What the monitor's state contributes to the stored preferences.
pub struct PreferencesSource {
    pub tab: Tab,
    pub sort_key: SortKey,
    pub sort_desc: bool,
    pub show_details: bool,
    pub overview_visible: bool,
    pub interval: std::time::Duration,
    pub filter: String,
    pub compact_mode: bool,
}

/// The whole milliseconds of a duration (`Duration::as_millis`).
pub uninterp spec fn duration_millis(d: std::time::Duration) -> u128;

/// Calls `Duration::as_millis`. Its result is a function of the duration
/// alone, named `duration_millis`; nothing more is stated of it.
#[verifier::external_body]
pub(crate) fn as_millis(d: &std::time::Duration) -> (r: u128)
    ensures
        r == duration_millis(*d),
{
    d.as_millis()
}

impl Preferences {
    /// Brings preferences stored by an older version up to date.
    pub fn migrate(self) -> (r: Self)
        ensures
            r.version == if self.version < CONFIG_VERSION {
                CONFIG_VERSION
            } else {
                self.version
            },
            r.tab == self.tab,
            r.sort_key == self.sort_key,
            r.sort_desc == self.sort_desc,
            r.show_details == self.show_details,
            r.overview_visible == self.overview_visible,
            r.interval_ms == self.interval_ms,
            r.filter == self.filter,
            r.compact_mode == self.compact_mode,
    {
        let mut prefs = self;
        if prefs.version < CONFIG_VERSION {
            prefs.version = CONFIG_VERSION;
        }
        prefs
    }

    /// The stored view, as [`tab_named`] reads it.
    pub fn apply_tab(&self) -> (r: Tab)
        ensures
            r == tab_named(self.tab@),
    {
        let name = crate::text::chars_of(self.tab.as_str());
        let n = name.as_slice();
        if crate::text::chars_eq_str(n, "Cpu") {
            Tab::Cpu
        } else if crate::text::chars_eq_str(n, "Memory") {
            Tab::Memory
        } else if crate::text::chars_eq_str(n, "Energy") {
            Tab::Energy
        } else if crate::text::chars_eq_str(n, "Disk") {
            Tab::Disk
        } else if crate::text::chars_eq_str(n, "Network") {
            Tab::Network
        } else if crate::text::chars_eq_str(n, "Movers") {
            Tab::Movers
        } else {
            Tab::Cpu
        }
    }

    /// The stored sort key, as [`sort_key_named`] reads it.
    pub fn apply_sort_key(&self) -> (r: SortKey)
        ensures
            r == sort_key_named(self.sort_key@),
    {
        SortKey::from_config_name(self.sort_key.as_str())
    }

    /// The preferences to store for the monitor's current state.
    pub fn from_app(app: &PreferencesSource) -> (r: Self)
        ensures
            r.version == CONFIG_VERSION,
            r.tab@ == tab_title(app.tab),
            r.sort_key@ == sort_config_name(app.sort_key),
            r.sort_desc == app.sort_desc,
            r.show_details == app.show_details,
            r.overview_visible == app.overview_visible,
            r.interval_ms == duration_millis(app.interval) as u64,
            r.filter@ == app.filter@,
            r.compact_mode == app.compact_mode,
    {
        let millis = as_millis(&app.interval);
        Preferences {
            version: CONFIG_VERSION,
            tab: String::from_str(app.tab.title()),
            sort_key: String::from_str(app.sort_key.config_name()),
            sort_desc: app.sort_desc,
            show_details: app.show_details,
            overview_visible: app.overview_visible,
            interval_ms: millis as u64,
            filter: app.filter.clone(),
            compact_mode: app.compact_mode,
        }
    }
}

/// Storing the monitor's state and reading it back gives the same view and
/// sort key.
pub proof fn lemma_preferences_round_trip(tab: Tab, key: SortKey)
    ensures
        tab_named(tab_title(tab)) == tab,
        sort_key_named(sort_config_name(key)) == key,
{
    crate::app::lemma_sort_key_name_round_trip(key);
    reveal_strlit("Cpu");
    reveal_strlit("Memory");
    reveal_strlit("Energy");
    reveal_strlit("Disk");
    reveal_strlit("Network");
    reveal_strlit("Movers");
    let t = tab_title(tab);
    if tab == Tab::Cpu {
        assert(t[1] != "Cpu"@[1]);
    } else if tab == Tab::Memory {
        assert(t =~= "Memory"@);
    } else if tab == Tab::Energy {
        assert(t =~= "Energy"@);
        assert(t[0] != "Memory"@[0]);
    } else if tab == Tab::Disk {
        assert(t =~= "Disk"@);
    } else if tab == Tab::Network {
        assert(t =~= "Network"@);
    } else {
        assert(t =~= "Movers"@);
        assert(t[2] != "Memory"@[2]);
        assert(t[0] != "Energy"@[0]);
    }
}

} // verus!

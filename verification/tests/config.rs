use std::time::Duration;

use monitr::app::{SortKey, Tab};
use monitr::config::{Preferences, PreferencesSource, CONFIG_VERSION};

const ALL_SORT_KEYS: [SortKey; 12] = [
    SortKey::Cpu,
    SortKey::Memory,
    SortKey::Energy,
    SortKey::DiskRead,
    SortKey::DiskWrite,
    SortKey::NetworkIn,
    SortKey::NetworkOut,
    SortKey::Trend,
    SortKey::Name,
    SortKey::Pid,
    SortKey::User,
    SortKey::Runtime,
];

fn source_for(sort_key: SortKey) -> PreferencesSource {
    PreferencesSource {
        tab: Tab::Cpu,
        sort_key,
        sort_desc: true,
        show_details: true,
        overview_visible: true,
        interval: Duration::from_millis(1_000),
        filter: String::new(),
        compact_mode: false,
    }
}

#[test]
fn sort_preferences_round_trip_every_key() {
    for sort_key in ALL_SORT_KEYS {
        let prefs = Preferences::from_app(&source_for(sort_key));

        assert_eq!(prefs.sort_key, sort_key.config_name());
        assert_eq!(prefs.apply_sort_key(), sort_key);
    }
}

#[test]
fn sort_preferences_accept_legacy_display_labels() {
    let legacy_labels = [
        ("% CPU", SortKey::Cpu),
        ("Impact", SortKey::Energy),
        ("Read/s", SortKey::DiskRead),
        ("Write/s", SortKey::DiskWrite),
        ("In/s", SortKey::NetworkIn),
        ("Out/s", SortKey::NetworkOut),
        ("Change", SortKey::Trend),
        ("PID", SortKey::Pid),
    ];

    for (stored, expected) in legacy_labels {
        let prefs = Preferences {
            sort_key: stored.to_string(),
            ..Preferences::default()
        };

        assert_eq!(prefs.apply_sort_key(), expected);
    }
}

#[test]
fn unknown_sort_key_names_fall_back_to_cpu() {
    let prefs = Preferences {
        sort_key: "Bogus".to_string(),
        ..Preferences::default()
    };
    assert_eq!(prefs.apply_sort_key(), SortKey::Cpu);
}

#[test]
fn stored_tabs_read_back_and_unknown_tabs_mean_cpu() {
    for (stored, expected) in [
        ("Cpu", Tab::Cpu),
        ("Memory", Tab::Memory),
        ("Energy", Tab::Energy),
        ("Disk", Tab::Disk),
        ("Network", Tab::Network),
        ("Movers", Tab::Movers),
        ("CPU", Tab::Cpu),
        ("memory", Tab::Cpu),
    ] {
        let prefs = Preferences {
            tab: stored.to_string(),
            ..Preferences::default()
        };
        assert_eq!(prefs.apply_tab(), expected);
    }
}

#[test]
fn preferences_round_trip_every_view() {
    for tab in Tab::all() {
        let mut source = source_for(SortKey::Memory);
        source.tab = tab;
        let prefs = Preferences::from_app(&source);
        assert_eq!(prefs.tab, tab.title());
        assert_eq!(prefs.apply_tab(), tab);
    }
}

#[test]
fn from_app_keeps_the_interval_and_other_settings() {
    let source = PreferencesSource {
        tab: Tab::Disk,
        sort_key: SortKey::DiskRead,
        sort_desc: false,
        show_details: false,
        overview_visible: false,
        interval: Duration::from_millis(2_750),
        filter: "node".to_string(),
        compact_mode: true,
    };
    let prefs = Preferences::from_app(&source);
    assert_eq!(prefs.version, CONFIG_VERSION);
    assert_eq!(prefs.tab, "Disk");
    assert_eq!(prefs.sort_key, "DiskRead");
    assert!(!prefs.sort_desc);
    assert!(!prefs.show_details);
    assert!(!prefs.overview_visible);
    assert_eq!(prefs.interval_ms, 2_750);
    assert_eq!(prefs.filter, "node");
    assert!(prefs.compact_mode);
}

#[test]
fn defaults_and_migration() {
    let prefs = Preferences::default();
    assert_eq!(prefs.version, CONFIG_VERSION);
    assert_eq!(prefs.tab, "Cpu");
    assert_eq!(prefs.sort_key, "Cpu");
    assert_eq!(prefs.interval_ms, 1_000);
    assert!(prefs.sort_desc && prefs.show_details && prefs.overview_visible);
    assert!(prefs.filter.is_empty() && !prefs.compact_mode);

    let old = Preferences {
        version: 0,
        ..Preferences::default()
    };
    assert_eq!(old.migrate().version, CONFIG_VERSION);
    let newer = Preferences {
        version: 7,
        ..Preferences::default()
    };
    assert_eq!(newer.migrate().version, 7);
}

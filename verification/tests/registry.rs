use honey_files::config::HoneyFileConfig;
use honey_files::event::EventType;
use honey_files::monitor::HoneyFileMonitor;

#[test]
fn add_is_an_upsert_keyed_by_path() {
    let mut m = HoneyFileMonitor::new();
    let first = HoneyFileConfig::new(String::from("/tmp/a.cfg"));
    m.add_file(first);
    assert_eq!(m.get_configs().len(), 1);

    let mut replacement = HoneyFileConfig::new(String::from("/tmp/a.cfg"));
    replacement.enabled = false;
    replacement.description = String::from("replaced");
    m.add_file(replacement);
    assert_eq!(m.get_configs().len(), 1);
    assert!(!m.get_configs()[0].enabled);
    assert_eq!(m.get_configs()[0].description, "replaced");

    m.add_file(HoneyFileConfig::new(String::from("/tmp/b.cfg")));
    assert_eq!(m.get_configs().len(), 2);
}

#[test]
fn registry_never_holds_two_entries_for_one_path() {
    let mut m = HoneyFileMonitor::new();
    for _ in 0..4 {
        m.add_file(HoneyFileConfig::new(String::from("/tmp/same.cfg")));
    }
    assert_eq!(m.get_configs().len(), 1);
}

#[test]
fn remove_deletes_and_tolerates_absence() {
    let mut m = HoneyFileMonitor::new();
    m.add_file(HoneyFileConfig::new(String::from("/tmp/a.cfg")));
    m.add_file(HoneyFileConfig::new(String::from("/tmp/b.cfg")));
    m.remove_file("/tmp/a.cfg");
    assert_eq!(m.get_configs().len(), 1);
    assert_eq!(m.get_configs()[0].file_path, "/tmp/b.cfg");
    m.remove_file("/tmp/never-added.cfg");
    assert_eq!(m.get_configs().len(), 1);
}

#[test]
fn lifecycle_guards_a_second_start() {
    let mut m = HoneyFileMonitor::new();
    m.add_file(HoneyFileConfig::new(String::from("/tmp/a.cfg")));
    assert!(!m.is_monitoring());

    let snapshot = m.start_monitoring();
    assert!(snapshot.is_some());
    assert!(m.is_monitoring());

    assert!(m.start_monitoring().is_none());

    m.stop_monitoring();
    assert!(!m.is_monitoring());
    assert!(m.start_monitoring().is_some());
}

#[test]
fn snapshot_holds_only_enabled_entries() {
    let mut m = HoneyFileMonitor::new();
    m.add_file(HoneyFileConfig::new(String::from("/tmp/on.cfg")));
    let mut off = HoneyFileConfig::new(String::from("/tmp/off.cfg"));
    off.enabled = false;
    m.add_file(off);
    m.add_file(HoneyFileConfig::new(String::from("/tmp/on2.cfg")));

    let snapshot = m.start_monitoring().unwrap();
    assert_eq!(snapshot.len(), 2);
    assert_eq!(snapshot[0].file_path, "/tmp/on.cfg");
    assert_eq!(snapshot[1].file_path, "/tmp/on2.cfg");
}

#[test]
fn snapshot_is_insulated_from_later_edits() {
    let mut m = HoneyFileMonitor::new();
    m.add_file(HoneyFileConfig::new(String::from("/tmp/a.cfg")));
    let snapshot = m.start_monitoring().unwrap();

    let configs = m.get_configs_mut();
    configs[0].enabled = false;
    configs[0].monitored_events.clear();

    assert_eq!(snapshot.len(), 1);
    assert!(snapshot[0].enabled);
    assert_eq!(
        snapshot[0].monitored_events,
        vec![EventType::Write, EventType::Modify]
    );
}

#[test]
fn edits_through_get_configs_mut_reach_the_next_start() {
    let mut m = HoneyFileMonitor::default();
    m.add_file(HoneyFileConfig::new(String::from("/tmp/a.cfg")));
    m.get_configs_mut()[0].enabled = false;
    let snapshot = m.start_monitoring().unwrap();
    assert_eq!(snapshot.len(), 0);
}

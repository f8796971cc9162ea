use honey_files::config::resolve_home;
use honey_files::config::HoneyFileConfig;
use honey_files::event::EventType;

#[test]
fn new_config_defaults() {
    let c = HoneyFileConfig::new(String::from("/tmp/t.cfg"));
    assert_eq!(c.file_path, "/tmp/t.cfg");
    assert!(c.enabled);
    assert_eq!(c.monitored_events, vec![EventType::Write, EventType::Modify]);
    assert_eq!(c.script_handler, None);
    assert_eq!(c.description, "Monitor /tmp/t.cfg");
}

#[test]
fn toggle_on_then_off_restores_the_set() {
    let mut c = HoneyFileConfig::new(String::from("/tmp/t.cfg"));
    let before = c.monitored_events.clone();
    c.set_event_monitored(EventType::Create, true);
    assert!(c.monitored_events.contains(&EventType::Create));
    c.set_event_monitored(EventType::Create, false);
    assert_eq!(c.monitored_events, before);
}

#[test]
fn repeated_toggles_never_accumulate_duplicates() {
    let mut c = HoneyFileConfig::new(String::from("/tmp/t.cfg"));
    for _ in 0..5 {
        c.set_event_monitored(EventType::Write, true);
        c.set_event_monitored(EventType::Delete, true);
    }
    assert_eq!(
        c.monitored_events,
        vec![EventType::Write, EventType::Modify, EventType::Delete]
    );
}

#[test]
fn toggle_off_removes_the_event() {
    let mut c = HoneyFileConfig::new(String::from("/tmp/t.cfg"));
    c.set_event_monitored(EventType::Write, false);
    assert_eq!(c.monitored_events, vec![EventType::Modify]);
}

#[test]
fn catalogue_entries_all_start_disabled() {
    let catalogue = HoneyFileConfig::get_common_files("/home/alice");
    assert_eq!(catalogue.len(), 7);
    for entry in &catalogue {
        assert!(!entry.enabled);
        assert_eq!(entry.script_handler, None);
    }
}

#[test]
fn catalogue_paths_resolve_under_home() {
    let catalogue = HoneyFileConfig::get_common_files("/home/alice");
    assert_eq!(catalogue[0].file_path, "/home/alice/.bashrc");
    assert_eq!(catalogue[0].description, "Bash configuration file");
    assert_eq!(
        catalogue[0].monitored_events,
        vec![EventType::Write, EventType::Modify]
    );
    assert_eq!(catalogue[3].file_path, "/home/alice/.gitconfig");
    assert_eq!(
        catalogue[3].monitored_events,
        vec![EventType::Write, EventType::Modify, EventType::Access]
    );
    assert_eq!(catalogue[6].file_path, "/home/alice/.ssh/authorized_keys");
    assert_eq!(catalogue[6].description, "SSH authorized keys");
}

#[test]
fn home_falls_back_to_placeholder() {
    assert_eq!(resolve_home(Some(String::from("/root"))), "/root");
    assert_eq!(resolve_home(None), "/home/user");
}

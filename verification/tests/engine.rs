use honey_files::config::HoneyFileConfig;
use honey_files::engine::classify;
use honey_files::engine::file_name_of;
use honey_files::engine::find_matching_config;
use honey_files::engine::handle_notification;
use honey_files::engine::handler_env;
use honey_files::engine::has_sh_extension;
use honey_files::engine::watch_request_for;
use honey_files::engine::RawNotification;
use honey_files::event::EventType;
use honey_files::event::FileEvent;

fn note(access: bool, modify: bool, close_write: bool, create: bool, delete: bool) -> RawNotification {
    RawNotification { access, modify, close_write, create, delete }
}

#[test]
fn classification_follows_the_declared_precedence() {
    // Access is tested first, then Modify, then Create, then Delete; a
    // notification flagged with both generic access and modify yields
    // exactly one event, and the first match wins.
    let both = note(true, true, false, false, false);
    assert_eq!(classify(&both), EventType::Access);

    assert_eq!(classify(&note(false, true, false, false, false)), EventType::Modify);
    assert_eq!(classify(&note(false, false, true, false, false)), EventType::Modify);
    assert_eq!(classify(&note(false, false, false, true, false)), EventType::Create);
    assert_eq!(classify(&note(false, false, false, false, true)), EventType::Delete);
    assert_eq!(classify(&note(false, true, false, true, true)), EventType::Modify);
    assert_eq!(classify(&note(false, false, false, false, false)), EventType::Access);
}

#[test]
fn one_notification_yields_one_event() {
    let configs = vec![HoneyFileConfig::new(String::from("/tmp/t.cfg"))];
    let both = note(true, true, false, false, false);
    let (event, handler) = handle_notification(&configs, "t.cfg", &both);
    assert_eq!(event.event_type, EventType::Access);
    assert_eq!(event.file_path, "t.cfg");
    assert_eq!(event.process_info, None);
    assert_eq!(handler, None);
}

#[test]
fn modify_on_a_watched_name_classifies_as_modify() {
    // The classification slice of the end-to-end scenario: a write to
    // /tmp/t.cfg arrives as a modify notification named t.cfg and yields
    // exactly one Modify event referencing t.cfg.
    let mut c = HoneyFileConfig::new(String::from("/tmp/t.cfg"));
    c.set_event_monitored(EventType::Write, true);
    c.set_event_monitored(EventType::Modify, true);
    let configs = vec![c];
    let (event, _) = handle_notification(&configs, "t.cfg", &note(false, true, false, false, false));
    assert_eq!(event.event_type, EventType::Modify);
    assert_eq!(event.file_path, "t.cfg");
}

#[test]
fn failing_handler_never_stops_delivery() {
    // The engine hands the handler out and emits the event regardless of
    // what running it later returns: two qualifying notifications against a
    // path whose handler always fails still deliver two events in order.
    let mut c = HoneyFileConfig::new(String::from("/tmp/t.cfg"));
    c.script_handler = Some(String::from("/nonexistent/always-fails.sh"));
    let configs = vec![c];

    let mut delivered: Vec<FileEvent> = Vec::new();
    for _ in 0..2 {
        let (event, handler) = handle_notification(
            &configs,
            "t.cfg",
            &note(false, true, false, false, false),
        );
        assert_eq!(handler, Some(String::from("/nonexistent/always-fails.sh")));
        delivered.push(event);
    }
    assert_eq!(delivered.len(), 2);
    assert_eq!(delivered[0].event_type, EventType::Modify);
    assert_eq!(delivered[1].event_type, EventType::Modify);
    assert_eq!(delivered[0].file_path, "t.cfg");
    assert_eq!(delivered[1].file_path, "t.cfg");
}

#[test]
fn bursts_deliver_one_event_per_notification_in_order() {
    let configs = vec![
        HoneyFileConfig::new(String::from("/tmp/a.cfg")),
        HoneyFileConfig::new(String::from("/tmp/b.cfg")),
    ];
    let burst = vec![
        (String::from("a.cfg"), note(false, true, false, false, false)),
        (String::from("b.cfg"), note(false, false, false, true, false)),
        (String::from("a.cfg"), note(false, false, false, false, true)),
    ];
    let out = honey_files::engine::handle_notifications(&configs, &burst);
    assert_eq!(out.len(), 3);
    assert_eq!(out[0].0.file_path, "a.cfg");
    assert_eq!(out[0].0.event_type, EventType::Modify);
    assert_eq!(out[1].0.file_path, "b.cfg");
    assert_eq!(out[1].0.event_type, EventType::Create);
    assert_eq!(out[2].0.file_path, "a.cfg");
    assert_eq!(out[2].0.event_type, EventType::Delete);
}

#[test]
fn watch_request_unions_the_categories() {
    let r = watch_request_for(&vec![EventType::Write, EventType::Modify]);
    assert!(!r.access && r.modify && r.close_write && !r.create && !r.delete && !r.delete_self);

    let r = watch_request_for(&vec![EventType::Read]);
    assert!(r.access && !r.modify && !r.close_write);

    let r = watch_request_for(&vec![EventType::Execute]);
    assert!(r.access);

    let r = watch_request_for(&vec![EventType::Create, EventType::Delete]);
    assert!(!r.access && !r.modify && r.create && r.delete && r.delete_self);

    let r = watch_request_for(&vec![]);
    assert!(!r.access && !r.modify && !r.close_write && !r.create && !r.delete && !r.delete_self);
}

#[test]
fn file_name_takes_the_final_component() {
    assert_eq!(file_name_of("/tmp/t.cfg"), "t.cfg");
    assert_eq!(file_name_of("t.cfg"), "t.cfg");
    assert_eq!(file_name_of("a/b/c"), "c");
    assert_eq!(file_name_of("a/"), "");
    assert_eq!(file_name_of(""), "");
}

#[test]
fn sh_extension_check() {
    assert!(has_sh_extension("/tmp/handler.sh"));
    assert!(has_sh_extension("h.sh"));
    assert!(has_sh_extension("/a/b.c.sh"));
    assert!(!has_sh_extension("/tmp/handler.txt"));
    assert!(!has_sh_extension("/tmp/.sh"));
    assert!(!has_sh_extension("/tmp/handler_sh"));
    assert!(!has_sh_extension("sh"));
}

#[test]
fn matching_is_by_file_name_and_takes_the_first() {
    let a = HoneyFileConfig::new(String::from("/etc/app/one.cfg"));
    let b = HoneyFileConfig::new(String::from("/home/user/one.cfg"));
    let c = HoneyFileConfig::new(String::from("/home/user/two.cfg"));
    let configs = vec![a, b, c];
    assert_eq!(find_matching_config(&configs, "one.cfg"), Some(0));
    assert_eq!(find_matching_config(&configs, "two.cfg"), Some(2));
    assert_eq!(find_matching_config(&configs, "three.cfg"), None);
}

#[test]
fn handler_environment_carries_the_event() {
    let event = FileEvent {
        file_path: String::from("/tmp/t.cfg"),
        event_type: EventType::Modify,
        timestamp: 1700000000,
        process_info: None,
    };
    let env = handler_env(&event);
    assert_eq!(env.len(), 3);
    assert_eq!(env[0].0, "HONEY_FILE_PATH");
    assert_eq!(env[0].1, "/tmp/t.cfg");
    assert_eq!(env[1].0, "HONEY_EVENT_TYPE");
    assert_eq!(env[1].1, "Modify");
    assert_eq!(env[2].0, "HONEY_TIMESTAMP");
    assert_eq!(env[2].1, "1700000000");
}

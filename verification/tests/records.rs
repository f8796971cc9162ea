use honey_files::config::HoneyFileConfig;
use honey_files::event::EventType;
use honey_files::event::FileEvent;
use honey_files::numrep::u64_to_string;

#[test]
fn decimal_formatting_exact_values() {
    assert_eq!(u64_to_string(0), "0");
    assert_eq!(u64_to_string(7), "7");
    assert_eq!(u64_to_string(42), "42");
    assert_eq!(u64_to_string(1700000000), "1700000000");
    assert_eq!(u64_to_string(u64::MAX), "18446744073709551615");
}

#[test]
fn config_record_exact_shape() {
    let c = HoneyFileConfig::new(String::from("/tmp/t.cfg"));
    assert_eq!(
        c.to_record(),
        "path=10:/tmp/t.cfg\nenabled=true\nevents=Write,Modify\nhandler=-\ndescription=18:Monitor /tmp/t.cfg\n"
    );
}

#[test]
fn config_record_roundtrip_field_for_field() {
    let mut c = HoneyFileConfig::new(String::from("/tmp/t.cfg"));
    c.set_event_monitored(EventType::Access, true);
    c.script_handler = Some(String::from("/opt/respond.sh"));
    c.description = String::from("a sentinel");

    let record = c.to_record();
    let back = HoneyFileConfig::from_record(record.as_str()).unwrap();
    assert_eq!(back.file_path, c.file_path);
    assert_eq!(back.enabled, c.enabled);
    assert_eq!(back.monitored_events, c.monitored_events);
    assert_eq!(back.script_handler, c.script_handler);
    assert_eq!(back.description, c.description);
}

#[test]
fn config_record_roundtrip_awkward_content() {
    let mut c = HoneyFileConfig::new(String::from("/tmp/with space/=:,\nnewline.cfg"));
    c.enabled = false;
    c.monitored_events.clear();
    c.description = String::from("lines\nand:colons,commas=signs");
    let record = c.to_record();
    let back = HoneyFileConfig::from_record(record.as_str()).unwrap();
    assert_eq!(back.file_path, c.file_path);
    assert_eq!(back.enabled, c.enabled);
    assert_eq!(back.monitored_events, c.monitored_events);
    assert_eq!(back.script_handler, c.script_handler);
    assert_eq!(back.description, c.description);
}

#[test]
fn config_record_rejects_malformed_text() {
    assert!(HoneyFileConfig::from_record("").is_none());
    assert!(HoneyFileConfig::from_record("path=3:abc").is_none());
    assert!(HoneyFileConfig::from_record("nonsense").is_none());

    let c = HoneyFileConfig::new(String::from("/tmp/t.cfg"));
    let record = c.to_record();
    let truncated = &record[..record.len() - 1];
    assert!(HoneyFileConfig::from_record(truncated).is_none());

    let padded = {
        let mut r = record.clone();
        r.push(' ');
        r
    };
    assert!(HoneyFileConfig::from_record(padded.as_str()).is_none());

    let tampered = record.replace("path=10:", "path=11:");
    assert!(HoneyFileConfig::from_record(tampered.as_str()).is_none());
}

#[test]
fn config_record_rejects_unknown_labels() {
    let text = "path=1:a\nenabled=true\nevents=Rename\nhandler=-\ndescription=0:\n";
    assert!(HoneyFileConfig::from_record(text).is_none());
}

#[test]
fn event_record_roundtrip_field_for_field() {
    let e = FileEvent {
        file_path: String::from("/tmp/t.cfg"),
        event_type: EventType::Delete,
        timestamp: 1234567890,
        process_info: Some(String::from("pid 4242")),
    };
    let record = e.to_record();
    let back = FileEvent::from_record(record.as_str()).unwrap();
    assert_eq!(back.file_path, e.file_path);
    assert_eq!(back.event_type, e.event_type);
    assert_eq!(back.timestamp, e.timestamp);
    assert_eq!(back.process_info, e.process_info);
}

#[test]
fn event_record_exact_shape() {
    let e = FileEvent {
        file_path: String::from("x"),
        event_type: EventType::Access,
        timestamp: 5,
        process_info: None,
    };
    assert_eq!(e.to_record(), "path=1:x\ntype=Access\ntimestamp=5\nprocess=-\n");
}

#[test]
fn event_record_rejects_oversized_timestamps() {
    let text = "path=1:x\ntype=Access\ntimestamp=18446744073709551616\nprocess=-\n";
    assert!(FileEvent::from_record(text).is_none());
    let fits = "path=1:x\ntype=Access\ntimestamp=18446744073709551615\nprocess=-\n";
    assert_eq!(FileEvent::from_record(fits).unwrap().timestamp, u64::MAX);
}

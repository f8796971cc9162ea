use honey_files::event::EventType;

#[test]
fn labels_are_canonical() {
    assert_eq!(EventType::Read.as_str(), "Read");
    assert_eq!(EventType::Write.as_str(), "Write");
    assert_eq!(EventType::Execute.as_str(), "Execute");
    assert_eq!(EventType::Access.as_str(), "Access");
    assert_eq!(EventType::Modify.as_str(), "Modify");
    assert_eq!(EventType::Create.as_str(), "Create");
    assert_eq!(EventType::Delete.as_str(), "Delete");
}

#[test]
fn all_lists_every_event_type_exactly_once() {
    let all = EventType::all();
    assert_eq!(all.len(), 7);
    for i in 0..all.len() {
        for j in 0..all.len() {
            if i != j {
                assert_ne!(all[i], all[j]);
            }
        }
    }
    assert!(all.contains(&EventType::Read));
    assert!(all.contains(&EventType::Write));
    assert!(all.contains(&EventType::Execute));
    assert!(all.contains(&EventType::Access));
    assert!(all.contains(&EventType::Modify));
    assert!(all.contains(&EventType::Create));
    assert!(all.contains(&EventType::Delete));
}

#[test]
fn labels_are_injective() {
    let all = EventType::all();
    for i in 0..all.len() {
        for j in 0..all.len() {
            if i != j {
                assert_ne!(all[i].as_str(), all[j].as_str());
            }
        }
    }
}

#[test]
fn from_label_inverts_as_str() {
    for e in EventType::all() {
        assert_eq!(EventType::from_label(e.as_str()), Some(e));
    }
}

#[test]
fn from_label_rejects_unknown_labels() {
    assert_eq!(EventType::from_label(""), None);
    assert_eq!(EventType::from_label("read"), None);
    assert_eq!(EventType::from_label("Reads"), None);
    assert_eq!(EventType::from_label("Rename"), None);
}

use mibar::tray_watcher::{
    host_sender, parse_service, service_kind, HostSender,
    item_service_value, split_service, HostRegistration, ServiceKind, ServiceSplit,
    ServiceSplitError, WatcherTables,
};

#[test]
fn hosts_register_once() {
    let mut t = WatcherTables::new();
    assert!(!t.is_host_registered());
    assert_eq!(t.register_host(String::from(":1.5")), HostRegistration::Registered { first: true });
    assert_eq!(t.register_host(String::from(":1.5")), HostRegistration::AlreadyRegistered);
    assert_eq!(t.register_host(String::from(":1.9")), HostRegistration::Registered { first: false });
    assert!(t.is_host_registered());
    assert_eq!(t.host_exited(&String::from(":1.5")), (true, false));
    assert_eq!(t.host_exited(&String::from(":1.5")), (false, false));
    assert_eq!(t.host_exited(&String::from(":1.9")), (true, true));
}

#[test]
fn items_register_once_per_connection() {
    let mut t = WatcherTables::new();
    assert!(t.register_item(String::from(":1.3"), String::from(":1.3/StatusNotifierItem")));
    assert!(!t.register_item(String::from(":1.3"), String::from(":1.3/StatusNotifierItem")));
    assert!(t.register_item(String::from(":1.3"), String::from(":1.3/Other")));
    assert!(t.register_item(String::from(":1.4"), String::from(":1.4/StatusNotifierItem")));
    assert_eq!(
        t.registered_items(),
        vec![":1.3/StatusNotifierItem", ":1.3/Other", ":1.4/StatusNotifierItem"]
    );
    let gone = t.item_owner_exited(&String::from(":1.3")).unwrap();
    assert_eq!(gone, vec![":1.3/StatusNotifierItem", ":1.3/Other"]);
    assert_eq!(t.registered_items(), vec![":1.4/StatusNotifierItem"]);
    assert_eq!(t.item_owner_exited(&String::from(":1.3")), None);
}

#[test]
fn item_service_values() {
    assert_eq!(item_service_value(":1.7", "/org/ayatana", ServiceKind::ObjectPath), ":1.7/org/ayatana");
    assert_eq!(item_service_value(":1.7", ":1.8", ServiceKind::UniqueName), ":1.8/StatusNotifierItem");
    assert_eq!(item_service_value(":1.7", "org.kde.app", ServiceKind::WellKnownName), ":1.7/StatusNotifierItem");
}

#[test]
fn service_strings_split() {
    assert_eq!(split_service(":1.33/StatusNotifierItem"), Ok(ServiceSplit::NameAndPath { name_end: 5 }));
    assert_eq!(split_service("org.x:1.2"), Ok(ServiceSplit::UniqueName { name_start: 5 }));
    assert_eq!(split_service("org.kde.app"), Err(ServiceSplitError::NoNameOrPath));
    assert_eq!(split_service("caf\u{e9}/x"), Err(ServiceSplitError::NotAscii));
}

#[test]
fn service_strings_are_checked() {
    assert_eq!(parse_service(":1.33/StatusNotifierItem"), Ok(ServiceSplit::NameAndPath { name_end: 5 }));
    assert_eq!(parse_service("org.kde.app/StatusNotifierItem"), Ok(ServiceSplit::NameAndPath { name_end: 11 }));
    assert_eq!(parse_service(":1.33//x"), Err(ServiceSplitError::InvalidPart));
    assert_eq!(parse_service("1.2/x"), Err(ServiceSplitError::InvalidPart));
    assert_eq!(parse_service("x:1.2"), Ok(ServiceSplit::UniqueName { name_start: 1 }));
    assert_eq!(parse_service(":nodot"), Err(ServiceSplitError::InvalidPart));
    assert_eq!(parse_service("plain"), Err(ServiceSplitError::NoNameOrPath));
    assert_eq!(parse_service("caf\u{e9}/x"), Err(ServiceSplitError::NotAscii));
}

#[test]
fn service_kinds_and_host_senders() {
    assert_eq!(service_kind("/org/ayatana/item"), Some(ServiceKind::ObjectPath));
    assert_eq!(service_kind("/org/"), None);
    assert_eq!(service_kind(":1.4"), Some(ServiceKind::UniqueName));
    assert_eq!(service_kind("org.kde.app"), Some(ServiceKind::WellKnownName));
    assert_eq!(service_kind("bad"), None);
    assert_eq!(host_sender(":1.4"), HostSender::Service);
    assert_eq!(host_sender(":bad"), HostSender::Invalid);
    assert_eq!(host_sender("org.kde.host"), HostSender::MessageSender);
}

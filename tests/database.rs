use gatt_mux::database::{
    AttributeKind, Characteristic, DatabaseError, Descriptor, GattDatabase, RegistrationHandle, Service,
    PROP_NOTIFY, PROP_READ, PROP_WRITE,
};

fn one_char_service(uuid: u128, value: Vec<u8>) -> Service {
    Service {
        uuid,
        characteristics: vec![Characteristic { uuid: uuid + 1, properties: PROP_READ, value, descriptors: vec![] }],
    }
}

#[test]
fn first_service_starts_at_handle_one() {
    let mut db = GattDatabase::new();
    let s = db.register_server().unwrap();
    let h = db.add_service(s, &one_char_service(0x180F, vec![1])).unwrap();
    assert_eq!(h, RegistrationHandle { start: 1 });
    assert_eq!(db.lookup(1).unwrap().kind, AttributeKind::ServiceDeclaration);
    assert_eq!(db.lookup(2).unwrap().kind, AttributeKind::CharacteristicDeclaration);
    assert_eq!(db.lookup(3).unwrap().kind, AttributeKind::CharacteristicValue);
    assert_eq!(db.lookup(3).unwrap().value, vec![1]);
    assert!(db.lookup(4).is_none());
    assert!(db.lookup(0).is_none());
}

#[test]
fn ranges_of_two_services_do_not_overlap() {
    let mut db = GattDatabase::new();
    let s = db.register_server().unwrap();
    let svc = Service {
        uuid: 0xA000,
        characteristics: vec![Characteristic {
            uuid: 0xA001,
            properties: PROP_READ | PROP_NOTIFY,
            value: vec![],
            descriptors: vec![Descriptor { uuid: 0x2902, properties: PROP_READ | PROP_WRITE, value: vec![0, 0] }],
        }],
    };
    let a = db.add_service(s, &svc).unwrap();
    let b = db.add_service(s, &one_char_service(0xB000, vec![])).unwrap();
    // The first occupies handles 1..=4: service, declaration, value, descriptor.
    assert_eq!(a.start, 1);
    assert_eq!(b.start, 5);
    assert_eq!(db.lookup(4).unwrap().kind, AttributeKind::Descriptor);
    assert_eq!(db.lookup(5).unwrap().uuid, 0xB000);
}

#[test]
fn remove_twice_equals_remove_once() {
    let mut db = GattDatabase::new();
    let s = db.register_server().unwrap();
    let a = db.add_service(s, &one_char_service(0x1800, vec![1])).unwrap();
    let b = db.add_service(s, &one_char_service(0x1801, vec![2])).unwrap();
    db.remove_service(a);
    assert!(db.lookup(1).is_none());
    assert_eq!(db.lookup(6).unwrap().value, vec![2]);
    db.remove_service(a);
    assert!(db.lookup(1).is_none());
    assert_eq!(db.lookup(6).unwrap().value, vec![2]);
    assert_eq!(b.start, 4);
}

#[test]
fn removed_handles_are_not_reused() {
    let mut db = GattDatabase::new();
    let s = db.register_server().unwrap();
    let a = db.add_service(s, &one_char_service(0x1800, vec![])).unwrap();
    db.remove_service(a);
    let b = db.add_service(s, &one_char_service(0x1800, vec![])).unwrap();
    assert_eq!(b.start, 4);
}

#[test]
fn duplicate_service_is_refused() {
    let mut db = GattDatabase::new();
    let s = db.register_server().unwrap();
    db.add_service(s, &one_char_service(0x1800, vec![1])).unwrap();
    assert_eq!(db.add_service(s, &one_char_service(0x1800, vec![9, 9])), Err(DatabaseError::DuplicateService));
    assert!(db.add_service(s, &one_char_service(0x1802, vec![1])).is_ok());
}

#[test]
fn unknown_server_is_refused() {
    let mut db = GattDatabase::new();
    assert_eq!(db.add_service(7, &one_char_service(0x1800, vec![])), Err(DatabaseError::UnknownServer));
}

#[test]
fn handle_space_exhausted() {
    let mut db = GattDatabase::new();
    let s = db.register_server().unwrap();
    let descriptors: Vec<Descriptor> =
        (0..65532u32).map(|i| Descriptor { uuid: i as u128, properties: 0, value: vec![] }).collect();
    let big = Service {
        uuid: 0xC000,
        characteristics: vec![Characteristic { uuid: 0xC001, properties: 0, value: vec![], descriptors }],
    };
    // 1 + 2 + 65532 handles from handle 1 end at 0xFFFF: the space is full.
    let h = db.add_service(s, &big).unwrap();
    assert_eq!(h.start, 1);
    assert!(db.lookup(0xFFFF).is_some());
    assert_eq!(
        db.add_service(s, &one_char_service(0xD000, vec![])),
        Err(DatabaseError::HandleSpaceExhausted)
    );
}

#[test]
fn clear_services_removes_only_that_servers_services() {
    let mut db = GattDatabase::new();
    let s1 = db.register_server().unwrap();
    let s2 = db.register_server().unwrap();
    assert_ne!(s1, s2);
    db.add_service(s1, &one_char_service(0x1800, vec![])).unwrap();
    db.add_service(s2, &one_char_service(0x1900, vec![])).unwrap();
    db.add_service(s1, &one_char_service(0x1A00, vec![])).unwrap();
    db.clear_services(s1);
    assert!(db.lookup(1).is_none());
    assert_eq!(db.lookup(4).unwrap().uuid, 0x1900);
    assert!(db.lookup(7).is_none());
}

#[test]
fn unregister_server_drops_its_services() {
    let mut db = GattDatabase::new();
    let s = db.register_server().unwrap();
    db.add_service(s, &one_char_service(0x1800, vec![])).unwrap();
    assert!(db.unregister_server(s));
    assert!(!db.has_server(s));
    assert!(db.lookup(1).is_none());
    assert!(!db.unregister_server(s));
    assert_eq!(db.add_service(s, &one_char_service(0x1800, vec![])), Err(DatabaseError::UnknownServer));
}

#[test]
fn set_value_replaces_the_value() {
    let mut db = GattDatabase::new();
    let s = db.register_server().unwrap();
    db.add_service(s, &one_char_service(0x1800, vec![1])).unwrap();
    db.set_value(3, vec![4, 5, 6]);
    assert_eq!(db.lookup(3).unwrap().value, vec![4, 5, 6]);
}

#[test]
fn connected_links_are_owed_service_changed() {
    let mut db = GattDatabase::with_native_handles(9);
    assert!(db.connect_link(1));
    assert!(!db.connect_link(1));
    let s = db.register_server().unwrap();
    let a = db.add_service(s, &one_char_service(0x1800, vec![])).unwrap();
    assert!(db.connect_link(2));
    assert_eq!(db.take_service_changed(1), Some((10, 12)));
    assert_eq!(db.take_service_changed(1), None);
    assert_eq!(db.take_service_changed(2), None);
    let b = db.add_service(s, &one_char_service(0x1900, vec![])).unwrap();
    db.remove_service(a);
    assert_eq!(db.take_service_changed(1), Some((10, 15)));
    assert_eq!(db.take_service_changed(2), Some((10, 15)));
    db.remove_service(a);
    assert_eq!(db.take_service_changed(1), None);
    assert_eq!(db.range_of(b), Some((13, 15)));
    db.clear_services(s);
    assert_eq!(db.take_service_changed(2), Some((10, 0xFFFF)));
    db.clear_services(s);
    assert_eq!(db.take_service_changed(2), None);
    assert!(db.disconnect_link(2));
    assert!(!db.disconnect_link(2));
    assert_eq!(db.take_service_changed(2), None);
    // A failed registration owes nothing.
    let t = db.register_server().unwrap();
    db.add_service(t, &one_char_service(0x1A00, vec![])).unwrap();
    db.take_service_changed(1);
    assert!(db.add_service(t, &one_char_service(0x1A00, vec![])).is_err());
    assert_eq!(db.take_service_changed(1), None);
}

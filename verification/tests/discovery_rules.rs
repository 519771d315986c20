use sensor_hub::discovery::{
    advertiser_step, controller_advertisement, endpoint_in, local_service_name, resolve,
    AdvertiserAction, AdvertiserEvent, Endpoint, IpAddress, RecordKind, Resolution,
    ADVERTISEMENT_TTL_SECS, ADVERTISE_PERIOD_SECS, CONTROLLER_PORT, QUERY_INTERVAL_SECS, RETRY_BACKOFF_SECS,
};

#[test]
fn controller_advertises_its_port_and_path() {
    let ad = controller_advertisement();
    assert_eq!(ad.service_type, "_controller-server._tcp");
    assert_eq!(ad.instance_name, "ControllerServer");
    assert_eq!(ad.port, 3000);
    assert_eq!(ad.attributes, vec!["path=/".to_string()]);
    assert_eq!(ad.ttl_secs, 60);
    assert_eq!(ADVERTISEMENT_TTL_SECS, 60);
    assert!(ADVERTISE_PERIOD_SECS < u64::from(ADVERTISEMENT_TTL_SECS));
    assert_eq!(CONTROLLER_PORT, 3000);
    assert_eq!(ADVERTISE_PERIOD_SECS, 5);
    assert_eq!(RETRY_BACKOFF_SECS, 5);
    assert_eq!(QUERY_INTERVAL_SECS, 60);
}

#[test]
fn sensors_ask_in_the_local_scope() {
    assert_eq!(local_service_name("_controller-server._tcp"), "_controller-server._tcp.local");
    assert_eq!(local_service_name(""), ".local");
}

#[test]
fn advertiser_registers_again_after_every_period() {
    assert_eq!(advertiser_step(AdvertiserEvent::Started), AdvertiserAction::Register);
    assert_eq!(advertiser_step(AdvertiserEvent::Registered), AdvertiserAction::Wait(5));
    assert_eq!(advertiser_step(AdvertiserEvent::RegistrationFailed), AdvertiserAction::Wait(5));
    assert_eq!(advertiser_step(AdvertiserEvent::PeriodElapsed), AdvertiserAction::Register);
}

#[test]
fn an_answer_needs_an_address_and_a_port() {
    assert_eq!(endpoint_in(&vec![]), None);
    assert_eq!(endpoint_in(&vec![RecordKind::Other]), None);
    assert_eq!(endpoint_in(&vec![RecordKind::A(0x7f000001)]), None);
    assert_eq!(endpoint_in(&vec![RecordKind::Srv { port: 3000 }]), None);
    assert_eq!(
        endpoint_in(&vec![RecordKind::Srv { port: 3000 }, RecordKind::A(0x7f000001)]),
        Some(Endpoint { address: IpAddress::V4(0x7f000001), port: 3000 })
    );
    assert_eq!(
        endpoint_in(&vec![RecordKind::Other, RecordKind::Aaaa(1), RecordKind::Srv { port: 1 }]),
        Some(Endpoint { address: IpAddress::V6(1), port: 1 })
    );
}

#[test]
fn the_first_address_and_the_first_port_are_taken() {
    let records = vec![
        RecordKind::Other,
        RecordKind::Aaaa(0xfe80_0000_0000_0000_0000_0000_0000_0001),
        RecordKind::Srv { port: 3000 },
        RecordKind::A(0xc0a80001),
        RecordKind::Srv { port: 4000 },
    ];
    assert_eq!(
        endpoint_in(&records),
        Some(Endpoint {
            address: IpAddress::V6(0xfe80_0000_0000_0000_0000_0000_0000_0001),
            port: 3000
        })
    );
    let records = vec![
        RecordKind::A(0xc0a80001),
        RecordKind::Aaaa(1),
        RecordKind::Srv { port: 4000 },
        RecordKind::Srv { port: 3000 },
    ];
    assert_eq!(
        endpoint_in(&records),
        Some(Endpoint { address: IpAddress::V4(0xc0a80001), port: 4000 })
    );
}

#[test]
fn no_responders_resolve_to_not_found() {
    assert_eq!(resolve(&vec![]), Resolution::NotFound);
    assert_eq!(resolve(&vec![vec![], vec![RecordKind::Other]]), Resolution::NotFound);
    assert_eq!(
        resolve(&vec![vec![RecordKind::A(1)], vec![RecordKind::Srv { port: 2 }]]),
        Resolution::NotFound
    );
}

#[test]
fn first_answer_with_an_endpoint_wins() {
    let answers = vec![
        vec![RecordKind::Other],
        vec![RecordKind::A(10), RecordKind::Srv { port: 1 }],
        vec![RecordKind::A(20), RecordKind::Srv { port: 2 }],
    ];
    assert_eq!(
        resolve(&answers),
        Resolution::Found(Endpoint { address: IpAddress::V4(10), port: 1 })
    );
}

use opendeck::prontokey::{DeviceEvent, PkDriver, ProntoKeyDevice};

fn registered_driver() -> PkDriver {
    let mut d = PkDriver::new();
    let (events, desync) = d.handle_read(b"{\"address\":\"aa:bb\"}");
    assert!(!desync);
    assert_eq!(events, vec![DeviceEvent::Register { address: "aa:bb".to_string() }]);
    d
}

#[test]
fn first_address_message_registers() {
    registered_driver();
}

#[test]
fn registration_message_ignores_input_fields() {
    let mut d = PkDriver::new();
    let (events, desync) = d.handle_read(b"{\"address\":\"aa:bb\",\"key\":3,\"slider0\":9}");
    assert!(!desync);
    assert_eq!(events, vec![DeviceEvent::Register { address: "aa:bb".to_string() }]);
}

#[test]
fn messages_before_registration_are_dropped() {
    let mut d = PkDriver::new();
    let (events, desync) = d.handle_read(b"{\"key\":3}");
    assert!(!desync);
    assert!(events.is_empty());
}

#[test]
fn nonzero_key_presses_and_zero_releases() {
    let mut d = registered_driver();
    let (events, _) = d.handle_read(b"{\"key\":5}{\"key\":0}");
    assert_eq!(
        events,
        vec![DeviceEvent::KeyDown { key: 5 }, DeviceEvent::KeyUp { key: 5 }]
    );
}

#[test]
fn release_resolves_last_press_across_dial_events() {
    let mut d = registered_driver();
    let (events, _) = d.handle_read(b"{\"key\":7}{\"slider0\":30}{\"slider1\":4}{\"key\":0}");
    assert_eq!(
        events,
        vec![
            DeviceEvent::KeyDown { key: 7 },
            DeviceEvent::DialRotate { dial: 0, ticks: 30 },
            DeviceEvent::DialRotate { dial: 1, ticks: 4 },
            DeviceEvent::KeyUp { key: 7 },
        ]
    );
}

#[test]
fn release_before_any_press_reports_key_zero() {
    let mut d = registered_driver();
    let (events, _) = d.handle_read(b"{\"key\":0}");
    assert_eq!(events, vec![DeviceEvent::KeyUp { key: 0 }]);
}

#[test]
fn dial_deltas_telescope_to_final_position() {
    let mut d = registered_driver();
    let (events, _) = d.handle_read(b"{\"slider0\":10}{\"slider0\":25}{\"slider0\":5}");
    let mut sum: i32 = 0;
    let mut deltas = Vec::new();
    for e in &events {
        match e {
            DeviceEvent::DialRotate { dial: 0, ticks } => {
                sum += *ticks as i32;
                deltas.push(*ticks);
            }
            other => panic!("unexpected event {other:?}"),
        }
    }
    assert_eq!(deltas, vec![10, 15, -20]);
    assert_eq!(sum, 5 - 0);
}

#[test]
fn malformed_dial_position_emits_no_movement() {
    let mut d = registered_driver();
    let (events, _) = d.handle_read(b"{\"slider0\":5}{\"slider0\":1.5}{\"slider0\":8}");
    assert_eq!(
        events,
        vec![
            DeviceEvent::DialRotate { dial: 0, ticks: 5 },
            DeviceEvent::DialRotate { dial: 0, ticks: 0 },
            DeviceEvent::DialRotate { dial: 0, ticks: 3 },
        ]
    );
}

#[test]
fn undecodable_chunk_is_dropped_and_stream_continues() {
    let mut d = registered_driver();
    let (events, desync) = d.handle_read(b"garbage}{\"key\":2}");
    assert!(!desync);
    assert_eq!(events, vec![DeviceEvent::KeyDown { key: 2 }]);
}

#[test]
fn invalid_utf8_desyncs_without_consuming() {
    let mut d = registered_driver();
    let (events, desync) = d.handle_read(&[0xff, 0xfe, 0x7d]);
    assert!(desync);
    assert!(events.is_empty());
    let (events, desync) = d.handle_read(b"{\"key\":9}");
    assert!(!desync);
    assert_eq!(events, vec![DeviceEvent::KeyDown { key: 9 }]);
}

#[test]
fn key_values_wrap_to_wire_width() {
    let mut d = registered_driver();
    let (events, _) = d.handle_read(b"{\"key\":1}{\"key\":256}");
    assert_eq!(
        events,
        vec![DeviceEvent::KeyDown { key: 1 }, DeviceEvent::KeyUp { key: 1 }]
    );
}

#[test]
fn prontokey_device_identity_and_capabilities() {
    let dev = ProntoKeyDevice::new("aa:bb".to_string());
    assert_eq!(dev.id(), "pk-aa:bb");
    assert_eq!(dev.name(), "ProntoKey");
    assert_eq!(dev.num_dials(), 2);
    assert_eq!(dev.num_rows(), 3);
    assert_eq!(dev.num_columns(), 3);
    assert_eq!(dev.device_type(), 7);
}

use opendeck::inbound::{classify_frame, process_incoming_message, ClassifiedFrame, InboundEventType};
use opendeck::shared::Controller;

#[test]
fn first_frame_with_uuid_is_a_handshake() {
    let r = classify_frame(b"{\"uuid\":\"com.example.plugin\"}");
    match r {
        ClassifiedFrame::Handshake(reg) => assert_eq!(reg.uuid, "com.example.plugin"),
        other => panic!("unexpected classification {other:?}"),
    }
}

#[test]
fn first_frame_without_uuid_falls_back_to_event_decoding() {
    let r = classify_frame(
        b"{\"event\":\"getGlobalSettings\",\"context\":\"com.example.plugin\"}",
    );
    match r {
        ClassifiedFrame::Event(InboundEventType::GetGlobalSettings(e)) => {
            assert_eq!(e.context, "com.example.plugin");
        }
        other => panic!("unexpected classification {other:?}"),
    }
}

#[test]
fn malformed_first_frame_is_ignored() {
    assert!(matches!(classify_frame(b"not json"), ClassifiedFrame::Ignored));
}

#[test]
fn set_settings_frame_decodes_context_and_keeps_payload_text() {
    let data = b"{\"event\":\"setSettings\",\"context\":{\"device\":\"pk-aa:bb\",\"profile\":\"default\",\"controller\":\"Encoder\",\"position\":1},\"payload\":{\"step\":5}}";
    match process_incoming_message(data) {
        Some(InboundEventType::SetSettings(e)) => {
            assert_eq!(e.context.device, "pk-aa:bb");
            assert_eq!(e.context.profile, "default");
            assert_eq!(e.context.controller, Controller::Encoder);
            assert_eq!(e.context.position, 1);
            assert_eq!(e.payload, "{\"step\":5}");
        }
        other => panic!("unexpected event {other:?}"),
    }
}

#[test]
fn keypad_is_the_default_controller_class() {
    let data = b"{\"event\":\"getSettings\",\"context\":{\"device\":\"d\",\"profile\":\"p\",\"controller\":\"Keypad\",\"position\":4}}";
    match process_incoming_message(data) {
        Some(InboundEventType::GetSettings(e)) => {
            assert_eq!(e.context.controller, Controller::Keypad);
            assert_eq!(e.context.position, 4);
        }
        other => panic!("unexpected event {other:?}"),
    }
}

#[test]
fn unknown_tags_are_dropped() {
    assert!(process_incoming_message(b"{\"event\":\"somethingElse\",\"payload\":1}").is_none());
}

#[test]
fn missing_required_fields_drop_the_frame() {
    assert!(process_incoming_message(b"{\"event\":\"setSettings\",\"payload\":{}}").is_none());
    assert!(process_incoming_message(b"{\"event\":\"setGlobalSettings\"}").is_none());
}

#[test]
fn out_of_range_position_drops_the_frame() {
    let data = b"{\"event\":\"getSettings\",\"context\":{\"device\":\"d\",\"profile\":\"p\",\"controller\":\"Keypad\",\"position\":300}}";
    assert!(process_incoming_message(data).is_none());
}

#[test]
fn open_url_carries_its_payload_text() {
    match process_incoming_message(b"{\"event\":\"openUrl\",\"payload\":{\"url\":\"https://example.com\"}}") {
        Some(InboundEventType::OpenUrl(e)) => {
            assert_eq!(e.payload, "{\"url\":\"https://example.com\"}");
        }
        other => panic!("unexpected event {other:?}"),
    }
}

#[test]
fn set_global_settings_is_scoped_by_plugin_id_string() {
    let data = b"{\"event\":\"setGlobalSettings\",\"context\":\"com.example.plugin\",\"payload\":[1,2]}";
    match process_incoming_message(data) {
        Some(InboundEventType::SetGlobalSettings(e)) => {
            assert_eq!(e.context, "com.example.plugin");
            assert_eq!(e.payload, "[1,2]");
        }
        other => panic!("unexpected event {other:?}"),
    }
}

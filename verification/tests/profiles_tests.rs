use opendeck::dispatch::DispatchStep;
use opendeck::profiles::{
    dial_press, dial_rotate, get_settings, key_down, key_up, set_settings, Profile,
};
use opendeck::shared::{ActionInstance, ActionMeta, Context, Controller, Slot};

fn encoder_instance(position: u8) -> ActionInstance {
    ActionInstance {
        action: ActionMeta {
            plugin: "p-enc".to_string(),
            uuid: "a-enc".to_string(),
            disable_automatic_states: false,
        },
        context: Context {
            device: "pk-aa:bb".to_string(),
            profile: "default".to_string(),
            controller: Controller::Encoder,
            position,
        },
        settings: "{\"step\":5}".to_string(),
        current_state: 0,
        state_count: 1,
    }
}

fn key_instance(position: u8) -> ActionInstance {
    ActionInstance {
        action: ActionMeta {
            plugin: "p-key".to_string(),
            uuid: "a-key".to_string(),
            disable_automatic_states: false,
        },
        context: Context {
            device: "pk-aa:bb".to_string(),
            profile: "default".to_string(),
            controller: Controller::Keypad,
            position,
        },
        settings: "{}".to_string(),
        current_state: 0,
        state_count: 2,
    }
}

#[test]
fn new_profile_has_fixed_slot_counts() {
    let p = Profile::new(9, 2);
    assert_eq!(p.keys.len(), 9);
    assert_eq!(p.sliders.len(), 2);
    assert!(p.keys.iter().all(|s| s.is_none()));
}

#[test]
fn events_on_empty_or_out_of_range_slots_are_dropped() {
    let mut p = Profile::new(9, 2);
    assert!(key_down(&mut p, 4, 3).is_empty());
    assert!(key_up(&mut p, 4, 3).is_empty());
    assert!(key_down(&mut p, 200, 3).is_empty());
    assert!(dial_rotate(&p, 0, 3).is_none());
    assert!(dial_rotate(&p, 9, 3).is_none());
    assert!(dial_press(&p, 1, false).is_none());
}

#[test]
fn key_events_reach_the_configured_slot() {
    let mut p = Profile::new(9, 2);
    p.keys[4] = Some(Slot::Single(key_instance(4)));
    let steps = key_down(&mut p, 4, 3);
    assert_eq!(steps.len(), 1);
    match &steps[0] {
        DispatchStep::SendKey { plugin, event } => {
            assert_eq!(plugin, "p-key");
            assert!(!event.up);
        }
        other => panic!("unexpected step {other:?}"),
    }
    let steps = key_up(&mut p, 4, 3);
    assert_eq!(steps.len(), 3);
    match &p.keys[4] {
        Some(Slot::Single(inst)) => assert_eq!(inst.current_state, 1),
        other => panic!("unexpected slot {other:?}"),
    }
}

#[test]
fn dial_rotate_event_has_encoder_coordinates_and_unpressed_flag() {
    let mut p = Profile::new(9, 2);
    p.sliders[1] = Some(encoder_instance(1));
    let (plugin, event) = dial_rotate(&p, 1, -4).unwrap();
    assert_eq!(plugin, "p-enc");
    assert_eq!(event.payload.ticks, -4);
    assert!(!event.payload.pressed);
    assert_eq!(event.payload.coordinates.row, 0);
    assert_eq!(event.payload.coordinates.column, 1);
}

#[test]
fn dial_press_and_release_events_carry_direction() {
    let mut p = Profile::new(9, 2);
    p.sliders[0] = Some(encoder_instance(0));
    let (_, down) = dial_press(&p, 0, false).unwrap();
    assert!(!down.up);
    let (_, up) = dial_press(&p, 0, true).unwrap();
    assert!(up.up);
    assert_eq!(up.payload.controller, Controller::Encoder);
}

#[test]
fn set_settings_replaces_the_blob_and_reports_saved() {
    let mut p = Profile::new(9, 2);
    p.sliders[0] = Some(encoder_instance(0));
    let saved = set_settings(&mut p, Controller::Encoder, 0, "{\"step\":9}".to_string());
    assert!(saved);
    let (_, event) = get_settings(&p, Controller::Encoder, 0, 3).unwrap();
    assert_eq!(event.payload.settings, "{\"step\":9}");
}

#[test]
fn set_settings_without_an_instance_saves_nothing() {
    let mut p = Profile::new(9, 2);
    assert!(!set_settings(&mut p, Controller::Encoder, 0, "{}".to_string()));
    assert!(!set_settings(&mut p, Controller::Keypad, 3, "{}".to_string()));
    assert!(!set_settings(&mut p, Controller::Keypad, 200, "{}".to_string()));
}

#[test]
fn get_settings_answers_for_key_instances_too() {
    let mut p = Profile::new(9, 2);
    p.keys[2] = Some(Slot::Single(key_instance(2)));
    let (plugin, event) = get_settings(&p, Controller::Keypad, 2, 3).unwrap();
    assert_eq!(plugin, "p-key");
    assert_eq!(event.action, "a-key");
    assert_eq!(event.payload.coordinates.row, 0);
    assert_eq!(event.payload.coordinates.column, 2);
    assert!(get_settings(&p, Controller::Keypad, 5, 3).is_none());
}

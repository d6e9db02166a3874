use opendeck::dispatch::{
    key_down_slot, key_up_slot, DispatchStep, SETTLE_MILLIS,
};
use opendeck::shared::{ActionInstance, ActionMeta, ChildAction, Context, Controller, Slot};

fn instance(plugin: &str, uuid: &str, states: u16, disable: bool, position: u8) -> ActionInstance {
    ActionInstance {
        action: ActionMeta {
            plugin: plugin.to_string(),
            uuid: uuid.to_string(),
            disable_automatic_states: disable,
        },
        context: Context {
            device: "pk-aa:bb".to_string(),
            profile: "default".to_string(),
            controller: Controller::Keypad,
            position,
        },
        settings: "{}".to_string(),
        current_state: 0,
        state_count: states,
    }
}

fn state_of(slot: &Slot) -> u16 {
    match slot {
        Slot::Single(i) => i.current_state,
        Slot::MultiSwitch { current_state, .. } => *current_state,
        Slot::MultiAll { .. } => 0,
    }
}

#[test]
fn simple_press_emits_one_down_event() {
    let slot = Slot::Single(instance("p1", "a1", 1, false, 4));
    let (slot2, steps) = key_down_slot(slot, 3);
    assert_eq!(state_of(&slot2), 0);
    assert_eq!(steps.len(), 1);
    match &steps[0] {
        DispatchStep::SendKey { plugin, event } => {
            assert_eq!(plugin, "p1");
            assert!(!event.up);
            assert_eq!(event.action, "a1");
            assert_eq!(event.payload.coordinates.row, 1);
            assert_eq!(event.payload.coordinates.column, 1);
            assert_eq!(event.payload.state, 0);
        }
        other => panic!("unexpected step {other:?}"),
    }
}

#[test]
fn two_state_release_toggles_persists_and_refreshes() {
    let slot = Slot::Single(instance("p1", "a1", 2, false, 0));
    let (slot2, steps) = key_up_slot(slot, 3);
    assert_eq!(state_of(&slot2), 1);
    assert_eq!(steps.len(), 3);
    match &steps[0] {
        DispatchStep::SendKey { event, .. } => {
            assert!(event.up);
            assert_eq!(event.payload.state, 1);
        }
        other => panic!("unexpected step {other:?}"),
    }
    assert!(matches!(steps[1], DispatchStep::PersistProfile));
    assert!(matches!(steps[2], DispatchStep::RefreshUi { .. }));
}

#[test]
fn press_release_n_times_advances_state_n_mod_2() {
    let mut slot = Slot::Single(instance("p1", "a1", 2, false, 0));
    for cycle in 1..=5u16 {
        let (s, _) = key_down_slot(slot, 3);
        let (s, _) = key_up_slot(s, 3);
        slot = s;
        assert_eq!(state_of(&slot), cycle % 2);
    }
}

#[test]
fn disabled_toggling_never_changes_state() {
    let mut slot = Slot::Single(instance("p1", "a1", 2, true, 0));
    for _ in 0..4 {
        let (s, _) = key_down_slot(slot, 3);
        let (s, _) = key_up_slot(s, 3);
        slot = s;
        assert_eq!(state_of(&slot), 0);
    }
}

#[test]
fn single_state_action_never_toggles() {
    let slot = Slot::Single(instance("p1", "a1", 1, false, 0));
    let (slot2, _) = key_up_slot(slot, 3);
    assert_eq!(state_of(&slot2), 0);
}

#[test]
fn run_all_delay_child_separates_the_two_plugins() {
    let a = instance("plugin-a", "a", 2, false, 0);
    let b = instance("plugin-b", "b", 1, false, 0);
    let ctx = a.context.clone();
    let d: u64 = 250;
    let slot = Slot::MultiAll {
        context: ctx,
        children: vec![
            ChildAction::Act(a),
            ChildAction::Delay(d),
            ChildAction::Act(b),
        ],
    };
    let (slot2, steps) = key_down_slot(slot, 3);
    assert_eq!(steps.len(), 11);
    let total_wait: u64 = steps
        .iter()
        .map(|s| match s {
            DispatchStep::Wait { millis } => *millis,
            _ => 0,
        })
        .sum();
    assert_eq!(total_wait, d + 4 * SETTLE_MILLIS);
    assert!(total_wait >= d + 2 * SETTLE_MILLIS);
    let mut a_up_index = None;
    let mut b_down_index = None;
    for (i, s) in steps.iter().enumerate() {
        if let DispatchStep::SendKey { plugin, event } = s {
            if plugin == "plugin-a" && event.up {
                a_up_index = Some(i);
            }
            if plugin == "plugin-b" && !event.up {
                b_down_index = Some(i);
            }
        }
    }
    assert!(a_up_index.unwrap() < b_down_index.unwrap());
    assert!(matches!(steps[4], DispatchStep::Wait { millis } if millis == d));
    assert!(matches!(steps[9], DispatchStep::PersistProfile));
    assert!(matches!(steps[10], DispatchStep::RefreshUi { .. }));
    match slot2 {
        Slot::MultiAll { children, .. } => match &children[0] {
            ChildAction::Act(i) => assert_eq!(i.current_state, 1),
            other => panic!("unexpected child {other:?}"),
        },
        other => panic!("unexpected slot {other:?}"),
    }
}

#[test]
fn release_is_a_no_op_for_run_all() {
    let a = instance("p", "a", 1, false, 0);
    let ctx = a.context.clone();
    let slot = Slot::MultiAll { context: ctx, children: vec![ChildAction::Act(a)] };
    let (_, steps) = key_up_slot(slot, 3);
    assert!(steps.is_empty());
}

#[test]
fn switch_group_runs_selected_list_and_advances_selector() {
    let a = instance("pa", "a", 1, false, 0);
    let b = instance("pb", "b", 1, false, 0);
    let ctx = a.context.clone();
    let slot = Slot::MultiSwitch {
        context: ctx,
        groups: vec![vec![ChildAction::Act(a)], vec![ChildAction::Act(b)]],
        current_state: 0,
    };
    let (slot2, steps) = key_down_slot(slot, 3);
    let sent: Vec<String> = steps
        .iter()
        .filter_map(|s| match s {
            DispatchStep::SendKey { plugin, .. } => Some(plugin.clone()),
            _ => None,
        })
        .collect();
    assert_eq!(sent, vec!["pa".to_string(), "pa".to_string()]);
    assert_eq!(state_of(&slot2), 1);
    let (slot3, steps) = key_down_slot(slot2, 3);
    let sent: Vec<String> = steps
        .iter()
        .filter_map(|s| match s {
            DispatchStep::SendKey { plugin, .. } => Some(plugin.clone()),
            _ => None,
        })
        .collect();
    assert_eq!(sent, vec!["pb".to_string(), "pb".to_string()]);
    assert_eq!(state_of(&slot3), 0);
}

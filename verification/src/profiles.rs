//! The per-device profile: the grid of key slots and the list of dial
//! slots, and the event entry points that resolve a hardware event
//! against them.
//!
//! A profile's slot arrays are sized once from the owning device's
//! capabilities and never resized. An event addressing a position with no
//! configured instance is silently dropped: no event is ever synthesized
//! for a missing configuration.

use vstd::prelude::*;

use crate::dispatch::{
    key_down_rel, key_up_rel, key_down_slot, key_up_slot, make_dial_press_event,
    make_dial_rotate_event, spec_dial_press_event, spec_dial_rotate_event, spec_instance_payload,
    instance_payload, DialPressEvent, DialRotateEvent, DispatchStep, InstancePayload,
};
use crate::shared::{ActionInstance, Controller, Slot};

verus! {

/// One settings-delivery frame, answering a plugin's settings query.
#[derive(Clone, PartialEq, Eq, Debug)]
pub struct SettingsDeliveryEvent {
    pub action: String,
    pub context: crate::shared::Context,
    pub device: String,
    pub payload: InstancePayload,
}

/// A device's selected profile: its key slots and its dial slots.
pub struct Profile {
    /// One optional slot per key position, exactly rows times columns of
    /// them.
    pub keys: Vec<Option<Slot>>,
    /// One optional instance per dial.
    pub sliders: Vec<Option<ActionInstance>>,
}

impl Profile {
    /// Every configured slot and instance satisfies its own invariant.
    pub open spec fn wf(&self) -> bool {
        &&& forall|i: int|
            0 <= i < self.keys@.len() ==> match #[trigger] self.keys@[i] {
                Some(s) => s.wf(),
                None => true,
            }
        &&& forall|i: int|
            0 <= i < self.sliders@.len() ==> match #[trigger] self.sliders@[i] {
                Some(inst) => inst.wf(),
                None => true,
            }
    }

    /// An empty profile sized for a device with `key_count` key slots and
    /// `dial_count` dials.
    pub fn new(key_count: u8, dial_count: u8) -> (r: Profile)
        ensures
            r.keys@.len() == key_count as int,
            r.sliders@.len() == dial_count as int,
            forall|i: int| 0 <= i < key_count as int ==> (#[trigger] r.keys@[i]) is None,
            forall|i: int| 0 <= i < dial_count as int ==> (#[trigger] r.sliders@[i]) is None,
            r.wf(),
    {
        let mut keys: Vec<Option<Slot>> = Vec::new();
        let mut i: usize = 0;
        while i < key_count as usize
            invariant
                keys@.len() == i,
                0 <= i <= key_count as usize,
                forall|k: int| 0 <= k < i ==> (#[trigger] keys@[k]) is None,
            decreases key_count as usize - i,
        {
            keys.push(None);
            i = i + 1;
        }
        let mut sliders: Vec<Option<ActionInstance>> = Vec::new();
        let mut j: usize = 0;
        while j < dial_count as usize
            invariant
                sliders@.len() == j,
                0 <= j <= dial_count as usize,
                forall|k: int| 0 <= k < j ==> (#[trigger] sliders@[k]) is None,
            decreases dial_count as usize - j,
        {
            sliders.push(None);
            j = j + 1;
        }
        Profile { keys, sliders }
    }
}

/// Whether two profile values hold the same configuration, slot for
/// slot.
pub open spec fn same_profile(p0: Profile, p1: Profile) -> bool {
    &&& p1.keys@ == p0.keys@
    &&& p1.sliders@ == p0.sliders@
}

/// How a key event leaves a profile: a configured slot at `p` is replaced
/// by the slot the dispatch relation `rel` pairs with it, everything else
/// is untouched; a missing or out-of-range slot drops the event with no
/// steps.
pub open spec fn key_event_rel(
    p0: Profile,
    p1: Profile,
    position: u8,
    steps: Seq<DispatchStep>,
    columns: u8,
    up: bool,
) -> bool {
    let p = position as int;
    if p < p0.keys@.len() {
        match p0.keys@[p] {
            Some(s0) => {
                &&& p1.keys@.len() == p0.keys@.len()
                &&& forall|k: int|
                    0 <= k < p0.keys@.len() && k != p ==> #[trigger] p1.keys@[k] == p0.keys@[k]
                &&& p1.sliders@ == p0.sliders@
                &&& match p1.keys@[p] {
                    Some(s1) => if up {
                        key_up_rel(s0, s1, steps, columns)
                    } else {
                        key_down_rel(s0, s1, steps, columns)
                    },
                    None => false,
                }
            },
            None => same_profile(p0, p1) && steps == Seq::<DispatchStep>::empty(),
        }
    } else {
        same_profile(p0, p1) && steps == Seq::<DispatchStep>::empty()
    }
}

/// Dispatches a key press at a grid position: replaces the slot with what
/// the press leaves and returns the steps to perform, in order.
pub fn key_down(profile: &mut Profile, position: u8, columns: u8) -> (steps: Vec<DispatchStep>)
    requires
        columns > 0,
        old(profile).wf(),
    ensures
        key_event_rel(*old(profile), *final(profile), position, steps@, columns, false),
        final(profile).wf(),
{
    let p = position as usize;
    if p >= profile.keys.len() {
        return Vec::new();
    }
    let slot_opt = profile.keys.remove(p);
    let ghost keys0 = old(profile).keys@;
    match slot_opt {
        Some(slot) => {
            let ghost s0 = slot;
            let (s1, steps) = key_down_slot(slot, columns);
            profile.keys.insert(p, Some(s1));
            proof {
                assert(profile.keys@ =~= keys0.update(p as int, Some(s1)));
                crate::dispatch::lemma_key_down_rel_wf(s0, s1, steps@, columns);
            }
            steps
        },
        None => {
            profile.keys.insert(p, None);
            proof {
                assert(profile.keys@ =~= keys0);
            }
            Vec::new()
        },
    }
}

/// Dispatches a key release at a grid position.
pub fn key_up(profile: &mut Profile, position: u8, columns: u8) -> (steps: Vec<DispatchStep>)
    requires
        columns > 0,
        old(profile).wf(),
    ensures
        key_event_rel(*old(profile), *final(profile), position, steps@, columns, true),
        final(profile).wf(),
{
    let p = position as usize;
    if p >= profile.keys.len() {
        return Vec::new();
    }
    let slot_opt = profile.keys.remove(p);
    let ghost keys0 = old(profile).keys@;
    match slot_opt {
        Some(slot) => {
            let ghost s0 = slot;
            let (s1, steps) = key_up_slot(slot, columns);
            profile.keys.insert(p, Some(s1));
            proof {
                assert(profile.keys@ =~= keys0.update(p as int, Some(s1)));
                crate::dispatch::lemma_key_up_rel_wf(s0, s1, steps@, columns);
            }
            steps
        },
        None => {
            profile.keys.insert(p, None);
            proof {
                assert(profile.keys@ =~= keys0);
            }
            Vec::new()
        },
    }
}

/// Dispatches a dial rotation: the configured instance's dial-rotate
/// frame and its destination plugin, or nothing for a missing instance.
/// Rotation never touches state and never persists.
pub fn dial_rotate(profile: &Profile, index: u8, ticks: i16) -> (r: Option<(String,
    DialRotateEvent,
)>)
    ensures
        ({
            let p = index as int;
            if p < profile.sliders@.len() {
                match profile.sliders@[p] {
                    Some(inst) => match r {
                        Some(pair) => pair.0@ == inst.action.plugin@ && pair.1
                            == spec_dial_rotate_event(inst, ticks),
                        None => false,
                    },
                    None => r is None,
                }
            } else {
                r is None
            }
        }),
{
    let p = index as usize;
    if p >= profile.sliders.len() {
        return None;
    }
    match &profile.sliders[p] {
        Some(inst) => Some((inst.action.plugin.clone(), make_dial_rotate_event(inst, ticks))),
        None => None,
    }
}

/// Dispatches a dial press or release.
pub fn dial_press(profile: &Profile, index: u8, up: bool) -> (r: Option<(String, DialPressEvent)>)
    ensures
        ({
            let p = index as int;
            if p < profile.sliders@.len() {
                match profile.sliders@[p] {
                    Some(inst) => match r {
                        Some(pair) => pair.0@ == inst.action.plugin@ && pair.1
                            == spec_dial_press_event(inst, up),
                        None => false,
                    },
                    None => r is None,
                }
            } else {
                r is None
            }
        }),
{
    let p = index as usize;
    if p >= profile.sliders.len() {
        return None;
    }
    match &profile.sliders[p] {
        Some(inst) => Some((inst.action.plugin.clone(), make_dial_press_event(inst, up))),
        None => None,
    }
}

/// Replaces the settings blob of the instance at a context, if one is
/// configured there. Returns whether anything changed (the caller
/// persists exactly then). A key slot holding a multi-action sequence
/// carries no settings blob of its own and is left untouched.
pub fn set_settings(profile: &mut Profile, controller: Controller, position: u8, payload: String)
    -> (saved: bool)
    ensures
        ({
            let p = position as int;
            match controller {
                Controller::Encoder => {
                    if p < old(profile).sliders@.len() {
                        match old(profile).sliders@[p] {
                            Some(inst) => {
                                &&& saved
                                &&& final(profile).keys@ == old(profile).keys@
                                &&& final(profile).sliders@.len() == old(
                                    profile,
                                ).sliders@.len()
                                &&& forall|k: int|
                                    0 <= k < old(profile).sliders@.len() && k != p
                                        ==> #[trigger] final(profile).sliders@[k] == old(
                                        profile,
                                    ).sliders@[k]
                                &&& final(profile).sliders@[p] == Some(
                                    ActionInstance { settings: payload, ..inst },
                                )
                            },
                            None => !saved && same_profile(*old(profile), *final(profile)),
                        }
                    } else {
                        !saved && same_profile(*old(profile), *final(profile))
                    }
                },
                Controller::Keypad => {
                    if p < old(profile).keys@.len() {
                        match old(profile).keys@[p] {
                            Some(Slot::Single(inst)) => {
                                &&& saved
                                &&& final(profile).sliders@ == old(profile).sliders@
                                &&& final(profile).keys@.len() == old(profile).keys@.len()
                                &&& forall|k: int|
                                    0 <= k < old(profile).keys@.len() && k != p
                                        ==> #[trigger] final(profile).keys@[k] == old(
                                        profile,
                                    ).keys@[k]
                                &&& final(profile).keys@[p] == Some(
                                    Slot::Single(ActionInstance { settings: payload, ..inst }),
                                )
                            },
                            _ => !saved && same_profile(*old(profile), *final(profile)),
                        }
                    } else {
                        !saved && same_profile(*old(profile), *final(profile))
                    }
                },
            }
        }),
{
    let p = position as usize;
    match controller {
        Controller::Encoder => {
            if p >= profile.sliders.len() {
                return false;
            }
            let ghost sliders0 = profile.sliders@;
            let inst_opt = profile.sliders.remove(p);
            match inst_opt {
                Some(inst) => {
                    let updated = ActionInstance {
                        action: inst.action,
                        context: inst.context,
                        settings: payload,
                        current_state: inst.current_state,
                        state_count: inst.state_count,
                    };
                    profile.sliders.insert(p, Some(updated));
                    proof {
                        assert(profile.sliders@ =~= sliders0.update(p as int, Some(updated)));
                    }
                    true
                },
                None => {
                    profile.sliders.insert(p, None);
                    proof {
                        assert(profile.sliders@ =~= sliders0);
                    }
                    false
                },
            }
        },
        Controller::Keypad => {
            if p >= profile.keys.len() {
                return false;
            }
            let ghost keys0 = profile.keys@;
            let slot_opt = profile.keys.remove(p);
            match slot_opt {
                Some(Slot::Single(inst)) => {
                    let updated = ActionInstance {
                        action: inst.action,
                        context: inst.context,
                        settings: payload,
                        current_state: inst.current_state,
                        state_count: inst.state_count,
                    };
                    profile.keys.insert(p, Some(Slot::Single(updated)));
                    proof {
                        assert(profile.keys@ =~= keys0.update(
                            p as int,
                            Some(Slot::Single(updated)),
                        ));
                    }
                    true
                },
                other => {
                    profile.keys.insert(p, other);
                    proof {
                        assert(profile.keys@ =~= keys0);
                    }
                    false
                },
            }
        },
    }
}

/// Answers a settings query: the settings-delivery frame for the
/// instance at a context and its destination plugin, or nothing for a
/// missing instance.
pub fn get_settings(profile: &Profile, controller: Controller, position: u8, columns: u8) -> (r:
    Option<(String, SettingsDeliveryEvent)>)
    requires
        columns > 0,
    ensures
        ({
            let p = position as int;
            let found: Option<ActionInstance> = match controller {
                Controller::Encoder => if p < profile.sliders@.len() {
                    profile.sliders@[p]
                } else {
                    None
                },
                Controller::Keypad => if p < profile.keys@.len() {
                    match profile.keys@[p] {
                        Some(Slot::Single(inst)) => Some(inst),
                        _ => None,
                    }
                } else {
                    None
                },
            };
            match found {
                Some(inst) => match r {
                    Some(pair) => {
                        &&& pair.0@ == inst.action.plugin@
                        &&& pair.1 == (SettingsDeliveryEvent {
                            action: inst.action.uuid,
                            context: inst.context,
                            device: inst.context.device,
                            payload: spec_instance_payload(inst, columns),
                        })
                    },
                    None => false,
                },
                None => r is None,
            }
        }),
{
    let p = position as usize;
    let inst: &ActionInstance = match controller {
        Controller::Encoder => {
            if p >= profile.sliders.len() {
                return None;
            }
            match &profile.sliders[p] {
                Some(inst) => inst,
                None => {
                    return None;
                },
            }
        },
        Controller::Keypad => {
            if p >= profile.keys.len() {
                return None;
            }
            match &profile.keys[p] {
                Some(Slot::Single(inst)) => inst,
                _ => {
                    return None;
                },
            }
        },
    };
    let event = SettingsDeliveryEvent {
        action: inst.action.uuid.clone(),
        context: inst.context.duplicate(),
        device: inst.context.device.clone(),
        payload: instance_payload(inst, columns),
    };
    Some((inst.action.plugin.clone(), event))
}

} // verus!

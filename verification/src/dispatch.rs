//! The action-dispatch state machine.
//!
//! Given a hardware event and the slot's action-instance tree, dispatch
//! produces the ordered sequence of steps the caller must perform: frames
//! to emit to plugins, suspensions between them, a profile persist and a
//! UI refresh. Producing the steps as data keeps the engine pure; the
//! caller performs each step in order and aborts the remainder on the
//! first transport error, leaving already-performed steps in place.

use vstd::prelude::*;

use crate::shared::{ActionInstance, ChildAction, Context, Controller, Slot};

verus! {

/// The settle interval between the steps of a multi-action sequence, in
/// milliseconds.
pub const SETTLE_MILLIS: u64 = 100;

/// Row/column coordinates handed to plugins alongside every event.
#[derive(Clone, Copy, PartialEq, Eq, Structural, Debug)]
pub struct Coordinates {
    pub row: u8,
    pub column: u8,
}

/// The coordinates for a context: key positions map row-major over the
/// device's `columns` columns; dials sit on row zero at their own index.
pub open spec fn spec_coordinates(controller: Controller, position: u8, columns: u8) -> Coordinates
    recommends
        columns > 0,
{
    match controller {
        Controller::Encoder => Coordinates { row: 0, column: position },
        Controller::Keypad => Coordinates {
            row: (position / columns) as u8,
            column: (position % columns) as u8,
        },
    }
}

/// The payload sent with key activation events: the instance's settings
/// blob, its coordinates, its controller class and its current state.
#[derive(Clone, PartialEq, Eq, Debug)]
pub struct InstancePayload {
    pub settings: String,
    pub coordinates: Coordinates,
    pub controller: Controller,
    pub state: u16,
}

/// One key activation frame addressed to a plugin: press or release, the
/// action-type id, the instance's context and device, and the payload.
#[derive(Clone, PartialEq, Eq, Debug)]
pub struct KeyPluginEvent {
    /// False for a press (activate-down), true for a release.
    pub up: bool,
    pub action: String,
    pub context: Context,
    pub device: String,
    pub payload: InstancePayload,
}

/// One step of a dispatch sequence, to be performed in order.
#[derive(Clone, PartialEq, Eq, Debug)]
pub enum DispatchStep {
    /// Emit a key activation frame to the named plugin.
    SendKey { plugin: String, event: KeyPluginEvent },
    /// Suspend the whole sequence for this many milliseconds.
    Wait { millis: u64 },
    /// Persist the profile now.
    PersistProfile,
    /// Push a state refresh to any UI channel listening on this context.
    RefreshUi { context: Context },
}

pub open spec fn spec_instance_payload(inst: ActionInstance, columns: u8) -> InstancePayload {
    InstancePayload {
        settings: inst.settings,
        coordinates: spec_coordinates(inst.context.controller, inst.context.position, columns),
        controller: inst.context.controller,
        state: inst.current_state,
    }
}

pub open spec fn spec_key_event(up: bool, inst: ActionInstance, columns: u8) -> KeyPluginEvent {
    KeyPluginEvent {
        up,
        action: inst.action.uuid,
        context: inst.context,
        device: inst.context.device,
        payload: spec_instance_payload(inst, columns),
    }
}

pub open spec fn key_send_step(up: bool, inst: ActionInstance, columns: u8) -> DispatchStep {
    DispatchStep::SendKey { plugin: inst.action.plugin, event: spec_key_event(up, inst, columns) }
}

/// Automatic two-state toggling: an instance with exactly two declared
/// states and toggling not suppressed advances its state by one modulo
/// two; every other instance is left unchanged.
pub open spec fn spec_toggle(inst: ActionInstance) -> ActionInstance {
    if inst.state_count == 2 && !inst.action.disable_automatic_states {
        ActionInstance { current_state: (((inst.current_state + 1) as int % 2) as u16), ..inst }
    } else {
        inst
    }
}

/// The steps one child of a multi-action sequence contributes, and the
/// child as the sequence leaves it: a delay child suspends and emits
/// nothing; any other child is pressed, settled, toggled, released and
/// settled again.
pub open spec fn spec_child_steps(c: ChildAction, columns: u8) -> (ChildAction, Seq<DispatchStep>) {
    match c {
        ChildAction::Delay(d) => (c, seq![DispatchStep::Wait { millis: d }]),
        ChildAction::Act(inst) => (
            ChildAction::Act(spec_toggle(inst)),
            seq![
                key_send_step(false, inst, columns),
                DispatchStep::Wait { millis: SETTLE_MILLIS },
                key_send_step(true, spec_toggle(inst), columns),
                DispatchStep::Wait { millis: SETTLE_MILLIS },
            ],
        ),
    }
}

/// Running a whole child list in order: the children as the run leaves
/// them, and every step in sequence.
pub open spec fn spec_run_children(cs: Seq<ChildAction>, columns: u8) -> (
    Seq<ChildAction>,
    Seq<DispatchStep>,
)
    decreases cs.len(),
{
    if cs.len() == 0 {
        (Seq::empty(), Seq::empty())
    } else {
        let head = spec_child_steps(cs[0], columns);
        let rest = spec_run_children(cs.skip(1), columns);
        (seq![head.0] + rest.0, head.1 + rest.1)
    }
}

/// What a key press does to a slot. A single action emits its press frame
/// and changes nothing; a run-all sequence runs its children, persists and
/// refreshes; a switchable group runs the selected group, advances its own
/// selector modulo the group count, persists and refreshes.
pub open spec fn key_down_rel(s0: Slot, s1: Slot, steps: Seq<DispatchStep>, columns: u8) -> bool {
    match s0 {
        Slot::Single(inst) => {
            &&& s1 == s0
            &&& steps == seq![key_send_step(false, inst, columns)]
        },
        Slot::MultiAll { context, children } => {
            let r = spec_run_children(children@, columns);
            match s1 {
                Slot::MultiAll { context: c1, children: ch1 } => {
                    &&& c1 == context
                    &&& ch1@ == r.0
                    &&& steps == r.1 + seq![
                        DispatchStep::PersistProfile,
                        DispatchStep::RefreshUi { context },
                    ]
                },
                _ => false,
            }
        },
        Slot::MultiSwitch { context, groups, current_state } => {
            let r = spec_run_children(groups@[current_state as int]@, columns);
            match s1 {
                Slot::MultiSwitch { context: c1, groups: g1, current_state: cur1 } => {
                    &&& c1 == context
                    &&& g1@.len() == groups@.len()
                    &&& forall|j: int|
                        0 <= j < groups@.len() && j != current_state as int
                            ==> g1@[j] == groups@[j]
                    &&& g1@[current_state as int]@ == r.0
                    &&& cur1 as int == (current_state as int + 1) % groups@.len() as int
                    &&& steps == r.1 + seq![
                        DispatchStep::PersistProfile,
                        DispatchStep::RefreshUi { context },
                    ]
                },
                _ => false,
            }
        },
    }
}

/// What a key release does to a slot. A single action toggles (when
/// eligible), emits its release frame carrying the new state, persists and
/// refreshes. Release is a no-op for both multi-action variants: their
/// whole behaviour already ran on the press.
pub open spec fn key_up_rel(s0: Slot, s1: Slot, steps: Seq<DispatchStep>, columns: u8) -> bool {
    match s0 {
        Slot::Single(inst) => {
            &&& s1 == Slot::Single(spec_toggle(inst))
            &&& steps == seq![
                key_send_step(true, spec_toggle(inst), columns),
                DispatchStep::PersistProfile,
                DispatchStep::RefreshUi { context: inst.context },
            ]
        },
        _ => {
            &&& s1 == s0
            &&& steps == Seq::<DispatchStep>::empty()
        },
    }
}

/// Builds the payload for an instance's activation frames.
pub fn instance_payload(inst: &ActionInstance, columns: u8) -> (r: InstancePayload)
    requires
        columns > 0,
    ensures
        r == spec_instance_payload(*inst, columns),
{
    let coordinates = match inst.context.controller {
        Controller::Encoder => Coordinates { row: 0, column: inst.context.position },
        Controller::Keypad => Coordinates {
            row: inst.context.position / columns,
            column: inst.context.position % columns,
        },
    };
    InstancePayload {
        settings: inst.settings.clone(),
        coordinates,
        controller: inst.context.controller,
        state: inst.current_state,
    }
}

/// Builds one key activation frame for an instance.
pub fn make_key_event(up: bool, inst: &ActionInstance, columns: u8) -> (r: KeyPluginEvent)
    requires
        columns > 0,
    ensures
        r == spec_key_event(up, *inst, columns),
{
    KeyPluginEvent {
        up,
        action: inst.action.uuid.clone(),
        context: inst.context.duplicate(),
        device: inst.context.device.clone(),
        payload: instance_payload(inst, columns),
    }
}

/// Applies automatic two-state toggling to an instance.
pub fn toggle(inst: ActionInstance) -> (r: ActionInstance)
    requires
        inst.wf(),
    ensures
        r == spec_toggle(inst),
        r.wf(),
{
    if inst.state_count == 2 && !inst.action.disable_automatic_states {
        let next: u16 = (inst.current_state + 1) % 2;
        ActionInstance {
            action: inst.action,
            context: inst.context,
            settings: inst.settings,
            current_state: next,
            state_count: inst.state_count,
        }
    } else {
        inst
    }
}

/// Runs a multi-action child list, returning the children as the run
/// leaves them and the steps to perform.
fn run_children(children: Vec<ChildAction>, columns: u8) -> (r: (Vec<ChildAction>, Vec<
    DispatchStep,
>))
    requires
        columns > 0,
        forall|i: int| 0 <= i < children@.len() ==> (#[trigger] children@[i]).wf(),
    ensures
        r.0@ == spec_run_children(children@, columns).0,
        r.1@ == spec_run_children(children@, columns).1,
{
    let ghost cs = children@;
    let mut out: Vec<ChildAction> = Vec::new();
    let mut steps: Vec<DispatchStep> = Vec::new();
    let mut i: usize = 0;
    proof {
        assert(cs.skip(0) =~= cs);
        assert(out@ + spec_run_children(cs, columns).0 =~= spec_run_children(cs, columns).0);
        assert(steps@ + spec_run_children(cs, columns).1 =~= spec_run_children(cs, columns).1);
    }
    while i < children.len()
        invariant
            0 <= i <= children.len(),
            cs == children@,
            columns > 0,
            forall|k: int| 0 <= k < children@.len() ==> (#[trigger] children@[k]).wf(),
            out@ + spec_run_children(cs.skip(i as int), columns).0
                == spec_run_children(cs, columns).0,
            steps@ + spec_run_children(cs.skip(i as int), columns).1
                == spec_run_children(cs, columns).1,
        decreases children.len() - i,
    {
        proof {
            assert(cs.skip(i as int)[0] == cs[i as int]);
            assert(cs.skip(i as int).skip(1) =~= cs.skip(i + 1));
        }
        let ghost head = spec_child_steps(cs[i as int], columns);
        match &children[i] {
            ChildAction::Delay(d) => {
                steps.push(DispatchStep::Wait { millis: *d });
                out.push(ChildAction::Delay(*d));
            },
            ChildAction::Act(inst_ref) => {
                let inst0 = inst_ref.duplicate();
                steps.push(DispatchStep::SendKey {
                    plugin: inst0.action.plugin.clone(),
                    event: make_key_event(false, &inst0, columns),
                });
                steps.push(DispatchStep::Wait { millis: SETTLE_MILLIS });
                let inst1 = toggle(inst0);
                steps.push(DispatchStep::SendKey {
                    plugin: inst1.action.plugin.clone(),
                    event: make_key_event(true, &inst1, columns),
                });
                steps.push(DispatchStep::Wait { millis: SETTLE_MILLIS });
                out.push(ChildAction::Act(inst1));
            },
        }
        proof {
            assert(out@.drop_last() + seq![head.0] =~= out@);
            assert((out@.drop_last() + seq![head.0])
                + spec_run_children(cs.skip(i + 1), columns).0
                =~= out@.drop_last() + (seq![head.0] + spec_run_children(cs.skip(i + 1), columns).0));
            assert(steps@ + spec_run_children(cs.skip(i + 1), columns).1
                =~= spec_run_children(cs, columns).1);
        }
        i = i + 1;
    }
    proof {
        assert(cs.skip(children@.len() as int) =~= Seq::<ChildAction>::empty());
        assert(out@ + Seq::<ChildAction>::empty() =~= out@);
        assert(steps@ + Seq::<DispatchStep>::empty() =~= steps@);
    }
    (out, steps)
}

/// Dispatches a key press on a slot: returns the slot as the press leaves
/// it and the steps to perform, in order.
pub fn key_down_slot(slot: Slot, columns: u8) -> (r: (Slot, Vec<DispatchStep>))
    requires
        columns > 0,
        slot.wf(),
    ensures
        key_down_rel(slot, r.0, r.1@, columns),
{
    match slot {
        Slot::Single(inst) => {
            let mut steps: Vec<DispatchStep> = Vec::new();
            steps.push(DispatchStep::SendKey {
                plugin: inst.action.plugin.clone(),
                event: make_key_event(false, &inst, columns),
            });
            (Slot::Single(inst), steps)
        },
        Slot::MultiAll { context, children } => {
            let (nc, mut steps) = run_children(children, columns);
            steps.push(DispatchStep::PersistProfile);
            steps.push(DispatchStep::RefreshUi { context: context.duplicate() });
            let ghost r = spec_run_children(children@, columns);
            proof {
                assert(steps@ =~= r.1 + seq![
                    DispatchStep::PersistProfile,
                    DispatchStep::RefreshUi { context },
                ]);
            }
            (Slot::MultiAll { context, children: nc }, steps)
        },
        Slot::MultiSwitch { context, mut groups, current_state } => {
            let ghost groups0 = groups@;
            let idx = current_state as usize;
            let group = groups.remove(idx);
            let (ng, mut steps) = run_children(group, columns);
            groups.insert(idx, ng);
            proof {
                assert(groups@ =~= groups0.update(idx as int, ng));
            }
            let glen: u16 = groups.len() as u16;
            let next: u16 = (current_state + 1) % glen;
            steps.push(DispatchStep::PersistProfile);
            steps.push(DispatchStep::RefreshUi { context: context.duplicate() });
            let ghost r = spec_run_children(groups0[current_state as int]@, columns);
            proof {
                assert(steps@ =~= r.1 + seq![
                    DispatchStep::PersistProfile,
                    DispatchStep::RefreshUi { context },
                ]);
            }
            (Slot::MultiSwitch { context, groups, current_state: next }, steps)
        },
    }
}

/// Dispatches a key release on a slot: returns the slot as the release
/// leaves it and the steps to perform, in order.
pub fn key_up_slot(slot: Slot, columns: u8) -> (r: (Slot, Vec<DispatchStep>))
    requires
        columns > 0,
        slot.wf(),
    ensures
        key_up_rel(slot, r.0, r.1@, columns),
{
    match slot {
        Slot::Single(inst) => {
            let ghost i0 = inst;
            let context = inst.context.duplicate();
            let inst1 = toggle(inst);
            let mut steps: Vec<DispatchStep> = Vec::new();
            steps.push(DispatchStep::SendKey {
                plugin: inst1.action.plugin.clone(),
                event: make_key_event(true, &inst1, columns),
            });
            steps.push(DispatchStep::PersistProfile);
            steps.push(DispatchStep::RefreshUi { context });
            proof {
                assert(steps@ =~= seq![
                    key_send_step(true, spec_toggle(i0), columns),
                    DispatchStep::PersistProfile,
                    DispatchStep::RefreshUi { context: i0.context },
                ]);
            }
            (Slot::Single(inst1), steps)
        },
        s => (s, Vec::new()),
    }
}

/// The payload of a dial-rotate frame: settings, coordinates, the signed
/// tick delta and a pressed flag fixed to false.
#[derive(Clone, PartialEq, Eq, Debug)]
pub struct DialRotatePayload {
    pub settings: String,
    pub coordinates: Coordinates,
    pub ticks: i16,
    pub pressed: bool,
}

/// One dial-rotate frame addressed to a plugin.
#[derive(Clone, PartialEq, Eq, Debug)]
pub struct DialRotateEvent {
    pub action: String,
    pub context: Context,
    pub device: String,
    pub payload: DialRotatePayload,
}

/// The payload of a dial press or release frame.
#[derive(Clone, PartialEq, Eq, Debug)]
pub struct DialPressPayload {
    pub controller: Controller,
    pub settings: String,
    pub coordinates: Coordinates,
}

/// One dial press or release frame addressed to a plugin.
#[derive(Clone, PartialEq, Eq, Debug)]
pub struct DialPressEvent {
    /// False for a press, true for a release.
    pub up: bool,
    pub action: String,
    pub context: Context,
    pub device: String,
    pub payload: DialPressPayload,
}

pub open spec fn spec_dial_rotate_event(inst: ActionInstance, ticks: i16) -> DialRotateEvent {
    DialRotateEvent {
        action: inst.action.uuid,
        context: inst.context,
        device: inst.context.device,
        payload: DialRotatePayload {
            settings: inst.settings,
            coordinates: Coordinates { row: 0, column: inst.context.position },
            ticks,
            pressed: false,
        },
    }
}

pub open spec fn spec_dial_press_event(inst: ActionInstance, up: bool) -> DialPressEvent {
    DialPressEvent {
        up,
        action: inst.action.uuid,
        context: inst.context,
        device: inst.context.device,
        payload: DialPressPayload {
            controller: Controller::Encoder,
            settings: inst.settings,
            coordinates: Coordinates { row: 0, column: inst.context.position },
        },
    }
}

/// Builds the dial-rotate frame for an encoder instance. Rotation is
/// stateless: it never touches the state index and never persists.
pub fn make_dial_rotate_event(inst: &ActionInstance, ticks: i16) -> (r: DialRotateEvent)
    ensures
        r == spec_dial_rotate_event(*inst, ticks),
{
    DialRotateEvent {
        action: inst.action.uuid.clone(),
        context: inst.context.duplicate(),
        device: inst.context.device.clone(),
        payload: DialRotatePayload {
            settings: inst.settings.clone(),
            coordinates: Coordinates { row: 0, column: inst.context.position },
            ticks,
            pressed: false,
        },
    }
}

/// Builds the dial press or release frame for an encoder instance.
pub fn make_dial_press_event(inst: &ActionInstance, up: bool) -> (r: DialPressEvent)
    ensures
        r == spec_dial_press_event(*inst, up),
{
    DialPressEvent {
        up,
        action: inst.action.uuid.clone(),
        context: inst.context.duplicate(),
        device: inst.context.device.clone(),
        payload: DialPressPayload {
            controller: Controller::Encoder,
            settings: inst.settings.clone(),
            coordinates: Coordinates { row: 0, column: inst.context.position },
        },
    }
}

/// Running a child list preserves every child's invariant.
pub proof fn lemma_run_children_wf(cs: Seq<ChildAction>, columns: u8)
    requires
        forall|i: int| 0 <= i < cs.len() ==> (#[trigger] cs[i]).wf(),
    ensures
        spec_run_children(cs, columns).0.len() == cs.len(),
        forall|i: int|
            0 <= i < cs.len() ==> (#[trigger] spec_run_children(cs, columns).0[i]).wf(),
    decreases cs.len(),
{
    if cs.len() > 0 {
        let t = cs.skip(1);
        assert forall|i: int| 0 <= i < t.len() implies (#[trigger] t[i]).wf() by {
            assert(t[i] == cs[i + 1]);
        }
        lemma_run_children_wf(t, columns);
        let head = spec_child_steps(cs[0], columns);
        assert(head.0.wf());
        let r = spec_run_children(cs, columns).0;
        assert forall|i: int| 0 <= i < cs.len() implies (#[trigger] r[i]).wf() by {
            if i > 0 {
                assert(r[i] == spec_run_children(t, columns).0[i - 1]);
            }
        }
    }
}

/// A key press preserves the slot invariant.
pub proof fn lemma_key_down_rel_wf(s0: Slot, s1: Slot, steps: Seq<DispatchStep>, columns: u8)
    requires
        key_down_rel(s0, s1, steps, columns),
        s0.wf(),
    ensures
        s1.wf(),
{
    match s0 {
        Slot::Single(_) => {},
        Slot::MultiAll { children, .. } => {
            lemma_run_children_wf(children@, columns);
        },
        Slot::MultiSwitch { groups, current_state, .. } => {
            lemma_run_children_wf(groups@[current_state as int]@, columns);
        },
    }
}

/// A key release preserves the slot invariant.
pub proof fn lemma_key_up_rel_wf(s0: Slot, s1: Slot, steps: Seq<DispatchStep>, columns: u8)
    requires
        key_up_rel(s0, s1, steps, columns),
        s0.wf(),
    ensures
        s1.wf(),
{
}

/// The instance after `n` automatic toggles.
pub open spec fn spec_toggle_n(inst: ActionInstance, n: nat) -> ActionInstance
    decreases n,
{
    if n == 0 {
        inst
    } else {
        spec_toggle(spec_toggle_n(inst, (n - 1) as nat))
    }
}

/// One press-release cycle on a single-action slot changes the slot by
/// exactly one `spec_toggle`: the press leaves it untouched and the
/// release toggles it.
pub proof fn lemma_cycle_is_toggle(
    i0: ActionInstance,
    s1: Slot,
    steps1: Seq<DispatchStep>,
    s2: Slot,
    steps2: Seq<DispatchStep>,
    columns: u8,
)
    requires
        key_down_rel(Slot::Single(i0), s1, steps1, columns),
        key_up_rel(s1, s2, steps2, columns),
    ensures
        s2 == Slot::Single(spec_toggle(i0)),
{
}

/// Law: pressing then releasing a simple two-state action `n` times with
/// automatic toggling enabled advances its state exactly `n` times modulo
/// two and changes nothing else; with toggling disabled, or without
/// exactly two states, the state never changes.
pub proof fn lemma_press_release_n(inst: ActionInstance, n: nat)
    requires
        inst.wf(),
    ensures
        inst.state_count == 2 && !inst.action.disable_automatic_states
            ==> spec_toggle_n(inst, n) == (ActionInstance {
            current_state: (((inst.current_state + n) % 2) as u16),
            ..inst
        }),
        inst.state_count != 2 || inst.action.disable_automatic_states
            ==> spec_toggle_n(inst, n) == inst,
    decreases n,
{
    if n > 0 {
        lemma_press_release_n(inst, (n - 1) as nat);
    }
}

/// The total suspension a step sequence mandates, in milliseconds.
pub open spec fn total_wait(steps: Seq<DispatchStep>) -> int
    decreases steps.len(),
{
    if steps.len() == 0 {
        0
    } else {
        (match steps[0] {
            DispatchStep::Wait { millis } => millis as int,
            _ => 0,
        }) + total_wait(steps.skip(1))
    }
}

/// Law: a run-all multi-action holding one delay child of duration `d`
/// between two emitting children suspends for `d` plus four settle
/// intervals in total (so at least `d` plus the two settles around the
/// first press/release pair), and the second child's press frame stands
/// strictly after the first child's release frame in the step order.
pub proof fn lemma_delay_separates_children(
    a: ActionInstance,
    d: u64,
    b: ActionInstance,
    columns: u8,
)
    ensures
        ({
            let r = spec_run_children(
                seq![ChildAction::Act(a), ChildAction::Delay(d), ChildAction::Act(b)],
                columns,
            );
            &&& r.1.len() == 9
            &&& r.1[0] == key_send_step(false, a, columns)
            &&& r.1[2] == key_send_step(true, spec_toggle(a), columns)
            &&& r.1[4] == (DispatchStep::Wait { millis: d })
            &&& r.1[5] == key_send_step(false, b, columns)
            &&& r.1[7] == key_send_step(true, spec_toggle(b), columns)
            &&& total_wait(r.1) == d + 4 * (SETTLE_MILLIS as int)
        }),
{
    let cs = seq![ChildAction::Act(a), ChildAction::Delay(d), ChildAction::Act(b)];
    let cs1 = seq![ChildAction::Delay(d), ChildAction::Act(b)];
    let cs2 = seq![ChildAction::Act(b)];
    assert(cs.skip(1) =~= cs1);
    assert(cs1.skip(1) =~= cs2);
    assert(cs2.skip(1) =~= Seq::<ChildAction>::empty());
    let full = seq![
        key_send_step(false, a, columns),
        DispatchStep::Wait { millis: SETTLE_MILLIS },
        key_send_step(true, spec_toggle(a), columns),
        DispatchStep::Wait { millis: SETTLE_MILLIS },
        DispatchStep::Wait { millis: d },
        key_send_step(false, b, columns),
        DispatchStep::Wait { millis: SETTLE_MILLIS },
        key_send_step(true, spec_toggle(b), columns),
        DispatchStep::Wait { millis: SETTLE_MILLIS },
    ];
    let r2 = spec_run_children(cs2, columns);
    assert(cs2[0] == ChildAction::Act(b));
    assert(cs2.len() == 1);
    assert(spec_run_children(Seq::<ChildAction>::empty(), columns).1
        == Seq::<DispatchStep>::empty());
    assert(r2.1 == spec_child_steps(cs2[0], columns).1
        + spec_run_children(cs2.skip(1), columns).1);
    assert(r2.1 =~= seq![
        key_send_step(false, b, columns),
        DispatchStep::Wait { millis: SETTLE_MILLIS },
        key_send_step(true, spec_toggle(b), columns),
        DispatchStep::Wait { millis: SETTLE_MILLIS },
    ]);
    let r1 = spec_run_children(cs1, columns);
    assert(cs1[0] == ChildAction::Delay(d));
    assert(r1.1 =~= seq![DispatchStep::Wait { millis: d }] + r2.1);
    let r = spec_run_children(cs, columns);
    assert(cs[0] == ChildAction::Act(a));
    assert(r.1 =~= seq![
        key_send_step(false, a, columns),
        DispatchStep::Wait { millis: SETTLE_MILLIS },
        key_send_step(true, spec_toggle(a), columns),
        DispatchStep::Wait { millis: SETTLE_MILLIS },
    ] + r1.1);
    assert(r.1 =~= full);
    assert(full.skip(9) =~= Seq::<DispatchStep>::empty());
    assert(total_wait(full.skip(9)) == 0);
    assert(full.skip(8).skip(1) =~= full.skip(9));
    assert(full.skip(8)[0] == full[8]);
    assert(total_wait(full.skip(8)) == SETTLE_MILLIS);
    assert(full.skip(7).skip(1) =~= full.skip(8));
    assert(full.skip(7)[0] == full[7]);
    assert(total_wait(full.skip(7)) == SETTLE_MILLIS);
    assert(full.skip(6).skip(1) =~= full.skip(7));
    assert(full.skip(6)[0] == full[6]);
    assert(total_wait(full.skip(6)) == 2 * (SETTLE_MILLIS as int));
    assert(full.skip(5).skip(1) =~= full.skip(6));
    assert(full.skip(5)[0] == full[5]);
    assert(total_wait(full.skip(5)) == 2 * (SETTLE_MILLIS as int));
    assert(full.skip(4).skip(1) =~= full.skip(5));
    assert(full.skip(4)[0] == full[4]);
    assert(total_wait(full.skip(4)) == d + 2 * (SETTLE_MILLIS as int));
    assert(full.skip(3).skip(1) =~= full.skip(4));
    assert(full.skip(3)[0] == full[3]);
    assert(total_wait(full.skip(3)) == d + 3 * (SETTLE_MILLIS as int));
    assert(full.skip(2).skip(1) =~= full.skip(3));
    assert(full.skip(2)[0] == full[2]);
    assert(total_wait(full.skip(2)) == d + 3 * (SETTLE_MILLIS as int));
    assert(full.skip(1).skip(1) =~= full.skip(2));
    assert(full.skip(1)[0] == full[1]);
    assert(total_wait(full.skip(1)) == d + 4 * (SETTLE_MILLIS as int));
    assert(full.skip(0).skip(1) =~= full.skip(1));
    assert(full.skip(0) =~= full);
    assert(total_wait(full) == d + 4 * (SETTLE_MILLIS as int));
}

} // verus!

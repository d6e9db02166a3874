//! The configuration data model: contexts, actions and action instances.
//!
//! A slot on a device holds at most one action instance tree; the dispatch
//! engine walks it on every hardware event. Settings blobs are owned and
//! interpreted only by plugins, so the core carries each one opaquely as
//! the JSON text it arrived in.

use vstd::prelude::*;

verus! {

/// The class of input a context addresses: a key in the grid or a dial.
#[derive(Clone, Copy, PartialEq, Eq, Structural, Debug)]
pub enum Controller {
    Keypad,
    Encoder,
}

/// The address of a slot: which device, which profile, which controller
/// class and which position. Two contexts are equal exactly when all four
/// fields match.
#[derive(Clone, PartialEq, Eq, Debug)]
pub struct Context {
    pub device: String,
    pub profile: String,
    pub controller: Controller,
    pub position: u8,
}

impl Context {
    /// An owned copy equal to this context.
    pub fn duplicate(&self) -> (r: Context)
        ensures
            r == *self,
    {
        Context {
            device: self.device.clone(),
            profile: self.profile.clone(),
            controller: self.controller,
            position: self.position,
        }
    }
}

/// The slice of a plugin-declared action that dispatch needs: who owns it,
/// its action-type id, and whether automatic two-state toggling is
/// suppressed.
#[derive(Clone, PartialEq, Eq, Debug)]
pub struct ActionMeta {
    /// The owning plugin's id.
    pub plugin: String,
    /// The globally unique action-type id.
    pub uuid: String,
    /// Suppresses automatic toggling even for a two-state action.
    pub disable_automatic_states: bool,
}

impl ActionMeta {
    pub fn duplicate(&self) -> (r: ActionMeta)
        ensures
            r == *self,
    {
        ActionMeta {
            plugin: self.plugin.clone(),
            uuid: self.uuid.clone(),
            disable_automatic_states: self.disable_automatic_states,
        }
    }
}

/// A configured placement of an action at a context, with its own settings
/// blob and visual state.
#[derive(Clone, PartialEq, Eq, Debug)]
pub struct ActionInstance {
    pub action: ActionMeta,
    pub context: Context,
    /// The opaque settings blob, as the JSON text the plugin sent.
    pub settings: String,
    /// The current state index, always below `state_count`.
    pub current_state: u16,
    /// How many visual states the action declares (one or two).
    pub state_count: u16,
}

impl ActionInstance {
    /// The instance's internal invariant: the state index addresses a
    /// declared state.
    pub open spec fn wf(&self) -> bool {
        &&& self.state_count >= 1
        &&& self.current_state < self.state_count
    }

    pub fn duplicate(&self) -> (r: ActionInstance)
        ensures
            r == *self,
    {
        ActionInstance {
            action: self.action.duplicate(),
            context: self.context.duplicate(),
            settings: self.settings.clone(),
            current_state: self.current_state,
            state_count: self.state_count,
        }
    }
}

/// One child of a multi-action sequence: either a pure delay that emits
/// nothing, or an action instance activated with a full press/release
/// pair.
#[derive(Clone, PartialEq, Eq, Debug)]
pub enum ChildAction {
    /// Suspends the sequence for this many milliseconds.
    Delay(u64),
    Act(ActionInstance),
}

impl ChildAction {
    pub open spec fn wf(&self) -> bool {
        match self {
            ChildAction::Delay(_) => true,
            ChildAction::Act(inst) => inst.wf(),
        }
    }
}

/// What a key slot holds: a single action, an ordered run-all sequence, or
/// a switchable group of sequences selected by the slot's own state.
#[derive(Clone, PartialEq, Eq, Debug)]
pub enum Slot {
    Single(ActionInstance),
    MultiAll { context: Context, children: Vec<ChildAction> },
    MultiSwitch { context: Context, groups: Vec<Vec<ChildAction>>, current_state: u16 },
}

impl Slot {
    /// The slot's internal invariant: every instance in it addresses a
    /// declared state, and a switchable group's selector addresses one of
    /// its (at least one) groups.
    pub open spec fn wf(&self) -> bool {
        match self {
            Slot::Single(inst) => inst.wf(),
            Slot::MultiAll { children, .. } => forall|i: int|
                0 <= i < children@.len() ==> (#[trigger] children@[i]).wf(),
            Slot::MultiSwitch { groups, current_state, .. } => {
                &&& groups@.len() >= 1
                &&& groups@.len() < 65536
                &&& (current_state as int) < groups@.len()
                &&& forall|g: int, i: int|
                    0 <= g < groups@.len() && 0 <= i < groups@[g]@.len()
                        ==> (#[trigger] groups@[g]@[i]).wf()
            },
        }
    }
}

} // verus!

//! Core of a macro-pad orchestrator: device wire framing, the driver event
//! state machine, the action-dispatch engine, the outbound message broker
//! with per-destination pending queues, and plugin manifest resolution.

pub mod broker;
pub mod dispatch;
pub mod framing;
pub mod inbound;
pub mod plugins;
pub mod profiles;
pub mod prontokey;
pub mod registry;
pub mod shared;

//! Inbound frames from plugins and UI channels.
//!
//! Every inbound frame is one UTF-8 JSON object with a discriminant
//! `event` field. The first frame of a connection may instead be a
//! registration handshake carrying a `uuid`. Unknown tags and malformed
//! bodies are dropped without closing the connection.

use vstd::prelude::*;

use serde_json::Value;

use crate::shared::{Context, Controller};

verus! {

/// The registration handshake: the plugin or UI channel identifying
/// itself.
#[derive(Clone, PartialEq, Eq, Debug)]
pub struct RegisterEvent {
    pub uuid: String,
}

/// An inbound event carrying only a context.
#[derive(Clone, PartialEq, Eq, Debug)]
pub struct ContextEvent<C> {
    pub context: C,
}

/// An inbound event carrying only a payload.
#[derive(Clone, PartialEq, Eq, Debug)]
pub struct PayloadEvent<T> {
    pub payload: T,
}

/// An inbound event carrying a context and a payload.
#[derive(Clone, PartialEq, Eq, Debug)]
pub struct ContextAndPayloadEvent<T, C> {
    pub context: C,
    pub payload: T,
}

/// The closed set of inbound event tags. Settings payloads stay opaque:
/// they are carried as the JSON text they arrived in.
#[derive(Clone, PartialEq, Eq, Debug)]
pub enum InboundEventType {
    /// Open a URL on the host; the payload text carries it.
    OpenUrl(PayloadEvent<String>),
    SetSettings(ContextAndPayloadEvent<String, Context>),
    GetSettings(ContextEvent<Context>),
    /// Global settings are scoped by a plugin id string instead of a
    /// slot context.
    SetGlobalSettings(ContextAndPayloadEvent<String, String>),
    GetGlobalSettings(ContextEvent<String>),
}

/// The fields of one decoded inbound frame, as the tag dispatch reads
/// them: the discriminant, the handshake id, the slot context's four
/// parts, the string-scoped context, and the payload as raw JSON text.
#[derive(Clone, PartialEq, Eq, Debug)]
pub struct RawInbound {
    pub event: Option<String>,
    pub uuid: Option<String>,
    pub ctx_device: Option<String>,
    pub ctx_profile: Option<String>,
    pub ctx_controller: Option<String>,
    pub ctx_position: Option<u64>,
    /// The `context` field when it is a plain string (global-settings
    /// events).
    pub ctx_string: Option<String>,
    pub payload: Option<String>,
}

/// What `parse_inbound_frame` returns for given bytes: `None` when they
/// are not a JSON object, otherwise the projection of its fields.
pub uninterp spec fn spec_inbound_frame(b: Seq<u8>) -> Option<RawInbound>;

/// Relies on serde_json::from_slice: decodes one JSON value from bytes, a
/// function of the bytes alone, and on serde_json::Value's accessors to
/// project the discriminant, handshake, context and payload fields.
#[verifier::external_body]
fn parse_inbound_frame(data: &[u8]) -> (r: Option<RawInbound>)
    ensures
        r == spec_inbound_frame(data@),
{
    let v: Value = match serde_json::from_slice(data) { Ok(v) => v, Err(_) => return None };
    let s = |f: &Value| f.as_str().map(|x| x.to_owned());
    let c = &v["context"];
    Some(RawInbound {
        event: s(&v["event"]),
        uuid: s(&v["uuid"]),
        ctx_device: s(&c["device"]),
        ctx_profile: s(&c["profile"]),
        ctx_controller: s(&c["controller"]),
        ctx_position: c["position"].as_u64(),
        ctx_string: s(c),
        payload: if v["payload"].is_null() { None } else { Some(v["payload"].to_string()) },
    })
}

/// The slot context of a frame, when all four parts are usable: a
/// controller field reading `Encoder` selects the encoder class, anything
/// else the keypad, and the position must fit the position width.
pub open spec fn spec_context_of(raw: RawInbound) -> Option<Context> {
    match raw.ctx_device {
        None => None,
        Some(d) => match raw.ctx_profile {
            None => None,
            Some(p) => match raw.ctx_controller {
                None => None,
                Some(c) => match raw.ctx_position {
                    None => None,
                    Some(pos) => if pos <= 255 {
                        Some(
                            Context {
                                device: d,
                                profile: p,
                                controller: if c@ == "Encoder"@ {
                                    Controller::Encoder
                                } else {
                                    Controller::Keypad
                                },
                                position: pos as u8,
                            },
                        )
                    } else {
                        None
                    },
                },
            },
        },
    }
}

/// The tag dispatch: which event a decoded frame carries. A frame with an
/// unknown tag, or with the fields its tag needs missing or malformed,
/// decodes to nothing and is dropped.
pub open spec fn spec_decode(raw: RawInbound) -> Option<InboundEventType> {
    match raw.event {
        None => None,
        Some(tag) => if tag@ == "openUrl"@ {
            match raw.payload {
                Some(p) => Some(InboundEventType::OpenUrl(PayloadEvent { payload: p })),
                None => None,
            }
        } else if tag@ == "setSettings"@ {
            match spec_context_of(raw) {
                Some(c) => match raw.payload {
                    Some(p) => Some(
                        InboundEventType::SetSettings(
                            ContextAndPayloadEvent { context: c, payload: p },
                        ),
                    ),
                    None => None,
                },
                None => None,
            }
        } else if tag@ == "getSettings"@ {
            match spec_context_of(raw) {
                Some(c) => Some(InboundEventType::GetSettings(ContextEvent { context: c })),
                None => None,
            }
        } else if tag@ == "setGlobalSettings"@ {
            match raw.ctx_string {
                Some(c) => match raw.payload {
                    Some(p) => Some(
                        InboundEventType::SetGlobalSettings(
                            ContextAndPayloadEvent { context: c, payload: p },
                        ),
                    ),
                    None => None,
                },
                None => None,
            }
        } else if tag@ == "getGlobalSettings"@ {
            match raw.ctx_string {
                Some(c) => Some(
                    InboundEventType::GetGlobalSettings(ContextEvent { context: c }),
                ),
                None => None,
            }
        } else {
            None
        },
    }
}

/// What the first frame of a connection means.
#[derive(Clone, PartialEq, Eq, Debug)]
pub enum ClassifiedFrame {
    /// A registration handshake: bind the sender and flush its queue.
    Handshake(RegisterEvent),
    /// Not a handshake: process it once as an ordinary inbound event.
    Event(InboundEventType),
    /// Neither: log and drop, keeping the connection.
    Ignored,
}

/// How a connection's first frame is classified: a `uuid` field makes it
/// a handshake; otherwise it falls back to the ordinary event decoder.
pub open spec fn spec_classify(raw: RawInbound) -> ClassifiedFrame {
    match raw.uuid {
        Some(u) => ClassifiedFrame::Handshake(RegisterEvent { uuid: u }),
        None => match spec_decode(raw) {
            Some(e) => ClassifiedFrame::Event(e),
            None => ClassifiedFrame::Ignored,
        },
    }
}

/// Decodes the slot context of a frame.
fn context_of(
    ctx_device: Option<String>,
    ctx_profile: Option<String>,
    ctx_controller: Option<String>,
    ctx_position: Option<u64>,
    Ghost(raw): Ghost<RawInbound>,
) -> (r: Option<Context>)
    requires
        ctx_device == raw.ctx_device,
        ctx_profile == raw.ctx_profile,
        ctx_controller == raw.ctx_controller,
        ctx_position == raw.ctx_position,
    ensures
        r == spec_context_of(raw),
{
    let d = match ctx_device {
        Some(d) => d,
        None => {
            return None;
        },
    };
    let p = match ctx_profile {
        Some(p) => p,
        None => {
            return None;
        },
    };
    let c = match ctx_controller {
        Some(c) => c,
        None => {
            return None;
        },
    };
    let pos = match ctx_position {
        Some(pos) => pos,
        None => {
            return None;
        },
    };
    if pos > 255 {
        return None;
    }
    let encoder_tag = String::from_str("Encoder");
    let controller = if c == encoder_tag {
        Controller::Encoder
    } else {
        Controller::Keypad
    };
    Some(Context { device: d, profile: p, controller, position: pos as u8 })
}

/// Decodes one inbound frame's event from its raw fields.
pub fn decode_event(raw: RawInbound) -> (r: Option<InboundEventType>)
    ensures
        r == spec_decode(raw),
{
    let ghost raw0 = raw;
    let RawInbound {
        event,
        uuid: _,
        ctx_device,
        ctx_profile,
        ctx_controller,
        ctx_position,
        ctx_string,
        payload,
    } = raw;
    let tag = match event {
        Some(tag) => tag,
        None => {
            return None;
        },
    };
    if tag == String::from_str("openUrl") {
        match payload {
            Some(p) => Some(InboundEventType::OpenUrl(PayloadEvent { payload: p })),
            None => None,
        }
    } else if tag == String::from_str("setSettings") {
        match context_of(ctx_device, ctx_profile, ctx_controller, ctx_position, Ghost(raw0)) {
            Some(c) => match payload {
                Some(p) => Some(
                    InboundEventType::SetSettings(
                        ContextAndPayloadEvent { context: c, payload: p },
                    ),
                ),
                None => None,
            },
            None => None,
        }
    } else if tag == String::from_str("getSettings") {
        match context_of(ctx_device, ctx_profile, ctx_controller, ctx_position, Ghost(raw0)) {
            Some(c) => Some(InboundEventType::GetSettings(ContextEvent { context: c })),
            None => None,
        }
    } else if tag == String::from_str("setGlobalSettings") {
        match ctx_string {
            Some(c) => match payload {
                Some(p) => Some(
                    InboundEventType::SetGlobalSettings(
                        ContextAndPayloadEvent { context: c, payload: p },
                    ),
                ),
                None => None,
            },
            None => None,
        }
    } else if tag == String::from_str("getGlobalSettings") {
        match ctx_string {
            Some(c) => Some(InboundEventType::GetGlobalSettings(ContextEvent { context: c })),
            None => None,
        }
    } else {
        None
    }
}

/// Processes one inbound frame after a connection's handshake: the event
/// it carries, or nothing for a frame that is dropped.
pub fn process_incoming_message(data: &[u8]) -> (r: Option<InboundEventType>)
    ensures
        r == (match spec_inbound_frame(data@) {
            Some(raw) => spec_decode(raw),
            None => None,
        }),
{
    match parse_inbound_frame(data) {
        Some(raw) => decode_event(raw),
        None => None,
    }
}

/// Classifies a connection's first frame: handshake, one-off event, or
/// dropped.
pub fn classify_frame(data: &[u8]) -> (r: ClassifiedFrame)
    ensures
        r == (match spec_inbound_frame(data@) {
            Some(raw) => spec_classify(raw),
            None => ClassifiedFrame::Ignored,
        }),
{
    let raw = match parse_inbound_frame(data) {
        Some(raw) => raw,
        None => {
            return ClassifiedFrame::Ignored;
        },
    };
    if raw.uuid.is_some() {
        let uuid = match raw.uuid {
            Some(u) => u,
            None => {
                return ClassifiedFrame::Ignored;
            },
        };
        ClassifiedFrame::Handshake(RegisterEvent { uuid })
    } else {
        match decode_event(raw) {
            Some(e) => ClassifiedFrame::Event(e),
            None => ClassifiedFrame::Ignored,
        }
    }
}

} // verus!

//! Driver for the ProntoKey macro pad.
//!
//! The device sends a stream of JSON objects over a serial transport. The
//! first decodable object carrying an `address` field registers the device;
//! every later object is an input event. A numeric `key` field of zero
//! releases the most recently pressed key (release messages carry no key
//! id); a nonzero value presses that key. `slider0`/`slider1` carry
//! absolute dial positions, which the driver diffs against the last seen
//! value to produce signed tick deltas.
//!
//! Everything here is the pure event logic; opening and reading the serial
//! transport is the caller's job.

use vstd::prelude::*;

use serde_json::Value;

use crate::framing::{chunks_from, residue_from, FrameAssembler};

verus! {

/// The numeric `key` field of one device message.
#[derive(Clone, PartialEq, Eq, Debug)]
pub enum KeyField {
    /// The message carries no numeric `key` field.
    Missing,
    /// The field's value as an unsigned integer; a number that is not an
    /// unsigned integer reads as zero, as the device protocol treats any
    /// unusable key value as a release.
    Num(u64),
}

/// One absolute dial-position field of a device message.
#[derive(Clone, PartialEq, Eq, Debug)]
pub enum SliderField {
    /// The message carries no numeric field for this dial.
    Missing,
    /// The field is a number but not a usable integer position; the driver
    /// emits no movement for it.
    Malformed,
    /// The field's absolute position.
    Num(i64),
}

/// The fields of one decoded device message that the driver consumes.
#[derive(Clone, PartialEq, Eq, Debug)]
pub struct DeviceMessage {
    /// The device's transport address, when the message carries one.
    pub address: Option<String>,
    pub key: KeyField,
    pub slider0: SliderField,
    pub slider1: SliderField,
}

/// What `parse_device_message` returns for a given chunk: `None` when the
/// chunk is not a JSON object, otherwise the projection of its fields.
pub uninterp spec fn spec_device_message(b: Seq<u8>) -> Option<DeviceMessage>;

/// Relies on serde_json::from_slice: decodes one JSON value from bytes, a
/// function of the bytes alone, and on serde_json::Value's field accessors
/// to project the `address`, `key`, `slider0` and `slider1` fields.
#[verifier::external_body]
fn parse_device_message(chunk: &[u8]) -> (r: Option<DeviceMessage>)
    ensures
        r == spec_device_message(chunk@),
{
    let v: Value = match serde_json::from_slice(chunk) { Ok(v) => v, Err(_) => return None };
    let address = v["address"].as_str().map(|s| s.to_owned());
    let slider = |f: &Value| match f {
        Value::Number(n) => n.as_i64().map_or(SliderField::Malformed, SliderField::Num),
        _ => SliderField::Missing,
    };
    let key = match &v["key"] {
        Value::Number(n) => KeyField::Num(n.as_u64().unwrap_or_default()),
        _ => KeyField::Missing,
    };
    Some(DeviceMessage { address, key, slider0: slider(&v["slider0"]), slider1: slider(&v["slider1"]) })
}

/// Relies on core::str::from_utf8: succeeds exactly on valid UTF-8, as
/// vstd's `valid_utf8` defines it.
#[verifier::external_body]
fn utf8_check(data: &[u8]) -> (r: bool)
    ensures
        r == vstd::utf8::valid_utf8(data@),
{
    core::str::from_utf8(data).is_ok()
}

/// One normalized hardware event, in the order the device reported it.
#[derive(Clone, PartialEq, Eq, Debug)]
pub enum DeviceEvent {
    /// The device introduced itself with its transport address.
    Register { address: String },
    KeyDown { key: u8 },
    KeyUp { key: u8 },
    DialRotate { dial: u8, ticks: i16 },
}

/// A representation of a ProntoKey device.
pub struct ProntoKeyDevice {
    address: String,
}

impl ProntoKeyDevice {
    /// The device's transport address, as it registered itself.
    pub closed spec fn spec_address(&self) -> Seq<char> {
        self.address@
    }

    pub fn new(address: String) -> (r: ProntoKeyDevice)
        ensures
            r.spec_address() == address@,
    {
        ProntoKeyDevice { address }
    }

    pub fn num_dials(&self) -> (r: u8)
        ensures
            r == 2,
    {
        2
    }

    pub fn num_rows(&self) -> (r: u8)
        ensures
            r == 3,
    {
        3
    }

    pub fn num_columns(&self) -> (r: u8)
        ensures
            r == 3,
    {
        3
    }

    /// The process-wide device identity: the transport address behind the
    /// driver's tag.
    pub fn id(&self) -> (r: String)
        ensures
            r@ == "pk-"@ + self.spec_address(),
    {
        let mut id = String::from_str("pk-");
        id.append(self.address.as_str());
        id
    }

    pub fn name(&self) -> (r: String)
        ensures
            r@ == "ProntoKey"@,
    {
        String::from_str("ProntoKey")
    }

    /// The numeric device-kind tag reported to plugins.
    pub fn device_type(&self) -> (r: u8)
        ensures
            r == 7,
    {
        7
    }
}

/// The driver's rolling state between messages.
#[derive(Clone, PartialEq, Eq, Debug)]
pub struct DriverCore {
    /// The address the device registered with, once the handshake message
    /// has arrived.
    pub registered: Option<String>,
    /// The most recently pressed nonzero key id; releases resolve to it.
    pub last_key: u8,
    /// The last seen absolute position of each dial.
    pub last_slider0: i16,
    pub last_slider1: i16,
}

/// The wrapped difference of two absolute dial positions, as a tick count
/// in the range of `i16`.
pub open spec fn tick_delta(val: int, last: int) -> int {
    let d = val - last;
    if d > 32767 {
        d - 65536
    } else if d < -32768 {
        d + 65536
    } else {
        d
    }
}

/// How one `key` field advances the driver: zero releases the last pressed
/// key, anything else presses (the value is taken modulo 256, the key id
/// width on the wire).
pub open spec fn spec_key_step(st: DriverCore, f: KeyField) -> (DriverCore, Seq<DeviceEvent>) {
    match f {
        KeyField::Missing => (st, Seq::empty()),
        KeyField::Num(v) => {
            let k = (v % 256) as u8;
            if k == 0 {
                (st, seq![DeviceEvent::KeyUp { key: st.last_key }])
            } else {
                (
                    DriverCore { last_key: k, ..st },
                    seq![DeviceEvent::KeyDown { key: k }],
                )
            }
        },
    }
}

/// How one dial-position field advances that dial's last-seen value: a
/// usable position emits its delta against the last value; a malformed or
/// out-of-range one emits no movement; an absent one emits nothing.
pub open spec fn spec_slider_step(last: i16, dial: u8, f: SliderField) -> (i16, Seq<DeviceEvent>) {
    match f {
        SliderField::Missing => (last, Seq::empty()),
        SliderField::Malformed => (last, seq![DeviceEvent::DialRotate { dial, ticks: 0 }]),
        SliderField::Num(x) => {
            if -32768 <= x <= 32767 {
                (
                    x as i16,
                    seq![
                        DeviceEvent::DialRotate {
                            dial,
                            ticks: tick_delta(x as int, last as int) as i16,
                        },
                    ],
                )
            } else {
                (last, seq![DeviceEvent::DialRotate { dial, ticks: 0 }])
            }
        },
    }
}

/// How one decoded message advances the driver. Before registration the
/// first message carrying an address registers the device and nothing
/// else; afterwards the key field and both dial fields are handled in
/// that order.
pub open spec fn spec_handle(st: DriverCore, m: DeviceMessage) -> (DriverCore, Seq<DeviceEvent>) {
    if st.registered is None {
        match m.address {
            Some(a) => (
                DriverCore { registered: Some(a), ..st },
                seq![DeviceEvent::Register { address: a }],
            ),
            None => (st, Seq::empty()),
        }
    } else {
        let (st1, ek) = spec_key_step(st, m.key);
        let (s0, e0) = spec_slider_step(st1.last_slider0, 0, m.slider0);
        let (s1, e1) = spec_slider_step(st1.last_slider1, 1, m.slider1);
        (
            DriverCore { last_slider0: s0, last_slider1: s1, ..st1 },
            ek + e0 + e1,
        )
    }
}

/// Running a whole message sequence through the driver.
pub open spec fn spec_run_msgs(st: DriverCore, msgs: Seq<DeviceMessage>) -> (
    DriverCore,
    Seq<DeviceEvent>,
)
    decreases msgs.len(),
{
    if msgs.len() == 0 {
        (st, Seq::empty())
    } else {
        let step = spec_handle(st, msgs[0]);
        let rest = spec_run_msgs(step.0, msgs.skip(1));
        (rest.0, step.1 + rest.1)
    }
}

/// Running a sequence of raw message chunks: a chunk that does not decode
/// is dropped and advances nothing.
pub open spec fn spec_run_chunks(st: DriverCore, chunks: Seq<Seq<u8>>) -> (
    DriverCore,
    Seq<DeviceEvent>,
)
    decreases chunks.len(),
{
    if chunks.len() == 0 {
        (st, Seq::empty())
    } else {
        let step = match spec_device_message(chunks[0]) {
            Some(m) => spec_handle(st, m),
            None => (st, Seq::empty()),
        };
        let rest = spec_run_chunks(step.0, chunks.skip(1));
        (rest.0, step.1 + rest.1)
    }
}

impl DriverCore {
    /// A driver that has seen nothing: no device, no key pressed, both
    /// dials at position zero.
    pub fn new() -> (r: DriverCore)
        ensures
            r == (DriverCore {
                registered: None,
                last_key: 0,
                last_slider0: 0,
                last_slider1: 0,
            }),
    {
        DriverCore { registered: None, last_key: 0, last_slider0: 0, last_slider1: 0 }
    }

    /// Advances the driver by one decoded message and returns the
    /// normalized events it produced, in order.
    pub fn handle_message(&mut self, msg: DeviceMessage) -> (out: Vec<DeviceEvent>)
        ensures
            *final(self) == spec_handle(*old(self), msg).0,
            out@ == spec_handle(*old(self), msg).1,
    {
        let ghost st0 = *self;
        let mut out: Vec<DeviceEvent> = Vec::new();
        if self.registered.is_none() {
            match msg.address {
                Some(a) => {
                    self.registered = Some(a.clone());
                    out.push(DeviceEvent::Register { address: a });
                },
                None => {},
            }
            return out;
        }

        let ghost ks = spec_key_step(st0, msg.key);
        match msg.key {
            KeyField::Num(v) => {
                let k: u8 = (v % 256) as u8;
                if k == 0 {
                    out.push(DeviceEvent::KeyUp { key: self.last_key });
                } else {
                    out.push(DeviceEvent::KeyDown { key: k });
                    self.last_key = k;
                }
            },
            KeyField::Missing => {},
        }
        proof {
            assert(*self == ks.0);
            assert(out@ =~= ks.1);
        }

        let ghost d0 = spec_slider_step(st0.last_slider0, 0, msg.slider0);
        match msg.slider0 {
            SliderField::Num(x) => {
                if -32768 <= x && x <= 32767 {
                    let val: i16 = x as i16;
                    let wide: i32 = (val as i32) - (self.last_slider0 as i32);
                    let ticks: i16 = if wide > 32767 {
                        (wide - 65536) as i16
                    } else if wide < -32768 {
                        (wide + 65536) as i16
                    } else {
                        wide as i16
                    };
                    out.push(DeviceEvent::DialRotate { dial: 0, ticks });
                    self.last_slider0 = val;
                } else {
                    out.push(DeviceEvent::DialRotate { dial: 0, ticks: 0 });
                }
            },
            SliderField::Malformed => {
                out.push(DeviceEvent::DialRotate { dial: 0, ticks: 0 });
            },
            SliderField::Missing => {},
        }
        proof {
            assert(self.last_slider0 == d0.0);
            assert(out@ =~= ks.1 + d0.1);
        }

        let ghost d1 = spec_slider_step(st0.last_slider1, 1, msg.slider1);
        match msg.slider1 {
            SliderField::Num(x) => {
                if -32768 <= x && x <= 32767 {
                    let val: i16 = x as i16;
                    let wide: i32 = (val as i32) - (self.last_slider1 as i32);
                    let ticks: i16 = if wide > 32767 {
                        (wide - 65536) as i16
                    } else if wide < -32768 {
                        (wide + 65536) as i16
                    } else {
                        wide as i16
                    };
                    out.push(DeviceEvent::DialRotate { dial: 1, ticks });
                    self.last_slider1 = val;
                } else {
                    out.push(DeviceEvent::DialRotate { dial: 1, ticks: 0 });
                }
            },
            SliderField::Malformed => {
                out.push(DeviceEvent::DialRotate { dial: 1, ticks: 0 });
            },
            SliderField::Missing => {},
        }
        proof {
            assert(self.last_slider1 == d1.0);
            assert(out@ =~= ks.1 + d0.1 + d1.1);
            assert(*self == spec_handle(st0, msg).0);
        }
        out
    }
}

/// A ProntoKey driver connection: the reassembly buffer plus the rolling
/// event state.
pub struct PkDriver {
    pub assembler: FrameAssembler,
    pub core: DriverCore,
}

impl PkDriver {
    pub fn new() -> (r: PkDriver)
        ensures
            r.assembler@ == Seq::<u8>::empty(),
            r.core == (DriverCore {
                registered: None,
                last_key: 0,
                last_slider0: 0,
                last_slider1: 0,
            }),
    {
        PkDriver { assembler: FrameAssembler::new(), core: DriverCore::new() }
    }

    /// Consumes one read's worth of raw transport bytes and returns the
    /// normalized events they complete, plus a desync flag. A read that is
    /// not valid UTF-8 is an unrecoverable stream desync: nothing is
    /// consumed, no event is produced, and the caller must end this
    /// connection's loop.
    pub fn handle_read(&mut self, data: &[u8]) -> (r: (Vec<DeviceEvent>, bool))
        ensures
            !vstd::utf8::valid_utf8(data@) ==> {
                &&& r.1
                &&& r.0@ == Seq::<DeviceEvent>::empty()
                &&& *final(self) == *old(self)
            },
            vstd::utf8::valid_utf8(data@) ==> {
                &&& !r.1
                &&& final(self).assembler@ == residue_from(data@, old(self).assembler@)
                &&& final(self).core == spec_run_chunks(
                    old(self).core,
                    chunks_from(data@, old(self).assembler@),
                ).0
                &&& r.0@ == spec_run_chunks(
                    old(self).core,
                    chunks_from(data@, old(self).assembler@),
                ).1
            },
    {
        if !utf8_check(data) {
            return (Vec::new(), true);
        }
        let chunks = self.assembler.push(data);
        let ghost cs = chunks@.map_values(|c: Vec<u8>| c@);
        let ghost st0 = self.core;
        let ghost asm0 = self.assembler;
        let mut out: Vec<DeviceEvent> = Vec::new();
        let mut i: usize = 0;
        proof {
            assert(cs.skip(0) =~= cs);
            assert(out@ + spec_run_chunks(self.core, cs).1 =~= spec_run_chunks(st0, cs).1);
        }
        while i < chunks.len()
            invariant
                0 <= i <= chunks.len(),
                cs == chunks@.map_values(|c: Vec<u8>| c@),
                self.assembler == asm0,
                spec_run_chunks(self.core, cs.skip(i as int)).0 == spec_run_chunks(st0, cs).0,
                out@ + spec_run_chunks(self.core, cs.skip(i as int)).1
                    == spec_run_chunks(st0, cs).1,
            decreases chunks.len() - i,
        {
            proof {
                assert(cs.skip(i as int)[0] == cs[i as int]);
                assert(cs.skip(i as int).skip(1) =~= cs.skip(i + 1));
            }
            match parse_device_message(chunks[i].as_slice()) {
                Some(m) => {
                    let mut evs = self.core.handle_message(m);
                    proof {
                        assert(out@ + (evs@ + spec_run_chunks(self.core, cs.skip(i + 1)).1)
                            =~= (out@ + evs@) + spec_run_chunks(self.core, cs.skip(i + 1)).1);
                    }
                    out.append(&mut evs);
                },
                None => {},
            }
            i = i + 1;
        }
        proof {
            assert(cs.skip(chunks@.len() as int) =~= Seq::<Seq<u8>>::empty());
            assert(out@ + Seq::<DeviceEvent>::empty() =~= out@);
        }
        (out, false)
    }
}

/// The sum of the tick deltas the driver emits for a sequence of absolute
/// dial positions, each diffed against its predecessor (`last` before the
/// first), exactly as `spec_slider_step` emits them.
pub open spec fn delta_sum(vals: Seq<int>, last: int) -> int
    decreases vals.len(),
{
    if vals.len() == 0 {
        0
    } else {
        tick_delta(vals[0], last) + delta_sum(vals.skip(1), vals[0])
    }
}

/// Law: emitted tick deltas sum telescopically back to the final absolute
/// position minus the initial one, for every position sequence whose
/// consecutive differences fit the tick range. (A difference that
/// overflows the tick range wraps, so positions 0, -32768, 32767 are left
/// out.)
pub proof fn lemma_deltas_telescope(vals: Seq<int>, last: int)
    requires
        forall|i: int|
            0 <= i < vals.len() ==> -32768 <= (#[trigger] vals[i]) - (if i == 0 {
                last
            } else {
                vals[i - 1]
            }) <= 32767,
    ensures
        delta_sum(vals, last) == (if vals.len() == 0 {
            last
        } else {
            vals[vals.len() - 1]
        }) - last,
    decreases vals.len(),
{
    if vals.len() > 0 {
        let t = vals.skip(1);
        assert forall|i: int|
            0 <= i < t.len() implies -32768 <= (#[trigger] t[i]) - (if i == 0 {
                vals[0]
            } else {
                t[i - 1]
            }) <= 32767 by {
            assert(t[i] == vals[i + 1]);
            if i > 0 {
                assert(t[i - 1] == vals[i]);
            }
        }
        lemma_deltas_telescope(t, vals[0]);
        if t.len() > 0 {
            assert(t[t.len() - 1] == vals[vals.len() - 1]);
        }
    }
}

/// Whether a key field signals a release: a numeric key id that is zero on
/// the wire.
pub open spec fn is_release_key(f: KeyField) -> bool {
    match f {
        KeyField::Num(v) => v % 256 == 0,
        KeyField::Missing => false,
    }
}

/// The key id a release resolves to after `msgs` have been processed: the
/// most recently pressed nonzero key id, or `init` when none was pressed.
/// Dial fields and release fields leave it untouched.
pub open spec fn last_pressed(msgs: Seq<DeviceMessage>, init: u8) -> u8
    decreases msgs.len(),
{
    if msgs.len() == 0 {
        init
    } else {
        let next = match msgs[0].key {
            KeyField::Num(v) => if v % 256 != 0 {
                (v % 256) as u8
            } else {
                init
            },
            KeyField::Missing => init,
        };
        last_pressed(msgs.skip(1), next)
    }
}

/// Law: a key id of zero always resolves release against the most recently
/// pressed nonzero key id, regardless of intervening dial events: after any
/// run of messages on a registered driver, the release target is
/// `last_pressed`, and a release message then emits exactly that key-up
/// first.
pub proof fn lemma_release_resolves_last_press(
    st: DriverCore,
    msgs: Seq<DeviceMessage>,
    release: DeviceMessage,
)
    requires
        st.registered is Some,
        is_release_key(release.key),
    ensures
        spec_run_msgs(st, msgs).0.registered is Some,
        spec_run_msgs(st, msgs).0.last_key == last_pressed(msgs, st.last_key),
        spec_handle(spec_run_msgs(st, msgs).0, release).1.len() >= 1,
        spec_handle(spec_run_msgs(st, msgs).0, release).1[0] == (DeviceEvent::KeyUp {
            key: last_pressed(msgs, st.last_key),
        }),
    decreases msgs.len(),
{
    if msgs.len() > 0 {
        let st1 = spec_handle(st, msgs[0]).0;
        lemma_release_resolves_last_press(st1, msgs.skip(1), release);
    }
}

} // verus!

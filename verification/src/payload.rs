//! Gateway payloads as text: what the library asks of twilight about one, and
//! the names under which it speaks of the answers.

use serde::de::DeserializeSeed;
use twilight_gateway::EventTypeFlags;
use twilight_model::gateway::event::{Event, GatewayEventDeserializer};
use twilight_model::gateway::OpCode;
use vstd::prelude::*;

verus! {

/// twilight's gateway event, of which the library knows nothing but that a
/// payload was deserialized into it.
#[verifier::external_type_specification]
#[verifier::external_body]
pub struct ExEvent(Event);

/// serde_json's error, as deserialization reports it.
#[verifier::external_type_specification]
#[verifier::external_body]
pub struct ExJsonError(serde_json::Error);

/// What a payload says of itself before it is deserialized.
#[derive(Debug)]
pub struct Envelope {
    /// The payload's opcode.
    pub op: u8,
    /// The payload's dispatch event type, if it names one.
    pub event_type: Option<String>,
}

/// The mathematical value of an [`Envelope`].
pub struct EnvelopeView {
    pub op: u8,
    pub event_type: Option<Seq<char>>,
}

impl View for Envelope {
    type V = EnvelopeView;

    open spec fn view(&self) -> EnvelopeView {
        EnvelopeView {
            op: self.op,
            event_type: match self.event_type {
                Some(name) => Some(name@),
                None => None,
            },
        }
    }
}

/// The value of an envelope that may be missing.
pub open spec fn envelope_view(envelope: Option<Envelope>) -> Option<EnvelopeView> {
    match envelope {
        Some(envelope) => Some(envelope@),
        None => None,
    }
}

/// The value of a text that may be missing.
pub open spec fn text_view(text: Option<&str>) -> Option<Seq<char>> {
    match text {
        Some(text) => Some(text@),
        None => None,
    }
}

/// The envelope that twilight's scan finds in a payload, if it finds an
/// opcode.
pub uninterp spec fn scanned(input: Seq<char>) -> Option<EnvelopeView>;

/// Whether `op` is one of the gateway's opcodes: 0 to 11 without 5.
pub open spec fn is_opcode(op: u8) -> bool {
    op <= 11 && op != 5
}

/// The bits of the event type flag that twilight gives a payload with a known
/// opcode `op` and the dispatch event type `event_type`, if it has one for it.
pub uninterp spec fn event_type_flags(op: u8, event_type: Option<Seq<char>>) -> Option<u128>;

/// Whether twilight deserializes the payload `input` as an event of opcode
/// `op` and dispatch event type `event_type`.
pub uninterp spec fn deserializes(op: u8, event_type: Option<Seq<char>>, input: Seq<char>) -> bool;

/// Calls `GatewayEventDeserializer::from_json`, which scans `input` for an
/// opcode and a dispatch event type without deserializing it, and gives what
/// it found. The contract only names the result.
#[verifier::external_body]
pub(crate) fn scan(input: &str) -> (envelope: Option<Envelope>)
    ensures
        envelope_view(envelope) == scanned(input@),
{
    match GatewayEventDeserializer::from_json(input) {
        Some(found) => Some(
            Envelope { op: found.op(), event_type: found.event_type().map(str::to_owned) },
        ),
        None => None,
    }
}

/// Calls `OpCode::from`, which knows the opcodes 0 to 4 and 6 to 11, and says
/// whether it knows `op`.
#[verifier::external_body]
pub(crate) fn opcode_known(op: u8) -> (known: bool)
    ensures
        known == is_opcode(op),
{
    OpCode::from(op).is_some()
}

/// Calls `EventTypeFlags::try_from` on the opcode `op` and `event_type`, and
/// gives the bits of the flag, if there is one for the two. The contract only
/// names the result.
#[verifier::external_body]
pub(crate) fn flags_of(op: u8, event_type: Option<&str>) -> (flags: Option<u128>)
    requires
        is_opcode(op),
    ensures
        flags == event_type_flags(op, text_view(event_type)),
{
    let opcode = OpCode::from(op)?;
    EventTypeFlags::try_from((opcode, event_type)).ok().map(|flags| flags.bits())
}

/// Calls `GatewayEventDeserializer::deserialize` on a deserializer for `op`
/// and `event_type`, over serde_json's deserializer of `input`. The contract
/// only names whether it succeeds.
#[verifier::external_body]
pub(crate) fn deserialize(op: u8, event_type: Option<&str>, input: &str) -> (outcome: Result<
    Event,
    serde_json::Error,
>)
    ensures
        outcome is Ok == deserializes(op, text_view(event_type), input@),
{
    let mut json = serde_json::Deserializer::from_str(input);
    GatewayEventDeserializer::new(op, event_type).deserialize(&mut json).map(Event::from)
}

} // verus!

//! The relay of one shard's events to subscribers that may be absent: a
//! bounded buffer in front of a broadcast bus.

use crate::payload::{
    deserialize, deserializes, event_type_flags, flags_of, is_opcode, opcode_known, scan, scanned,
};
use std::collections::VecDeque;
use tokio::sync::broadcast::Sender;
use twilight_model::gateway::event::Event;
use vstd::prelude::*;

verus! {

/// How many events a relay buffer holds at most.
pub const BUFFER_LIMIT: usize = 1000;

/// The buffer after `event` was enqueued: at its end, and with the oldest
/// entry gone if the buffer was full.
pub open spec fn enqueue<T>(buffer: Seq<T>, event: T) -> Seq<T> {
    if buffer.len() >= BUFFER_LIMIT {
        buffer.drop_first().push(event)
    } else {
        buffer.push(event)
    }
}

/// The buffer after each of `events` was enqueued, in order.
pub open spec fn enqueue_all<T>(buffer: Seq<T>, events: Seq<T>) -> Seq<T>
    decreases events.len(),
{
    if events.len() == 0 {
        buffer
    } else {
        enqueue(enqueue_all(buffer, events.drop_last()), events.last())
    }
}

/// The last `BUFFER_LIMIT` of `events`, or all of them if they are fewer.
pub open spec fn latest<T>(events: Seq<T>) -> Seq<T> {
    if events.len() <= BUFFER_LIMIT {
        events
    } else {
        events.skip(events.len() - BUFFER_LIMIT)
    }
}

/// The buffer after an event was offered to the bus with `outcome`: as it
/// was if the bus took the event, and with the event enqueued if the bus gave
/// it back.
pub open spec fn published<T>(buffer: Seq<T>, outcome: Result<usize, T>) -> Seq<T> {
    match outcome {
        Ok(_) => buffer,
        Err(back) => enqueue(buffer, back),
    }
}

/// The buffer after its oldest entry was taken out and offered to the bus
/// with `outcome`: as it is without that entry if the bus took it, and with
/// the entry in front again if the bus gave it back and there is room.
pub open spec fn drained<T>(buffer: Seq<T>, outcome: Result<usize, T>) -> Seq<T> {
    match outcome {
        Ok(_) => buffer,
        Err(back) => if buffer.len() < BUFFER_LIMIT {
            seq![back] + buffer
        } else {
            buffer
        },
    }
}

/// A bounded queue of events in the order of their arrival. When it is full,
/// enqueueing an event evicts the oldest one.
pub struct RelayBuffer<T> {
    entries: VecDeque<T>,
}

impl<T> View for RelayBuffer<T> {
    type V = Seq<T>;

    closed spec fn view(&self) -> Seq<T> {
        self.entries@
    }
}

impl<T> RelayBuffer<T> {
    #[verifier::type_invariant]
    spec fn within_limit(&self) -> bool {
        self.entries@.len() <= BUFFER_LIMIT
    }

    /// An empty buffer.
    pub fn new() -> (buffer: RelayBuffer<T>)
        ensures
            buffer@ == Seq::<T>::empty(),
    {
        RelayBuffer { entries: VecDeque::new() }
    }

    /// The number of events held.
    pub fn len(&self) -> (len: usize)
        ensures
            len == self@.len(),
            len <= BUFFER_LIMIT,
    {
        proof {
            use_type_invariant(self);
        }
        self.entries.len()
    }

    /// Whether no event is held.
    pub fn is_empty(&self) -> (empty: bool)
        ensures
            empty == (self@.len() == 0),
    {
        self.entries.len() == 0
    }

    /// Enqueues `event` as the newest entry, evicting the oldest one if the
    /// buffer is full.
    pub fn push(&mut self, event: T)
        ensures
            final(self)@ == enqueue(old(self)@, event),
    {
        proof {
            use_type_invariant(&*self);
        }
        let mut entries: VecDeque<T> = VecDeque::new();
        core::mem::swap(&mut self.entries, &mut entries);
        if entries.len() == BUFFER_LIMIT {
            let _ = entries.pop_front();
        }
        entries.push_back(event);
        core::mem::swap(&mut self.entries, &mut entries);
    }

    /// Takes the oldest entry out, if there is one.
    pub fn pop_front(&mut self) -> (event: Option<T>)
        ensures
            old(self)@.len() == 0 ==> event is None && final(self)@ == old(self)@,
            old(self)@.len() > 0 ==> event == Some(old(self)@.first()) && final(self)@ == old(
                self,
            )@.drop_first(),
    {
        proof {
            use_type_invariant(&*self);
        }
        let mut entries: VecDeque<T> = VecDeque::new();
        core::mem::swap(&mut self.entries, &mut entries);
        let event = entries.pop_front();
        core::mem::swap(&mut self.entries, &mut entries);
        event
    }

    /// Puts `event` back in front of the oldest entry. Returns whether there
    /// was room for it; a full buffer is left as it is.
    pub fn push_front(&mut self, event: T) -> (restored: bool)
        ensures
            restored == (old(self)@.len() < BUFFER_LIMIT),
            restored ==> final(self)@ == seq![event] + old(self)@,
            !restored ==> final(self)@ == old(self)@,
    {
        proof {
            use_type_invariant(&*self);
        }
        if self.entries.len() < BUFFER_LIMIT {
            let mut entries: VecDeque<T> = VecDeque::new();
            core::mem::swap(&mut self.entries, &mut entries);
            entries.push_front(event);
            core::mem::swap(&mut self.entries, &mut entries);
            true
        } else {
            false
        }
    }

    /// Settles the publication of an event that was offered to the bus, with
    /// `outcome` as the bus's answer: how many subscribers took the event,
    /// or the event itself if none is attached. An event that was taken
    /// leaves the buffer as it is; one that was given back is enqueued.
    /// Returns whether the event was taken.
    pub fn settle_publish(&mut self, outcome: Result<usize, T>) -> (taken: bool)
        ensures
            taken == outcome is Ok,
            final(self)@ == published(old(self)@, outcome),
    {
        match outcome {
            Ok(_) => true,
            Err(back) => {
                self.push(back);
                false
            },
        }
    }

    /// Settles one step of a drain, in which the oldest entry was taken out
    /// and offered to the bus, with `outcome` as the bus's answer. An entry
    /// that was given back becomes the oldest entry again, and the drain
    /// stops; after one that was taken the drain goes on while entries are
    /// left. Returns whether the drain goes on.
    pub fn settle_drain(&mut self, outcome: Result<usize, T>) -> (goes_on: bool)
        ensures
            final(self)@ == drained(old(self)@, outcome),
            goes_on == (outcome is Ok && old(self)@.len() > 0),
    {
        match outcome {
            Ok(_) => !self.is_empty(),
            Err(back) => {
                let _ = self.push_front(back);
                false
            },
        }
    }
}

/// The sending half of tokio's broadcast channel: the bus that subscribers
/// attach to.
#[verifier::external_type_specification]
#[verifier::external_body]
#[verifier::reject_recursive_types(T)]
pub struct ExSender<T>(Sender<T>);

/// Calls `tokio::sync::broadcast::Sender::send`, which hands `event` to every
/// receiver that is attached at that moment. With no receiver attached it
/// fails and gives the same event back; otherwise it reports how many
/// receivers there are, at least one. Which of the two happens depends on who
/// is attached, and nothing is claimed of it.
#[verifier::external_body]
fn bus_send<T>(bus: &Sender<T>, event: T) -> (outcome: Result<usize, T>)
    ensures
        outcome matches Err(back) ==> back == event,
        outcome matches Ok(receivers) ==> receivers >= 1,
{
    bus.send(event).map_err(|error| error.0)
}

/// The mathematical state of a [`RelayBroadcaster`].
pub struct RelayView<T> {
    /// The events that wait for a subscriber, oldest first.
    pub buffer: Seq<T>,
    /// The events that the bus has taken from this broadcaster, in the order
    /// in which it took them.
    pub relayed: Seq<T>,
}

impl<T> RelayView<T> {
    /// Whether the broadcaster waits for a subscriber to attach.
    pub open spec fn is_waiting(self) -> bool {
        self.buffer.len() > 0
    }

    /// The state after `event` was published and the bus took it
    /// (`taken`), or, with no subscriber attached, did not.
    pub open spec fn publish(self, event: T, taken: bool) -> RelayView<T> {
        if taken {
            RelayView { relayed: self.relayed.push(event), ..self }
        } else {
            RelayView { buffer: enqueue(self.buffer, event), ..self }
        }
    }

    /// The state after each of `events` was published, in order, with no
    /// subscriber attached.
    pub open spec fn publish_unattended(self, events: Seq<T>) -> RelayView<T>
        decreases events.len(),
    {
        if events.len() == 0 {
            self
        } else {
            self.publish_unattended(events.drop_last()).publish(events.last(), false)
        }
    }

    /// The state after a drain in which the bus took the `taken` oldest
    /// events of the buffer.
    pub open spec fn drain(self, taken: nat) -> RelayView<T>
        recommends
            taken <= self.buffer.len(),
    {
        RelayView {
            buffer: self.buffer.skip(taken as int),
            relayed: self.relayed + self.buffer.take(taken as int),
        }
    }
}

/// Publishes one shard's events on a bus, and keeps them in a bounded buffer
/// while no subscriber is attached.
#[verifier::reject_recursive_types(T)]
pub struct RelayBroadcaster<T> {
    bus: Sender<T>,
    buffer: RelayBuffer<T>,
    relayed: Ghost<Seq<T>>,
}

impl<T> View for RelayBroadcaster<T> {
    type V = RelayView<T>;

    closed spec fn view(&self) -> RelayView<T> {
        RelayView { buffer: self.buffer@, relayed: self.relayed@ }
    }
}

impl<T> RelayBroadcaster<T> {
    /// A broadcaster on `bus` that has relayed and buffered nothing.
    pub fn new(bus: Sender<T>) -> (broadcaster: RelayBroadcaster<T>)
        ensures
            broadcaster@.buffer == Seq::<T>::empty(),
            broadcaster@.relayed == Seq::<T>::empty(),
    {
        RelayBroadcaster { bus, buffer: RelayBuffer::new(), relayed: Ghost(Seq::empty()) }
    }

    /// The number of events that wait for a subscriber.
    pub fn buffered(&self) -> (len: usize)
        ensures
            len == self@.buffer.len(),
            len <= BUFFER_LIMIT,
    {
        self.buffer.len()
    }

    /// Whether the broadcaster waits for a subscriber to attach, which it
    /// does exactly while its buffer holds an event.
    pub fn is_waiting(&self) -> (waiting: bool)
        ensures
            waiting == self@.is_waiting(),
    {
        !self.buffer.is_empty()
    }

    /// Publishes `event`: offers it to the bus, and buffers it if the bus
    /// has no subscriber, evicting the oldest buffered event if the buffer is
    /// full. Returns whether the bus took the event.
    pub fn publish(&mut self, event: T) -> (taken: bool)
        ensures
            final(self)@ == old(self)@.publish(event, taken),
    {
        let outcome = bus_send(&self.bus, event);
        proof {
            if outcome is Ok {
                self.relayed@ = self.relayed@.push(event);
            }
        }
        self.buffer.settle_publish(outcome)
    }

    /// Offers the buffered events to the bus, oldest first, until the buffer
    /// is empty or the bus refuses one, which then stays the oldest entry of
    /// the buffer. Returns how many events the bus took.
    pub fn drain(&mut self) -> (taken: usize)
        ensures
            taken <= old(self)@.buffer.len(),
            final(self)@ == old(self)@.drain(taken as nat),
    {
        let mut taken: usize = 0;
        let total = self.buffer.len();
        assert(self@.buffer =~= old(self)@.buffer.skip(0));
        assert(self@.relayed =~= old(self)@.relayed + old(self)@.buffer.take(0));
        let mut goes_on = true;
        while goes_on
            invariant
                total == old(self)@.buffer.len(),
                total <= BUFFER_LIMIT,
                taken + self@.buffer.len() == total,
                self@ == old(self)@.drain(taken as nat),
            decreases self@.buffer.len() + if goes_on { 1nat } else { 0nat },
        {
            let ghost before = self@;
            match self.buffer.pop_front() {
                None => {
                    goes_on = false;
                },
                Some(event) => {
                    let outcome = bus_send(&self.bus, event);
                    proof {
                        if outcome is Ok {
                            self.relayed@ = self.relayed@.push(event);
                        }
                    }
                    if outcome.is_ok() {
                        taken = taken + 1;
                    }
                    goes_on = self.buffer.settle_drain(outcome);
                    proof {
                        if outcome is Ok {
                            assert(self@.buffer =~= old(self)@.buffer.skip(taken as int));
                            assert(self@.relayed =~= old(self)@.relayed + old(
                                self,
                            )@.buffer.take(taken as int));
                        } else {
                            assert(self@.buffer =~= before.buffer);
                        }
                    }
                },
            }
        }
        taken
    }
}

/// Buffer bound: a buffer within its limit that enqueues `events` holds
/// afterwards the last `BUFFER_LIMIT` of what it held followed by `events`,
/// in their order. From an empty buffer these are the last `BUFFER_LIMIT` of
/// `events`.
pub proof fn lemma_buffer_bound<T>(buffer: Seq<T>, events: Seq<T>)
    requires
        buffer.len() <= BUFFER_LIMIT,
    ensures
        enqueue_all(buffer, events) == latest(buffer + events),
        enqueue_all(buffer, events).len() <= BUFFER_LIMIT,
        enqueue_all(Seq::<T>::empty(), events) == latest(events),
    decreases events.len(), buffer.len(),
{
    if events.len() == 0 {
        assert(buffer + events =~= buffer);
    } else {
        let earlier = buffer + events.drop_last();
        lemma_buffer_bound(buffer, events.drop_last());
        assert(earlier.push(events.last()) =~= buffer + events);
        assert(enqueue(latest(earlier), events.last()) =~= latest(earlier.push(events.last())));
    }
    if buffer.len() > 0 {
        lemma_buffer_bound(Seq::<T>::empty(), events);
    } else {
        assert(buffer + events =~= events);
        assert(buffer =~= Seq::<T>::empty());
    }
}

/// Order preservation: when `events` are published with no subscriber
/// attached, by a broadcaster that had nothing buffered, and a subscriber
/// then attaches and the buffer is drained to its end, the bus has taken
/// the last `BUFFER_LIMIT` of `events` (all of them if they are fewer), each
/// once and in the order of their publication, and nothing else.
pub proof fn lemma_order_preserved<T>(start: RelayView<T>, events: Seq<T>)
    requires
        start.buffer.len() == 0,
    ensures
        ({
            let waiting = start.publish_unattended(events);
            let drained = waiting.drain(waiting.buffer.len());
            let kept = latest(events);
            &&& waiting.relayed == start.relayed
            &&& waiting.buffer == kept
            &&& drained.relayed == start.relayed + kept
            &&& drained.buffer.len() == 0
            &&& kept.len() <= events.len()
            &&& forall|i: int|
                0 <= i < kept.len() ==> #[trigger] kept[i] == events[events.len() - kept.len() + i]
        }),
{
    lemma_publish_unattended(start, events);
    lemma_buffer_bound(start.buffer, events);
    assert(start.buffer + events =~= events);
    let waiting = start.publish_unattended(events);
    assert(waiting.buffer.take(waiting.buffer.len() as int) =~= waiting.buffer);
}

/// Publishing with no subscriber attached enqueues, and relays nothing.
proof fn lemma_publish_unattended<T>(start: RelayView<T>, events: Seq<T>)
    ensures
        start.publish_unattended(events).relayed == start.relayed,
        start.publish_unattended(events).buffer == enqueue_all(start.buffer, events),
    decreases events.len(),
{
    if events.len() > 0 {
        lemma_publish_unattended(start, events.drop_last());
    }
}

/// The bit of twilight's event type flag for created interactions.
pub const INTERACTION_CREATE: u128 = 0x0100_0000_0000_0000;

/// The bit of twilight's event type flag for the start of a session.
pub const READY: u128 = 0x1000_0000;

/// The bit of twilight's event type flag for created roles.
pub const ROLE_CREATE: u128 = 0x4000_0000;

/// The bit of twilight's event type flag for deleted roles.
pub const ROLE_DELETE: u128 = 0x8000_0000;

/// The bit of twilight's event type flag for updated roles.
pub const ROLE_UPDATE: u128 = 0x1_0000_0000;

/// The event types that are relayed to subscribers: interactions, and what
/// their caches of roles need.
pub const EVENT_TYPES: u128 = INTERACTION_CREATE | READY | ROLE_CREATE | ROLE_DELETE | ROLE_UPDATE;

/// Whether every event type of `flags` is one that is relayed.
pub open spec fn relayed(flags: u128) -> bool {
    EVENT_TYPES & flags == flags
}

/// Whether every event type of `flags` is one that is relayed.
pub fn is_relayed(flags: u128) -> (yes: bool)
    ensures
        yes == relayed(flags),
{
    EVENT_TYPES & flags == flags
}

/// Why a payload could not be parsed.
#[derive(Debug)]
pub enum ParseError {
    /// No opcode was found in the payload.
    MissingOpcode,
    /// The payload's opcode is none of the gateway's.
    UnknownOpcode,
    /// The payload belongs to no event type.
    MissingEventType,
    /// The payload is of a relayed event type and could not be deserialized.
    Malformed(serde_json::Error),
}

/// What becomes of a payload.
pub enum Verdict {
    /// It is refused: no opcode was found in it.
    MissingOpcode,
    /// It is refused: its opcode is none of the gateway's.
    UnknownOpcode,
    /// It is refused: it belongs to no event type.
    MissingEventType,
    /// It is well-formed and of an event type that is not relayed.
    Skipped,
    /// It is of a relayed event type and was deserialized.
    Relayed,
    /// It is of a relayed event type and could not be deserialized.
    Malformed,
}

/// What becomes of the payload `input`, over what twilight finds in it.
pub open spec fn verdict(input: Seq<char>) -> Verdict {
    match scanned(input) {
        None => Verdict::MissingOpcode,
        Some(envelope) => if !is_opcode(envelope.op) {
            Verdict::UnknownOpcode
        } else {
            match event_type_flags(envelope.op, envelope.event_type) {
                None => Verdict::MissingEventType,
                Some(flags) => if !relayed(flags) {
                    Verdict::Skipped
                } else if deserializes(envelope.op, envelope.event_type, input) {
                    Verdict::Relayed
                } else {
                    Verdict::Malformed
                },
            }
        },
    }
}

/// The verdict that a result of [`parse`] stands for.
pub open spec fn verdict_of(parsed: Result<Option<Event>, ParseError>) -> Verdict {
    match parsed {
        Ok(Some(_)) => Verdict::Relayed,
        Ok(None) => Verdict::Skipped,
        Err(ParseError::MissingOpcode) => Verdict::MissingOpcode,
        Err(ParseError::UnknownOpcode) => Verdict::UnknownOpcode,
        Err(ParseError::MissingEventType) => Verdict::MissingEventType,
        Err(ParseError::Malformed(_)) => Verdict::Malformed,
    }
}

/// Parses a payload that a shard received as text: the event, if the payload
/// is of a relayed event type; nothing, if it is of another; and an error if
/// it has no opcode, an unknown one or no event type, or if it is of a relayed
/// event type and cannot be deserialized. A payload that is not relayed is
/// not deserialized.
pub fn parse(input: &str) -> (parsed: Result<Option<Event>, ParseError>)
    ensures
        verdict_of(parsed) == verdict(input@),
{
    let envelope = match scan(input) {
        Some(envelope) => envelope,
        None => {
            return Err(ParseError::MissingOpcode);
        },
    };
    if !opcode_known(envelope.op) {
        return Err(ParseError::UnknownOpcode);
    }
    let event_type: Option<&str> = match &envelope.event_type {
        Some(name) => Some(name.as_str()),
        None => None,
    };
    let flags = match flags_of(envelope.op, event_type) {
        Some(flags) => flags,
        None => {
            return Err(ParseError::MissingEventType);
        },
    };
    if !is_relayed(flags) {
        return Ok(None);
    }
    match deserialize(envelope.op, event_type, input) {
        Ok(event) => Ok(Some(event)),
        Err(error) => Err(ParseError::Malformed(error)),
    }
}

/// Where the forwarder of a shard stands.
#[derive(Clone, Copy, Debug, PartialEq, Eq, Structural)]
pub enum ShardState {
    /// Connected; no close frame has been sent.
    Active,
    /// The shutdown signal arrived; the connection is closing for good.
    Shutdown,
}

impl ShardState {
    /// Whether no close frame has been sent.
    pub fn is_active(&self) -> (active: bool)
        ensures
            active == (*self == ShardState::Active),
    {
        matches!(self, ShardState::Active)
    }

    /// Whether the shard is closing for good.
    pub fn is_shutdown(&self) -> (shutdown: bool)
        ensures
            shutdown == (*self == ShardState::Shutdown),
    {
        matches!(self, ShardState::Shutdown)
    }
}

/// What a forwarder can wake up to.
#[derive(Clone, Copy, Debug, PartialEq, Eq, Structural)]
pub enum Signal {
    /// A subscriber attached to the bus while the forwarder waited for one.
    Attached,
    /// The process was told to shut down.
    Shutdown,
    /// The connection delivered a close message.
    Closed,
    /// The connection delivered a payload as text.
    Text,
    /// The connection reported an error.
    ReceiveError,
    /// The connection will deliver nothing more.
    StreamEnded,
}

/// What the forwarder's caller has to carry out after a signal.
#[derive(Clone, Copy, Debug, PartialEq, Eq, Structural)]
pub enum Command {
    /// Nothing.
    Idle,
    /// Drain the buffer to the bus.
    Drain,
    /// Send a close frame that keeps the session.
    Close,
    /// Parse the payload and publish it if it is of a relayed event type.
    Relay,
    /// Log the error and go on.
    Report,
    /// The run is over: return the resumption token.
    Finish,
}

/// The forwarder's state after `signal` in `state`.
pub open spec fn next_state(state: ShardState, signal: Signal) -> ShardState {
    if signal == Signal::Shutdown {
        ShardState::Shutdown
    } else {
        state
    }
}

/// What `signal` in `state` has the forwarder's caller carry out. Only the
/// first shutdown signal sends a close frame, and a close message ends the
/// run only once that frame was sent.
pub open spec fn command(state: ShardState, signal: Signal) -> Command {
    match signal {
        Signal::Attached => Command::Drain,
        Signal::Shutdown => if state == ShardState::Active {
            Command::Close
        } else {
            Command::Idle
        },
        Signal::Closed => if state == ShardState::Active {
            Command::Idle
        } else {
            Command::Finish
        },
        Signal::Text => Command::Relay,
        Signal::ReceiveError => Command::Report,
        Signal::StreamEnded => Command::Finish,
    }
}

/// Acts on one signal: gives the forwarder's next state and what its caller
/// has to carry out.
pub fn step(state: ShardState, signal: Signal) -> (next: (ShardState, Command))
    ensures
        next.0 == next_state(state, signal),
        next.1 == command(state, signal),
{
    match signal {
        Signal::Attached => (state, Command::Drain),
        Signal::Shutdown => {
            if state.is_active() {
                (ShardState::Shutdown, Command::Close)
            } else {
                (ShardState::Shutdown, Command::Idle)
            }
        },
        Signal::Closed => {
            if state.is_active() {
                (state, Command::Idle)
            } else {
                (state, Command::Finish)
            }
        },
        Signal::Text => (state, Command::Relay),
        Signal::ReceiveError => (state, Command::Report),
        Signal::StreamEnded => (state, Command::Finish),
    }
}

/// What the task that serves one subscriber can wake up to.
#[derive(Clone, Copy, Debug, PartialEq, Eq, Structural)]
pub enum SocketSignal {
    /// The subscriber sent a close message.
    PeerClosed,
    /// The subscriber sent any other message.
    PeerMessage,
    /// Receiving from the subscriber failed.
    PeerError,
    /// The subscriber's socket will deliver nothing more.
    PeerEnded,
    /// The bus delivered an event.
    Event,
    /// The bus is closed: every broadcaster is gone.
    BusClosed,
    /// The subscriber fell behind the bus, which skipped this many events
    /// for it.
    Lagged(u64),
    /// Sending an event to the subscriber failed.
    SendFailed,
}

/// What the task that serves one subscriber has to do next.
#[derive(Clone, Copy, Debug, PartialEq, Eq, Structural)]
pub enum SocketCommand {
    /// Go on.
    Continue,
    /// Send the event to the subscriber.
    Forward,
    /// Log the error and go on.
    Report,
    /// Log that this many events were skipped, and go on.
    ReportLag(u64),
    /// Log the error and stop serving the subscriber.
    ReportAndStop,
    /// Stop serving the subscriber.
    Stop,
}

/// What `signal` has the task that serves a subscriber do. Lag is reported
/// and does not end the service; that the subscriber or the bus is gone, or
/// that a send failed, does.
pub open spec fn socket_command(signal: SocketSignal) -> SocketCommand {
    match signal {
        SocketSignal::PeerClosed => SocketCommand::Stop,
        SocketSignal::PeerMessage => SocketCommand::Continue,
        SocketSignal::PeerError => SocketCommand::Report,
        SocketSignal::PeerEnded => SocketCommand::Stop,
        SocketSignal::Event => SocketCommand::Forward,
        SocketSignal::BusClosed => SocketCommand::Stop,
        SocketSignal::Lagged(count) => SocketCommand::ReportLag(count),
        SocketSignal::SendFailed => SocketCommand::ReportAndStop,
    }
}

/// Decides what the task that serves a subscriber does after `signal`.
pub fn socket(signal: SocketSignal) -> (command: SocketCommand)
    ensures
        command == socket_command(signal),
{
    match signal {
        SocketSignal::PeerClosed | SocketSignal::PeerEnded | SocketSignal::BusClosed => {
            SocketCommand::Stop
        },
        SocketSignal::PeerMessage => SocketCommand::Continue,
        SocketSignal::PeerError => SocketCommand::Report,
        SocketSignal::Event => SocketCommand::Forward,
        SocketSignal::Lagged(count) => SocketCommand::ReportLag(count),
        SocketSignal::SendFailed => SocketCommand::ReportAndStop,
    }
}

} // verus!

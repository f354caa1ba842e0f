//! The lifecycle of one shard connection: the restart slot that outside
//! actors write and the supervisor reads, and the supervisor's state machine.

use vstd::prelude::*;

verus! {

/// The close policy that a restart request carries.
#[derive(Clone, Copy, Debug, PartialEq, Eq, Structural)]
pub enum ShardRestartType {
    /// Close the connection and discard its session.
    Normal,
    /// Close the connection and keep its session for resumption.
    Resume,
}

/// What the issuer of a restart request is told.
#[derive(Clone, Copy, Debug, PartialEq, Eq, Structural)]
pub enum ShardRestartResult {
    /// An earlier request was still pending; this one replaced it. The issuer
    /// must not wait for completion.
    ForcedRestart,
    /// The request is the first one pending on its slot.
    Restarted,
}

impl ShardRestartResult {
    /// Whether the request replaced one that was still pending.
    pub fn is_forced(&self) -> (forced: bool)
        ensures
            forced == (*self == ShardRestartResult::ForcedRestart),
    {
        matches!(self, ShardRestartResult::ForcedRestart)
    }
}

/// The mathematical state of a restart slot.
pub struct SlotState {
    /// The request that was issued last, if any was.
    pub pending: Option<ShardRestartType>,
    /// Whether the supervisor has taken a request from the slot.
    pub observed: bool,
    /// Whether the generation that the slot belongs to has ended.
    pub closed: bool,
}

impl SlotState {
    /// The slot of a generation that has just begun.
    pub open spec fn fresh() -> SlotState {
        SlotState { pending: None, observed: false, closed: false }
    }

    /// The slot after `kind` was issued on it.
    pub open spec fn issue(self, kind: ShardRestartType) -> SlotState {
        SlotState { pending: Some(kind), ..self }
    }

    /// What the issuer of the next request is told.
    pub open spec fn issue_result(self) -> ShardRestartResult {
        if self.pending is Some {
            ShardRestartResult::ForcedRestart
        } else {
            ShardRestartResult::Restarted
        }
    }

    /// Whether the supervisor would be handed a request now.
    pub open spec fn observable(self) -> bool {
        self.pending is Some && !self.observed && !self.closed
    }

    /// What the supervisor is handed when it looks at the slot.
    pub open spec fn observation(self) -> Option<ShardRestartType> {
        if self.observable() {
            self.pending
        } else {
            None
        }
    }

    /// The slot after the supervisor looked at it.
    pub open spec fn observe(self) -> SlotState {
        if self.observable() {
            SlotState { observed: true, ..self }
        } else {
            self
        }
    }

    /// The slot after its generation ended.
    pub open spec fn close(self) -> SlotState {
        SlotState { closed: true, ..self }
    }

    /// The slot after each of `kinds` was issued on it, in order.
    pub open spec fn issue_all(self, kinds: Seq<ShardRestartType>) -> SlotState
        decreases kinds.len(),
    {
        if kinds.len() == 0 {
            self
        } else {
            self.issue_all(kinds.drop_last()).issue(kinds.last())
        }
    }

    /// What the issuer of `kinds[i]` is told when `kinds` are issued in order.
    pub open spec fn issue_all_result(self, kinds: Seq<ShardRestartType>, i: int) -> ShardRestartResult
        recommends
            0 <= i < kinds.len(),
    {
        self.issue_all(kinds.take(i)).issue_result()
    }
}

/// The restart slot of one connection generation of a shard.
///
/// It holds at most one pending request. A request issued while another is
/// pending replaces it and is reported as forced. The supervisor takes a
/// request from the slot at most once, and closes the slot when the
/// generation ends.
#[derive(Debug)]
pub struct ShardHandle {
    pending: Option<ShardRestartType>,
    observed: bool,
    closed: bool,
}

impl View for ShardHandle {
    type V = SlotState;

    closed spec fn view(&self) -> SlotState {
        SlotState { pending: self.pending, observed: self.observed, closed: self.closed }
    }
}

impl ShardHandle {
    /// The slot of a generation that has just begun.
    pub fn new() -> (handle: ShardHandle)
        ensures
            handle@ == SlotState::fresh(),
    {
        ShardHandle { pending: None, observed: false, closed: false }
    }

    /// Whether the generation that the handle belongs to is still the live
    /// one.
    pub fn is_valid(&self) -> (valid: bool)
        ensures
            valid == !self@.closed,
    {
        !self.closed
    }

    /// Instructs the shard to restart. The request replaces whatever was
    /// pending, and is forced exactly if something was.
    pub fn restart(&mut self, kind: ShardRestartType) -> (result: ShardRestartResult)
        ensures
            final(self)@ == old(self)@.issue(kind),
            result == old(self)@.issue_result(),
    {
        let previous = self.pending;
        self.pending = Some(kind);
        match previous {
            Some(_) => ShardRestartResult::ForcedRestart,
            None => ShardRestartResult::Restarted,
        }
    }

    /// The supervisor's look at the slot: the pending request, the first
    /// time that there is one, and nothing ever after.
    pub fn observe(&mut self) -> (request: Option<ShardRestartType>)
        ensures
            request == old(self)@.observation(),
            final(self)@ == old(self)@.observe(),
    {
        if self.observed || self.closed {
            None
        } else {
            match self.pending {
                Some(kind) => {
                    self.observed = true;
                    Some(kind)
                },
                None => None,
            }
        }
    }

    /// Marks the end of the generation, which completes every wait on the
    /// handle and makes it invalid.
    pub fn close(&mut self)
        ensures
            final(self)@ == old(self)@.close(),
    {
        self.closed = true;
    }
}

/// Where the supervisor of a connection generation stands.
#[derive(Clone, Copy, Debug, PartialEq, Eq, Structural)]
pub enum State {
    /// Connected; no close frame has been sent.
    Active,
    /// A restart request was taken and its close frame sent.
    Restart,
    /// The shutdown signal arrived; the connection is closing for good.
    Shutdown,
}

impl State {
    /// Whether no close frame has been sent in this generation.
    pub fn is_active(&self) -> (active: bool)
        ensures
            active == (*self == State::Active),
    {
        matches!(self, State::Active)
    }

    /// Whether the generation is closing to be replaced by a new one.
    pub fn is_restart(&self) -> (restart: bool)
        ensures
            restart == (*self == State::Restart),
    {
        matches!(self, State::Restart)
    }

    /// Whether the shard is closing for good.
    pub fn is_shutdown(&self) -> (shutdown: bool)
        ensures
            shutdown == (*self == State::Shutdown),
    {
        matches!(self, State::Shutdown)
    }
}

/// What a supervisor can wake up to. Exactly one signal is acted on per
/// wake-up.
#[derive(Clone, Copy, Debug, PartialEq, Eq, Structural)]
pub enum Signal {
    /// The process was told to shut down.
    Shutdown,
    /// A request was written to the generation's restart slot.
    SlotChanged,
    /// The connection delivered its close confirmation.
    CloseConfirmed,
    /// The connection delivered any other event.
    Event,
    /// The connection reported an error that is not a close.
    ReceiveError,
    /// The connection will deliver nothing more.
    StreamEnded,
}

/// What the supervisor's caller has to carry out after a signal.
#[derive(Clone, Copy, Debug, PartialEq, Eq, Structural)]
pub enum Command {
    /// Nothing.
    Idle,
    /// Send a close frame with this policy.
    Close(ShardRestartType),
    /// Hand the event to the handler, without waiting for it.
    Dispatch,
    /// Log the error and go on.
    Report,
    /// The generation is over: capture the resumption token, open a new
    /// connection seeded with it and arm a fresh restart slot.
    Rotate,
    /// The run is over: wait for every handler task of every generation,
    /// then return the resumption token.
    Finish,
}

/// One transition of the supervisor.
pub struct Transition {
    /// The state after the signal.
    pub state: State,
    /// The restart slot after the signal.
    pub slot: SlotState,
    /// What is to be carried out.
    pub command: Command,
}

/// The supervisor's transition relation: what `signal` leads to in `state`
/// with the restart slot as `slot`.
///
/// The slot is looked at only while the generation is active. Once a request
/// was taken, or the shutdown signal arrived, a change of the slot leads to
/// nothing: the generation ends, and its slot is closed, only when the
/// connection confirms the close or delivers nothing more.
pub open spec fn transition(state: State, slot: SlotState, signal: Signal) -> Transition {
    match (signal, state) {
        (Signal::Shutdown, State::Active) => Transition {
            state: State::Shutdown,
            slot,
            command: Command::Close(ShardRestartType::Resume),
        },
        (Signal::Shutdown, _) => Transition { state: State::Shutdown, slot, command: Command::Idle },
        (Signal::SlotChanged, State::Active) => match slot.observation() {
            Some(kind) => Transition {
                state: State::Restart,
                slot: slot.observe(),
                command: Command::Close(kind),
            },
            None => Transition { state, slot, command: Command::Idle },
        },
        (Signal::SlotChanged, _) => Transition { state, slot, command: Command::Idle },
        (Signal::CloseConfirmed, State::Active) => Transition { state, slot, command: Command::Dispatch },
        (Signal::CloseConfirmed, State::Restart) => Transition {
            state: State::Active,
            slot: slot.close(),
            command: Command::Rotate,
        },
        (Signal::CloseConfirmed, State::Shutdown) => Transition {
            state,
            slot: slot.close(),
            command: Command::Finish,
        },
        (Signal::Event, _) => Transition { state, slot, command: Command::Dispatch },
        (Signal::ReceiveError, _) => Transition { state, slot, command: Command::Report },
        (Signal::StreamEnded, State::Restart) => Transition {
            state: State::Active,
            slot: slot.close(),
            command: Command::Rotate,
        },
        (Signal::StreamEnded, _) => Transition {
            state: State::Shutdown,
            slot: slot.close(),
            command: Command::Finish,
        },
    }
}

/// Acts on one signal: gives the next state and what the caller has to carry
/// out, and takes the pending request from the restart slot, or closes the
/// slot, where the transition says so.
///
/// After `Command::Rotate` the next signal belongs to a new generation, whose
/// slot is a fresh one. After `Command::Finish` there is no next signal.
pub fn step(state: State, signal: Signal, handle: &mut ShardHandle) -> (next: (State, Command))
    ensures
        next.0 == transition(state, old(handle)@, signal).state,
        next.1 == transition(state, old(handle)@, signal).command,
        final(handle)@ == transition(state, old(handle)@, signal).slot,
{
    match signal {
        Signal::Shutdown => {
            if state.is_active() {
                (State::Shutdown, Command::Close(ShardRestartType::Resume))
            } else {
                (State::Shutdown, Command::Idle)
            }
        },
        Signal::SlotChanged => match state {
            State::Active => match handle.observe() {
                Some(kind) => (State::Restart, Command::Close(kind)),
                None => (State::Active, Command::Idle),
            },
            State::Restart => (State::Restart, Command::Idle),
            State::Shutdown => (State::Shutdown, Command::Idle),
        },
        Signal::CloseConfirmed => match state {
            State::Active => (State::Active, Command::Dispatch),
            State::Restart => {
                handle.close();
                (State::Active, Command::Rotate)
            },
            State::Shutdown => {
                handle.close();
                (State::Shutdown, Command::Finish)
            },
        },
        Signal::Event => (state, Command::Dispatch),
        Signal::ReceiveError => (state, Command::Report),
        Signal::StreamEnded => {
            handle.close();
            if state.is_restart() {
                (State::Active, Command::Rotate)
            } else {
                (State::Shutdown, Command::Finish)
            }
        },
    }
}

/// What can happen to a restart slot.
pub enum SlotEvent {
    /// An outside actor issued a request.
    Issued(ShardRestartType),
    /// The supervisor looked at the slot.
    Observed,
    /// The generation ended.
    Closed,
}

impl SlotState {
    /// The slot after `event`.
    pub open spec fn after(self, event: SlotEvent) -> SlotState {
        match event {
            SlotEvent::Issued(kind) => self.issue(kind),
            SlotEvent::Observed => self.observe(),
            SlotEvent::Closed => self.close(),
        }
    }

    /// The slot after each of `events`, in order.
    pub open spec fn after_all(self, events: Seq<SlotEvent>) -> SlotState
        decreases events.len(),
    {
        if events.len() == 0 {
            self
        } else {
            self.after_all(events.drop_last()).after(events.last())
        }
    }
}

/// Coalescing: of requests issued one after another with no look by the
/// supervisor in between, only the last is pending afterwards, and it is the
/// one that the supervisor is handed if it has taken none before. Each issuer
/// but the first is told that its request was forced; the first is told so
/// exactly if a request was pending before.
pub proof fn lemma_coalescing(slot: SlotState, kinds: Seq<ShardRestartType>)
    requires
        kinds.len() > 0,
    ensures
        slot.issue_all(kinds).pending == Some(kinds.last()),
        slot.issue_all(kinds).observed == slot.observed,
        slot.issue_all(kinds).closed == slot.closed,
        !slot.observed && !slot.closed ==> slot.issue_all(kinds).observation() == Some(kinds.last()),
        slot.issue_all_result(kinds, 0) == slot.issue_result(),
        forall|i: int|
            1 <= i < kinds.len() ==> #[trigger] slot.issue_all_result(kinds, i)
                == ShardRestartResult::ForcedRestart,
    decreases kinds.len(),
{
    assert(kinds.take(0).len() == 0);
    if kinds.len() > 1 {
        lemma_coalescing(slot, kinds.drop_last());
    }
    assert forall|i: int| 1 <= i < kinds.len() implies #[trigger] slot.issue_all_result(kinds, i)
        == ShardRestartResult::ForcedRestart by {
        lemma_coalescing(slot, kinds.take(i));
    }
}

/// Coalescing on a slot that already holds a request: every issuer, and so
/// every issuer but the last, is told that its request was forced.
pub proof fn lemma_coalescing_forced(slot: SlotState, kinds: Seq<ShardRestartType>)
    requires
        slot.pending is Some,
    ensures
        forall|i: int|
            0 <= i < kinds.len() ==> #[trigger] slot.issue_all_result(kinds, i)
                == ShardRestartResult::ForcedRestart,
{
    assert forall|i: int| 0 <= i < kinds.len() implies #[trigger] slot.issue_all_result(kinds, i)
        == ShardRestartResult::ForcedRestart by {
        if i == 0 {
            assert(kinds.take(0).len() == 0);
        } else {
            lemma_coalescing(slot, kinds);
        }
    }
}

/// Single observation: once the supervisor has taken a request from a slot,
/// no look at the slot hands it a request again, whatever is issued on the
/// slot afterwards.
pub proof fn lemma_single_observation(slot: SlotState, events: Seq<SlotEvent>)
    requires
        slot.observation() is Some,
    ensures
        slot.observe().after_all(events).observed,
        slot.observe().after_all(events).observation() is None,
    decreases events.len(),
{
    if events.len() > 0 {
        lemma_single_observation(slot, events.drop_last());
    }
}

/// What can happen in a generation: a signal to the supervisor, or a request
/// that an outside actor issues on the restart slot.
pub enum Stimulus {
    /// The supervisor woke up to a signal.
    Signalled(Signal),
    /// An outside actor issued a request on the slot.
    Issued(ShardRestartType),
}

/// The course of one generation.
pub struct Course {
    /// The state after the last stimulus that was acted on.
    pub state: State,
    /// The restart slot after it.
    pub slot: SlotState,
    /// What the supervisor's caller was told to carry out, in order.
    pub commands: Seq<Command>,
    /// Whether the generation came to its end.
    pub ended: bool,
}

/// Whether `command` ends a generation.
pub open spec fn ends_generation(command: Command) -> bool {
    command == Command::Rotate || command == Command::Finish
}

/// The course that a generation takes from `state` and `slot` under
/// `stimuli`. What follows the end of the generation is not acted on.
pub open spec fn course(state: State, slot: SlotState, stimuli: Seq<Stimulus>) -> Course
    decreases stimuli.len(),
{
    if stimuli.len() == 0 {
        Course { state, slot, commands: Seq::empty(), ended: false }
    } else {
        match stimuli.first() {
            Stimulus::Issued(kind) => course(state, slot.issue(kind), stimuli.drop_first()),
            Stimulus::Signalled(signal) => {
                let t = transition(state, slot, signal);
                if ends_generation(t.command) {
                    Course { state: t.state, slot: t.slot, commands: seq![t.command], ended: true }
                } else {
                    let rest = course(t.state, t.slot, stimuli.drop_first());
                    Course { commands: seq![t.command] + rest.commands, ..rest }
                }
            },
        }
    }
}

/// The number of close frames among `commands`.
pub open spec fn close_frames(commands: Seq<Command>) -> nat
    decreases commands.len(),
{
    if commands.len() == 0 {
        0
    } else {
        let here: nat = if commands.first() is Close {
            1
        } else {
            0
        };
        here + close_frames(commands.drop_first())
    }
}

/// One close frame per generation: a generation sends no close frame while
/// it is active and exactly one on leaving that state, whatever it is
/// signalled and whatever is issued on its slot. So it sends one at most, and
/// exactly one if it ends in a rotation.
pub proof fn lemma_one_close_frame(state: State, slot: SlotState, stimuli: Seq<Stimulus>)
    ensures
        ({
            let c = course(state, slot, stimuli);
            let frames = close_frames(c.commands);
            &&& state != State::Active ==> frames == 0
            &&& state == State::Active ==> frames <= 1
            &&& state == State::Active && !c.ended ==> (frames == 0 <==> c.state == State::Active)
            &&& state != State::Active && !c.ended ==> c.state != State::Active
            &&& c.ended ==> c.commands.len() > 0 && ends_generation(c.commands.last())
            &&& state == State::Active && c.ended && c.commands.last() == Command::Rotate ==> frames
                == 1
            &&& c.ended ==> c.slot.closed
            &&& !c.ended ==> c.slot.closed == slot.closed
        }),
    decreases stimuli.len(),
{
    if stimuli.len() > 0 {
        match stimuli.first() {
            Stimulus::Issued(kind) => {
                lemma_one_close_frame(state, slot.issue(kind), stimuli.drop_first());
            },
            Stimulus::Signalled(signal) => {
                let t = transition(state, slot, signal);
                if ends_generation(t.command) {
                    let commands = seq![t.command];
                    assert(commands.drop_first().len() == 0);
                    assert(close_frames(commands.drop_first()) == 0);
                } else {
                    let rest = course(t.state, t.slot, stimuli.drop_first());
                    lemma_one_close_frame(t.state, t.slot, stimuli.drop_first());
                    let commands = seq![t.command] + rest.commands;
                    assert(commands.drop_first() =~= rest.commands);
                    assert(commands.first() == t.command);
                    if rest.ended {
                        assert(commands.last() == rest.commands.last());
                    }
                }
            },
        }
    }
}

/// A generation ends on the connection's word only: a transition ends the
/// generation, and closes its slot, exactly if the connection confirms the
/// close after a close frame was sent, or delivers nothing more. No request
/// on the slot does, and a slot that was looked at once is left as it is by
/// every later change. Once the shutdown signal arrived, no new generation
/// follows.
pub proof fn lemma_ends_on_confirmation(state: State, slot: SlotState, signal: Signal)
    ensures
        ({
            let t = transition(state, slot, signal);
            let confirmed = (signal == Signal::CloseConfirmed && state != State::Active) || signal
                == Signal::StreamEnded;
            &&& ends_generation(t.command) <==> confirmed
            &&& confirmed ==> t.slot == slot.close()
            &&& !confirmed ==> t.slot.closed == slot.closed
            &&& signal == Signal::SlotChanged && state != State::Active ==> t.slot == slot
                && t.state == state && t.command == Command::Idle
            &&& t.command is Close ==> state == State::Active
            &&& state == State::Shutdown ==> t.state == State::Shutdown && t.command
                != Command::Rotate
        }),
{
}

} // verus!

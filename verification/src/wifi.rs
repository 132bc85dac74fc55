use crate::command::{CmdCode, DUMMY};
use crate::control::{
    boot_plan, BootStep, ControlStep, READY_POLL_INTERVAL_MS, READY_POLL_LIMIT,
};
use crate::error::DriverError;
use crate::frame::{command_bytes, params_fit, params_view, send_cmd};
use crate::reply::{reply_shape, DecoderState, ReplyDecoder, ReplyShape, Stage, Transfer};
use vstd::prelude::*;

verus! {

/// Length of a MAC address, in bytes.
pub const MAC_LEN: u8 = 6;

/// How an operation ended.
#[derive(Clone, Copy, Debug, PartialEq, Eq, Structural)]
pub enum Status {
    /// The boot sequence ran to its end.
    Booted,
    /// The ready line was found high.
    Ready,
    /// The module answered, and the payload of its reply is held by the
    /// driver.
    Replied,
    /// The operation was given up.
    Failed(DriverError),
}

/// What the driver needs done next.
#[derive(Clone, Copy, Debug, PartialEq, Eq, Structural)]
pub enum Action {
    /// Drive a control line or let time pass.
    Control(ControlStep),
    /// Read the ready line.
    SampleReady,
    /// Write the frame that the driver holds to the transport.
    Write,
    /// Make a full-duplex transfer and hand back what came in.
    Transfer(Transfer),
    /// Nothing: the operation has ended in this way.
    Complete(Status),
}

/// What came of the action that the driver asked for.
#[derive(Clone, Debug, PartialEq, Eq)]
pub enum Event {
    /// The line was driven, the time has passed, or the frame was written.
    Performed,
    /// The ready line was read: `true` for high.
    Ready(bool),
    /// The transfer brought these bytes in.
    Received(Vec<u8>),
    /// The transport failed to write or to transfer.
    TransportFailed,
}

/// An event as the contracts speak of it.
pub enum EventView {
    Performed,
    Ready(bool),
    Received(Seq<u8>),
    TransportFailed,
}

impl View for Event {
    type V = EventView;

    open spec fn view(&self) -> EventView {
        match self {
            Event::Performed => EventView::Performed,
            Event::Ready(high) => EventView::Ready(*high),
            Event::Received(bytes) => EventView::Received(bytes@),
            Event::TransportFailed => EventView::TransportFailed,
        }
    }
}

/// What follows a ready handshake.
#[derive(Clone, Copy, Debug, PartialEq, Eq, Structural)]
pub enum Turn {
    /// The command frame is written.
    Send,
    /// The reply is clocked in.
    Receive,
    /// Nothing: the driver settles as ready.
    Rest,
}

impl Turn {
    /// Where the driver stands once the ready line was found high.
    pub open spec fn phase_spec(self) -> Phase {
        match self {
            Turn::Send => Phase::Sending,
            Turn::Receive => Phase::Receiving,
            Turn::Rest => Phase::Settled(Status::Ready),
        }
    }

    /// Where the driver stands once the ready line was found high.
    #[verifier::when_used_as_spec(phase_spec)]
    pub fn phase(self) -> (phase: Phase)
        ensures
            phase == self.phase_spec(),
    {
        match self {
            Turn::Send => Phase::Sending,
            Turn::Receive => Phase::Receiving,
            Turn::Rest => Phase::Settled(Status::Ready),
        }
    }
}

/// Where the driver stands.
#[derive(Clone, Copy, Debug, PartialEq, Eq, Structural)]
pub enum Phase {
    /// In the boot sequence, with this step outstanding.
    Booting(BootStep),
    /// In a ready handshake, about to look at the ready line.
    Polling(Turn),
    /// In a ready handshake, asleep after a look that found the line low.
    Sleeping(Turn),
    /// The command frame is being written.
    Sending,
    /// The reply is being clocked in.
    Receiving,
    /// No operation is under way: the last one ended in this way.
    Settled(Status),
}

/// The state of the driver as the contracts speak of it.
pub struct WifiState {
    /// How often a handshake looks at the ready line before it gives up.
    pub poll_limit: u32,
    /// Where the driver stands.
    pub phase: Phase,
    /// How often the handshake under way has found the ready line low.
    pub polls: u32,
    /// The command frame of the exchange.
    pub frame: Seq<u8>,
    /// The decoder of the reply.
    pub decoder: DecoderState,
}

/// The shape that the decoder of a driver expects before any exchange.
pub open spec fn no_reply() -> ReplyShape {
    ReplyShape { code: 0, param_num: 0, len: 0 }
}

impl WifiState {
    /// A driver fresh from construction: at the first step of the boot
    /// sequence.
    pub open spec fn created(poll_limit: u32) -> WifiState {
        WifiState {
            poll_limit,
            phase: Phase::Booting(BootStep::first_spec()),
            polls: 0,
            frame: Seq::empty(),
            decoder: DecoderState::start(no_reply()),
        }
    }

    /// The boot sequence begins, whatever was under way.
    pub open spec fn reset(self) -> WifiState {
        WifiState { phase: Phase::Booting(BootStep::first_spec()), ..self }
    }

    /// A ready handshake begins that is followed by `turn`. With no look at
    /// the ready line allowed it has failed already.
    pub open spec fn await_ready(self, turn: Turn) -> WifiState {
        if self.poll_limit == 0 {
            WifiState {
                phase: Phase::Settled(Status::Failed(DriverError::ModuleUnresponsive)),
                polls: 0,
                ..self
            }
        } else {
            WifiState { phase: Phase::Polling(turn), polls: 0, ..self }
        }
    }

    /// An exchange begins, whatever was under way: the driver holds the
    /// command frame and a fresh decoder for the reply, and waits for the
    /// module to be ready for the frame.
    pub open spec fn exchange(self, frame: Seq<u8>, shape: ReplyShape) -> WifiState {
        WifiState { frame, decoder: DecoderState::start(shape), ..self }.await_ready(Turn::Send)
    }

    /// A ready handshake begins on its own, whatever was under way.
    pub open spec fn wait_for_ready(self) -> WifiState {
        self.await_ready(Turn::Rest)
    }

    /// The exchange that asks for the MAC address: one parameter that holds
    /// one dummy byte goes out, six bytes are expected back.
    pub open spec fn get_mac_address(self) -> WifiState {
        self.exchange(
            command_bytes(CmdCode::GetMACAddress, 1, seq![seq![DUMMY]]),
            reply_shape(CmdCode::GetMACAddress, 1, MAC_LEN),
        )
    }

    /// What the driver needs done next.
    pub open spec fn pending(self) -> Action {
        match self.phase {
            Phase::Booting(step) => Action::Control(step.control_spec()),
            Phase::Polling(_) => Action::SampleReady,
            Phase::Sleeping(_) => Action::Control(ControlStep::DelayMs(READY_POLL_INTERVAL_MS)),
            Phase::Sending => Action::Write,
            Phase::Receiving => Action::Transfer(self.decoder.wanted()),
            Phase::Settled(status) => Action::Complete(status),
        }
    }

    /// `event` is an answer to the action that the driver needs done.
    pub open spec fn answers(self, event: EventView) -> bool {
        match self.pending() {
            Action::Control(_) => event is Performed,
            Action::SampleReady => event is Ready,
            Action::Write => event is Performed || event is TransportFailed,
            Action::Transfer(_) => event is Received || event is TransportFailed,
            Action::Complete(_) => false,
        }
    }

    /// The state after `event`. An event that does not answer the action that
    /// the driver needs done changes nothing.
    pub open spec fn step(self, event: EventView) -> WifiState {
        match self.phase {
            Phase::Booting(step) => match event {
                EventView::Performed => match step.next_spec() {
                    Some(next) => WifiState { phase: Phase::Booting(next), ..self },
                    None => WifiState { phase: Phase::Settled(Status::Booted), ..self },
                },
                _ => self,
            },
            Phase::Polling(turn) => match event {
                EventView::Ready(true) => WifiState { phase: turn.phase_spec(), ..self },
                EventView::Ready(false) => WifiState { phase: Phase::Sleeping(turn), ..self },
                _ => self,
            },
            Phase::Sleeping(turn) => match event {
                EventView::Performed => if self.polls + 1 >= self.poll_limit {
                    WifiState {
                        phase: Phase::Settled(Status::Failed(DriverError::ModuleUnresponsive)),
                        ..self
                    }
                } else {
                    WifiState {
                        phase: Phase::Polling(turn),
                        polls: (self.polls + 1) as u32,
                        ..self
                    }
                },
                _ => self,
            },
            Phase::Sending => match event {
                EventView::Performed => self.await_ready(Turn::Receive),
                EventView::TransportFailed => WifiState {
                    phase: Phase::Settled(Status::Failed(DriverError::Transport)),
                    ..self
                },
                _ => self,
            },
            Phase::Receiving => match event {
                EventView::Received(bytes) => {
                    let decoder = self.decoder.feed(bytes);
                    let phase = match decoder.stage {
                        Stage::Done => Phase::Settled(Status::Replied),
                        Stage::Failed(error) => Phase::Settled(Status::Failed(error)),
                        _ => Phase::Receiving,
                    };
                    WifiState { phase, decoder, ..self }
                },
                EventView::TransportFailed => WifiState {
                    phase: Phase::Settled(Status::Failed(DriverError::Transport)),
                    ..self
                },
                _ => self,
            },
            Phase::Settled(_) => self,
        }
    }

    /// The state after the events of `events`, one after the other.
    pub open spec fn run(self, events: Seq<EventView>) -> WifiState
        decreases events.len(),
    {
        if events.len() == 0 {
            self
        } else {
            self.run(events.drop_last()).step(events.last())
        }
    }

    /// The actions that the driver needs done as the events of `events`
    /// come in: the one before the first event, then the one after each.
    pub open spec fn actions(self, events: Seq<EventView>) -> Seq<Action> {
        Seq::new(events.len() + 1, |i: int| self.run(events.take(i)).pending())
    }
}

/// The driver of the module. It holds where the conversation with the
/// module stands and says what is to be done next on the bus and on the
/// control lines; it is told what came of it by `step`.
///
/// One operation is under way at a time: to begin one is to give up the one
/// before. The driver moves chip select in the boot sequence only, where it
/// releases it; an exchange leaves the line as it finds it, so an
/// integration whose bus needs the module selected drives the line itself.
#[derive(Debug)]
pub struct Wifi {
    poll_limit: u32,
    phase: Phase,
    polls: u32,
    frame: Vec<u8>,
    decoder: ReplyDecoder,
}

impl View for Wifi {
    type V = WifiState;

    closed spec fn view(&self) -> WifiState {
        WifiState {
            poll_limit: self.poll_limit,
            phase: self.phase,
            polls: self.polls,
            frame: self.frame@,
            decoder: self.decoder@,
        }
    }
}

impl Wifi {
    /// A driver for a module that is to be booted: the boot sequence is
    /// under way, at its first step. A ready handshake of this driver looks
    /// at the ready line `READY_POLL_LIMIT` times.
    pub fn new() -> (wifi: Wifi)
        ensures
            wifi@ == WifiState::created(READY_POLL_LIMIT),
    {
        Wifi::with_poll_limit(READY_POLL_LIMIT)
    }

    /// As `new`, with a ready handshake that looks at the ready line
    /// `poll_limit` times.
    pub fn with_poll_limit(poll_limit: u32) -> (wifi: Wifi)
        ensures
            wifi@ == WifiState::created(poll_limit),
    {
        Wifi {
            poll_limit,
            phase: Phase::Booting(BootStep::first()),
            polls: 0,
            frame: Vec::new(),
            decoder: ReplyDecoder::expecting(ReplyShape { code: 0, param_num: 0, len: 0 }),
        }
    }

    /// Begins the boot sequence: boot mode high, chip select high, reset low
    /// for `RESET_HOLD_MS`, reset high, and `BOOT_WAIT_MS` for the firmware.
    /// Gives the first step of it.
    pub fn reset(&mut self) -> (action: Action)
        ensures
            final(self)@ == old(self)@.reset(),
            action == final(self)@.pending(),
    {
        self.phase = Phase::Booting(BootStep::first());
        self.pending()
    }

    /// Begins a ready handshake on its own: the driver looks at the ready
    /// line until it is high, with a sleep of `READY_POLL_INTERVAL_MS` after
    /// each look that finds it low, and settles as `Ready`, or as failed with
    /// `ModuleUnresponsive` once it has looked as often as it may. Gives the
    /// first action.
    pub fn wait_for_ready(&mut self) -> (action: Action)
        ensures
            final(self)@ == old(self)@.wait_for_ready(),
            action == final(self)@.pending(),
    {
        self.await_ready(Turn::Rest);
        self.pending()
    }

    /// Begins a ready handshake that is followed by `turn`.
    fn await_ready(&mut self, turn: Turn)
        ensures
            final(self)@ == old(self)@.await_ready(turn),
    {
        self.polls = 0;
        if self.poll_limit == 0 {
            self.phase = Phase::Settled(Status::Failed(DriverError::ModuleUnresponsive));
        } else {
            self.phase = Phase::Polling(turn);
        }
    }

    /// Begins the exchange of one command for its reply: wait until the
    /// module is ready, write the command frame, wait until the module is
    /// ready again, clock the reply in. The frame declares as many
    /// parameters as `params` holds; the reply is to declare `reply_params`
    /// parameters and to carry `reply_len` bytes. Gives the first action.
    pub fn exchange(
        &mut self,
        cmd: CmdCode,
        params: &Vec<Vec<u8>>,
        reply_params: u8,
        reply_len: u8,
    ) -> (action: Action)
        requires
            params@.len() <= u8::MAX,
            params_fit(params_view(params)),
        ensures
            final(self)@ == old(self)@.exchange(
                command_bytes(cmd, params@.len() as u8, params_view(params)),
                reply_shape(cmd, reply_params, reply_len),
            ),
            action == final(self)@.pending(),
    {
        self.frame = send_cmd(cmd, params.len() as u8, params);
        self.decoder = ReplyDecoder::new(cmd, reply_params, reply_len);
        self.await_ready(Turn::Send);
        self.pending()
    }

    /// Begins the exchange that asks the module for its MAC address. Once
    /// the driver has settled as `Replied`, `mac_address` gives the address.
    pub fn get_mac_address(&mut self) -> (action: Action)
        ensures
            final(self)@ == old(self)@.get_mac_address(),
            action == final(self)@.pending(),
    {
        let mut dummy: Vec<u8> = Vec::new();
        dummy.push(DUMMY);
        let mut params: Vec<Vec<u8>> = Vec::new();
        params.push(dummy);
        assert(params_view(&params) == seq![seq![DUMMY]]);
        self.exchange(CmdCode::GetMACAddress, &params, 1, MAC_LEN)
    }

    /// What the driver needs done next.
    pub fn pending(&self) -> (action: Action)
        ensures
            action == self@.pending(),
    {
        match self.phase {
            Phase::Booting(step) => Action::Control(step.control()),
            Phase::Polling(_) => Action::SampleReady,
            Phase::Sleeping(_) => Action::Control(ControlStep::DelayMs(READY_POLL_INTERVAL_MS)),
            Phase::Sending => Action::Write,
            Phase::Receiving => Action::Transfer(self.decoder.wanted()),
            Phase::Settled(status) => Action::Complete(status),
        }
    }

    /// Takes what came of the action that the driver asked for, and gives
    /// the action that it needs done next.
    pub fn step(&mut self, event: Event) -> (action: Action)
        ensures
            final(self)@ == old(self)@.step(event@),
            action == final(self)@.pending(),
    {
        match self.phase {
            Phase::Booting(step) => {
                match event {
                    Event::Performed => {
                        match step.next() {
                            Some(next) => {
                                self.phase = Phase::Booting(next);
                            },
                            None => {
                                self.phase = Phase::Settled(Status::Booted);
                            },
                        }
                    },
                    _ => {},
                }
            },
            Phase::Polling(turn) => {
                match event {
                    Event::Ready(high) => {
                        if high {
                            self.phase = turn.phase();
                        } else {
                            self.phase = Phase::Sleeping(turn);
                        }
                    },
                    _ => {},
                }
            },
            Phase::Sleeping(turn) => {
                match event {
                    Event::Performed => {
                        if self.poll_limit == 0 || self.polls >= self.poll_limit - 1 {
                            self.phase = Phase::Settled(
                                Status::Failed(DriverError::ModuleUnresponsive),
                            );
                        } else {
                            self.polls = self.polls + 1;
                            self.phase = Phase::Polling(turn);
                        }
                    },
                    _ => {},
                }
            },
            Phase::Sending => {
                match event {
                    Event::Performed => {
                        self.await_ready(Turn::Receive);
                    },
                    Event::TransportFailed => {
                        self.phase = Phase::Settled(Status::Failed(DriverError::Transport));
                    },
                    _ => {},
                }
            },
            Phase::Receiving => {
                match event {
                    Event::Received(bytes) => {
                        match self.decoder.receive_reply(bytes.as_slice()) {
                            Stage::Done => {
                                self.phase = Phase::Settled(Status::Replied);
                            },
                            Stage::Failed(error) => {
                                self.phase = Phase::Settled(Status::Failed(error));
                            },
                            _ => {},
                        }
                    },
                    Event::TransportFailed => {
                        self.phase = Phase::Settled(Status::Failed(DriverError::Transport));
                    },
                    _ => {},
                }
            },
            Phase::Settled(_) => {},
        }
        self.pending()
    }

    /// Where the driver stands.
    pub fn phase(&self) -> (phase: Phase)
        ensures
            phase == self@.phase,
    {
        self.phase
    }

    /// The command frame of the exchange: what is to be written when the
    /// driver asks for `Action::Write`.
    pub fn outgoing(&self) -> (frame: &Vec<u8>)
        ensures
            frame@ == self@.frame,
    {
        &self.frame
    }

    /// The payload bytes of the reply that the driver holds: the whole
    /// payload once it has settled as `Replied`.
    pub fn reply(&self) -> (payload: &Vec<u8>)
        ensures
            payload@ == self@.decoder.payload,
    {
        self.decoder.payload()
    }

    /// The MAC address that the module gave: the payload of the reply where
    /// the driver has settled as `Replied` with six bytes, else `None`.
    pub fn mac_address(&self) -> (mac: Option<[u8; 6]>)
        ensures
            match mac {
                Some(address) => {
                    &&& self@.phase == Phase::Settled(Status::Replied)
                    &&& address@ == self@.decoder.payload
                },
                None => {
                    ||| self@.phase != Phase::Settled(Status::Replied)
                    ||| self@.decoder.payload.len() != MAC_LEN
                },
            },
    {
        let payload = self.decoder.payload();
        if self.phase == Phase::Settled(Status::Replied) && payload.len() == MAC_LEN as usize {
            let address: [u8; 6] = [
                payload[0],
                payload[1],
                payload[2],
                payload[3],
                payload[4],
                payload[5],
            ];
            assert(address@ =~= payload@);
            Some(address)
        } else {
            None
        }
    }
}

/// The state after one more event is the state after the events before it,
/// moved by that event.
pub proof fn lemma_run_push(state: WifiState, events: Seq<EventView>, event: EventView)
    ensures
        state.run(events.push(event)) == state.run(events).step(event),
{
    assert(events.push(event).drop_last() == events);
}

/// An event that does not answer the action that the driver needs done
/// leaves the driver as it is: no step is skipped by telling it of something
/// that it did not ask for.
pub proof fn lemma_unanswered(state: WifiState, event: EventView)
    requires
        !state.answers(event),
    ensures
        state.step(event) == state,
{
}

/// Reset timing: from wherever the driver stands, `reset` has it ask for
/// boot mode high, then chip select high, then reset low, then a delay of
/// ten milliseconds, then reset high, then a delay of 750 milliseconds, each
/// once the one before was performed, and then settle as booted.
pub proof fn lemma_reset_timing(state: WifiState)
    ensures
        state.reset().actions(Seq::new(6, |i: int| EventView::Performed)) == boot_plan().map_values(
            |step: ControlStep| Action::Control(step),
        ).push(Action::Complete(Status::Booted)),
        state.reset().run(Seq::new(6, |i: int| EventView::Performed)) == (WifiState {
            phase: Phase::Settled(Status::Booted),
            ..state
        }),
{
    let events = Seq::new(6, |i: int| EventView::Performed);
    let begun = state.reset();
    let e0 = Seq::<EventView>::empty();
    let e1 = e0.push(EventView::Performed);
    let e2 = e1.push(EventView::Performed);
    let e3 = e2.push(EventView::Performed);
    let e4 = e3.push(EventView::Performed);
    let e5 = e4.push(EventView::Performed);
    let e6 = e5.push(EventView::Performed);
    assert(events.take(0) == e0);
    assert(events.take(1) == e1);
    assert(events.take(2) == e2);
    assert(events.take(3) == e3);
    assert(events.take(4) == e4);
    assert(events.take(5) == e5);
    assert(events.take(6) == e6);
    assert(events == e6);
    lemma_run_push(begun, e0, EventView::Performed);
    lemma_run_push(begun, e1, EventView::Performed);
    lemma_run_push(begun, e2, EventView::Performed);
    lemma_run_push(begun, e3, EventView::Performed);
    lemma_run_push(begun, e4, EventView::Performed);
    lemma_run_push(begun, e5, EventView::Performed);
    let plan = boot_plan().map_values(|step: ControlStep| Action::Control(step)).push(
        Action::Complete(Status::Booted),
    );
    let asked = begun.actions(events);
    assert(asked.len() == plan.len());
    assert forall|i: int| 0 <= i < asked.len() implies asked[i] == plan[i] by {
        assert(asked[i] == begun.run(events.take(i)).pending());
    }
    assert(asked == plan);
}

/// The events of a ready line that is found low `rounds` times: each look
/// finds it low, and the sleep that follows is performed.
pub open spec fn unready(rounds: nat) -> Seq<EventView>
    decreases rounds,
{
    if rounds == 0 {
        Seq::empty()
    } else {
        unready((rounds - 1) as nat).push(EventView::Ready(false)).push(EventView::Performed)
    }
}

/// Ready at once: a handshake that finds the ready line high goes on to
/// what it was waiting for with that very look, however often it found the
/// line low before.
pub proof fn lemma_ready_at_once(state: WifiState, turn: Turn)
    requires
        state.phase == Phase::Polling(turn),
    ensures
        state.step(EventView::Ready(true)) == (WifiState { phase: turn.phase_spec(), ..state }),
        turn == Turn::Send ==> state.step(EventView::Ready(true)).pending() == Action::Write,
        turn == Turn::Receive ==> state.step(EventView::Ready(true)).pending() is Transfer,
        turn == Turn::Rest ==> state.step(EventView::Ready(true)).pending() == Action::Complete(
            Status::Ready,
        ),
{
}

/// Ready timeout: a handshake whose ready line never goes high looks at it
/// exactly `poll_limit` times, with a sleep of one millisecond after each
/// look. After fewer rounds it is about to look again; after `poll_limit`
/// rounds it has given the module up as unresponsive.
pub proof fn lemma_ready_timeout(state: WifiState, turn: Turn, rounds: nat)
    requires
        rounds <= state.poll_limit,
    ensures
        ({
            let after = state.await_ready(turn).run(unready(rounds));
            &&& rounds < state.poll_limit ==> after == (WifiState {
                phase: Phase::Polling(turn),
                polls: rounds as u32,
                ..state
            })
            &&& rounds < state.poll_limit ==> after.pending() == Action::SampleReady
            &&& rounds < state.poll_limit ==> after.step(EventView::Ready(false)).pending()
                == Action::Control(ControlStep::DelayMs(READY_POLL_INTERVAL_MS))
            &&& rounds == state.poll_limit ==> after.phase == Phase::Settled(
                Status::Failed(DriverError::ModuleUnresponsive),
            )
        }),
    decreases rounds,
{
    let waiting = state.await_ready(turn);
    if rounds > 0 {
        let before = unready((rounds - 1) as nat);
        lemma_ready_timeout(state, turn, (rounds - 1) as nat);
        lemma_run_push(waiting, before, EventView::Ready(false));
        lemma_run_push(waiting, before.push(EventView::Ready(false)), EventView::Performed);
    }
}

/// The pieces in which a reply comes in do not matter: two transfers, one
/// after the other, leave the driver where one transfer that brings the bytes
/// of both leaves it.
pub proof fn lemma_received_in_pieces(state: WifiState, front: Seq<u8>, back: Seq<u8>)
    requires
        state.phase == Phase::Receiving,
    ensures
        state.step(EventView::Received(front)).step(EventView::Received(back)) == state.step(
            EventView::Received(front + back),
        ),
{
    crate::reply::lemma_feed_concat(state.decoder, front, back);
    if state.decoder.feed(front).stage.finished_spec() {
        crate::reply::lemma_finished_absorbs(state.decoder.feed(front), back);
    }
}

/// The pattern of every command: once an exchange has begun, the driver
/// looks at the ready line, writes the command frame when it is high, looks
/// at the ready line again, and clocks the reply in when it is high. Where
/// the bytes that come in hold a reply of the expected shape behind any
/// bytes that are no opening sentinel, the driver settles as replied and
/// holds the payload of that reply.
pub proof fn lemma_exchange_pattern(
    state: WifiState,
    cmd: CmdCode,
    params: Seq<Seq<u8>>,
    reply_params: u8,
    noise: Seq<u8>,
    payload: Seq<u8>,
)
    requires
        state.poll_limit > 0,
        !noise.contains(crate::command::START_CMD),
        payload.len() <= u8::MAX,
    ensures
        ({
            let frame = command_bytes(cmd, params.len() as u8, params);
            let begun = state.exchange(
                frame,
                reply_shape(cmd, reply_params, payload.len() as u8),
            );
            let events = seq![
                EventView::Ready(true),
                EventView::Performed,
                EventView::Ready(true),
                EventView::Received(
                    noise + crate::frame::reply_bytes(cmd, reply_params, seq![payload]),
                ),
            ];
            &&& begun.actions(events) == seq![
                Action::SampleReady,
                Action::Write,
                Action::SampleReady,
                Action::Transfer(crate::reply::read_byte_spec()),
                Action::Complete(Status::Replied),
            ]
            &&& begun.run(events.take(1)).frame == frame
            &&& begun.run(events).decoder.payload == payload
        }),
{
    let shape = reply_shape(cmd, reply_params, payload.len() as u8);
    let frame = command_bytes(cmd, params.len() as u8, params);
    let begun = state.exchange(frame, shape);
    let stream = noise + crate::frame::reply_bytes(cmd, reply_params, seq![payload]);
    let events = seq![
        EventView::Ready(true),
        EventView::Performed,
        EventView::Ready(true),
        EventView::Received(stream),
    ];
    let e0 = Seq::<EventView>::empty();
    let e1 = e0.push(EventView::Ready(true));
    let e2 = e1.push(EventView::Performed);
    let e3 = e2.push(EventView::Ready(true));
    let e4 = e3.push(EventView::Received(stream));
    assert(events.take(0) == e0);
    assert(events.take(1) == e1);
    assert(events.take(2) == e2);
    assert(events.take(3) == e3);
    assert(events.take(4) == e4);
    assert(events == e4);
    lemma_run_push(begun, e0, EventView::Ready(true));
    lemma_run_push(begun, e1, EventView::Performed);
    lemma_run_push(begun, e2, EventView::Ready(true));
    lemma_run_push(begun, e3, EventView::Received(stream));
    crate::reply::lemma_resynchronization(noise, cmd, reply_params, payload);
    let asked = begun.actions(events);
    let pattern = seq![
        Action::SampleReady,
        Action::Write,
        Action::SampleReady,
        Action::Transfer(crate::reply::read_byte_spec()),
        Action::Complete(Status::Replied),
    ];
    assert forall|i: int| 0 <= i < asked.len() implies asked[i] == pattern[i] by {
        assert(asked[i] == begun.run(events.take(i)).pending());
    }
    assert(asked == pattern);
}

} // verus!

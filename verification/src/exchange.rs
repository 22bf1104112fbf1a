//! One exchange with the module, as a machine of a few phases.
//!
//! The module is asked by writing a command to the serial line, is given time
//! to sample and format, and is then read. This library touches no serial
//! line. It says what is to be done next, as an [`Action`], and is told what
//! came of it, as an [`Event`]: the caller owns the line and the clock. An
//! exchange is a write, a wait and a read, in that order; the first failure
//! ends it, and nothing is tried again.
use crate::command::{encode, encode_spec, frame, MAX_ADDR, MAX_CHAN};
use crate::error::Error;
use crate::reading::Reading;
use crate::reply::{decode, decode_chan, decode_chan_spec, decode_spec, texts, CHANNELS};
use vstd::prelude::*;

verus! {

/// The milliseconds that the module is given to sample and format all
/// sixteen channels.
pub const SETTLE_ALL_MS: u64 = 2000;

/// The milliseconds that the module is given to sample and format one
/// channel.
pub const SETTLE_ONE_MS: u64 = 100;

/// The number of bytes that one read asks the line for at most.
pub const READ_CAPACITY: usize = 1024;

/// What the module is asked for.
#[derive(Clone, Copy, Debug, PartialEq, Eq, Structural)]
pub enum Request {
    /// The values of all sixteen channels.
    All,
    /// The value of one channel.
    Chan(u8),
}

impl Request {
    /// The channel that the command names, if it names one.
    pub open spec fn selector(self) -> Option<u8> {
        match self {
            Request::All => None,
            Request::Chan(chan) => Some(chan),
        }
    }

    /// The milliseconds to wait between the write and the read.
    pub open spec fn settle_millis(self) -> u64 {
        match self {
            Request::All => SETTLE_ALL_MS,
            Request::Chan(_) => SETTLE_ONE_MS,
        }
    }
}

/// How far an exchange has come.
#[derive(Clone, Copy, Debug, PartialEq, Eq, Structural)]
pub enum Phase {
    /// No exchange is under way.
    Idle,
    /// The command has been handed out and is being written.
    Sending(Request),
    /// The command is written and the module is given its time.
    Settling(Request),
    /// The time is over and the reply is being read.
    Receiving(Request),
}

/// What came of the last action.
#[derive(Debug, PartialEq, Eq)]
pub enum Event {
    /// The command was written.
    Written,
    /// The write failed.
    WriteFailed,
    /// The wait is over.
    Elapsed,
    /// The read gave these bytes.
    Received(Vec<u8>),
    /// The read failed.
    ReadFailed,
}

/// An [`Event`] as contracts see it: the same, with the bytes as a sequence.
pub enum EventView {
    /// The command was written.
    Written,
    /// The write failed.
    WriteFailed,
    /// The wait is over.
    Elapsed,
    /// The read gave these bytes.
    Received(Seq<u8>),
    /// The read failed.
    ReadFailed,
}

impl View for Event {
    type V = EventView;

    open spec fn view(&self) -> EventView {
        match *self {
            Event::Written => EventView::Written,
            Event::WriteFailed => EventView::WriteFailed,
            Event::Elapsed => EventView::Elapsed,
            Event::Received(bytes) => EventView::Received(bytes@),
            Event::ReadFailed => EventView::ReadFailed,
        }
    }
}

/// What the module answered.
#[derive(Clone, Copy, Debug, PartialEq, Eq)]
pub enum Reply {
    /// The readings of all sixteen channels, the one of channel `i` at
    /// index `i`.
    All([Reading; CHANNELS]),
    /// The reading of the one channel that was asked for.
    Chan(Reading),
}

/// A [`Reply`] as contracts see it: the text of each reading.
pub enum ReplyView {
    /// The texts of the sixteen readings, in the order of the channels.
    All(Seq<Seq<u8>>),
    /// The text of the one reading.
    Chan(Seq<u8>),
}

impl View for Reply {
    type V = ReplyView;

    open spec fn view(&self) -> ReplyView {
        match *self {
            Reply::All(readings) => ReplyView::All(texts(readings)),
            Reply::Chan(reading) => ReplyView::Chan(reading@),
        }
    }
}

/// What the caller is to do next.
#[derive(Debug, PartialEq, Eq)]
pub enum Action {
    /// Write these bytes to the line.
    Write(Vec<u8>),
    /// Wait this many milliseconds.
    Wait(u64),
    /// Read from the line, this many bytes at most.
    Read(usize),
    /// The exchange is over, and this is what came of it.
    Done(Result<Reply, Error>),
}

/// An [`Action`] as contracts see it: the same, over sequences of bytes.
pub enum ActionView {
    /// Write these bytes to the line.
    Write(Seq<u8>),
    /// Wait this many milliseconds.
    Wait(u64),
    /// Read from the line, this many bytes at most.
    Read(usize),
    /// The exchange is over, and this is what came of it.
    Done(Result<ReplyView, Error>),
}

impl View for Action {
    type V = ActionView;

    open spec fn view(&self) -> ActionView {
        match *self {
            Action::Write(bytes) => ActionView::Write(bytes@),
            Action::Wait(millis) => ActionView::Wait(millis),
            Action::Read(capacity) => ActionView::Read(capacity),
            Action::Done(Ok(reply)) => ActionView::Done(Ok(reply@)),
            Action::Done(Err(e)) => ActionView::Done(Err(e)),
        }
    }
}

/// What the bytes that were read mean as the answer to `request`.
pub open spec fn outcome(request: Request, bytes: Seq<u8>) -> Result<ReplyView, Error> {
    match request {
        Request::All => match decode_spec(bytes) {
            Ok(fields) => Ok(ReplyView::All(fields)),
            Err(e) => Err(e),
        },
        Request::Chan(_) => match decode_chan_spec(bytes) {
            Ok(text) => Ok(ReplyView::Chan(text)),
            Err(e) => Err(e),
        },
    }
}

/// How an exchange with the module at `addr` begins: with the write of the
/// command, or, where channel or address is out of range, with its end
/// before anything is written.
pub open spec fn begin(addr: u8, request: Request) -> (Phase, ActionView) {
    match encode_spec(addr, request.selector()) {
        Ok(frame) => (Phase::Sending(request), ActionView::Write(frame)),
        Err(e) => (Phase::Idle, ActionView::Done(Err(e))),
    }
}

/// How an exchange goes on: the phase and the action that follow on `event`
/// in `phase`, or `None` where that event has no place in that phase.
pub open spec fn after(phase: Phase, event: EventView) -> Option<(Phase, ActionView)> {
    match (phase, event) {
        (Phase::Sending(request), EventView::Written) => Some(
            (Phase::Settling(request), ActionView::Wait(request.settle_millis())),
        ),
        (Phase::Sending(_), EventView::WriteFailed) => Some(
            (Phase::Idle, ActionView::Done(Err(Error::IoError))),
        ),
        (Phase::Settling(request), EventView::Elapsed) => Some(
            (Phase::Receiving(request), ActionView::Read(READ_CAPACITY)),
        ),
        (Phase::Receiving(request), EventView::Received(bytes)) => Some(
            (Phase::Idle, ActionView::Done(outcome(request, bytes))),
        ),
        (Phase::Receiving(_), EventView::ReadFailed) => Some(
            (Phase::Idle, ActionView::Done(Err(Error::IoError))),
        ),
        _ => None,
    }
}

/// What a run of events draws from an exchange that is in `phase`: the phase
/// it is left in, and the actions that were asked for, in their order. An
/// event that has no place where it comes draws nothing.
pub open spec fn drawn(phase: Phase, events: Seq<EventView>) -> (Phase, Seq<ActionView>)
    decreases events.len(),
{
    if events.len() == 0 {
        (phase, Seq::empty())
    } else {
        let (reached, actions) = drawn(phase, events.drop_last());
        match after(reached, events.last()) {
            Some((next, action)) => (next, actions.push(action)),
            None => (reached, actions),
        }
    }
}

/// Event `i` of `events` is a read, and `action` is the end of an exchange
/// for `request` with what the bytes of that read decode to.
pub open spec fn read_at(
    request: Request,
    events: Seq<EventView>,
    i: int,
    action: ActionView,
) -> bool {
    &&& 0 <= i < events.len()
    &&& events[i] is Received
    &&& action == ActionView::Done(outcome(request, events[i]->Received_0))
}

/// The shapes that an exchange for `request` can have after its command was
/// handed out: the actions that `events` have drawn from it so far, and the
/// phase that it is in.
pub open spec fn in_shape(
    request: Request,
    events: Seq<EventView>,
    phase: Phase,
    actions: Seq<ActionView>,
) -> bool {
    let wait = ActionView::Wait(request.settle_millis());
    let read = ActionView::Read(READ_CAPACITY);
    let failed = ActionView::Done(Err(Error::IoError));
    ||| phase == Phase::Sending(request) && actions.len() == 0
    ||| phase == Phase::Idle && actions.len() == 1 && actions[0] == failed
    ||| phase == Phase::Settling(request) && actions.len() == 1 && actions[0] == wait
    ||| phase == Phase::Receiving(request) && actions.len() == 2 && actions[0] == wait
        && actions[1] == read
    ||| phase == Phase::Idle && actions.len() == 3 && actions[0] == wait && actions[1] == read && (
    actions[2] == failed || exists|i: int| read_at(request, events, i, actions[2]))
}

/// The protocol side of one module on the line: its address, and how far
/// the exchange under way has come.
///
/// Nothing is kept from one exchange to the next but the address. While an
/// exchange is under way, its address and its channel are in range: they
/// were looked at before the first byte was handed out.
#[derive(Debug, PartialEq, Eq)]
pub struct Ad {
    addr: u8,
    phase: Phase,
}

/// An [`Ad`] as contracts see it.
pub struct AdView {
    /// The address of the module.
    pub addr: u8,
    /// How far the exchange under way has come.
    pub phase: Phase,
}

impl AdView {
    /// While an exchange is under way, its address and its channel are in
    /// range.
    pub open spec fn in_range(self) -> bool {
        match self.phase {
            Phase::Idle => true,
            Phase::Sending(request) | Phase::Settling(request) | Phase::Receiving(request) => {
                encode_spec(self.addr, request.selector()) is Ok
            },
        }
    }
}

impl View for Ad {
    type V = AdView;

    closed spec fn view(&self) -> AdView {
        AdView { addr: self.addr, phase: self.phase }
    }
}

impl Ad {
    #[verifier::type_invariant]
    spec fn checked_before_sent(self) -> bool {
        self@.in_range()
    }

    /// The protocol side of the module at `addr`, with no exchange under
    /// way. The address is looked at when a command is encoded, not here.
    pub fn new(addr: u8) -> (ad: Ad)
        ensures
            ad@ == (AdView { addr, phase: Phase::Idle }),
    {
        Ad { addr, phase: Phase::Idle }
    }

    /// The address of the module.
    pub fn addr(&self) -> (addr: u8)
        ensures
            addr == self@.addr,
    {
        self.addr
    }

    /// How far the exchange under way has come.
    pub fn phase(&self) -> (phase: Phase)
        ensures
            phase == self@.phase,
            self@.in_range(),
    {
        proof {
            use_type_invariant(self);
        }
        self.phase
    }

    /// Begins an exchange for `request`.
    ///
    /// While an exchange is under way none can begin: the answer is `None`
    /// and nothing changes. Otherwise the answer is the first action: the
    /// write of the command, or, where channel or address is out of range,
    /// the end of the exchange with that error, before anything is written.
    pub fn request(&mut self, request: Request) -> (r: Option<Action>)
        ensures
            final(self)@.addr == old(self)@.addr,
            old(self)@.phase != Phase::Idle ==> r is None && final(self)@ == old(self)@,
            old(self)@.phase == Phase::Idle ==> r is Some && (final(self)@.phase, r->0@) == begin(
                old(self)@.addr,
                request,
            ),
    {
        match self.phase {
            Phase::Idle => {},
            _ => {
                return None;
            },
        }
        let selector = match request {
            Request::All => None,
            Request::Chan(chan) => Some(chan),
        };
        match encode(self.addr, selector) {
            Ok(frame) => {
                self.phase = Phase::Sending(request);
                Some(Action::Write(frame))
            },
            Err(e) => Some(Action::Done(Err(e))),
        }
    }

    /// Begins a read of all sixteen channels: [`Ad::request`] for
    /// [`Request::All`].
    pub fn get_all(&mut self) -> (r: Option<Action>)
        ensures
            final(self)@.addr == old(self)@.addr,
            old(self)@.phase != Phase::Idle ==> r is None && final(self)@ == old(self)@,
            old(self)@.phase == Phase::Idle ==> r is Some && (final(self)@.phase, r->0@) == begin(
                old(self)@.addr,
                Request::All,
            ),
    {
        self.request(Request::All)
    }

    /// Begins a read of channel `chan`: [`Ad::request`] for
    /// [`Request::Chan`]. A channel above 15 ends the exchange with
    /// `ChanError` before anything is written.
    pub fn get_chan(&mut self, chan: u8) -> (r: Option<Action>)
        ensures
            final(self)@.addr == old(self)@.addr,
            old(self)@.phase != Phase::Idle ==> r is None && final(self)@ == old(self)@,
            old(self)@.phase == Phase::Idle ==> r is Some && (final(self)@.phase, r->0@) == begin(
                old(self)@.addr,
                Request::Chan(chan),
            ),
    {
        self.request(Request::Chan(chan))
    }

    /// Takes what came of the last action and says what to do next.
    ///
    /// An event that has no place in the present phase is answered with
    /// `None`, and nothing changes. Otherwise the exchange goes on as
    /// [`after`] says: a write is followed by the wait, the wait by the
    /// read, and the read by the end of the exchange with the decoded reply;
    /// a failed write or read ends the exchange with `IoError`.
    pub fn handle(&mut self, event: Event) -> (r: Option<Action>)
        ensures
            final(self)@.addr == old(self)@.addr,
            match after(old(self)@.phase, event@) {
                Some((phase, action)) => final(self)@.phase == phase && r is Some && r->0@
                    == action,
                None => final(self)@ == old(self)@ && r is None,
            },
    {
        proof {
            use_type_invariant(&*self);
        }
        match (self.phase, event) {
            (Phase::Sending(request), Event::Written) => {
                let millis = match request {
                    Request::All => SETTLE_ALL_MS,
                    Request::Chan(_) => SETTLE_ONE_MS,
                };
                self.phase = Phase::Settling(request);
                Some(Action::Wait(millis))
            },
            (Phase::Sending(_), Event::WriteFailed) => {
                self.phase = Phase::Idle;
                Some(Action::Done(Err(Error::IoError)))
            },
            (Phase::Settling(request), Event::Elapsed) => {
                self.phase = Phase::Receiving(request);
                Some(Action::Read(READ_CAPACITY))
            },
            (Phase::Receiving(request), Event::Received(bytes)) => {
                self.phase = Phase::Idle;
                Some(Action::Done(answer(request, bytes.as_slice())))
            },
            (Phase::Receiving(_), Event::ReadFailed) => {
                self.phase = Phase::Idle;
                Some(Action::Done(Err(Error::IoError)))
            },
            _ => None,
        }
    }
}

/// Decodes the bytes that were read as the answer to `request`.
pub fn answer(request: Request, bytes: &[u8]) -> (r: Result<Reply, Error>)
    ensures
        match r {
            Ok(reply) => outcome(request, bytes@) == Ok::<ReplyView, Error>(reply@),
            Err(e) => outcome(request, bytes@) == Err::<ReplyView, Error>(e),
        },
{
    match request {
        Request::All => match decode(bytes) {
            Ok(readings) => Ok(Reply::All(readings)),
            Err(e) => Err(e),
        },
        Request::Chan(_) => match decode_chan(bytes) {
            Ok(reading) => Ok(Reply::Chan(reading)),
            Err(e) => Err(e),
        },
    }
}

/// Nothing is written for a channel that is out of range: the exchange is
/// over with `ChanError` as it begins, whatever the address.
pub proof fn lemma_bad_channel_writes_nothing(addr: u8, chan: u8)
    requires
        chan > MAX_CHAN,
    ensures
        begin(addr, Request::Chan(chan)) == (
            Phase::Idle,
            ActionView::Done(Err(Error::ChanError)),
        ),
{
}

/// Nothing is written for an address that is out of range: the exchange is
/// over as it begins with an error that says so, whatever is asked for; a
/// read of all channels with `AddrError`.
pub proof fn lemma_bad_address_writes_nothing(addr: u8, request: Request)
    requires
        addr > MAX_ADDR,
    ensures
        begin(addr, request).0 == Phase::Idle,
        begin(addr, request).1 matches ActionView::Done(Err(e)) && e.is_range(),
        begin(addr, Request::All) == (Phase::Idle, ActionView::Done(Err(Error::AddrError))),
{
}

/// An exchange whose channel and address are in range is the write of the
/// command, the wait that the request calls for, one read, and then the end
/// with what the bytes decode to, in that order; after it no exchange is
/// under way.
pub proof fn lemma_exchange_in_order(addr: u8, request: Request, bytes: Seq<u8>)
    requires
        addr <= MAX_ADDR,
        request matches Request::Chan(chan) ==> chan <= MAX_CHAN,
    ensures
        begin(addr, request) == (
            Phase::Sending(request),
            ActionView::Write(frame(addr, request.selector())),
        ),
        drawn(
            Phase::Sending(request),
            seq![EventView::Written, EventView::Elapsed, EventView::Received(bytes)],
        ) == (
            Phase::Idle,
            seq![
                ActionView::Wait(request.settle_millis()),
                ActionView::Read(READ_CAPACITY),
                ActionView::Done(outcome(request, bytes)),
            ],
        ),
{
    reveal_with_fuel(drawn, 4);
    let events = seq![EventView::Written, EventView::Elapsed, EventView::Received(bytes)];
    assert(drawn(Phase::Sending(request), events).1 =~= seq![
        ActionView::Wait(request.settle_millis()),
        ActionView::Read(READ_CAPACITY),
        ActionView::Done(outcome(request, bytes)),
    ]);
}

/// Whatever events come, in turn or out of turn, an exchange asks for its
/// steps in one order and for each of them once: after the write the wait,
/// after the wait the read, and then its end. A failed write ends it before
/// the wait. The end is `IoError` or what the bytes of one read decode to,
/// and after it nothing more is asked for.
pub proof fn lemma_exchange_shape(request: Request, events: Seq<EventView>)
    ensures
        in_shape(
            request,
            events,
            drawn(Phase::Sending(request), events).0,
            drawn(Phase::Sending(request), events).1,
        ),
    decreases events.len(),
{
    if events.len() > 0 {
        let before = events.drop_last();
        lemma_exchange_shape(request, before);
        let (phase, actions) = drawn(Phase::Sending(request), before);
        let all = drawn(Phase::Sending(request), events).1;
        if after(phase, events.last()) is Some {
            if phase == Phase::Receiving(request) && events.last() is Received {
                assert(read_at(request, events, events.len() - 1, all[2]));
            }
        } else if actions.len() == 3 && actions[2] != ActionView::Done(Err(Error::IoError)) {
            let i = choose|i: int| read_at(request, before, i, actions[2]);
            assert(read_at(request, events, i, all[2]));
        }
    }
}

} // verus!

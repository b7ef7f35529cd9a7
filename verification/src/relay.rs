//! The decisions of a relayed connection. Each turn of the relay loop
//! takes four steps in a fixed order: fill the buffer bound upstream from
//! the client, drain it into the upstream server, fill the buffer bound
//! downstream from the upstream server, drain it into the client. The
//! caller performs the step's stream operation and reports what happened;
//! the relay updates its buffers and says whether a stream is to be shut
//! down.
use vstd::prelude::*;
use crate::ioringbuffer::{Ioribnbuffer, RingState};

verus! {

/// One of the two connections of a relay.
#[derive(Debug, Clone, Copy, PartialEq, Eq, Structural)]
pub enum Side {
    /// The connection to the upstream server.
    Upstream,
    /// The connection to the client.
    Downstream,
}

/// A step of the relay loop.
#[derive(Debug, Clone, Copy, PartialEq, Eq, Structural)]
pub enum RelayStep {
    /// Read from the client into the buffer bound upstream.
    FillToUpstream,
    /// Write the buffer bound upstream to the upstream server.
    DrainToUpstream,
    /// Read from the upstream server into the buffer bound downstream.
    FillToDownstream,
    /// Write the buffer bound downstream to the client.
    DrainToDownstream,
}

/// The step that follows `s`.
pub open spec fn step_after(s: RelayStep) -> RelayStep {
    match s {
        RelayStep::FillToUpstream => RelayStep::DrainToUpstream,
        RelayStep::DrainToUpstream => RelayStep::FillToDownstream,
        RelayStep::FillToDownstream => RelayStep::DrainToDownstream,
        RelayStep::DrainToDownstream => RelayStep::FillToUpstream,
    }
}

/// The connection that step `s` reads from or writes to.
pub open spec fn stream_of(s: RelayStep) -> Side {
    match s {
        RelayStep::FillToUpstream => Side::Downstream,
        RelayStep::DrainToUpstream => Side::Upstream,
        RelayStep::FillToDownstream => Side::Upstream,
        RelayStep::DrainToDownstream => Side::Downstream,
    }
}

/// Step `s` reads from a connection into a buffer.
pub open spec fn is_fill(s: RelayStep) -> bool {
    s == RelayStep::FillToUpstream || s == RelayStep::FillToDownstream
}

/// Step `s` works on the buffer bound upstream.
pub open spec fn uses_upstream_buffer(s: RelayStep) -> bool {
    s == RelayStep::FillToUpstream || s == RelayStep::DrainToUpstream
}

impl RelayStep {
    pub fn next(&self) -> (s: RelayStep)
        ensures
            s == step_after(*self),
    {
        match self {
            RelayStep::FillToUpstream => RelayStep::DrainToUpstream,
            RelayStep::DrainToUpstream => RelayStep::FillToDownstream,
            RelayStep::FillToDownstream => RelayStep::DrainToDownstream,
            RelayStep::DrainToDownstream => RelayStep::FillToUpstream,
        }
    }

    pub fn stream(&self) -> (side: Side)
        ensures
            side == stream_of(*self),
    {
        match self {
            RelayStep::FillToUpstream => Side::Downstream,
            RelayStep::DrainToUpstream => Side::Upstream,
            RelayStep::FillToDownstream => Side::Upstream,
            RelayStep::DrainToDownstream => Side::Downstream,
        }
    }

    pub fn is_fill(&self) -> (b: bool)
        ensures
            b == is_fill(*self),
    {
        match self {
            RelayStep::FillToUpstream => true,
            RelayStep::FillToDownstream => true,
            _ => false,
        }
    }
}

/// The steps cycle with period four. Fill and drain steps alternate, each
/// fill is followed at once by the drain of the same buffer into the other
/// connection, and the two fills read from different connections.
pub proof fn lemma_step_cycle(s: RelayStep)
    ensures
        step_after(step_after(step_after(step_after(s)))) == s,
        s != step_after(s),
        s != step_after(step_after(s)),
        s != step_after(step_after(step_after(s))),
        is_fill(s) != is_fill(step_after(s)),
        is_fill(s) ==> uses_upstream_buffer(step_after(s)) == uses_upstream_buffer(s),
        is_fill(s) ==> stream_of(step_after(s)) != stream_of(s),
        stream_of(step_after(step_after(s))) != stream_of(s),
{
}

/// What the stream operation of a step came to.
#[derive(Debug)]
pub enum RelayEvent {
    /// A fill step read these bytes.
    Received(Vec<u8>),
    /// A drain step's connection took this many bytes.
    Sent(usize),
    /// The connection had nothing ready, or no room.
    WouldBlock,
    /// The connection failed.
    Failed,
}

/// What the caller does after a step.
#[derive(Debug, Clone, Copy, PartialEq, Eq, Structural)]
pub enum RelayAction {
    Continue,
    /// Shut both directions of this connection down.
    Shutdown(Side),
}

/// A relayed connection as mathematical values: its two buffers and the
/// step due.
pub struct RelayModel {
    /// The buffer of bytes read from the client, bound for the upstream
    /// server.
    pub upstream_bound: RingState,
    /// The buffer of bytes read from the upstream server, bound for the
    /// client.
    pub downstream_bound: RingState,
    pub due: RelayStep,
}

/// The buffer the step due works on.
pub open spec fn model_due_buffer(m: RelayModel) -> RingState {
    if uses_upstream_buffer(m.due) {
        m.upstream_bound
    } else {
        m.downstream_bound
    }
}

/// The event is one the step due can report (see `Relay::fits`).
pub open spec fn model_fits(m: RelayModel, event: RelayEvent) -> bool {
    match event {
        RelayEvent::Received(data) => is_fill(m.due) && data@.len()
            <= model_due_buffer(m).write_room(),
        RelayEvent::Sent(n) => !is_fill(m.due) && n <= model_due_buffer(m).read_room(),
        _ => true,
    }
}

/// The buffer bound upstream after `event` in step `m.due`.
pub open spec fn upstream_after(m: RelayModel, event: RelayEvent) -> RingState {
    if uses_upstream_buffer(m.due) {
        match event {
            RelayEvent::Received(data) => m.upstream_bound.wrote(data@),
            RelayEvent::Sent(n) => m.upstream_bound.consumed(n as nat),
            _ => m.upstream_bound,
        }
    } else {
        m.upstream_bound
    }
}

/// The buffer bound downstream after `event` in step `m.due`.
pub open spec fn downstream_after(m: RelayModel, event: RelayEvent) -> RingState {
    if uses_upstream_buffer(m.due) {
        m.downstream_bound
    } else {
        match event {
            RelayEvent::Received(data) => m.downstream_bound.wrote(data@),
            RelayEvent::Sent(n) => m.downstream_bound.consumed(n as nat),
            _ => m.downstream_bound,
        }
    }
}

/// The relay after `event` is reported for the step due.
pub open spec fn model_step(m: RelayModel, event: RelayEvent) -> RelayModel {
    RelayModel {
        upstream_bound: upstream_after(m, event),
        downstream_bound: downstream_after(m, event),
        due: step_after(m.due),
    }
}

/// Each event of `events`, reported in turn from `m`, fits its step.
pub open spec fn events_fit(m: RelayModel, events: Seq<RelayEvent>) -> bool
    decreases events.len(),
{
    events.len() == 0 || (model_fits(m, events[0]) && events_fit(
        model_step(m, events[0]),
        events.drop_first(),
    ))
}

/// The relay after all of `events`, in turn.
pub open spec fn run_events(m: RelayModel, events: Seq<RelayEvent>) -> RelayModel
    decreases events.len(),
{
    if events.len() == 0 {
        m
    } else {
        run_events(model_step(m, events[0]), events.drop_first())
    }
}

/// The bytes read from the connection on `side` in one step.
pub open spec fn read_from(m: RelayModel, event: RelayEvent, side: Side) -> Seq<u8> {
    match event {
        RelayEvent::Received(data) => if stream_of(m.due) == side {
            data@
        } else {
            Seq::empty()
        },
        _ => Seq::empty(),
    }
}

/// The bytes the connection on `side` took in one step.
pub open spec fn written_to(m: RelayModel, event: RelayEvent, side: Side) -> Seq<u8> {
    match event {
        RelayEvent::Sent(n) => if stream_of(m.due) == side {
            model_due_buffer(m).read_window().take(n as int)
        } else {
            Seq::empty()
        },
        _ => Seq::empty(),
    }
}

/// All the bytes read from the connection on `side` over `events`.
pub open spec fn all_read_from(m: RelayModel, events: Seq<RelayEvent>, side: Side) -> Seq<u8>
    decreases events.len(),
{
    if events.len() == 0 {
        Seq::empty()
    } else {
        read_from(m, events[0], side) + all_read_from(
            model_step(m, events[0]),
            events.drop_first(),
            side,
        )
    }
}

/// All the bytes the connection on `side` took over `events`.
pub open spec fn all_written_to(m: RelayModel, events: Seq<RelayEvent>, side: Side) -> Seq<u8>
    decreases events.len(),
{
    if events.len() == 0 {
        Seq::empty()
    } else {
        written_to(m, events[0], side) + all_written_to(
            model_step(m, events[0]),
            events.drop_first(),
            side,
        )
    }
}

proof fn lemma_relay_one_step(m: RelayModel, event: RelayEvent)
    requires
        m.upstream_bound.wf(),
        m.downstream_bound.wf(),
        model_fits(m, event),
    ensures
        model_step(m, event).upstream_bound.wf(),
        model_step(m, event).downstream_bound.wf(),
        m.upstream_bound.contents() + read_from(m, event, Side::Downstream) == written_to(
            m,
            event,
            Side::Upstream,
        ) + model_step(m, event).upstream_bound.contents(),
        m.downstream_bound.contents() + read_from(m, event, Side::Upstream) == written_to(
            m,
            event,
            Side::Downstream,
        ) + model_step(m, event).downstream_bound.contents(),
{
    let t = model_step(m, event);
    let b = model_due_buffer(m);
    match event {
        RelayEvent::Received(data) => {
            crate::ioringbuffer::lemma_write_appends(b, data@);
        },
        RelayEvent::Sent(n) => {
            crate::ioringbuffer::lemma_consume_drops_oldest(b, n as nat);
            crate::ioringbuffer::lemma_windows(b);
            assert(b.read_window().take(n as int) =~= b.contents().take(n as int));
            assert(b.contents() =~= b.contents().take(n as int) + b.contents().skip(n as int));
        },
        _ => {},
    }
    assert(m.upstream_bound.contents() + read_from(m, event, Side::Downstream) =~= written_to(
        m,
        event,
        Side::Upstream,
    ) + t.upstream_bound.contents());
    assert(m.downstream_bound.contents() + read_from(m, event, Side::Upstream) =~= written_to(
        m,
        event,
        Side::Downstream,
    ) + t.downstream_bound.contents());
}

/// Over any run of relay steps, nothing is lost, duplicated or reordered in
/// either direction: what the buffer bound upstream held before, followed by
/// everything read from the client, equals everything the upstream server
/// took followed by what that buffer holds after; and the same for the
/// bytes read from the upstream server and taken by the client. From a new
/// relay, each connection has been sent a prefix of what the other sent.
pub proof fn lemma_relay_conserves_bytes(m: RelayModel, events: Seq<RelayEvent>)
    requires
        m.upstream_bound.wf(),
        m.downstream_bound.wf(),
        events_fit(m, events),
    ensures
        run_events(m, events).upstream_bound.wf(),
        run_events(m, events).downstream_bound.wf(),
        m.upstream_bound.contents() + all_read_from(m, events, Side::Downstream) == all_written_to(
            m,
            events,
            Side::Upstream,
        ) + run_events(m, events).upstream_bound.contents(),
        m.downstream_bound.contents() + all_read_from(m, events, Side::Upstream)
            == all_written_to(m, events, Side::Downstream) + run_events(
            m,
            events,
        ).downstream_bound.contents(),
    decreases events.len(),
{
    if events.len() == 0 {
        assert(m.upstream_bound.contents() + all_read_from(m, events, Side::Downstream)
            =~= all_written_to(m, events, Side::Upstream) + run_events(
            m,
            events,
        ).upstream_bound.contents());
        assert(m.downstream_bound.contents() + all_read_from(m, events, Side::Upstream)
            =~= all_written_to(m, events, Side::Downstream) + run_events(
            m,
            events,
        ).downstream_bound.contents());
    } else {
        let e = events[0];
        let rest = events.drop_first();
        let t = model_step(m, e);
        lemma_relay_one_step(m, e);
        lemma_relay_conserves_bytes(t, rest);
        let end = run_events(m, events);
        assert(m.upstream_bound.contents() + all_read_from(m, events, Side::Downstream)
            =~= (m.upstream_bound.contents() + read_from(m, e, Side::Downstream))
            + all_read_from(t, rest, Side::Downstream));
        assert(all_written_to(m, events, Side::Upstream) + end.upstream_bound.contents()
            =~= written_to(m, e, Side::Upstream) + (all_written_to(t, rest, Side::Upstream)
            + end.upstream_bound.contents()));
        assert(m.downstream_bound.contents() + all_read_from(m, events, Side::Upstream)
            =~= (m.downstream_bound.contents() + read_from(m, e, Side::Upstream))
            + all_read_from(t, rest, Side::Upstream));
        assert(all_written_to(m, events, Side::Downstream) + end.downstream_bound.contents()
            =~= written_to(m, e, Side::Downstream) + (all_written_to(t, rest, Side::Downstream)
            + end.downstream_bound.contents()));
    }
}

/// A relayed connection: two buffers of `SIZE` bytes and the step due.
pub struct Relay<const SIZE: usize> {
    to_upstream: Ioribnbuffer<SIZE>,
    to_downstream: Ioribnbuffer<SIZE>,
    step: RelayStep,
}

impl<const SIZE: usize> Relay<SIZE> {
    /// The buffer of bytes bound for the upstream server.
    pub closed spec fn upstream_bound(&self) -> RingState {
        self.to_upstream@
    }

    /// The buffer of bytes bound for the client.
    pub closed spec fn downstream_bound(&self) -> RingState {
        self.to_downstream@
    }

    /// The step due next.
    pub closed spec fn due(&self) -> RelayStep {
        self.step
    }

    /// Both buffers and the step due, as mathematical values.
    pub open spec fn model(&self) -> RelayModel {
        RelayModel {
            upstream_bound: self.upstream_bound(),
            downstream_bound: self.downstream_bound(),
            due: self.due(),
        }
    }

    /// The state of the buffer that step `self.due()` works on.
    pub open spec fn due_buffer(&self) -> RingState {
        if uses_upstream_buffer(self.due()) {
            self.upstream_bound()
        } else {
            self.downstream_bound()
        }
    }

    pub closed spec fn wf(&self) -> bool {
        &&& SIZE > 0
        &&& self.to_upstream.wf()
        &&& self.to_downstream.wf()
    }

    /// Whether `event` is something the due step can report: bytes read
    /// that fit the fill region for a fill step, a count the drain region
    /// holds for a drain step, or a block or failure for either.
    pub open spec fn fits(&self, event: RelayEvent) -> bool {
        model_fits(self.model(), event)
    }

    /// Two empty buffers; the first step fills the buffer bound upstream.
    pub fn new() -> (r: Self)
        requires
            SIZE > 0,
        ensures
            r.wf(),
            r.due() == RelayStep::FillToUpstream,
            r.upstream_bound().contents() == Seq::<u8>::empty(),
            r.downstream_bound().contents() == Seq::<u8>::empty(),
            r.upstream_bound().wf(),
            r.downstream_bound().wf(),
            r.upstream_bound().size == SIZE,
            r.upstream_bound().write_pos == 0,
            r.upstream_bound().read_pos == 0,
            r.downstream_bound().size == SIZE,
            r.downstream_bound().write_pos == 0,
            r.downstream_bound().read_pos == 0,
    {
        Relay {
            to_upstream: Ioribnbuffer::new(),
            to_downstream: Ioribnbuffer::new(),
            step: RelayStep::FillToUpstream,
        }
    }

    /// The step due next.
    pub fn current(&self) -> (s: RelayStep)
        ensures
            s == self.due(),
    {
        self.step
    }

    /// How many bytes a fill step may read.
    pub fn fill_room(&self) -> (n: usize)
        requires
            self.wf(),
        ensures
            n == self.due_buffer().write_room(),
    {
        if uses_upstream(self.step) {
            self.to_upstream.write_capacity()
        } else {
            self.to_downstream.write_capacity()
        }
    }

    /// The bytes a drain step offers its connection.
    pub fn pending(&self) -> (out: Vec<u8>)
        requires
            self.wf(),
        ensures
            out@ == self.due_buffer().read_window(),
    {
        if uses_upstream(self.step) {
            self.to_upstream.readable()
        } else {
            self.to_downstream.readable()
        }
    }

    /// Takes in what the due step's stream operation came to, moves on to
    /// the next step, and says whether to shut a connection down: the one
    /// the step used, exactly when it failed.
    pub fn handle(&mut self, event: RelayEvent) -> (action: RelayAction)
        requires
            old(self).wf(),
            old(self).fits(event),
        ensures
            final(self).wf(),
            final(self).due() == step_after(old(self).due()),
            action == (match event {
                RelayEvent::Failed => RelayAction::Shutdown(stream_of(old(self).due())),
                _ => RelayAction::Continue,
            }),
            final(self).upstream_bound().wf(),
            final(self).downstream_bound().wf(),
            final(self).model() == model_step(old(self).model(), event),
            match event {
                RelayEvent::Received(data) => if uses_upstream_buffer(old(self).due()) {
                    &&& final(self).upstream_bound() == old(self).upstream_bound().wrote(data@)
                    &&& final(self).downstream_bound() == old(self).downstream_bound()
                } else {
                    &&& final(self).downstream_bound() == old(self).downstream_bound().wrote(
                        data@,
                    )
                    &&& final(self).upstream_bound() == old(self).upstream_bound()
                },
                RelayEvent::Sent(n) => if uses_upstream_buffer(old(self).due()) {
                    &&& final(self).upstream_bound() == old(self).upstream_bound().consumed(
                        n as nat,
                    )
                    &&& final(self).downstream_bound() == old(self).downstream_bound()
                } else {
                    &&& final(self).downstream_bound() == old(
                        self,
                    ).downstream_bound().consumed(n as nat)
                    &&& final(self).upstream_bound() == old(self).upstream_bound()
                },
                _ => {
                    &&& final(self).upstream_bound() == old(self).upstream_bound()
                    &&& final(self).downstream_bound() == old(self).downstream_bound()
                },
            },
    {
        let step = self.step;
        let action = match event {
            RelayEvent::Received(data) => {
                if uses_upstream(step) {
                    self.to_upstream.write(data.as_slice());
                } else {
                    self.to_downstream.write(data.as_slice());
                }
                RelayAction::Continue
            },
            RelayEvent::Sent(n) => {
                if uses_upstream(step) {
                    self.to_upstream.read(n);
                } else {
                    self.to_downstream.read(n);
                }
                RelayAction::Continue
            },
            RelayEvent::WouldBlock => RelayAction::Continue,
            RelayEvent::Failed => RelayAction::Shutdown(step.stream()),
        };
        self.step = step.next();
        action
    }
}

fn uses_upstream(s: RelayStep) -> (b: bool)
    ensures
        b == uses_upstream_buffer(s),
{
    match s {
        RelayStep::FillToUpstream => true,
        RelayStep::DrainToUpstream => true,
        _ => false,
    }
}

} // verus!

//! One client connection kept alive across requests: the server answers each request in
//! turn until one asks for `Connection: close`, or until reading or writing fails, in
//! which case it sends an empty `400 Bad Request` and gives up.
//!
//! The reading, handling and writing happen outside; `advance` decides, for each thing
//! that happened, what to send and whether to read another request.
use vstd::prelude::*;

use super::{failure_bytes, reply_bytes};
use crate::http::response::{response_bytes, Response};
use crate::http::types::StatusCode;
use crate::params::{insert_entry, Entries};
use crate::text::decimal;

verus! {

/// The bytes sent for a response with the given status, headers and body: `connection:
/// close` added when the client asked to close, then `content-length`.
pub open spec fn reply_model(status: StatusCode, headers: Entries, body: Seq<u8>, close: bool) -> Seq<
    u8,
> {
    response_bytes(
        status,
        insert_entry(
            if close {
                insert_entry(headers, "connection"@, "close"@)
            } else {
                headers
            },
            "content-length"@,
            decimal(body.len()),
        ),
        body,
    )
}

/// The bytes sent when a request cannot be read or an answer cannot be written.
pub open spec fn failure_model() -> Seq<u8> {
    response_bytes(StatusCode::BadRequest, Seq::empty(), Seq::empty())
}

/// Where a connection stands.
#[derive(Debug, Clone, Copy, PartialEq, Eq, Structural)]
pub enum Phase {
    /// Waiting for the next request.
    Reading,
    /// An answer is being written; `close` when it is the last one.
    Writing { close: bool },
    /// Nothing more is read or sent.
    Closed,
}

/// What happened on the connection.
#[derive(Debug)]
pub enum Event {
    /// A request was read and answered by `response`; `close` when it asked to close the
    /// connection.
    Received { close: bool, response: Response },
    /// The next request could not be read.
    ReadFailed,
    /// The answer was written (`ok`) or writing it failed.
    Written { ok: bool },
}

/// What to do next.
#[derive(Debug)]
pub enum Action {
    /// Write these bytes to the client.
    Send(Vec<u8>),
    /// Read the next request.
    ReadNext,
    /// Close the connection.
    Stop,
}

/// An event, with the response taken by its status, headers and body.
pub enum EventModel {
    Received(bool, StatusCode, Entries, Seq<u8>),
    ReadFailed,
    Written(bool),
}

/// An action, with the bytes to send taken as a sequence.
pub enum ActionModel {
    Send(Seq<u8>),
    ReadNext,
    Stop,
}

impl View for Event {
    type V = EventModel;

    open spec fn view(&self) -> EventModel {
        match self {
            Event::Received { close, response } => EventModel::Received(
                *close,
                response.status,
                response.headers@,
                response.body@,
            ),
            Event::ReadFailed => EventModel::ReadFailed,
            Event::Written { ok } => EventModel::Written(*ok),
        }
    }
}

impl View for Action {
    type V = ActionModel;

    open spec fn view(&self) -> ActionModel {
        match self {
            Action::Send(b) => ActionModel::Send(b@),
            Action::ReadNext => ActionModel::ReadNext,
            Action::Stop => ActionModel::Stop,
        }
    }
}

/// The phase after an event and the action it calls for. A request read while waiting
/// is answered; a failed read is answered with the failure reply and ends the connection.
/// After a successful write the connection ends if the request asked for it and otherwise
/// reads on; a failed write is followed by the failure reply and the end. Anything else,
/// and every event once the connection is closed, ends it without sending.
pub open spec fn next_step(phase: Phase, event: EventModel) -> (Phase, ActionModel) {
    match (phase, event) {
        (Phase::Reading, EventModel::Received(close, s, h, b)) => (
            Phase::Writing { close },
            ActionModel::Send(reply_model(s, h, b, close)),
        ),
        (Phase::Reading, EventModel::ReadFailed) => (
            Phase::Closed,
            ActionModel::Send(failure_model()),
        ),
        (Phase::Writing { close }, EventModel::Written(ok)) => if !ok {
            (Phase::Closed, ActionModel::Send(failure_model()))
        } else if close {
            (Phase::Closed, ActionModel::Stop)
        } else {
            (Phase::Reading, ActionModel::ReadNext)
        },
        _ => (Phase::Closed, ActionModel::Stop),
    }
}

/// Decides what an event on the connection calls for.
pub fn advance(phase: Phase, event: Event) -> (r: (Phase, Action))
    ensures
        (r.0, r.1@) == next_step(phase, event@),
{
    match event {
        Event::Received { close, response } => match phase {
            Phase::Reading => (Phase::Writing { close }, Action::Send(reply_bytes(response, close))),
            _ => (Phase::Closed, Action::Stop),
        },
        Event::ReadFailed => match phase {
            Phase::Reading => (Phase::Closed, Action::Send(failure_bytes())),
            _ => (Phase::Closed, Action::Stop),
        },
        Event::Written { ok } => match phase {
            Phase::Writing { close } => if !ok {
                (Phase::Closed, Action::Send(failure_bytes()))
            } else if close {
                (Phase::Closed, Action::Stop)
            } else {
                (Phase::Reading, Action::ReadNext)
            },
            _ => (Phase::Closed, Action::Stop),
        },
    }
}

/// The phase reached and the actions called for, event by event.
pub open spec fn run(phase: Phase, events: Seq<EventModel>) -> (Phase, Seq<ActionModel>)
    decreases events.len(),
{
    if events.len() == 0 {
        (phase, Seq::empty())
    } else {
        let (p, acts) = run(phase, events.drop_last());
        let (q, a) = next_step(p, events.last());
        (q, acts.push(a))
    }
}

/// All bytes the actions send, in order.
pub open spec fn sent(acts: Seq<ActionModel>) -> Seq<u8>
    decreases acts.len(),
{
    if acts.len() == 0 {
        Seq::empty()
    } else {
        sent(acts.drop_last()) + match acts.last() {
            ActionModel::Send(b) => b,
            _ => Seq::empty(),
        }
    }
}

/// How many times the actions ask for another request.
pub open spec fn reads_asked(acts: Seq<ActionModel>) -> nat
    decreases acts.len(),
{
    if acts.len() == 0 {
        0
    } else {
        reads_asked(acts.drop_last()) + if acts.last() is ReadNext {
            1nat
        } else {
            0nat
        }
    }
}

/// One exchange: whether the request asked to close, and the status, headers and body of
/// its response.
pub type Exchange = (bool, StatusCode, Entries, Seq<u8>);

/// The events of exchanges that all go through: each request is read and answered, and
/// its answer written.
pub open spec fn exchange_events(xs: Seq<Exchange>) -> Seq<EventModel>
    decreases xs.len(),
{
    if xs.len() == 0 {
        Seq::empty()
    } else {
        let x = xs.last();
        exchange_events(xs.drop_last()).push(EventModel::Received(x.0, x.1, x.2, x.3)).push(
            EventModel::Written(true),
        )
    }
}

/// The answers to the exchanges, one after the other.
pub open spec fn replies(xs: Seq<Exchange>) -> Seq<u8>
    decreases xs.len(),
{
    if xs.len() == 0 {
        Seq::empty()
    } else {
        let x = xs.last();
        replies(xs.drop_last()) + reply_model(x.1, x.2, x.3, x.0)
    }
}

proof fn lemma_run_append(phase: Phase, a: Seq<EventModel>, b: Seq<EventModel>)
    ensures
        run(phase, a + b) == (run(run(phase, a).0, b).0, run(phase, a).1 + run(run(phase, a).0, b).1),
    decreases b.len(),
{
    if b.len() == 0 {
        assert(a + b =~= a);
        assert(run(phase, a).1 + Seq::<ActionModel>::empty() =~= run(phase, a).1);
    } else {
        assert((a + b).drop_last() =~= a + b.drop_last());
        assert((a + b).last() == b.last());
        lemma_run_append(phase, a, b.drop_last());
        let mid = run(phase, a);
        let r = run(mid.0, b.drop_last());
        let s = next_step(r.0, b.last());
        assert(mid.1 + r.1.push(s.1) =~= (mid.1 + r.1).push(s.1));
    }
}

proof fn lemma_sent_append(a: Seq<ActionModel>, b: Seq<ActionModel>)
    ensures
        sent(a + b) == sent(a) + sent(b),
        reads_asked(a + b) == reads_asked(a) + reads_asked(b),
    decreases b.len(),
{
    if b.len() == 0 {
        assert(a + b =~= a);
        assert(sent(a) + Seq::<u8>::empty() =~= sent(a));
    } else {
        assert((a + b).drop_last() =~= a + b.drop_last());
        lemma_sent_append(a, b.drop_last());
        let tail = match b.last() {
            ActionModel::Send(x) => x,
            _ => Seq::empty(),
        };
        assert(sent(a) + sent(b.drop_last()) + tail =~= sent(a) + (sent(b.drop_last()) + tail));
    }
}

/// Once closed, a connection stays closed and sends nothing more, whatever happens.
pub proof fn lemma_closed_stays_closed(events: Seq<EventModel>)
    ensures
        run(Phase::Closed, events).0 == Phase::Closed,
        sent(run(Phase::Closed, events).1) == Seq::<u8>::empty(),
        reads_asked(run(Phase::Closed, events).1) == 0,
    decreases events.len(),
{
    if events.len() > 0 {
        lemma_closed_stays_closed(events.drop_last());
        let prev = run(Phase::Closed, events.drop_last()).1;
        let acts = run(Phase::Closed, events).1;
        assert(acts == prev.push(ActionModel::Stop));
        assert(acts.drop_last() =~= prev);
        assert(sent(prev) + Seq::<u8>::empty() =~= sent(prev));
    }
}

/// Exchanges none of which asks to close leave the connection reading, having sent their
/// answers in order and asked for one more request after each.
pub proof fn lemma_exchanges_keep_alive(xs: Seq<Exchange>)
    requires
        forall|i: int| 0 <= i < xs.len() ==> !(#[trigger] xs[i]).0,
    ensures
        run(Phase::Reading, exchange_events(xs)).0 == Phase::Reading,
        sent(run(Phase::Reading, exchange_events(xs)).1) == replies(xs),
        reads_asked(run(Phase::Reading, exchange_events(xs)).1) == xs.len(),
    decreases xs.len(),
{
    if xs.len() > 0 {
        let init = xs.drop_last();
        assert forall|i: int| 0 <= i < init.len() implies !(#[trigger] init[i]).0 by {
            assert(init[i] == xs[i]);
        }
        lemma_exchanges_keep_alive(init);
        let x = xs.last();
        let e = exchange_events(xs);
        let r = EventModel::Received(x.0, x.1, x.2, x.3);
        let d = e.drop_last();
        assert(e == exchange_events(init).push(r).push(EventModel::Written(true)));
        assert(d =~= exchange_events(init).push(r));
        assert(d.drop_last() =~= exchange_events(init));
        assert(d.last() == r);
        assert(e.last() == EventModel::Written(true));
        let acts0 = run(Phase::Reading, exchange_events(init)).1;
        let sd = ActionModel::Send(reply_model(x.1, x.2, x.3, x.0));
        assert(run(Phase::Reading, d) == (Phase::Writing { close: x.0 }, acts0.push(sd)));
        let acts = run(Phase::Reading, e).1;
        assert(acts == acts0.push(sd).push(ActionModel::ReadNext));
        assert(acts.drop_last() =~= acts0.push(sd));
        assert(acts0.push(sd).drop_last() =~= acts0);
        let b = reply_model(x.1, x.2, x.3, x.0);
        let a1 = acts0.push(sd);
        assert(a1.last() == sd);
        assert(sent(a1) == sent(acts0) + b);
        assert(reads_asked(a1) == reads_asked(acts0));
        assert(acts.last() == ActionModel::ReadNext);
        assert(sent(acts) == sent(a1) + Seq::<u8>::empty());
        assert(reads_asked(acts) == reads_asked(a1) + 1);
        assert(sent(acts0) + b + Seq::<u8>::empty() =~= sent(acts0) + b);
        assert(replies(xs) == replies(init) + b);
    }
}

/// Keep-alive: when the client sends requests one after the other and only the last asks
/// to close the connection, the server writes exactly the answers to all of them, in
/// order, asks for a new request after each answer but the last, and then closes; nothing
/// that happens after that is read or answered.
pub proof fn lemma_keep_alive(xs: Seq<Exchange>, after: Seq<EventModel>)
    requires
        xs.len() >= 1,
        forall|i: int| 0 <= i < xs.len() - 1 ==> !(#[trigger] xs[i]).0,
        xs.last().0,
    ensures
        run(Phase::Reading, exchange_events(xs) + after).0 == Phase::Closed,
        sent(run(Phase::Reading, exchange_events(xs) + after).1) == replies(xs),
        reads_asked(run(Phase::Reading, exchange_events(xs) + after).1) == xs.len() - 1,
{
    let init = xs.drop_last();
    assert forall|i: int| 0 <= i < init.len() implies !(#[trigger] init[i]).0 by {
        assert(init[i] == xs[i]);
    }
    lemma_exchanges_keep_alive(init);
    let x = xs.last();
    let e = exchange_events(xs);
    let r = EventModel::Received(x.0, x.1, x.2, x.3);
    let d = e.drop_last();
    assert(e == exchange_events(init).push(r).push(EventModel::Written(true)));
    assert(d =~= exchange_events(init).push(r));
    assert(d.drop_last() =~= exchange_events(init));
    assert(d.last() == r);
    assert(e.last() == EventModel::Written(true));
    let acts0 = run(Phase::Reading, exchange_events(init)).1;
    let sd = ActionModel::Send(reply_model(x.1, x.2, x.3, x.0));
    assert(run(Phase::Reading, d) == (Phase::Writing { close: x.0 }, acts0.push(sd)));
    let acts = run(Phase::Reading, e).1;
    assert(run(Phase::Reading, e).0 == Phase::Closed);
    assert(acts == acts0.push(sd).push(ActionModel::Stop));
    assert(acts.drop_last() =~= acts0.push(sd));
    assert(acts0.push(sd).drop_last() =~= acts0);
    let b = reply_model(x.1, x.2, x.3, x.0);
    let a1 = acts0.push(sd);
    assert(a1.last() == sd);
    assert(sent(a1) == sent(acts0) + b);
    assert(reads_asked(a1) == reads_asked(acts0));
    assert(acts.last() == ActionModel::Stop);
    assert(sent(acts) == sent(a1) + Seq::<u8>::empty());
    assert(reads_asked(acts) == reads_asked(a1));
    assert(sent(acts0) + b + Seq::<u8>::empty() =~= sent(acts0) + b);
    assert(replies(xs) == replies(init) + b);
    lemma_run_append(Phase::Reading, e, after);
    lemma_closed_stays_closed(after);
    lemma_sent_append(acts, run(Phase::Closed, after).1);
    assert(sent(acts) + Seq::<u8>::empty() =~= sent(acts));
}

} // verus!

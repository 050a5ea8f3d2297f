//! One connection, from the first byte to the close.
//!
//! The handler decides and the caller acts: each step takes what the last
//! action brought and names the next one. A connection touches nothing but
//! its own state and the key, which it only reads.

use crate::error::{ConnectionError, FramingError, UpstreamError};
use crate::model::{project_games, projected};
use crate::upstream::{
    envelope_in, lemma_request_url_injective, parse_envelope, request_url, request_url_text,
    UpstreamReply,
};
use crate::wire::{be_u64, decode_identifier, encode_response, response_text};
use vstd::prelude::*;

verus! {

/// Whether an HTTP status reports success.
pub open spec fn is_success(status: u16) -> bool {
    200 <= status <= 299
}

/// The text that answers a client, given what came of the upstream call, or
/// the reason why there is none. There is an answer exactly where upstream
/// replied with a success status and a body that holds an envelope; it is
/// the document of that envelope's games, projected one for one.
pub open spec fn answer_text(reply: UpstreamReply) -> Result<Seq<char>, UpstreamError> {
    match reply {
        UpstreamReply::Failed => Err(UpstreamError::Transport),
        UpstreamReply::Response { status, body } => if !is_success(status) {
            Err(UpstreamError::Status(status))
        } else {
            match envelope_in(body@) {
                Ok(envelope) => Ok(response_text(projected(envelope.games))),
                Err(e) => Err(e),
            }
        },
    }
}

/// Turns what came of the upstream call into the text for the client.
pub fn answer(reply: &UpstreamReply) -> (r: Result<String, UpstreamError>)
    ensures
        match r {
            Ok(text) => answer_text(*reply) == Ok::<Seq<char>, UpstreamError>(text@),
            Err(e) => answer_text(*reply) == Err::<Seq<char>, UpstreamError>(e),
        },
{
    match reply {
        UpstreamReply::Failed => Err(UpstreamError::Transport),
        UpstreamReply::Response { status, body } => {
            if *status < 200 || *status > 299 {
                return Err(UpstreamError::Status(*status));
            }
            match parse_envelope(body.as_str()) {
                Ok(envelope) => Ok(encode_response(&project_games(&envelope))),
                Err(e) => Err(e),
            }
        },
    }
}

/// Where a connection stands.
#[derive(Clone, Copy, Debug, PartialEq, Eq, Structural)]
pub enum Connection {
    /// Accepted; the identifier is being read.
    AwaitingIdentifier,
    /// The upstream request is under way.
    AwaitingUpstream,
    /// The answer is being sent.
    Writing,
    /// The answer is sent; the sending side is being closed.
    ShuttingDown,
    /// Served and closed.
    Done,
    /// Dropped, for this reason.
    Failed(ConnectionError),
}

/// What the last action brought.
#[derive(Debug, PartialEq, Eq)]
pub enum Event {
    /// The read ended with these bytes: a whole identifier, or less where the
    /// client closed its side first.
    Received(Vec<u8>),
    /// The upstream call ended.
    Replied(UpstreamReply),
    /// The write, or the shutdown, went through.
    Completed,
    /// The write, or the shutdown, failed.
    Failed,
}

/// What the caller is to do next for a connection.
#[derive(Debug, PartialEq, Eq)]
pub enum Action {
    /// Request this address from upstream.
    Fetch(String),
    /// Send this text to the client, all of it.
    Write(String),
    /// Close the sending side in good order.
    Shutdown,
    /// Let go of the connection; nothing more is to be done.
    Close,
}

/// The mathematical content of an [`Action`].
pub enum ActionView {
    Fetch(Seq<char>),
    Write(Seq<char>),
    Shutdown,
    Close,
}

impl View for Action {
    type V = ActionView;

    open spec fn view(&self) -> ActionView {
        match self {
            Action::Fetch(url) => ActionView::Fetch(url@),
            Action::Write(text) => ActionView::Write(text@),
            Action::Shutdown => ActionView::Shutdown,
            Action::Close => ActionView::Close,
        }
    }
}

impl Connection {
    /// Whether the connection has come to its end.
    pub open spec fn closed(self) -> bool {
        self is Done || self is Failed
    }

    /// The state after an event, and the action that it calls for. An event
    /// that does not belong to the state drops the connection, with the
    /// error of the stage it was in.
    pub open spec fn next(self, key: Seq<char>, event: Event) -> (Connection, ActionView) {
        match self {
            Connection::AwaitingIdentifier => match event {
                Event::Received(bytes) => if bytes@.len() >= 8 {
                    (
                        Connection::AwaitingUpstream,
                        ActionView::Fetch(request_url_text(key, be_u64(bytes@.take(8)))),
                    )
                } else {
                    (
                        Connection::Failed(
                            ConnectionError::Framing(
                                FramingError { received: bytes@.len() as usize },
                            ),
                        ),
                        ActionView::Close,
                    )
                },
                _ => (
                    Connection::Failed(ConnectionError::Framing(FramingError { received: 0 })),
                    ActionView::Close,
                ),
            },
            Connection::AwaitingUpstream => match event {
                Event::Replied(reply) => match answer_text(reply) {
                    Ok(text) => (Connection::Writing, ActionView::Write(text)),
                    Err(e) => (
                        Connection::Failed(ConnectionError::Upstream(e)),
                        ActionView::Close,
                    ),
                },
                _ => (
                    Connection::Failed(ConnectionError::Upstream(UpstreamError::Transport)),
                    ActionView::Close,
                ),
            },
            Connection::Writing => match event {
                Event::Completed => (Connection::ShuttingDown, ActionView::Shutdown),
                _ => (Connection::Failed(ConnectionError::Write), ActionView::Close),
            },
            Connection::ShuttingDown => match event {
                Event::Completed => (Connection::Done, ActionView::Close),
                _ => (Connection::Failed(ConnectionError::Write), ActionView::Close),
            },
            Connection::Done => (self, ActionView::Close),
            Connection::Failed(_) => (self, ActionView::Close),
        }
    }

    /// A connection that has just been accepted.
    pub fn new() -> (connection: Connection)
        ensures
            connection == Connection::AwaitingIdentifier,
    {
        Connection::AwaitingIdentifier
    }

    /// Whether the connection has come to its end.
    pub fn is_closed(&self) -> (r: bool)
        ensures
            r == self.closed(),
    {
        match self {
            Connection::Done => true,
            Connection::Failed(_) => true,
            _ => false,
        }
    }

    /// Takes the connection one step on: from what the last action brought
    /// to the next action.
    pub fn step(&mut self, event: Event, key: &str) -> (action: Action)
        ensures
            (*final(self), action@) == old(self).next(key@, event),
    {
        match *self {
            Connection::AwaitingIdentifier => match event {
                Event::Received(bytes) => match decode_identifier(bytes.as_slice()) {
                    Ok(identifier) => {
                        *self = Connection::AwaitingUpstream;
                        Action::Fetch(request_url(key, identifier))
                    },
                    Err(e) => {
                        *self = Connection::Failed(ConnectionError::Framing(e));
                        Action::Close
                    },
                },
                _ => {
                    *self = Connection::Failed(
                        ConnectionError::Framing(FramingError { received: 0 }),
                    );
                    Action::Close
                },
            },
            Connection::AwaitingUpstream => match event {
                Event::Replied(reply) => match answer(&reply) {
                    Ok(text) => {
                        *self = Connection::Writing;
                        Action::Write(text)
                    },
                    Err(e) => {
                        *self = Connection::Failed(ConnectionError::Upstream(e));
                        Action::Close
                    },
                },
                _ => {
                    *self = Connection::Failed(
                        ConnectionError::Upstream(UpstreamError::Transport),
                    );
                    Action::Close
                },
            },
            Connection::Writing => match event {
                Event::Completed => {
                    *self = Connection::ShuttingDown;
                    Action::Shutdown
                },
                _ => {
                    *self = Connection::Failed(ConnectionError::Write);
                    Action::Close
                },
            },
            Connection::ShuttingDown => match event {
                Event::Completed => {
                    *self = Connection::Done;
                    Action::Close
                },
                _ => {
                    *self = Connection::Failed(ConnectionError::Write);
                    Action::Close
                },
            },
            Connection::Done => Action::Close,
            Connection::Failed(_) => Action::Close,
        }
    }
}

/// The actions that a run of events calls for, one for each event, from a
/// given state on.
pub open spec fn actions(state: Connection, key: Seq<char>, events: Seq<Event>) -> Seq<ActionView>
    decreases events.len(),
{
    if events.len() == 0 {
        Seq::empty()
    } else {
        let (after, action) = state.next(key, events[0]);
        seq![action] + actions(after, key, events.skip(1))
    }
}

/// Where a connection stands after a run of events.
pub open spec fn state_after(state: Connection, key: Seq<char>, events: Seq<Event>) -> Connection
    decreases events.len(),
{
    if events.len() == 0 {
        state
    } else {
        state_after(state.next(key, events[0]).0, key, events.skip(1))
    }
}

/// Whether nothing is sent to the client in a sequence of actions.
pub open spec fn writes_nothing(run: Seq<ActionView>) -> bool {
    forall|i: int| 0 <= i < run.len() ==> !(#[trigger] run[i] is Write)
}

/// Whether a connection is past the point at which it could still send: the
/// answer is out, or the connection has come to its end.
pub open spec fn past_answer(state: Connection) -> bool {
    state is Writing || state is ShuttingDown || state.closed()
}

/// There is an answer exactly where upstream replied with a success status
/// and a body that holds an envelope. On every other outcome of the call
/// there is none.
pub proof fn lemma_answer_needs_good_reply(reply: UpstreamReply)
    ensures
        answer_text(reply) is Ok <==> (reply matches UpstreamReply::Response { status, body }
            && is_success(status) && envelope_in(body@) is Ok),
{
}

/// An answer lists exactly the games of the envelope that upstream sent: as
/// many entries, in the same order, each with the application and the total
/// playtime of the record at its place.
pub proof fn lemma_answer_mirrors_upstream(status: u16, body: String)
    requires
        is_success(status),
        envelope_in(body@) is Ok,
    ensures
        ({
            let upstream = envelope_in(body@).unwrap().games;
            let games = projected(upstream);
            &&& answer_text(UpstreamReply::Response { status, body }) == Ok::<
                Seq<char>,
                UpstreamError,
            >(response_text(games))
            &&& games.len() == upstream.len()
            &&& forall|i: int|
                0 <= i < upstream.len() ==> {
                    &&& (#[trigger] games[i]).appid == upstream[i].appid
                    &&& games[i].playtime == upstream[i].playtime_forever
                }
        }),
{
}

/// A run calls for one action for each event.
pub proof fn lemma_actions_len(state: Connection, key: Seq<char>, events: Seq<Event>)
    ensures
        actions(state, key, events).len() == events.len(),
    decreases events.len(),
{
    if events.len() > 0 {
        lemma_actions_len(state.next(key, events[0]).0, key, events.skip(1));
    }
}

/// A connection that has come to its end stays as it is, whatever arrives,
/// and calls for nothing but to be let go.
pub proof fn lemma_closed_is_final(state: Connection, key: Seq<char>, events: Seq<Event>)
    requires
        state.closed(),
    ensures
        state_after(state, key, events) == state,
        forall|i: int|
            0 <= i < events.len() ==> #[trigger] actions(state, key, events)[i]
                == ActionView::Close,
    decreases events.len(),
{
    if events.len() > 0 {
        lemma_closed_is_final(state, key, events.skip(1));
        lemma_actions_len(state, key, events.skip(1));
        let run = actions(state, key, events);
        let rest = actions(state, key, events.skip(1));
        assert forall|i: int| 0 <= i < events.len() implies #[trigger] run[i]
            == ActionView::Close by {
            if i > 0 {
                assert(run[i] == rest[i - 1]);
            }
        }
    }
}

/// Once the answer is out, or the connection has come to its end, nothing
/// more is ever sent.
pub proof fn lemma_nothing_after_answer(state: Connection, key: Seq<char>, events: Seq<Event>)
    requires
        past_answer(state),
    ensures
        writes_nothing(actions(state, key, events)),
    decreases events.len(),
{
    if events.len() > 0 {
        let after = state.next(key, events[0]).0;
        lemma_nothing_after_answer(after, key, events.skip(1));
        let rest = actions(after, key, events.skip(1));
        let run = actions(state, key, events);
        assert forall|i: int| 0 <= i < run.len() implies !(#[trigger] run[i] is Write) by {
            if i > 0 {
                assert(run[i] == rest[i - 1]);
            }
        }
    }
}

/// A client that closes its side before eight bytes have arrived gets
/// nothing. The connection is dropped at once with a framing error, no
/// request goes upstream, and whatever arrives later changes none of this.
pub proof fn lemma_incomplete_request_is_dropped(key: Seq<char>, events: Seq<Event>)
    requires
        events.len() > 0,
        events[0] matches Event::Received(bytes) && bytes@.len() < 8,
    ensures
        state_after(Connection::AwaitingIdentifier, key, events) == Connection::Failed(
            ConnectionError::Framing(
                FramingError { received: events[0]->Received_0@.len() as usize },
            ),
        ),
        forall|i: int|
            0 <= i < events.len() ==> #[trigger] actions(
                Connection::AwaitingIdentifier,
                key,
                events,
            )[i] == ActionView::Close,
        writes_nothing(actions(Connection::AwaitingIdentifier, key, events)),
{
    let after = Connection::AwaitingIdentifier.next(key, events[0]).0;
    let tail = events.skip(1);
    lemma_closed_is_final(after, key, tail);
    lemma_actions_len(after, key, tail);
    let rest = actions(after, key, tail);
    let run = actions(Connection::AwaitingIdentifier, key, events);
    assert forall|i: int| 0 <= i < events.len() implies #[trigger] run[i]
        == ActionView::Close by {
        if i > 0 {
            assert(run[i] == rest[i - 1]);
        }
    }
}

/// Where the upstream call fails, answers with a status that is no success,
/// or sends a body that holds no envelope, the client gets nothing. The
/// connection is dropped with the upstream error, and whatever arrives
/// later changes none of this.
pub proof fn lemma_failed_upstream_is_dropped(key: Seq<char>, events: Seq<Event>)
    requires
        events.len() > 1,
        events[0] matches Event::Received(bytes) && bytes@.len() >= 8,
        events[1] matches Event::Replied(reply) && answer_text(reply) is Err,
    ensures
        state_after(Connection::AwaitingIdentifier, key, events) == Connection::Failed(
            ConnectionError::Upstream(answer_text(events[1]->Replied_0)->Err_0),
        ),
        forall|i: int|
            1 <= i < events.len() ==> #[trigger] actions(
                Connection::AwaitingIdentifier,
                key,
                events,
            )[i] == ActionView::Close,
        writes_nothing(actions(Connection::AwaitingIdentifier, key, events)),
{
    let run = actions(Connection::AwaitingIdentifier, key, events);
    let (second, first_action) = Connection::AwaitingIdentifier.next(key, events[0]);
    let tail = events.skip(1);
    let rest = actions(second, key, tail);
    let (third, second_action) = second.next(key, tail[0]);
    let tail2 = tail.skip(1);
    let rest2 = actions(third, key, tail2);
    assert(tail[0] == events[1]);
    lemma_actions_len(second, key, tail);
    lemma_actions_len(third, key, tail2);
    lemma_closed_is_final(third, key, tail2);
    assert(state_after(second, key, tail) == state_after(third, key, tail2));
    assert(state_after(Connection::AwaitingIdentifier, key, events) == state_after(
        second,
        key,
        tail,
    ));
    assert forall|i: int| 1 <= i < events.len() implies #[trigger] run[i]
        == ActionView::Close by {
        assert(run[i] == rest[i - 1]);
        if i > 1 {
            assert(rest[i - 1] == rest2[i - 2]);
        }
    }
}

/// Whatever the events, a connection sends at most once: at its second
/// step, after a whole identifier, and then the answer to the reply that it
/// was given itself.
pub proof fn lemma_only_the_answer_is_sent(key: Seq<char>, events: Seq<Event>, i: int)
    requires
        0 <= i < events.len(),
        actions(Connection::AwaitingIdentifier, key, events)[i] is Write,
    ensures
        i == 1,
        events[0] matches Event::Received(bytes) && bytes@.len() >= 8,
        events[1] matches Event::Replied(reply) && answer_text(reply) == Ok::<
            Seq<char>,
            UpstreamError,
        >(actions(Connection::AwaitingIdentifier, key, events)[i]->Write_0),
{
    let run = actions(Connection::AwaitingIdentifier, key, events);
    let (second, first_action) = Connection::AwaitingIdentifier.next(key, events[0]);
    let tail = events.skip(1);
    let rest = actions(second, key, tail);
    lemma_actions_len(second, key, tail);
    assert(i > 0);
    assert(run[i] == rest[i - 1]);
    if second.closed() {
        lemma_nothing_after_answer(second, key, tail);
    } else {
        let (third, second_action) = second.next(key, tail[0]);
        let rest2 = actions(third, key, tail.skip(1));
        lemma_actions_len(third, key, tail.skip(1));
        lemma_nothing_after_answer(third, key, tail.skip(1));
        if i > 1 {
            assert(rest[i - 1] == rest2[i - 2]);
        }
        assert(tail[0] == events[1]);
    }
}

/// A request that goes well takes four steps, in this order: the upstream
/// request for the account that the eight bytes name, the answer to what
/// upstream replied, the shutdown of the sending side, and the close.
pub proof fn lemma_request_is_served(key: Seq<char>, request: Vec<u8>, reply: UpstreamReply)
    requires
        request@.len() >= 8,
        answer_text(reply) is Ok,
    ensures
        ({
            let events = seq![
                Event::Received(request),
                Event::Replied(reply),
                Event::Completed,
                Event::Completed,
            ];
            &&& actions(Connection::AwaitingIdentifier, key, events) == seq![
                ActionView::Fetch(request_url_text(key, be_u64(request@.take(8)))),
                ActionView::Write(answer_text(reply).unwrap()),
                ActionView::Shutdown,
                ActionView::Close,
            ]
            &&& state_after(Connection::AwaitingIdentifier, key, events) == Connection::Done
        }),
{
    let events = seq![
        Event::Received(request),
        Event::Replied(reply),
        Event::Completed,
        Event::Completed,
    ];
    let e1 = events.skip(1);
    let e2 = e1.skip(1);
    let e3 = e2.skip(1);
    let e4 = e3.skip(1);
    assert(e1[0] == events[1]);
    assert(e2[0] == events[2]);
    assert(e3[0] == events[3]);
    assert(e4.len() == 0);
    assert(actions(Connection::Done, key, e4) =~= Seq::<ActionView>::empty());
    assert(actions(Connection::ShuttingDown, key, e3) =~= seq![ActionView::Close]);
    assert(actions(Connection::Writing, key, e2) =~= seq![
        ActionView::Shutdown,
        ActionView::Close,
    ]);
    assert(actions(Connection::AwaitingUpstream, key, e1) =~= seq![
        ActionView::Write(answer_text(reply).unwrap()),
        ActionView::Shutdown,
        ActionView::Close,
    ]);
    assert(actions(Connection::AwaitingIdentifier, key, events) =~= seq![
        ActionView::Fetch(request_url_text(key, be_u64(request@.take(8)))),
        ActionView::Write(answer_text(reply).unwrap()),
        ActionView::Shutdown,
        ActionView::Close,
    ]);
    assert(state_after(Connection::Done, key, e4) == Connection::Done);
    assert(state_after(Connection::ShuttingDown, key, e3) == Connection::Done);
    assert(state_after(Connection::Writing, key, e2) == Connection::Done);
    assert(state_after(Connection::AwaitingUpstream, key, e1) == Connection::Done);
}

/// Connections that carry different identifiers ask upstream for different
/// accounts.
pub proof fn lemma_requests_differ(key: Seq<char>, first: Vec<u8>, second: Vec<u8>)
    requires
        first@.len() >= 8,
        second@.len() >= 8,
        be_u64(first@.take(8)) != be_u64(second@.take(8)),
    ensures
        Connection::AwaitingIdentifier.next(key, Event::Received(first)).1
            != Connection::AwaitingIdentifier.next(key, Event::Received(second)).1,
{
    lemma_request_url_injective(key, be_u64(first@.take(8)), be_u64(second@.take(8)));
}

} // verus!

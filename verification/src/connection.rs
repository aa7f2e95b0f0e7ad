//! The connection loop as a state machine: each event that the transport or
//! storage reports leads to the next state and to the one action to take.

use vstd::prelude::*;
use crate::framer::{frame, framed};
use crate::handlers::{
    agent_reflected, echoed, file_body, file_served, lemma_echo_declares_length,
    lemma_with_body_declares_length, not_found_plain, octet_stream, respond_bad_request,
    respond_echo, respond_file_get, respond_file_put, respond_not_found_plain,
    respond_user_agent, stored_body, text_plain, write_done, write_refused,
};
use crate::message::{Request, RequestModel, Response, ResponseModel, Status, HEADER_CAPACITY};
use crate::parser::{accepted, head_of, parse_request, ParseError};
use crate::router::{route, routed, Route, RouteModel};

verus! {

/// What a request leads to, as contracts see it.
pub enum ReplyModel {
    Send(ResponseModel),
    Fetch(Seq<u8>),
    Store(Seq<u8>, Seq<u8>),
    Silent,
    Fail(ParseError),
}

/// What a request leads to.
#[derive(Clone, Debug, PartialEq, Eq)]
pub enum Reply {
    /// A response to send.
    Send(Response),
    /// Storage is to read the named resource; the answer depends on it.
    Fetch(Vec<u8>),
    /// Storage is to create the named resource with these bytes.
    Store(Vec<u8>, Vec<u8>),
    /// No response: the request is dropped and the connection stays open.
    Silent,
    /// No response: the connection is to be closed.
    Fail(ParseError),
}

impl View for Reply {
    type V = ReplyModel;

    open spec fn view(&self) -> ReplyModel {
        match self {
            Reply::Send(response) => ReplyModel::Send(response@),
            Reply::Fetch(name) => ReplyModel::Fetch(name@),
            Reply::Store(name, body) => ReplyModel::Store(name@, body@),
            Reply::Silent => ReplyModel::Silent,
            Reply::Fail(e) => ReplyModel::Fail(*e),
        }
    }
}

/// A response with neither headers nor body.
pub open spec fn bare(status: Status) -> ResponseModel {
    ResponseModel { status, headers: Seq::empty(), body: Seq::empty() }
}

/// What each route does with a request, given the bytes received.
pub open spec fn dispatched(request: RequestModel, received: Seq<u8>) -> ReplyModel {
    match routed(request.method, request.path) {
        RouteModel::Root => ReplyModel::Send(bare(Status::Success)),
        RouteModel::Echo(rest) => match echoed(rest, request.headers) {
            Ok(response) => ReplyModel::Send(response),
            Err(e) => ReplyModel::Fail(e),
        },
        RouteModel::UserAgent => match agent_reflected(request.headers) {
            Some(response) => ReplyModel::Send(response),
            None => ReplyModel::Silent,
        },
        RouteModel::FileRead(name) => ReplyModel::Fetch(name),
        RouteModel::FileWrite(name) => match stored_body(request, received) {
            Some(body) => ReplyModel::Store(name, body),
            None => ReplyModel::Send(write_refused()),
        },
        RouteModel::NotFound => ReplyModel::Send(bare(Status::NotFound)),
        RouteModel::NotFoundPlain => ReplyModel::Send(not_found_plain()),
    }
}

/// Routes a request and runs its handler as far as it goes without
/// storage. The first `received` bytes of `buf` are the bytes that the
/// request was parsed from.
pub fn dispatch(request: &Request, buf: &[u8], received: usize) -> (r: Reply)
    requires
        received <= buf@.len(),
    ensures
        r@ == dispatched(request@, buf@.take(received as int)),
{
    match route(request.method.as_slice(), request.path.as_slice()) {
        Route::Root => Reply::Send(Response::bare(Status::Success)),
        Route::Echo(rest) => match respond_echo(rest.as_slice(), &request.headers) {
            Ok(response) => Reply::Send(response),
            Err(e) => Reply::Fail(e),
        },
        Route::UserAgent => match respond_user_agent(&request.headers) {
            Some(response) => Reply::Send(response),
            None => Reply::Silent,
        },
        Route::FileRead(name) => Reply::Fetch(name),
        Route::FileWrite(name) => match file_body(request, buf, received) {
            Some(body) => Reply::Store(name, body),
            None => Reply::Send(respond_bad_request()),
        },
        Route::NotFound => Reply::Send(Response::bare(Status::NotFound)),
        Route::NotFoundPlain => Reply::Send(respond_not_found_plain()),
    }
}

/// Where a connection stands between two events.
#[derive(Clone, Copy, Debug, PartialEq, Eq, Structural)]
pub enum State {
    /// Waiting for bytes from the peer.
    Reading,
    /// Waiting for storage to hand over a resource.
    AwaitingFile,
    /// Waiting for storage to confirm a write.
    AwaitingStore,
    /// Waiting for the transport to take a response.
    Sending,
    /// Done: nothing more is read or written.
    Closed,
}

/// Why a connection was closed.
#[derive(Clone, Copy, Debug, PartialEq, Eq, Structural)]
pub enum CloseReason {
    /// The peer closed its side: a read of no bytes.
    PeerClosed,
    /// The bytes received hold no request.
    Parse(ParseError),
    /// The transport failed, on a read or on a write.
    Transport,
    /// An event came that the state was not waiting for.
    OutOfTurn,
}

/// What the transport or storage reports, as contracts see it.
pub enum EventModel {
    Received(Seq<u8>),
    ReadFailed,
    FileContents(Option<Seq<u8>>),
    FileStored(bool),
    Sent,
    SendFailed,
}

/// What the transport or storage reports.
#[derive(Clone, Debug, PartialEq, Eq)]
pub enum Event {
    /// A read returned these bytes; none at all means the peer has closed.
    Received(Vec<u8>),
    /// A read failed.
    ReadFailed,
    /// Storage read a resource to its end, or could not (`None`).
    FileContents(Option<Vec<u8>>),
    /// Storage created a resource and wrote it, or could not (`false`).
    FileStored(bool),
    /// The transport took the response.
    Sent,
    /// A write failed.
    SendFailed,
}

impl View for Event {
    type V = EventModel;

    open spec fn view(&self) -> EventModel {
        match self {
            Event::Received(bytes) => EventModel::Received(bytes@),
            Event::ReadFailed => EventModel::ReadFailed,
            Event::FileContents(Some(bytes)) => EventModel::FileContents(Some(bytes@)),
            Event::FileContents(None) => EventModel::FileContents(None),
            Event::FileStored(stored) => EventModel::FileStored(*stored),
            Event::Sent => EventModel::Sent,
            Event::SendFailed => EventModel::SendFailed,
        }
    }
}

/// What to do next, as contracts see it.
pub enum ActionModel {
    Read,
    Send(Seq<u8>),
    ReadFile(Seq<u8>),
    WriteFile(Seq<u8>, Seq<u8>),
    Close(CloseReason),
}

/// What to do next.
#[derive(Clone, Debug, PartialEq, Eq)]
pub enum Action {
    /// Read from the peer.
    Read,
    /// Write these bytes to the peer.
    Send(Vec<u8>),
    /// Ask storage to open the named resource and read all of it.
    ReadFile(Vec<u8>),
    /// Ask storage to create the named resource and write these bytes.
    WriteFile(Vec<u8>, Vec<u8>),
    /// Close the connection.
    Close(CloseReason),
}

impl View for Action {
    type V = ActionModel;

    open spec fn view(&self) -> ActionModel {
        match self {
            Action::Read => ActionModel::Read,
            Action::Send(bytes) => ActionModel::Send(bytes@),
            Action::ReadFile(name) => ActionModel::ReadFile(name@),
            Action::WriteFile(name, body) => ActionModel::WriteFile(name@, body@),
            Action::Close(reason) => ActionModel::Close(*reason),
        }
    }
}

/// The transition that a reply leads to.
pub open spec fn after_reply(reply: ReplyModel) -> (State, ActionModel) {
    match reply {
        ReplyModel::Send(response) => (State::Sending, ActionModel::Send(framed(response))),
        ReplyModel::Fetch(name) => (State::AwaitingFile, ActionModel::ReadFile(name)),
        ReplyModel::Store(name, body) => (State::AwaitingStore, ActionModel::WriteFile(name, body)),
        ReplyModel::Silent => (State::Reading, ActionModel::Read),
        ReplyModel::Fail(e) => (State::Closed, ActionModel::Close(CloseReason::Parse(e))),
    }
}

/// The transition on the bytes of one read: an empty read closes the
/// connection, bytes that hold no request close it without a response, and
/// a request goes to its route.
pub open spec fn after_read(received: Seq<u8>) -> (State, ActionModel) {
    if received.len() == 0 {
        (State::Closed, ActionModel::Close(CloseReason::PeerClosed))
    } else {
        match accepted(head_of(received, HEADER_CAPACITY as nat)) {
            Err(e) => (State::Closed, ActionModel::Close(CloseReason::Parse(e))),
            Ok(request) => after_reply(dispatched(request, received)),
        }
    }
}

/// The transition function of a connection.
pub open spec fn next(state: State, event: EventModel) -> (State, ActionModel) {
    match (state, event) {
        (State::Reading, EventModel::Received(bytes)) => after_read(bytes),
        (State::Reading, EventModel::ReadFailed) => (
            State::Closed,
            ActionModel::Close(CloseReason::Transport),
        ),
        (State::AwaitingFile, EventModel::FileContents(contents)) => (
            State::Sending,
            ActionModel::Send(framed(file_served(contents))),
        ),
        (State::AwaitingStore, EventModel::FileStored(true)) => (
            State::Sending,
            ActionModel::Send(framed(write_done())),
        ),
        (State::AwaitingStore, EventModel::FileStored(false)) => (
            State::Reading,
            ActionModel::Read,
        ),
        (State::Sending, EventModel::Sent) => (State::Reading, ActionModel::Read),
        (State::Sending, EventModel::SendFailed) => (
            State::Closed,
            ActionModel::Close(CloseReason::Transport),
        ),
        _ => (State::Closed, ActionModel::Close(CloseReason::OutOfTurn)),
    }
}

/// Turns a reply into the next state and the action that carries it out.
pub fn carry_out(reply: Reply) -> (r: (State, Action))
    ensures
        (r.0, r.1@) == after_reply(reply@),
{
    match reply {
        Reply::Send(response) => (State::Sending, Action::Send(frame(&response))),
        Reply::Fetch(name) => (State::AwaitingFile, Action::ReadFile(name)),
        Reply::Store(name, body) => (State::AwaitingStore, Action::WriteFile(name, body)),
        Reply::Silent => (State::Reading, Action::Read),
        Reply::Fail(e) => (State::Closed, Action::Close(CloseReason::Parse(e))),
    }
}

/// Handles the bytes of one read.
pub fn handle_read(bytes: &[u8]) -> (r: (State, Action))
    ensures
        (r.0, r.1@) == after_read(bytes@),
{
    if bytes.len() == 0 {
        return (State::Closed, Action::Close(CloseReason::PeerClosed));
    }
    assert(bytes@.take(bytes@.len() as int) =~= bytes@);
    match parse_request(bytes, bytes.len()) {
        Err(e) => (State::Closed, Action::Close(CloseReason::Parse(e))),
        Ok(request) => carry_out(dispatch(&request, bytes, bytes.len())),
    }
}

/// Advances a connection by one event.
pub fn step(state: State, event: Event) -> (r: (State, Action))
    ensures
        (r.0, r.1@) == next(state, event@),
{
    match (state, event) {
        (State::Reading, Event::Received(bytes)) => handle_read(bytes.as_slice()),
        (State::Reading, Event::ReadFailed) => (
            State::Closed,
            Action::Close(CloseReason::Transport),
        ),
        (State::AwaitingFile, Event::FileContents(contents)) => {
            let response = respond_file_get(contents);
            (State::Sending, Action::Send(frame(&response)))
        },
        (State::AwaitingStore, Event::FileStored(true)) => {
            let response = respond_file_put();
            (State::Sending, Action::Send(frame(&response)))
        },
        (State::AwaitingStore, Event::FileStored(false)) => (State::Reading, Action::Read),
        (State::Sending, Event::Sent) => (State::Reading, Action::Read),
        (State::Sending, Event::SendFailed) => (
            State::Closed,
            Action::Close(CloseReason::Transport),
        ),
        _ => (State::Closed, Action::Close(CloseReason::OutOfTurn)),
    }
}

/// Every response that a request leads to declares the exact length of its
/// body; one without headers has no body.
pub proof fn lemma_reply_declares_length(request: RequestModel, received: Seq<u8>)
    ensures
        dispatched(request, received) matches ReplyModel::Send(response)
            ==> response.length_consistent(),
{
    match routed(request.method, request.path) {
        RouteModel::Echo(rest) => {
            lemma_echo_declares_length(rest, request.headers);
        },
        RouteModel::UserAgent => {
            if let Some(response) = agent_reflected(request.headers) {
                lemma_with_body_declares_length(Status::Success, text_plain(), response.body);
            }
        },
        RouteModel::FileWrite(_) => {
            lemma_with_body_declares_length(Status::BadRequest, octet_stream(), Seq::empty());
        },
        RouteModel::NotFoundPlain => {
            lemma_with_body_declares_length(Status::NotFound, text_plain(), Seq::empty());
        },
        _ => {},
    }
}

/// Whatever a connection sends is the frame of a response that declares the
/// exact length of its body.
pub proof fn lemma_sent_bytes_declare_length(state: State, event: EventModel)
    ensures
        next(state, event).1 matches ActionModel::Send(bytes) ==> exists|response: ResponseModel|
            bytes == framed(response) && #[trigger] response.length_consistent(),
{
    match (state, event) {
        (State::Reading, EventModel::Received(bytes)) => {
            if bytes.len() > 0 {
                if let Ok(request) = accepted(head_of(bytes, HEADER_CAPACITY as nat)) {
                    lemma_reply_declares_length(request, bytes);
                    if let ReplyModel::Send(response) = dispatched(request, bytes) {
                        assert(response.length_consistent());
                    }
                }
            }
        },
        (State::AwaitingFile, EventModel::FileContents(contents)) => {
            match contents {
                Some(body) => lemma_with_body_declares_length(
                    Status::Success,
                    octet_stream(),
                    body,
                ),
                None => lemma_with_body_declares_length(
                    Status::NotFound,
                    octet_stream(),
                    Seq::empty(),
                ),
            }
            assert(file_served(contents).length_consistent());
        },
        (State::AwaitingStore, EventModel::FileStored(true)) => {
            lemma_with_body_declares_length(Status::Created, octet_stream(), Seq::empty());
            assert(write_done().length_consistent());
        },
        _ => {},
    }
}

/// A closed connection stays closed, whatever is reported to it, and is
/// never told to read or write again.
pub proof fn lemma_closed_is_terminal(event: EventModel)
    ensures
        next(State::Closed, event) == (
            State::Closed,
            ActionModel::Close(CloseReason::OutOfTurn),
        ),
{
}

/// The state after the same bytes were received and answered `n` times in
/// a row on one connection.
pub open spec fn state_after(bytes: Seq<u8>, n: nat) -> State
    decreases n,
{
    if n == 0 {
        State::Reading
    } else {
        let answered = next(state_after(bytes, (n - 1) as nat), EventModel::Received(bytes)).0;
        next(answered, EventModel::Sent).0
    }
}

/// A request that is answered at once is answered with the same bytes
/// however often it is repeated: the connection keeps nothing from one
/// exchange to the next.
pub proof fn lemma_exchange_repeats(bytes: Seq<u8>, n: nat)
    requires
        next(State::Reading, EventModel::Received(bytes)).1 is Send,
    ensures
        state_after(bytes, n) == State::Reading,
        next(state_after(bytes, n), EventModel::Received(bytes)) == next(
            State::Reading,
            EventModel::Received(bytes),
        ),
    decreases n,
{
    if n > 0 {
        lemma_exchange_repeats(bytes, (n - 1) as nat);
    }
}

} // verus!

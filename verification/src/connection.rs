//! The connection: the one owner of the object registry and of the table
//! of pending calls.
//!
//! The connection decides and records; it neither reads nor writes. A
//! call gives back the request to write; a message that came in is
//! dispatched, and the answer says what is to be done with it.

use crate::channel_owner::DisposeReason;
use crate::error::Error;
use crate::json::{json_member, json_strings, member, string_member};
use crate::pending::{PendingCall, PendingCalls, PendingView};
use crate::registry::{
    create_outcome, created, disposed, in_subtree, known, lemma_dispose_removes_subtree, live,
    position, root_alone, well_formed, CreateOutcome, Creation, NodeView, Registry,
};
use crate::text::same;
use serde_json::Value;
use vstd::prelude::*;
use vstd::string::StringExecFns;

verus! {

/// A request to the driver.
#[derive(Debug, Clone, PartialEq)]
pub struct Request {
    /// The id under which the response will come.
    pub id: u32,
    /// The guid of the object that is called.
    pub guid: String,
    /// The method that is called.
    pub method: String,
    /// The arguments, a JSON object.
    pub params: Value,
}

/// What a [`Request`] holds.
pub struct RequestView {
    pub id: u32,
    pub guid: Seq<char>,
    pub method: Seq<char>,
    pub params: Value,
}

impl View for Request {
    type V = RequestView;

    open spec fn view(&self) -> RequestView {
        RequestView { id: self.id, guid: self.guid@, method: self.method@, params: self.params }
    }
}

/// A message from the driver.
#[derive(Debug, PartialEq)]
pub enum Message {
    /// The answer to the request with the id: its result, or the text of
    /// the failure that the driver reports.
    Response { id: u32, result: Result<Value, String> },
    /// An event on the object with the guid.
    Event { guid: String, method: String, params: Value },
}

/// What a [`Message`] holds.
pub enum MessageView {
    Response { id: u32, result: Result<Value, Seq<char>> },
    Event { guid: Seq<char>, method: Seq<char>, params: Value },
}

impl View for Message {
    type V = MessageView;

    open spec fn view(&self) -> MessageView {
        match self {
            Message::Response { id, result } => MessageView::Response {
                id: *id,
                result: match result {
                    Ok(value) => Ok(*value),
                    Err(text) => Err(text@),
                },
            },
            Message::Event { guid, method, params } => MessageView::Event {
                guid: guid@,
                method: method@,
                params: *params,
            },
        }
    }
}

/// What is to be done with a message that was dispatched.
#[derive(Debug, PartialEq)]
pub enum Dispatch {
    /// The call with the id is resolved: hand the outcome to its caller.
    /// A result that was not wanted has been dropped.
    Resolved { id: u32, outcome: Result<Option<Value>, Error> },
    /// An object was created.
    Created,
    /// A creation of a type that is not modelled was ignored.
    Ignored,
    /// An object and its descendants were disposed.
    Disposed,
    /// An event for a present object: hand it to the object.
    Delivered { guid: String, method: String, params: Value },
    /// An event for an object that is not present was dropped.
    Dropped,
}

/// What a connection holds.
pub struct ConnectionView {
    pub objects: Seq<NodeView>,
    pub calls: PendingView,
}

/// The connection to one driver.
pub struct Connection {
    objects: Registry,
    calls: PendingCalls,
}

impl View for Connection {
    type V = ConnectionView;

    closed spec fn view(&self) -> ConnectionView {
        ConnectionView { objects: self.objects@, calls: self.calls@ }
    }
}

/// Why a disposal event disposes: `gc` as the reason means that the
/// driver collected the object; anything else, that it was closed.
pub open spec fn dispose_reason(params: Value) -> DisposeReason {
    if json_strings(params).contains_key("reason"@) && json_strings(params)["reason"@] == "gc"@ {
        DisposeReason::GarbageCollected
    } else {
        DisposeReason::Closed
    }
}

/// The connection after a call on `guid` was asked for: the call waits
/// where the connection is open, the object present and an id left, and
/// nothing changes otherwise.
pub open spec fn after_call(
    state: ConnectionView,
    guid: Seq<char>,
    wants_result: bool,
) -> ConnectionView {
    if !state.calls.closed && live(state.objects, guid) {
        ConnectionView { calls: state.calls.issued(wants_result), ..state }
    } else {
        state
    }
}

/// Whether `made` is the answer owed to a call, and `after` the
/// connection it leaves: `TransportClosed` on a closed connection;
/// `Disposed`, with the guid, for an object that is not present; a
/// protocol error when no id is left; and else the request, under the id
/// that follows the last one given.
pub open spec fn call_answer(
    before: ConnectionView,
    after: ConnectionView,
    guid: Seq<char>,
    method: Seq<char>,
    params: Value,
    wants_result: bool,
    made: Result<Request, Error>,
) -> bool {
    &&& after == after_call(before, guid, wants_result)
    &&& if before.calls.closed {
        made matches Err(Error::TransportClosed)
    } else if !live(before.objects, guid) {
        made matches Err(Error::Disposed(g)) && g@ == guid
    } else if before.calls.last_id == u32::MAX {
        made matches Err(Error::ProtocolError(m)) && m@ == "Request ids exhausted"@
    } else {
        made matches Ok(request) && request@ == (RequestView {
            id: (before.calls.last_id + 1) as u32,
            guid,
            method,
            params,
        })
    }
}

/// The connection after a message was dispatched. On a closed connection
/// nothing changes. A response settles its call. A `__create__` event
/// that names a type and a guid creates the object under the object that
/// the event is addressed to; a `__dispose__` event disposes the object
/// it is addressed to, with its descendants. Nothing else changes
/// anything.
pub open spec fn after_message(state: ConnectionView, message: MessageView) -> ConnectionView {
    if state.calls.closed {
        state
    } else {
        match message {
            MessageView::Response { id, result } => ConnectionView {
                calls: state.calls.settled(id),
                ..state
            },
            MessageView::Event { guid, method, params } => {
                if method == "__create__"@ {
                    if json_strings(params).contains_key("type"@) && json_strings(
                        params,
                    ).contains_key("guid"@) {
                        ConnectionView {
                            objects: created(
                                state.objects,
                                guid,
                                json_strings(params)["type"@],
                                json_strings(params)["guid"@],
                                json_member(params, "initializer"@),
                            ),
                            ..state
                        }
                    } else {
                        state
                    }
                } else if method == "__dispose__"@ {
                    ConnectionView {
                        objects: disposed(state.objects, guid, dispose_reason(params)),
                        ..state
                    }
                } else {
                    state
                }
            },
        }
    }
}

/// Whether `answer` is what dispatching the message gives.
pub open spec fn dispatch_answer(
    state: ConnectionView,
    message: MessageView,
    answer: Result<Dispatch, Error>,
) -> bool {
    if state.calls.closed {
        answer matches Err(Error::TransportClosed)
    } else {
        match message {
            MessageView::Response { id, result } => {
                if state.calls.is_pending(id) {
                    let call = state.calls.calls[state.calls.place(id)];
                    answer matches Ok(Dispatch::Resolved { id: resolved, outcome }) && resolved
                        == id && match result {
                        Ok(value) => outcome == Ok::<Option<Value>, Error>(
                            if call.wants_result {
                                Some(value)
                            } else {
                                None
                            },
                        ),
                        Err(text) => outcome matches Err(Error::RpcError(m)) && m@ == text,
                    }
                } else {
                    answer matches Err(Error::ProtocolError(m)) && m@
                        == "Response to a call that is not pending"@
                }
            },
            MessageView::Event { guid, method, params } => {
                if method == "__create__"@ {
                    if !json_strings(params).contains_key("type"@) {
                        answer matches Err(Error::ProtocolError(m)) && m@
                            == "__create__ missing 'type' field"@
                    } else if !json_strings(params).contains_key("guid"@) {
                        answer matches Err(Error::ProtocolError(m)) && m@
                            == "__create__ missing 'guid' field"@
                    } else {
                        match create_outcome(
                            state.objects,
                            guid,
                            json_strings(params)["type"@],
                            json_strings(params)["guid"@],
                            json_member(params, "initializer"@),
                        ) {
                            CreateOutcome::Ignored => answer matches Ok(Dispatch::Ignored),
                            CreateOutcome::Refused(text) => answer matches Err(
                                Error::ProtocolError(m),
                            ) && m@ == text,
                            CreateOutcome::Inserted(_) => answer matches Ok(Dispatch::Created),
                        }
                    }
                } else if method == "__dispose__"@ {
                    if live(state.objects, guid) {
                        answer matches Ok(Dispatch::Disposed)
                    } else {
                        answer matches Ok(Dispatch::Dropped)
                    }
                } else if live(state.objects, guid) {
                    answer matches Ok(Dispatch::Delivered { guid: g, method: m, params: p }) && g@
                        == guid && m@ == method && p == params
                } else {
                    answer matches Ok(Dispatch::Dropped)
                }
            },
        }
    }
}

/// No call on an object that was disposed goes out: once a `__dispose__`
/// event for a present object has been dispatched, a call on the object,
/// or on any object that was in its subtree, is answered with `Disposed`
/// and leaves no trace.
pub proof fn lemma_no_call_after_dispose(
    state: ConnectionView,
    guid: Seq<char>,
    params: Value,
    target: Seq<char>,
    method: Seq<char>,
    arguments: Value,
    wants_result: bool,
    next: ConnectionView,
    made: Result<Request, Error>,
)
    requires
        well_formed(state.objects),
        !state.calls.closed,
        live(state.objects, guid),
        known(state.objects, target),
        in_subtree(state.objects, position(state.objects, target), position(state.objects, guid)),
        call_answer(
            after_message(
                state,
                MessageView::Event { guid, method: "__dispose__"@, params },
            ),
            next,
            target,
            method,
            arguments,
            wants_result,
            made,
        ),
    ensures
        made matches Err(Error::Disposed(g)) && g@ == target,
        next == after_message(state, MessageView::Event { guid, method: "__dispose__"@, params }),
{
    reveal_strlit("__dispose__");
    reveal_strlit("__create__");
    assert("__dispose__"@[2] == 'd');
    assert("__create__"@[2] == 'c');
    lemma_dispose_removes_subtree(state.objects, guid, dispose_reason(params), target);
}

impl Connection {
    /// Whether the connection is as every operation leaves it.
    pub closed spec fn wf(&self) -> bool {
        self.objects.wf() && self.calls.wf()
    }

    /// Every connection that operations have left holds a well-formed
    /// registry and a well-formed table of calls.
    pub proof fn lemma_wf(&self)
        requires
            self.wf(),
        ensures
            crate::registry::well_formed(self@.objects),
            self@.calls.well_formed(),
    {
        self.objects.lemma_wf();
    }

    /// A connection that has just been opened: the registry holds the
    /// root alone, and no call waits.
    pub fn new() -> (connection: Connection)
        ensures
            connection.wf(),
            connection@.calls == (PendingView { calls: Seq::empty(), last_id: 0, closed: false }),
            root_alone(connection@.objects),
    {
        Connection { objects: Registry::new(), calls: PendingCalls::new() }
    }

    /// The registry of the connection.
    pub fn objects(&self) -> (objects: &Registry)
        requires
            self.wf(),
        ensures
            objects.wf(),
            objects@ == self@.objects,
    {
        &self.objects
    }

    /// The table of pending calls of the connection.
    pub fn calls(&self) -> (calls: &PendingCalls)
        requires
            self.wf(),
        ensures
            calls.wf(),
            calls@ == self@.calls,
    {
        &self.calls
    }

    /// Whether the connection has been closed.
    pub fn is_closed(&self) -> (closed: bool)
        ensures
            closed == self@.calls.closed,
    {
        self.calls.is_closed()
    }

    /// Issues a call of `method` on the object `guid`: see
    /// [`call_answer`]. A call that fails leaves no trace.
    pub fn call(&mut self, guid: &str, method: &str, params: Value, wants_result: bool) -> (made:
        Result<Request, Error>)
        requires
            old(self).wf(),
        ensures
            final(self).wf(),
            call_answer(old(self)@, final(self)@, guid@, method@, params, wants_result, made),
    {
        if self.calls.is_closed() {
            return Err(Error::TransportClosed);
        }
        if !self.objects.contains(guid) {
            return Err(Error::Disposed(guid.to_owned()));
        }
        match self.calls.issue(wants_result) {
            Ok(id) => Ok(Request { id, guid: guid.to_owned(), method: method.to_owned(), params }),
            Err(error) => Err(error),
        }
    }

    /// Dispatches a message from the driver: see [`after_message`] for
    /// what it does to the connection and [`dispatch_answer`] for what is
    /// to be done with it. A message that is refused changes nothing.
    pub fn dispatch(&mut self, message: Message) -> (answer: Result<Dispatch, Error>)
        requires
            old(self).wf(),
        ensures
            final(self).wf(),
            final(self)@ == after_message(old(self)@, message@),
            dispatch_answer(old(self)@, message@, answer),
    {
        if self.calls.is_closed() {
            return Err(Error::TransportClosed);
        }
        match message {
            Message::Response { id, result } => match self.calls.settle(id) {
                Some(call) => Ok(Dispatch::Resolved { id, outcome: resolve(call, result) }),
                None => Err(
                    Error::ProtocolError(String::from_str("Response to a call that is not pending")),
                ),
            },
            Message::Event { guid, method, params } => {
                if same(method.as_str(), "__create__") {
                    let type_tag = match string_member(&params, "type") {
                        Some(type_tag) => type_tag.to_owned(),
                        None => {
                            return Err(
                                Error::ProtocolError(
                                    String::from_str("__create__ missing 'type' field"),
                                ),
                            );
                        },
                    };
                    let new_guid = match string_member(&params, "guid") {
                        Some(new_guid) => new_guid.to_owned(),
                        None => {
                            return Err(
                                Error::ProtocolError(
                                    String::from_str("__create__ missing 'guid' field"),
                                ),
                            );
                        },
                    };
                    let initializer = member(&params, "initializer").clone();
                    match self.objects.create(guid.as_str(), type_tag, new_guid, initializer) {
                        Ok(Creation::Inserted) => Ok(Dispatch::Created),
                        Ok(Creation::Ignored) => Ok(Dispatch::Ignored),
                        Err(error) => Err(error),
                    }
                } else if same(method.as_str(), "__dispose__") {
                    let reason = match string_member(&params, "reason") {
                        Some(reason) => if same(reason, "gc") {
                            DisposeReason::GarbageCollected
                        } else {
                            DisposeReason::Closed
                        },
                        None => DisposeReason::Closed,
                    };
                    if self.objects.dispose(guid.as_str(), reason) {
                        Ok(Dispatch::Disposed)
                    } else {
                        Ok(Dispatch::Dropped)
                    }
                } else if self.objects.contains(guid.as_str()) {
                    Ok(Dispatch::Delivered { guid, method, params })
                } else {
                    Ok(Dispatch::Dropped)
                }
            },
        }
    }

    /// Closes the connection, as when the transport fails: resolves every
    /// call that waits, each once and in the order of issue, with
    /// `TransportClosed`, and disposes every object. Afterwards nothing
    /// waits, nothing is present, and every call and every message is
    /// answered with `TransportClosed`. Closing again resolves nothing.
    pub fn close(&mut self) -> (failed: Vec<Dispatch>)
        requires
            old(self).wf(),
        ensures
            final(self).wf(),
            failed@.len() == old(self)@.calls.calls.len(),
            forall|i: int|
                0 <= i < failed@.len() ==> #[trigger] failed@[i] == (Dispatch::Resolved {
                    id: old(self)@.calls.calls[i].id,
                    outcome: Err(Error::TransportClosed),
                }),
            final(self)@.calls == old(self)@.calls.shut(),
            final(self)@.objects.len() == old(self)@.objects.len(),
            forall|i: int|
                0 <= i < old(self)@.objects.len() ==> #[trigger] final(self)@.objects[i] == old(
                    self,
                )@.objects[i].retired(DisposeReason::Closed),
    {
        self.objects.teardown();
        let ghost waiting = self@.calls;
        let ids = self.calls.close();
        let mut failed: Vec<Dispatch> = Vec::new();
        let mut i: usize = 0;
        while i < ids.len()
            invariant
                i <= ids.len(),
                ids@ == waiting.ids(),
                failed@.len() == i,
                forall|k: int|
                    0 <= k < i ==> #[trigger] failed@[k] == (Dispatch::Resolved {
                        id: waiting.calls[k].id,
                        outcome: Err(Error::TransportClosed),
                    }),
            decreases ids.len() - i,
        {
            failed.push(Dispatch::Resolved { id: ids[i], outcome: Err(Error::TransportClosed) });
            i += 1;
        }
        failed
    }
}

/// The outcome that the caller of a settled call gets: the result, if it
/// was wanted, or the driver's failure as an `RpcError`.
pub fn resolve(call: PendingCall, result: Result<Value, String>) -> (outcome: Result<
    Option<Value>,
    Error,
>)
    ensures
        match result {
            Ok(value) => outcome == Ok::<Option<Value>, Error>(
                if call.wants_result {
                    Some(value)
                } else {
                    None
                },
            ),
            Err(text) => outcome matches Err(Error::RpcError(m)) && m@ == text@,
        },
{
    match result {
        Ok(value) => if call.wants_result {
            Ok(Some(value))
        } else {
            Ok(None)
        },
        Err(text) => Err(Error::RpcError(text)),
    }
}

} // verus!

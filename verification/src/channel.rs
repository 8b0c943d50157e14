//! Channels: the way calls are issued on behalf of one remote object.

use crate::connection::{call_answer, Connection, Request};
use crate::error::Error;
use serde_json::Value;
use vstd::prelude::*;

verus! {

/// The channel of one remote object: calls sent through it are addressed
/// to the object's guid.
#[derive(Debug, Clone, PartialEq, Eq)]
pub struct Channel {
    guid: String,
}

impl View for Channel {
    type V = Seq<char>;

    closed spec fn view(&self) -> Seq<char> {
        self.guid@
    }
}

impl Channel {
    /// The channel of the object with the guid.
    pub fn new(guid: String) -> (channel: Channel)
        ensures
            channel@ == guid@,
    {
        Channel { guid }
    }

    /// The guid that the channel addresses.
    pub fn guid(&self) -> (guid: &str)
        ensures
            guid@ == self@,
    {
        self.guid.as_str()
    }

    /// Issues a call of `method` on the object, for its result: the
    /// request to write, under a fresh id that now waits for its
    /// response. Nothing is issued on a closed connection or for an
    /// object that is not present.
    pub fn send(&self, connection: &mut Connection, method: &str, params: Value) -> (made: Result<
        Request,
        Error,
    >)
        requires
            old(connection).wf(),
        ensures
            final(connection).wf(),
            call_answer(old(connection)@, final(connection)@, self@, method@, params, true, made),
    {
        connection.call(self.guid.as_str(), method, params, true)
    }

    /// Issues a call of `method` on the object for which no result is
    /// wanted: as `send`, but what the driver answers with is dropped
    /// when the response comes, and only success or failure is handed on.
    pub fn send_no_result(&self, connection: &mut Connection, method: &str, params: Value) -> (made:
        Result<Request, Error>)
        requires
            old(connection).wf(),
        ensures
            final(connection).wf(),
            call_answer(old(connection)@, final(connection)@, self@, method@, params, false, made),
    {
        connection.call(self.guid.as_str(), method, params, false)
    }
}

} // verus!

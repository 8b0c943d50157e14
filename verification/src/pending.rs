//! The table of pending calls: the ids of the requests that have been
//! issued and not yet answered.
//!
//! Ids are given in rising order, beginning with 1, and never given again,
//! so a call is settled once: by its response, or by the closing of the
//! connection.

use crate::error::Error;
use vstd::prelude::*;
use vstd::string::StringExecFns;

verus! {

/// A call that waits for its response.
#[derive(Debug, Clone, Copy, PartialEq, Eq, Structural)]
pub struct PendingCall {
    /// The id of the request.
    pub id: u32,
    /// Whether the caller wants the result, or only to know that the call
    /// went well.
    pub wants_result: bool,
}

/// The table of one connection.
#[derive(Debug)]
pub struct PendingCalls {
    calls: Vec<PendingCall>,
    last_id: u32,
    closed: bool,
}

/// What a [`PendingCalls`] holds.
pub struct PendingView {
    /// The calls that wait, in the order in which they were issued.
    pub calls: Seq<PendingCall>,
    /// The id that was given last; 0 before the first.
    pub last_id: u32,
    /// Whether the connection has been closed.
    pub closed: bool,
}

impl PendingView {
    /// Whether a call with the id waits for its response.
    pub open spec fn is_pending(self, id: u32) -> bool {
        exists|i: int| 0 <= i < self.calls.len() && (#[trigger] self.calls[i]).id == id
    }

    /// The place of the call with the id among the calls that wait.
    pub open spec fn place(self, id: u32) -> int {
        choose|i: int| 0 <= i < self.calls.len() && (#[trigger] self.calls[i]).id == id
    }

    /// What the table keeps true: the ids that wait differ from each
    /// other, none is 0 or above the last id given, and nothing waits
    /// once the connection is closed.
    pub open spec fn well_formed(self) -> bool {
        &&& forall|i: int, j: int|
            0 <= i < j < self.calls.len() ==> (#[trigger] self.calls[i]).id != (
            #[trigger] self.calls[j]).id
        &&& forall|i: int|
            0 <= i < self.calls.len() ==> 1 <= (#[trigger] self.calls[i]).id <= self.last_id
        &&& self.closed ==> self.calls.len() == 0
    }

    /// Whether a new call can be issued: the connection is open and an id
    /// is left.
    pub open spec fn can_issue(self) -> bool {
        !self.closed && self.last_id < u32::MAX
    }

    /// The table after a call is issued: it waits under the next id.
    /// Where none can be issued, the table stays as it is.
    pub open spec fn issued(self, wants_result: bool) -> PendingView {
        if self.can_issue() {
            let id = (self.last_id + 1) as u32;
            PendingView {
                calls: self.calls.push(PendingCall { id, wants_result }),
                last_id: id,
                closed: self.closed,
            }
        } else {
            self
        }
    }

    /// The table after the call with the id is settled: it waits no
    /// longer. Where no such call waits, the table stays as it is.
    pub open spec fn settled(self, id: u32) -> PendingView {
        if self.is_pending(id) {
            PendingView { calls: self.calls.remove(self.place(id)), ..self }
        } else {
            self
        }
    }

    /// The table after the connection is closed: nothing waits.
    pub open spec fn shut(self) -> PendingView {
        PendingView { calls: Seq::empty(), last_id: self.last_id, closed: true }
    }

    /// The ids of the calls that wait, in the order of issue.
    pub open spec fn ids(self) -> Seq<u32> {
        Seq::new(self.calls.len(), |i: int| self.calls[i].id)
    }
}

impl View for PendingCalls {
    type V = PendingView;

    closed spec fn view(&self) -> PendingView {
        PendingView { calls: self.calls@, last_id: self.last_id, closed: self.closed }
    }
}

/// In a well-formed table an id waits at one place only.
pub proof fn lemma_place_unique(table: PendingView, id: u32, i: int)
    requires
        table.well_formed(),
        0 <= i < table.calls.len(),
        table.calls[i].id == id,
    ensures
        table.is_pending(id),
        table.place(id) == i,
{
}

/// Settling a call leaves the table well-formed, takes the id out of it
/// and leaves every other call waiting.
pub proof fn lemma_settled_keeps(table: PendingView, id: u32)
    requires
        table.well_formed(),
    ensures
        table.settled(id).well_formed(),
        !table.settled(id).is_pending(id),
        forall|other: u32|
            other != id ==> #[trigger] table.settled(id).is_pending(other) == table.is_pending(
                other,
            ),
{
    let after = table.settled(id);
    if table.is_pending(id) {
        let at = table.place(id);
        assert forall|i: int| 0 <= i < after.calls.len() implies (#[trigger] after.calls[i])
            == table.calls[if i < at {
            i
        } else {
            i + 1
        }] by {}
        assert forall|i: int, j: int| 0 <= i < j < after.calls.len() implies (
        #[trigger] after.calls[i]).id != (#[trigger] after.calls[j]).id by {
            let a = if i < at {
                i
            } else {
                i + 1
            };
            let b = if j < at {
                j
            } else {
                j + 1
            };
            assert(table.calls[a].id != table.calls[b].id);
        }
        assert forall|i: int| 0 <= i < after.calls.len() implies 1 <= (
        #[trigger] after.calls[i]).id <= after.last_id by {
            let a = if i < at {
                i
            } else {
                i + 1
            };
            assert(1 <= table.calls[a].id <= table.last_id);
        }
        if after.is_pending(id) {
            let i = after.place(id);
            let a = if i < at {
                i
            } else {
                i + 1
            };
            assert(table.calls[a].id == id);
            assert(a != at);
            if a < at {
                assert(table.calls[a].id != table.calls[at].id);
            } else {
                assert(table.calls[at].id != table.calls[a].id);
            }
        }
        assert forall|other: u32| other != id implies #[trigger] after.is_pending(other)
            == table.is_pending(other) by {
            if table.is_pending(other) {
                let a = table.place(other);
                let i = if a < at {
                    a
                } else {
                    a - 1
                };
                assert(after.calls[i].id == other);
            }
            if after.is_pending(other) {
                let i = after.place(other);
                let a = if i < at {
                    i
                } else {
                    i + 1
                };
                assert(table.calls[a].id == other);
            }
        }
    }
}

impl PendingCalls {
    /// Whether the table is as every operation leaves it.
    pub open spec fn wf(&self) -> bool {
        self@.well_formed()
    }

    /// The table of a connection that has just been opened: nothing
    /// waits, and no id has been given.
    pub fn new() -> (table: PendingCalls)
        ensures
            table.wf(),
            table@ == (PendingView { calls: Seq::empty(), last_id: 0, closed: false }),
    {
        PendingCalls { calls: Vec::new(), last_id: 0, closed: false }
    }

    /// Whether the connection has been closed.
    pub fn is_closed(&self) -> (closed: bool)
        ensures
            closed == self@.closed,
    {
        self.closed
    }

    /// How many calls wait.
    pub fn len(&self) -> (n: usize)
        ensures
            n == self@.calls.len(),
    {
        self.calls.len()
    }

    fn find(&self, id: u32) -> (found: Option<usize>)
        ensures
            match found {
                Some(i) => i < self@.calls.len() && self@.calls[i as int].id == id,
                None => !self@.is_pending(id),
            },
    {
        let mut i: usize = 0;
        while i < self.calls.len()
            invariant
                i <= self.calls.len(),
                forall|k: int| 0 <= k < i ==> (#[trigger] self@.calls[k]).id != id,
            decreases self.calls.len() - i,
        {
            if self.calls[i].id == id {
                return Some(i);
            }
            i += 1;
        }
        None
    }

    /// Whether a call with the id waits for its response.
    pub fn is_pending(&self, id: u32) -> (waits: bool)
        ensures
            waits == self@.is_pending(id),
    {
        self.find(id).is_some()
    }

    /// Issues a call: gives it the next id and lets it wait. Fails with
    /// `TransportClosed` once the connection is closed, and with a
    /// protocol error when every id has been given; the table then stays
    /// as it is.
    pub fn issue(&mut self, wants_result: bool) -> (issued: Result<u32, Error>)
        requires
            old(self).wf(),
        ensures
            final(self).wf(),
            final(self)@ == old(self)@.issued(wants_result),
            match issued {
                Ok(id) => old(self)@.can_issue() && id == old(self)@.last_id + 1,
                Err(Error::TransportClosed) => old(self)@.closed,
                Err(Error::ProtocolError(m)) => !old(self)@.closed && old(self)@.last_id
                    == u32::MAX && m@ == "Request ids exhausted"@,
                Err(_) => false,
            },
    {
        if self.closed {
            return Err(Error::TransportClosed);
        }
        if self.last_id == u32::MAX {
            return Err(Error::ProtocolError(String::from_str("Request ids exhausted")));
        }
        let id = self.last_id + 1;
        self.calls.push(PendingCall { id, wants_result });
        self.last_id = id;
        Ok(id)
    }

    /// Settles the call with the id: it waits no longer, and what it
    /// waited for is handed back. `None`, and no change, where no call
    /// with the id waits.
    pub fn settle(&mut self, id: u32) -> (call: Option<PendingCall>)
        requires
            old(self).wf(),
        ensures
            final(self).wf(),
            final(self)@ == old(self)@.settled(id),
            match call {
                Some(call) => old(self)@.is_pending(id) && call == old(self)@.calls[old(
                    self,
                )@.place(id)],
                None => !old(self)@.is_pending(id),
            },
    {
        proof {
            lemma_settled_keeps(self@, id);
        }
        match self.find(id) {
            Some(i) => {
                proof {
                    lemma_place_unique(self@, id, i as int);
                }
                Some(self.calls.remove(i))
            },
            None => None,
        }
    }

    /// Closes the table: hands out the id of every call that waits, each
    /// once and in the order of issue, so that each can be failed, and
    /// lets nothing wait. Closing again hands out nothing.
    pub fn close(&mut self) -> (failed: Vec<u32>)
        requires
            old(self).wf(),
        ensures
            final(self).wf(),
            final(self)@ == old(self)@.shut(),
            failed@ == old(self)@.ids(),
    {
        let mut failed: Vec<u32> = Vec::new();
        let mut i: usize = 0;
        while i < self.calls.len()
            invariant
                i <= self.calls.len(),
                failed@.len() == i,
                forall|k: int| 0 <= k < i ==> #[trigger] failed@[k] == self@.calls[k].id,
            decreases self.calls.len() - i,
        {
            failed.push(self.calls[i].id);
            i += 1;
        }
        proof {
            assert(failed@ =~= self@.ids());
        }
        self.calls = Vec::new();
        self.closed = true;
        failed
    }
}

/// What can happen to the table.
pub enum CallEvent {
    /// A call is issued.
    Issue { wants_result: bool },
    /// The response for an id comes in.
    Settle { id: u32 },
    /// The connection is closed.
    Close,
}

/// The table after one event.
pub open spec fn after(table: PendingView, event: CallEvent) -> PendingView {
    match event {
        CallEvent::Issue { wants_result } => table.issued(wants_result),
        CallEvent::Settle { id } => table.settled(id),
        CallEvent::Close => table.shut(),
    }
}

/// The table after the first `k` events of a run.
pub open spec fn after_run(table: PendingView, events: Seq<CallEvent>, k: nat) -> PendingView
    decreases k,
{
    if k == 0 {
        table
    } else {
        after(after_run(table, events, (k - 1) as nat), events[k - 1])
    }
}

/// Whether event `k` of the run resolves the call with the id: it waited
/// before the event and does not wait after it.
pub open spec fn resolved_at(table: PendingView, events: Seq<CallEvent>, k: nat, id: u32) -> bool {
    &&& k < events.len()
    &&& after_run(table, events, k).is_pending(id)
    &&& !after_run(table, events, k + 1).is_pending(id)
}

/// One event leaves the table well-formed, and gives no id that was given
/// before: an id up to the last that does not wait stays so.
pub proof fn lemma_event_keeps(table: PendingView, event: CallEvent, id: u32)
    requires
        table.well_formed(),
    ensures
        after(table, event).well_formed(),
        after(table, event).last_id >= table.last_id,
        id <= table.last_id && !table.is_pending(id) ==> !after(table, event).is_pending(id),
{
    let next = after(table, event);
    match event {
        CallEvent::Issue { wants_result } => {
            if table.can_issue() {
                assert forall|i: int, j: int| 0 <= i < j < next.calls.len() implies (
                #[trigger] next.calls[i]).id != (#[trigger] next.calls[j]).id by {
                    if j == table.calls.len() {
                        assert(table.calls[i].id <= table.last_id);
                    } else {
                        assert(table.calls[i].id != table.calls[j].id);
                    }
                }
                assert forall|i: int| 0 <= i < next.calls.len() implies 1 <= (
                #[trigger] next.calls[i]).id <= next.last_id by {
                    if i < table.calls.len() {
                        assert(table.calls[i].id <= table.last_id);
                    }
                }
                if id <= table.last_id && !table.is_pending(id) && next.is_pending(id) {
                    let i = next.place(id);
                    if i < table.calls.len() {
                        assert(table.calls[i].id == id);
                    }
                }
            }
        },
        CallEvent::Settle { id: settled } => {
            lemma_settled_keeps(table, settled);
        },
        CallEvent::Close => {},
    }
}

/// Along a run the table stays well-formed, and an id that has been given
/// and does not wait never waits again.
pub proof fn lemma_run_keeps(
    table: PendingView,
    events: Seq<CallEvent>,
    from: nat,
    to: nat,
    id: u32,
)
    requires
        table.well_formed(),
        from <= to,
    ensures
        after_run(table, events, to).well_formed(),
        after_run(table, events, to).last_id >= after_run(table, events, from).last_id,
        id <= after_run(table, events, from).last_id && !after_run(table, events, from).is_pending(
            id,
        ) ==> !after_run(table, events, to).is_pending(id),
    decreases to,
{
    if to > 0 {
        let earlier = if from < to {
            from
        } else {
            (to - 1) as nat
        };
        lemma_run_keeps(table, events, earlier, (to - 1) as nat, id);
        lemma_event_keeps(after_run(table, events, (to - 1) as nat), events[to - 1], id);
    }
}

/// In every run of calls, responses and closings, no call is resolved
/// twice.
pub proof fn lemma_resolved_at_most_once(
    table: PendingView,
    events: Seq<CallEvent>,
    id: u32,
    first: nat,
    second: nat,
)
    requires
        table.well_formed(),
        resolved_at(table, events, first, id),
        resolved_at(table, events, second, id),
    ensures
        first == second,
{
    if first < second {
        lemma_run_keeps(table, events, 0, first, id);
        let before = after_run(table, events, first);
        assert(before.calls[before.place(id)].id <= before.last_id);
        lemma_run_keeps(table, events, first, first + 1, id);
        lemma_run_keeps(table, events, first + 1, second, id);
    }
    if second < first {
        lemma_run_keeps(table, events, 0, second, id);
        let before = after_run(table, events, second);
        assert(before.calls[before.place(id)].id <= before.last_id);
        lemma_run_keeps(table, events, second, second + 1, id);
        lemma_run_keeps(table, events, second + 1, first, id);
    }
}

/// Closing resolves every call that waits, each once: the ids handed out
/// are those that waited, no id among them twice, and afterwards no call
/// waits and none can be issued.
pub proof fn lemma_close_fails_each_once(table: PendingView, id: u32)
    requires
        table.well_formed(),
    ensures
        table.is_pending(id) <==> table.ids().contains(id),
        table.ids().no_duplicates(),
        !table.shut().is_pending(id),
        !table.shut().can_issue(),
        table.shut().settled(id) == table.shut(),
{
    let ids = table.ids();
    if table.is_pending(id) {
        assert(ids[table.place(id)] == id);
    }
    if ids.contains(id) {
        let i = choose|i: int| 0 <= i < ids.len() && ids[i] == id;
        assert(table.calls[i].id == id);
    }
    assert forall|i: int, j: int| 0 <= i < ids.len() && 0 <= j < ids.len() && i != j implies ids[i]
        != ids[j] by {
        if i < j {
            assert(table.calls[i].id != table.calls[j].id);
        } else {
            assert(table.calls[j].id != table.calls[i].id);
        }
    }
}

} // verus!

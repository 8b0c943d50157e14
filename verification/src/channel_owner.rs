//! What every remote object has: its guid, its type, where it hangs in the
//! tree, and the payload it was created with.

use crate::channel::Channel;
use serde_json::Value;
use vstd::prelude::*;

verus! {

/// Where a remote object hangs: under another object, or directly under
/// the connection.
#[derive(Debug, Clone, PartialEq, Eq)]
pub enum ParentOrConnection {
    /// Under the object with this guid.
    Parent(String),
    /// Directly under the connection: the root of the tree.
    Connection,
}

/// Why an object was disposed.
#[derive(Debug, Clone, Copy, PartialEq, Eq, Structural)]
pub enum DisposeReason {
    /// The object was closed or its owner went away.
    Closed,
    /// The driver collected the object.
    GarbageCollected,
}

/// What a [`ChannelOwnerImpl`] holds.
pub struct ChannelOwnerView {
    pub guid: Seq<char>,
    pub type_tag: Seq<char>,
    /// The guid of the parent; `None` for the root.
    pub parent: Option<Seq<char>>,
    pub initializer: Value,
}

/// The base of every remote object.
#[derive(Debug, Clone)]
pub struct ChannelOwnerImpl {
    channel: Channel,
    type_tag: String,
    parent: ParentOrConnection,
    initializer: Value,
}

impl View for ParentOrConnection {
    type V = Option<Seq<char>>;

    open spec fn view(&self) -> Option<Seq<char>> {
        match self {
            ParentOrConnection::Parent(guid) => Some(guid@),
            ParentOrConnection::Connection => None,
        }
    }
}

impl View for ChannelOwnerImpl {
    type V = ChannelOwnerView;

    closed spec fn view(&self) -> ChannelOwnerView {
        ChannelOwnerView {
            guid: self.channel@,
            type_tag: self.type_tag@,
            parent: self.parent@,
            initializer: self.initializer,
        }
    }
}

impl ChannelOwnerImpl {
    /// The base of an object as its creation describes it. The payload is
    /// kept as it came and never changed.
    pub fn new(
        parent: ParentOrConnection,
        type_tag: String,
        guid: String,
        initializer: Value,
    ) -> (base: ChannelOwnerImpl)
        ensures
            base@ == (ChannelOwnerView {
                guid: guid@,
                type_tag: type_tag@,
                parent: parent@,
                initializer,
            }),
    {
        ChannelOwnerImpl { channel: Channel::new(guid), type_tag, parent, initializer }
    }

    /// The guid that the driver gave the object.
    pub fn guid(&self) -> (guid: &str)
        ensures
            guid@ == self@.guid,
    {
        self.channel.guid()
    }

    /// The channel through which calls on the object are issued.
    pub fn channel(&self) -> (channel: &Channel)
        ensures
            channel@ == self@.guid,
    {
        &self.channel
    }

    /// The name of the object's type in the protocol.
    pub fn type_tag(&self) -> (type_tag: &str)
        ensures
            type_tag@ == self@.type_tag,
    {
        self.type_tag.as_str()
    }

    /// The guid of the parent that the object was created under, or `None`
    /// for the root.
    pub fn parent(&self) -> (parent: Option<&str>)
        ensures
            match parent {
                Some(guid) => self@.parent == Some(guid@),
                None => self@.parent is None,
            },
    {
        match &self.parent {
            ParentOrConnection::Parent(guid) => Some(guid.as_str()),
            ParentOrConnection::Connection => None,
        }
    }

    /// Hangs the object under another parent.
    pub(crate) fn set_parent(&mut self, parent: String)
        ensures
            final(self)@ == (ChannelOwnerView { parent: Some(parent@), ..old(self)@ }),
    {
        self.parent = ParentOrConnection::Parent(parent);
    }

    /// The payload that the object was created with.
    pub fn initializer(&self) -> (initializer: &Value)
        ensures
            *initializer == self@.initializer,
    {
        &self.initializer
    }
}

} // verus!

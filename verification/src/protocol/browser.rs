//! The browser object: a running browser that the driver launched.

use crate::channel::Channel;
use crate::channel_owner::{ChannelOwnerImpl, ChannelOwnerView, ParentOrConnection};
use crate::connection::{after_call, Connection, Request};
use crate::error::Error;
use crate::json::{empty_object, json_strings, json_text, string_member};
use crate::registry::live;
use serde_json::Value;
use vstd::prelude::*;
use vstd::string::StringExecFns;

verus! {

/// What a [`Browser`] holds.
pub struct BrowserView {
    pub base: ChannelOwnerView,
    pub version: Seq<char>,
    pub name: Seq<char>,
}

/// A browser instance. It is made when the driver announces it and names
/// its version and its name.
#[derive(Debug, Clone)]
pub struct Browser {
    base: ChannelOwnerImpl,
    version: String,
    name: String,
}

impl View for Browser {
    type V = BrowserView;

    closed spec fn view(&self) -> BrowserView {
        BrowserView { base: self.base@, version: self.version@, name: self.name@ }
    }
}

impl Browser {
    /// The browser that a creation message describes: `parent` is the guid
    /// of the browser type it was launched from. The initializer has to
    /// hold the strings `version` and `name`; where one is missing the
    /// message is refused as a protocol error, `version` being looked for
    /// first.
    pub fn new(parent: String, type_tag: String, guid: String, initializer: Value) -> (made: Result<
        Browser,
        Error,
    >)
        ensures
            match made {
                Ok(browser) => {
                    &&& json_strings(initializer).contains_key("version"@)
                    &&& json_strings(initializer).contains_key("name"@)
                    &&& browser@ == (BrowserView {
                        base: ChannelOwnerView {
                            guid: guid@,
                            type_tag: type_tag@,
                            parent: Some(parent@),
                            initializer,
                        },
                        version: json_strings(initializer)["version"@],
                        name: json_strings(initializer)["name"@],
                    })
                },
                Err(Error::ProtocolError(m)) => {
                    if json_strings(initializer).contains_key("version"@) {
                        &&& !json_strings(initializer).contains_key("name"@)
                        &&& m@ == "Browser initializer missing 'name' field"@
                    } else {
                        m@ == "Browser initializer missing 'version' field"@
                    }
                },
                Err(_) => false,
            },
    {
        let version = match string_member(&initializer, "version") {
            Some(version) => version.to_owned(),
            None => {
                return Err(
                    Error::ProtocolError(
                        String::from_str("Browser initializer missing 'version' field"),
                    ),
                );
            },
        };
        let name = match string_member(&initializer, "name") {
            Some(name) => name.to_owned(),
            None => {
                return Err(
                    Error::ProtocolError(
                        String::from_str("Browser initializer missing 'name' field"),
                    ),
                );
            },
        };
        let base = ChannelOwnerImpl::new(
            ParentOrConnection::Parent(parent),
            type_tag,
            guid,
            initializer,
        );
        Ok(Browser { base, version, name })
    }

    /// The base of the browser.
    pub fn base(&self) -> (base: &ChannelOwnerImpl)
        ensures
            base@ == self@.base,
    {
        &self.base
    }

    /// Hangs the browser under another parent.
    pub(crate) fn set_parent(&mut self, parent: String)
        ensures
            final(self)@ == (BrowserView {
                base: ChannelOwnerView { parent: Some(parent@), ..old(self)@.base },
                ..old(self)@
            }),
    {
        self.base.set_parent(parent);
    }

    /// The version of the browser.
    pub fn version(&self) -> (version: &str)
        ensures
            version@ == self@.version,
    {
        self.version.as_str()
    }

    /// The name of the browser, such as `chromium`.
    pub fn name(&self) -> (name: &str)
        ensures
            name@ == self@.name,
    {
        self.name.as_str()
    }

    /// The guid of the browser.
    pub fn guid(&self) -> (guid: &str)
        ensures
            guid@ == self@.base.guid,
    {
        self.base.guid()
    }

    /// The name of the browser's type in the protocol.
    pub fn type_tag(&self) -> (type_tag: &str)
        ensures
            type_tag@ == self@.base.type_tag,
    {
        self.base.type_tag()
    }

    /// The guid of the browser type that the browser was launched from.
    pub fn parent(&self) -> (parent: Option<&str>)
        ensures
            match parent {
                Some(guid) => self@.base.parent == Some(guid@),
                None => self@.base.parent is None,
            },
    {
        self.base.parent()
    }

    /// The payload that the browser was created with.
    pub fn initializer(&self) -> (initializer: &Value)
        ensures
            *initializer == self@.base.initializer,
    {
        self.base.initializer()
    }

    /// The channel through which calls on the browser are issued.
    pub fn channel(&self) -> (channel: &Channel)
        ensures
            channel@ == self@.base.guid,
    {
        self.base.channel()
    }

    /// Asks the driver to close the browser and all its pages: issues the
    /// call `close` with an empty object as its arguments, for which no
    /// result is wanted. Fails with `TransportClosed` on a closed
    /// connection and with `Disposed` once the browser is not present,
    /// and then issues nothing.
    pub fn close(&self, connection: &mut Connection) -> (made: Result<Request, Error>)
        requires
            old(connection).wf(),
        ensures
            final(connection).wf(),
            final(connection)@ == after_call(old(connection)@, self@.base.guid, false),
            if old(connection)@.calls.closed {
                made matches Err(Error::TransportClosed)
            } else if !live(old(connection)@.objects, self@.base.guid) {
                made matches Err(Error::Disposed(g)) && g@ == self@.base.guid
            } else if old(connection)@.calls.last_id == u32::MAX {
                made matches Err(Error::ProtocolError(m)) && m@ == "Request ids exhausted"@
            } else {
                &&& made matches Ok(request)
                &&& request.id == old(connection)@.calls.last_id + 1
                &&& request.guid@ == self@.base.guid
                &&& request.method@ == "close"@
                &&& json_text(request.params) == "{}"@
            },
    {
        self.channel().send_no_result(connection, "close", empty_object())
    }
}

} // verus!

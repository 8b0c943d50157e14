//! The wire format: how a request is written as JSON, and how the JSON of
//! a message from the driver is read.
//!
//! A request is the object `{"id":…,"guid":…,"method":…,"params":…}`. A
//! message with an `id` is a response: it carries a `result`, or an
//! `error` with a `message`. Any other message is an event, and names a
//! `guid` and a `method` and carries `params`.

use crate::connection::{Message, MessageView, Request, RequestView};
use crate::error::Error;
use crate::json::{
    fault_text, json_fault_text, json_is_null, json_member, json_numbers, json_parsed,
    json_quoted, json_strings, json_text, member, number_member, parse, quoted, string_member,
    text_of,
};
use crate::text::{decimal, decimal_text};
use serde_json::Error as JsonFault;
use serde_json::Value;
use vstd::prelude::*;
use vstd::string::StringExecFns;

verus! {

/// The JSON text of a request.
pub open spec fn request_text(request: RequestView) -> Seq<char> {
    "{\"id\":"@ + decimal_text(request.id as nat) + ",\"guid\":"@ + json_quoted(request.guid)
        + ",\"method\":"@ + json_quoted(request.method) + ",\"params\":"@ + json_text(
        request.params,
    ) + "}"@
}

/// What a JSON value is as a message: the message, or the text of the
/// protocol error that refuses it.
pub open spec fn decoded(value: Value) -> Result<MessageView, Seq<char>> {
    if json_numbers(value).contains_key("id"@) {
        let id = json_numbers(value)["id"@];
        let error = json_member(value, "error"@);
        if id > u32::MAX {
            Err("Response id out of range"@)
        } else if json_is_null(error) {
            Ok(MessageView::Response { id: id as u32, result: Ok(json_member(value, "result"@)) })
        } else if json_strings(error).contains_key("message"@) {
            Ok(
                MessageView::Response {
                    id: id as u32,
                    result: Err(json_strings(error)["message"@]),
                },
            )
        } else {
            Err("Response error missing 'message' field"@)
        }
    } else if !json_strings(value).contains_key("guid"@) {
        Err("Message missing 'guid' field"@)
    } else if !json_strings(value).contains_key("method"@) {
        Err("Message missing 'method' field"@)
    } else {
        Ok(
            MessageView::Event {
                guid: json_strings(value)["guid"@],
                method: json_strings(value)["method"@],
                params: json_member(value, "params"@),
            },
        )
    }
}

/// What the outcome of parsing a payload is as a message: the message
/// that the value is, or the text of the protocol error that refuses the
/// payload.
pub open spec fn read(parsed: Result<Value, JsonFault>) -> Result<MessageView, Seq<char>> {
    match parsed {
        Ok(value) => decoded(value),
        Err(fault) => Err("Malformed JSON: "@ + json_fault_text(fault)),
    }
}

/// Whether `made` is the message, or the protocol error, that `wanted`
/// asks for.
pub open spec fn message_is(
    made: Result<Message, Error>,
    wanted: Result<MessageView, Seq<char>>,
) -> bool {
    match wanted {
        Ok(message) => made matches Ok(m) && m@ == message,
        Err(text) => made matches Err(Error::ProtocolError(m)) && m@ == text,
    }
}

impl Request {
    /// The JSON text of the request, to be framed and written.
    pub fn to_json(&self) -> (text: String)
        ensures
            text@ == request_text(self@),
    {
        let mut text = String::from_str("{\"id\":");
        text.append(decimal(self.id).as_str());
        text.append(",\"guid\":");
        text.append(quoted(self.guid.as_str()).as_str());
        text.append(",\"method\":");
        text.append(quoted(self.method.as_str()).as_str());
        text.append(",\"params\":");
        text.append(text_of(&self.params).as_str());
        text.append("}");
        text
    }
}

impl Message {
    /// Reads a JSON value as a message: see [`decoded`]. A value that is
    /// neither a response nor an event is refused as a protocol error.
    pub fn decode(value: &Value) -> (made: Result<Message, Error>)
        ensures
            message_is(made, decoded(*value)),
    {
        match number_member(value, "id") {
            Some(id) => {
                if id > 0xffff_ffff {
                    return Err(Error::ProtocolError(String::from_str("Response id out of range")));
                }
                let error = member(value, "error");
                if error.is_null() {
                    Ok(
                        Message::Response {
                            id: id as u32,
                            result: Ok(member(value, "result").clone()),
                        },
                    )
                } else {
                    match string_member(error, "message") {
                        Some(text) => Ok(
                            Message::Response { id: id as u32, result: Err(text.to_owned()) },
                        ),
                        None => Err(
                            Error::ProtocolError(
                                String::from_str("Response error missing 'message' field"),
                            ),
                        ),
                    }
                }
            },
            None => {
                let guid = match string_member(value, "guid") {
                    Some(guid) => guid.to_owned(),
                    None => {
                        return Err(
                            Error::ProtocolError(String::from_str("Message missing 'guid' field")),
                        );
                    },
                };
                let method = match string_member(value, "method") {
                    Some(method) => method.to_owned(),
                    None => {
                        return Err(
                            Error::ProtocolError(
                                String::from_str("Message missing 'method' field"),
                            ),
                        );
                    },
                };
                Ok(Message::Event { guid, method, params: member(value, "params").clone() })
            },
        }
    }

    /// The message that the outcome of parsing a payload stands for: see
    /// [`read`]. A payload that is no JSON is refused as a protocol error
    /// that carries the parser's complaint.
    pub fn from_parsed(parsed: Result<Value, JsonFault>) -> (made: Result<Message, Error>)
        ensures
            message_is(made, read(parsed)),
    {
        match parsed {
            Ok(value) => Message::decode(&value),
            Err(fault) => {
                let mut text = String::from_str("Malformed JSON: ");
                text.append(fault_text(&fault).as_str());
                Err(Error::ProtocolError(text))
            },
        }
    }

    /// Reads the payload of a frame as a message: parses it as JSON and
    /// reads the value.
    pub fn parse(payload: &[u8]) -> (made: Result<Message, Error>)
        ensures
            message_is(made, read(json_parsed(payload@))),
    {
        Message::from_parsed(parse(payload))
    }
}

} // verus!

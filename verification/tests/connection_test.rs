use playwright_core::channel::Channel;
use playwright_core::channel_owner::DisposeReason;
use playwright_core::connection::{resolve, Connection, Dispatch, Message, Request};
use playwright_core::error::Error;
use playwright_core::pending::PendingCall;
use playwright_core::protocol::Browser;
use serde_json::Value;

fn json(text: &str) -> Value {
    serde_json::from_str(text).unwrap()
}

fn event(guid: &str, method: &str, params: &str) -> Message {
    Message::Event { guid: guid.to_string(), method: method.to_string(), params: json(params) }
}

fn create(parent: &str, tag: &str, guid: &str, initializer: &str) -> Message {
    let params = format!(r#"{{"type":"{}","guid":"{}","initializer":{}}}"#, tag, guid, initializer);
    event(parent, "__create__", &params)
}

/// "" > bt@1 > br@1
fn launched() -> Connection {
    let mut connection = Connection::new();
    assert_eq!(connection.dispatch(create("", "BrowserType", "bt@1", "{}")), Ok(Dispatch::Created));
    let browser = create("bt@1", "Browser", "br@1", r#"{"version":"131.0","name":"chromium"}"#);
    assert_eq!(connection.dispatch(browser), Ok(Dispatch::Created));
    connection
}

#[test]
fn a_new_connection_holds_the_root_and_no_call() {
    let connection = Connection::new();
    assert!(!connection.is_closed());
    assert!(connection.objects().contains(""));
    assert_eq!(connection.calls().len(), 0);
}

#[test]
fn create_then_dispose_of_the_parent_removes_both() {
    let mut connection = Connection::new();
    assert_eq!(connection.dispatch(create("", "BrowserType", "bt@1", "{}")), Ok(Dispatch::Created));
    let browser = create("bt@1", "Browser", "br@1", r#"{"version":"131.0","name":"chromium"}"#);
    assert_eq!(connection.dispatch(browser), Ok(Dispatch::Created));
    assert!(connection.objects().contains("br@1"));
    assert_eq!(connection.objects().parent_of("br@1"), Some("bt@1"));
    assert_eq!(connection.objects().children_of("bt@1"), vec!["br@1".to_string()]);
    assert_eq!(connection.dispatch(event("bt@1", "__dispose__", "{}")), Ok(Dispatch::Disposed));
    assert!(!connection.objects().contains("bt@1"));
    assert!(!connection.objects().contains("br@1"));
    let made = connection.call("br@1", "close", json("{}"), false);
    assert_eq!(made, Err(Error::Disposed("br@1".to_string())));
    let made = connection.call("bt@1", "launch", json("{}"), true);
    assert_eq!(made, Err(Error::Disposed("bt@1".to_string())));
    assert_eq!(connection.calls().len(), 0);
}

#[test]
fn a_call_gives_the_request_to_write() {
    let mut connection = launched();
    let made = connection.call("br@1", "newContext", json(r#"{"viewport":null}"#), true);
    assert_eq!(
        made,
        Ok(Request {
            id: 1,
            guid: "br@1".to_string(),
            method: "newContext".to_string(),
            params: json(r#"{"viewport":null}"#),
        })
    );
    assert!(connection.calls().is_pending(1));
    let made = connection.call("bt@1", "launch", json("{}"), true);
    assert_eq!(made.unwrap().id, 2);
}

#[test]
fn a_call_on_an_object_that_is_not_present_is_not_issued() {
    let mut connection = launched();
    let made = connection.call("page@9", "click", json("{}"), true);
    assert_eq!(made, Err(Error::Disposed("page@9".to_string())));
    assert_eq!(connection.calls().len(), 0);
    assert_eq!(connection.call("br@1", "close", json("{}"), false).unwrap().id, 1);
}

#[test]
fn two_calls_are_resolved_in_the_order_of_the_responses() {
    let mut connection = launched();
    assert_eq!(connection.call("br@1", "first", json("{}"), true).unwrap().id, 1);
    assert_eq!(connection.call("br@1", "second", json("{}"), true).unwrap().id, 2);
    let second = Message::Response { id: 2, result: Ok(json(r#"{"value":"b"}"#)) };
    assert_eq!(
        connection.dispatch(second),
        Ok(Dispatch::Resolved { id: 2, outcome: Ok(Some(json(r#"{"value":"b"}"#))) })
    );
    assert!(connection.calls().is_pending(1));
    let first = Message::Response { id: 1, result: Ok(json(r#"{"value":"a"}"#)) };
    assert_eq!(
        connection.dispatch(first),
        Ok(Dispatch::Resolved { id: 1, outcome: Ok(Some(json(r#"{"value":"a"}"#))) })
    );
    assert_eq!(connection.calls().len(), 0);
}

#[test]
fn a_failure_of_the_driver_reaches_its_caller_only() {
    let mut connection = launched();
    connection.call("br@1", "first", json("{}"), true).unwrap();
    connection.call("br@1", "second", json("{}"), true).unwrap();
    let failed = Message::Response { id: 1, result: Err("Target closed".to_string()) };
    assert_eq!(
        connection.dispatch(failed),
        Ok(Dispatch::Resolved { id: 1, outcome: Err(Error::RpcError("Target closed".to_string())) })
    );
    assert!(!connection.is_closed());
    assert!(connection.calls().is_pending(2));
    assert_eq!(connection.call("br@1", "third", json("{}"), true).unwrap().id, 3);
}

#[test]
fn a_result_that_was_not_wanted_is_dropped() {
    let mut connection = launched();
    let channel = Channel::new("br@1".to_string());
    assert_eq!(channel.guid(), "br@1");
    assert_eq!(channel.send_no_result(&mut connection, "close", json("{}")).unwrap().id, 1);
    assert_eq!(channel.send(&mut connection, "version", json("{}")).unwrap().id, 2);
    let answer = connection.dispatch(Message::Response { id: 1, result: Ok(json("{}")) });
    assert_eq!(answer, Ok(Dispatch::Resolved { id: 1, outcome: Ok(None) }));
    let answer = connection.dispatch(Message::Response { id: 2, result: Ok(json("7")) });
    assert_eq!(answer, Ok(Dispatch::Resolved { id: 2, outcome: Ok(Some(json("7"))) }));
    channel.send_no_result(&mut connection, "close", json("{}")).unwrap();
    let answer = connection.dispatch(Message::Response { id: 3, result: Err("no".to_string()) });
    assert_eq!(
        answer,
        Ok(Dispatch::Resolved { id: 3, outcome: Err(Error::RpcError("no".to_string())) })
    );
}

#[test]
fn resolve_keeps_the_result_only_if_it_was_wanted() {
    let wanted = PendingCall { id: 4, wants_result: true };
    let unwanted = PendingCall { id: 4, wants_result: false };
    assert_eq!(resolve(wanted, Ok(json("[1]"))), Ok(Some(json("[1]"))));
    assert_eq!(resolve(unwanted, Ok(json("[1]"))), Ok(None));
    assert_eq!(resolve(wanted, Err("bad".to_string())), Err(Error::RpcError("bad".to_string())));
    assert_eq!(resolve(unwanted, Err("bad".to_string())), Err(Error::RpcError("bad".to_string())));
}

#[test]
fn a_channel_sends_to_its_object() {
    let mut connection = launched();
    let channel = Channel::new("bt@1".to_string());
    let made = channel.send(&mut connection, "launch", json(r#"{"headless":true}"#));
    assert_eq!(
        made,
        Ok(Request {
            id: 1,
            guid: "bt@1".to_string(),
            method: "launch".to_string(),
            params: json(r#"{"headless":true}"#),
        })
    );
    let gone = Channel::new("bt@2".to_string());
    assert_eq!(
        gone.send(&mut connection, "launch", json("{}")),
        Err(Error::Disposed("bt@2".to_string()))
    );
    assert_eq!(
        gone.send_no_result(&mut connection, "launch", json("{}")),
        Err(Error::Disposed("bt@2".to_string()))
    );
}

#[test]
fn a_response_to_a_call_that_is_not_pending_is_refused() {
    let mut connection = launched();
    connection.call("br@1", "first", json("{}"), true).unwrap();
    let unknown = Message::Response { id: 5, result: Ok(json("{}")) };
    assert_eq!(
        connection.dispatch(unknown),
        Err(Error::ProtocolError("Response to a call that is not pending".to_string()))
    );
    assert!(connection.calls().is_pending(1));
    connection.dispatch(Message::Response { id: 1, result: Ok(json("{}")) }).unwrap();
    let again = Message::Response { id: 1, result: Ok(json("{}")) };
    assert_eq!(
        connection.dispatch(again),
        Err(Error::ProtocolError("Response to a call that is not pending".to_string()))
    );
}

#[test]
fn closing_fails_the_pending_calls_and_disposes_everything() {
    let mut connection = launched();
    connection.call("br@1", "first", json("{}"), true).unwrap();
    connection.call("bt@1", "second", json("{}"), false).unwrap();
    connection.call("br@1", "third", json("{}"), true).unwrap();
    connection.dispatch(Message::Response { id: 2, result: Ok(json("{}")) }).unwrap();
    assert_eq!(
        connection.close(),
        vec![
            Dispatch::Resolved { id: 1, outcome: Err(Error::TransportClosed) },
            Dispatch::Resolved { id: 3, outcome: Err(Error::TransportClosed) },
        ]
    );
    assert!(connection.is_closed());
    assert_eq!(connection.calls().len(), 0);
    assert!(!connection.objects().contains("br@1"));
    assert!(!connection.objects().contains(""));
    assert_eq!(connection.objects().disposal_of("br@1"), Some(DisposeReason::Closed));
    assert_eq!(connection.close(), Vec::<Dispatch>::new());
    assert_eq!(connection.call("br@1", "close", json("{}"), false), Err(Error::TransportClosed));
    assert_eq!(connection.call("", "anything", json("{}"), false), Err(Error::TransportClosed));
    let late = Message::Response { id: 1, result: Ok(json("{}")) };
    assert_eq!(connection.dispatch(late), Err(Error::TransportClosed));
    assert_eq!(
        connection.dispatch(create("", "BrowserType", "bt@2", "{}")),
        Err(Error::TransportClosed)
    );
    assert!(!connection.objects().contains("bt@2"));
}

#[test]
fn an_event_goes_to_a_present_object() {
    let mut connection = launched();
    assert_eq!(
        connection.dispatch(event("br@1", "context", r#"{"context":{"guid":"ctx@1"}}"#)),
        Ok(Dispatch::Delivered {
            guid: "br@1".to_string(),
            method: "context".to_string(),
            params: json(r#"{"context":{"guid":"ctx@1"}}"#),
        })
    );
    assert_eq!(connection.dispatch(event("br@7", "context", "{}")), Ok(Dispatch::Dropped));
    connection.dispatch(event("br@1", "__dispose__", "{}")).unwrap();
    assert_eq!(connection.dispatch(event("br@1", "context", "{}")), Ok(Dispatch::Dropped));
    assert_eq!(connection.dispatch(event("br@1", "__dispose__", "{}")), Ok(Dispatch::Dropped));
    assert_eq!(connection.dispatch(event("nothing", "__dispose__", "{}")), Ok(Dispatch::Dropped));
}

#[test]
fn a_creation_has_to_name_type_and_guid() {
    let mut connection = launched();
    assert_eq!(
        connection.dispatch(event("br@1", "__create__", r#"{"guid":"ctx@1","initializer":{}}"#)),
        Err(Error::ProtocolError("__create__ missing 'type' field".to_string()))
    );
    assert_eq!(
        connection.dispatch(event("br@1", "__create__", r#"{"type":"Page","initializer":{}}"#)),
        Err(Error::ProtocolError("__create__ missing 'guid' field".to_string()))
    );
    assert_eq!(
        connection.dispatch(event("br@1", "__create__", r#"{"type":"Page","guid":5}"#)),
        Err(Error::ProtocolError("__create__ missing 'guid' field".to_string()))
    );
    assert_eq!(
        connection.dispatch(event("br@1", "__create__", r#"{"type":"Page","guid":"page@1"}"#)),
        Ok(Dispatch::Created)
    );
    assert!(connection.objects().contains("page@1"));
}

#[test]
fn creations_that_the_registry_refuses_or_ignores() {
    let mut connection = launched();
    assert_eq!(
        connection.dispatch(create("br@1", "WebSocket", "ws@1", "{}")),
        Ok(Dispatch::Ignored)
    );
    assert!(!connection.objects().contains("ws@1"));
    assert_eq!(
        connection.dispatch(create("br@1", "Page", "bt@1", "{}")),
        Err(Error::ProtocolError("Duplicate guid: bt@1".to_string()))
    );
    assert_eq!(
        connection.dispatch(create("ctx@9", "Page", "page@1", "{}")),
        Err(Error::ProtocolError("Parent object not found: ctx@9".to_string()))
    );
    assert_eq!(
        connection.dispatch(create("bt@1", "Browser", "br@2", r#"{"version":"1"}"#)),
        Err(Error::ProtocolError("Browser initializer missing 'name' field".to_string()))
    );
    assert_eq!(
        connection.dispatch(create("bt@1", "Browser", "br@2", "null")),
        Err(Error::ProtocolError("Browser initializer missing 'version' field".to_string()))
    );
    assert!(!connection.objects().contains("br@2"));
}

#[test]
fn the_initializer_is_kept_as_it_came() {
    let mut connection = launched();
    let payload = r#"{"isMobile":false,"nested":{"list":[1,"two",null]}}"#;
    assert_eq!(
        connection.dispatch(create("br@1", "BrowserContext", "ctx@1", payload)),
        Ok(Dispatch::Created)
    );
    let objects = connection.objects();
    assert_eq!(objects.get("ctx@1").unwrap().base().initializer(), &json(payload));
    assert_eq!(
        connection.dispatch(event("ctx@1", "__create__", r#"{"type":"Page","guid":"page@1"}"#)),
        Ok(Dispatch::Created)
    );
    let objects = connection.objects();
    assert_eq!(objects.get("page@1").unwrap().base().initializer(), &Value::Null);
}

#[test]
fn a_disposal_says_whether_the_object_was_collected() {
    let mut connection = launched();
    assert_eq!(
        connection.dispatch(event("br@1", "__dispose__", r#"{"reason":"gc"}"#)),
        Ok(Dispatch::Disposed)
    );
    assert_eq!(connection.objects().disposal_of("br@1"), Some(DisposeReason::GarbageCollected));
    assert_eq!(
        connection.dispatch(event("bt@1", "__dispose__", r#"{"reason":"closed"}"#)),
        Ok(Dispatch::Disposed)
    );
    assert_eq!(connection.objects().disposal_of("bt@1"), Some(DisposeReason::Closed));
    assert_eq!(connection.objects().disposal_of(""), None);
}

#[test]
fn closing_a_browser_calls_close_with_an_empty_object() {
    let mut connection = launched();
    let browser = Browser::new(
        "bt@1".to_string(),
        "Browser".to_string(),
        "br@1".to_string(),
        json(r#"{"version":"131.0","name":"chromium"}"#),
    )
    .unwrap();
    assert_eq!(browser.channel().guid(), "br@1");
    assert_eq!(
        browser.close(&mut connection),
        Ok(Request {
            id: 1,
            guid: "br@1".to_string(),
            method: "close".to_string(),
            params: json("{}"),
        })
    );
    let answer = connection.dispatch(Message::Response { id: 1, result: Ok(json("{}")) });
    assert_eq!(answer, Ok(Dispatch::Resolved { id: 1, outcome: Ok(None) }));
    connection.dispatch(event("br@1", "__dispose__", "{}")).unwrap();
    assert_eq!(browser.close(&mut connection), Err(Error::Disposed("br@1".to_string())));
    connection.close();
    assert_eq!(browser.close(&mut connection), Err(Error::TransportClosed));
}

#[test]
fn a_browser_copied_out_of_the_registry_can_be_closed() {
    let mut connection = launched();
    let browser = match connection.objects().get("br@1") {
        Some(playwright_core::registry::RemoteObject::Browser(browser)) => browser.clone(),
        other => panic!("no browser: {:?}", other),
    };
    assert_eq!(browser.name(), "chromium");
    assert_eq!(browser.close(&mut connection).unwrap().method, "close");
}

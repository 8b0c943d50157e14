use playwright_core::connection::{Message, Request};
use playwright_core::error::Error;
use playwright_core::text::decimal;
use playwright_core::transport::{encode_frame, FrameReader};
use serde_json::Value;

fn json(text: &str) -> Value {
    serde_json::from_str(text).unwrap()
}

fn refused(text: &str) -> Result<Message, Error> {
    Err(Error::ProtocolError(text.to_string()))
}

#[test]
fn a_request_is_written_as_one_object() {
    let request = Request {
        id: 1,
        guid: "br@1".to_string(),
        method: "close".to_string(),
        params: json("{}"),
    };
    assert_eq!(request.to_json(), r#"{"id":1,"guid":"br@1","method":"close","params":{}}"#);
    let request = Request {
        id: 4294967295,
        guid: "page@\"1\"".to_string(),
        method: "go\\to\n".to_string(),
        params: json(r#"{ "url" : "https://example.com", "n": [1, 2.5, null, true] }"#),
    };
    assert_eq!(
        request.to_json(),
        r#"{"id":4294967295,"guid":"page@\"1\"","method":"go\\to\n","params":{"n":[1,2.5,null,true],"url":"https://example.com"}}"#
    );
}

#[test]
fn a_written_request_reads_back_as_json() {
    let request = Request {
        id: 77,
        guid: "frame@a\u{e9}\u{1f600}".to_string(),
        method: "click".to_string(),
        params: json(r#"{"selector":"text=\"Submit\"","strict":true}"#),
    };
    let read = json(&request.to_json());
    assert_eq!(read["id"], 77);
    assert_eq!(read["guid"], "frame@a\u{e9}\u{1f600}");
    assert_eq!(read["method"], "click");
    assert_eq!(read["params"], request.params);
    assert_eq!(read.as_object().unwrap().len(), 4);
}

#[test]
fn numbers_are_written_in_decimal() {
    assert_eq!(decimal(0), "0");
    assert_eq!(decimal(7), "7");
    assert_eq!(decimal(10), "10");
    assert_eq!(decimal(909), "909");
    assert_eq!(decimal(1000000), "1000000");
    assert_eq!(decimal(4294967295), "4294967295");
}

#[test]
fn a_message_with_an_id_is_a_response() {
    assert_eq!(
        Message::parse(br#"{"id": 3, "result": {"value": [1, 2]}}"#),
        Ok(Message::Response { id: 3, result: Ok(json(r#"{"value":[1,2]}"#)) })
    );
    assert_eq!(
        Message::parse(br#"{"id": 3}"#),
        Ok(Message::Response { id: 3, result: Ok(Value::Null) })
    );
    assert_eq!(
        Message::parse(br#"{"id": 0, "result": "text", "guid": "x", "method": "y"}"#),
        Ok(Message::Response { id: 0, result: Ok(json("\"text\"")) })
    );
    assert_eq!(
        Message::parse(br#"{"id": 4294967295, "result": null, "error": null}"#),
        Ok(Message::Response { id: 4294967295, result: Ok(Value::Null) })
    );
}

#[test]
fn a_response_with_an_error_carries_its_message() {
    assert_eq!(
        Message::parse(br#"{"id": 9, "error": {"message": "Timeout 30000ms exceeded", "name": "TimeoutError"}}"#),
        Ok(Message::Response { id: 9, result: Err("Timeout 30000ms exceeded".to_string()) })
    );
    assert_eq!(
        Message::parse(br#"{"id": 9, "result": 1, "error": {"message": ""}}"#),
        Ok(Message::Response { id: 9, result: Err("".to_string()) })
    );
    assert_eq!(
        Message::parse(br#"{"id": 9, "error": {"name": "Error"}}"#),
        refused("Response error missing 'message' field")
    );
    assert_eq!(
        Message::parse(br#"{"id": 9, "error": "boom"}"#),
        refused("Response error missing 'message' field")
    );
    assert_eq!(
        Message::parse(br#"{"id": 9, "error": {"message": 5}}"#),
        refused("Response error missing 'message' field")
    );
}

#[test]
fn an_id_has_to_fit_in_four_bytes() {
    assert_eq!(Message::parse(br#"{"id": 4294967296, "result": 1}"#), refused("Response id out of range"));
    assert_eq!(
        Message::parse(br#"{"id": 18446744073709551615}"#),
        refused("Response id out of range")
    );
}

#[test]
fn a_message_without_an_id_is_an_event() {
    assert_eq!(
        Message::parse(br#"{"guid": "page@1", "method": "load", "params": {"url": "about:blank"}}"#),
        Ok(Message::Event {
            guid: "page@1".to_string(),
            method: "load".to_string(),
            params: json(r#"{"url":"about:blank"}"#),
        })
    );
    assert_eq!(
        Message::parse(br#"{"guid": "", "method": "__create__"}"#),
        Ok(Message::Event {
            guid: "".to_string(),
            method: "__create__".to_string(),
            params: Value::Null,
        })
    );
    assert_eq!(
        Message::parse(br#"{"id": -1, "guid": "g", "method": "m", "params": []}"#),
        Ok(Message::Event { guid: "g".to_string(), method: "m".to_string(), params: json("[]") })
    );
    assert_eq!(
        Message::parse(br#"{"id": "1", "guid": "g", "method": "m"}"#),
        Ok(Message::Event { guid: "g".to_string(), method: "m".to_string(), params: Value::Null })
    );
    assert_eq!(
        Message::parse(br#"{"id": 1.5, "guid": "g", "method": "m"}"#),
        Ok(Message::Event { guid: "g".to_string(), method: "m".to_string(), params: Value::Null })
    );
}

#[test]
fn an_event_has_to_name_guid_and_method() {
    assert_eq!(Message::parse(br#"{"method": "load"}"#), refused("Message missing 'guid' field"));
    assert_eq!(Message::parse(br#"{"guid": "page@1"}"#), refused("Message missing 'method' field"));
    assert_eq!(
        Message::parse(br#"{"guid": 1, "method": "load"}"#),
        refused("Message missing 'guid' field")
    );
    assert_eq!(
        Message::parse(br#"{"guid": "page@1", "method": null}"#),
        refused("Message missing 'method' field")
    );
    assert_eq!(Message::parse(b"{}"), refused("Message missing 'guid' field"));
    assert_eq!(Message::parse(b"[1, 2]"), refused("Message missing 'guid' field"));
    assert_eq!(Message::parse(b"null"), refused("Message missing 'guid' field"));
}

#[test]
fn a_payload_that_is_no_json_is_refused_with_the_reason() {
    for payload in [&b"{\"id\": 1"[..], &b""[..], &b"{\"id\": 1} trailing"[..], &[0xff, 0xfe][..]] {
        let reason = serde_json::from_slice::<Value>(payload).unwrap_err().to_string();
        assert_eq!(Message::parse(payload), refused(&format!("Malformed JSON: {}", reason)));
    }
    assert_eq!(
        Message::parse(b"{\"id\": 1"),
        refused("Malformed JSON: EOF while parsing an object at line 1 column 8")
    );
}

#[test]
fn decode_reads_a_value() {
    assert_eq!(
        Message::decode(&json(r#"{"id":12,"result":{}}"#)),
        Ok(Message::Response { id: 12, result: Ok(json("{}")) })
    );
    assert_eq!(Message::decode(&json("7")), refused("Message missing 'guid' field"));
    assert_eq!(
        Message::from_parsed(Ok(json(r#"{"guid":"a","method":"b","params":{"c":1}}"#))),
        Ok(Message::Event {
            guid: "a".to_string(),
            method: "b".to_string(),
            params: json(r#"{"c":1}"#),
        })
    );
    let fault = serde_json::from_str::<Value>("nope").unwrap_err();
    let reason = fault.to_string();
    assert_eq!(
        Message::from_parsed(Err(fault)),
        refused(&format!("Malformed JSON: {}", reason))
    );
}

#[test]
fn a_framed_message_comes_out_of_the_reader_as_it_went_in() {
    let payload = br#"{"id":5,"result":{"ok":true}}"#;
    let mut reader = FrameReader::new();
    reader.push(&encode_frame(payload).unwrap());
    let frame = reader.next_frame().unwrap();
    assert_eq!(
        Message::parse(&frame),
        Ok(Message::Response { id: 5, result: Ok(json(r#"{"ok":true}"#)) })
    );
}

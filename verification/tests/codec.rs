use laserbeam::broadcast_node as broadcast;
use laserbeam::echo;
use laserbeam::json::{from_value, parse};
use laserbeam::unique_ids;
use laserbeam::wire::end_line;
use laserbeam::{Body, DecodeError, Init, InitOk, Json, Message};

fn echo_message(text: &str) -> Message<echo::Payload> {
    Message {
        src: "c1".to_string(),
        dest: "n1".to_string(),
        body: Body {
            id: Some(2),
            in_reply_to: None,
            payload: echo::Payload::Echo { echo: text.to_string() },
        },
    }
}

#[test]
fn a_line_is_read_as_a_message() {
    let line = r#"{"src":"c1","dest":"n1","body":{"type":"echo","msg_id":2,"echo":"hello"}}"#;
    assert_eq!(Message::<echo::Payload>::decode(line), Ok(echo_message("hello")));
}

#[test]
fn a_line_may_end_in_a_line_feed_and_hold_spaces() {
    let line = "  {\"src\": \"c1\", \"dest\": \"n1\",\n \"body\": {\"type\": \"echo\", \"msg_id\": 2, \"echo\": \"hello\"}}\n";
    assert_eq!(Message::<echo::Payload>::decode(line), Ok(echo_message("hello")));
}

#[test]
fn ids_may_be_null_or_left_out() {
    let line = r#"{"src":"c1","dest":"n1","body":{"type":"echo","msg_id":null,"echo":"x"}}"#;
    let message = Message::<echo::Payload>::decode(line).unwrap();
    assert_eq!(message.body.id, None);
    assert_eq!(message.body.in_reply_to, None);
    let line = r#"{"src":"c1","dest":"n1","body":{"type":"echo_ok","in_reply_to":18446744073709551615,"echo":"x"}}"#;
    let message = Message::<echo::Payload>::decode(line).unwrap();
    assert_eq!(message.body.id, None);
    assert_eq!(message.body.in_reply_to, Some(usize::MAX));
    assert_eq!(message.body.payload, echo::Payload::EchoOk { echo: "x".to_string() });
}

#[test]
fn members_that_nobody_asks_for_are_passed_over() {
    let line = r#"{"id":3,"src":"c1","dest":"n1","body":{"type":"echo","msg_id":2,"echo":"hello","more":[1.5,-2,{}]}}"#;
    assert_eq!(Message::<echo::Payload>::decode(line), Ok(echo_message("hello")));
}

#[test]
fn text_that_is_not_json_is_refused() {
    assert_eq!(Message::<echo::Payload>::decode("{"), Err(DecodeError::NotJson));
    assert_eq!(Message::<echo::Payload>::decode(""), Err(DecodeError::NotJson));
    assert_eq!(Message::<echo::Payload>::decode("{} {}"), Err(DecodeError::NotJson));
}

#[test]
fn a_missing_member_is_reported() {
    let no_dest = r#"{"src":"c1","body":{"type":"echo","echo":"x"}}"#;
    assert_eq!(Message::<echo::Payload>::decode(no_dest), Err(DecodeError::MissingField));
    let no_body = r#"{"src":"c1","dest":"n1"}"#;
    assert_eq!(Message::<echo::Payload>::decode(no_body), Err(DecodeError::MissingField));
    let no_type = r#"{"src":"c1","dest":"n1","body":{"echo":"x"}}"#;
    assert_eq!(Message::<echo::Payload>::decode(no_type), Err(DecodeError::MissingField));
    let no_echo = r#"{"src":"c1","dest":"n1","body":{"type":"echo"}}"#;
    assert_eq!(Message::<echo::Payload>::decode(no_echo), Err(DecodeError::MissingField));
}

#[test]
fn a_value_of_the_wrong_type_is_reported() {
    let src = r#"{"src":5,"dest":"n1","body":{"type":"echo","echo":"x"}}"#;
    assert_eq!(Message::<echo::Payload>::decode(src), Err(DecodeError::WrongType));
    let body = r#"{"src":"c1","dest":"n1","body":[]}"#;
    assert_eq!(Message::<echo::Payload>::decode(body), Err(DecodeError::WrongType));
    let whole = r#"["c1","n1",{"type":"echo","echo":"x"}]"#;
    assert_eq!(Message::<echo::Payload>::decode(whole), Err(DecodeError::WrongType));
    let negative = r#"{"src":"c1","dest":"n1","body":{"type":"echo","msg_id":-1,"echo":"x"}}"#;
    assert_eq!(Message::<echo::Payload>::decode(negative), Err(DecodeError::WrongType));
    let fraction = r#"{"src":"c1","dest":"n1","body":{"type":"echo","msg_id":1.5,"echo":"x"}}"#;
    assert_eq!(Message::<echo::Payload>::decode(fraction), Err(DecodeError::WrongType));
    let too_large = r#"{"src":"c1","dest":"n1","body":{"type":"echo","msg_id":18446744073709551616,"echo":"x"}}"#;
    assert_eq!(Message::<echo::Payload>::decode(too_large), Err(DecodeError::WrongType));
    let kind = r#"{"src":"c1","dest":"n1","body":{"type":7,"echo":"x"}}"#;
    assert_eq!(Message::<echo::Payload>::decode(kind), Err(DecodeError::WrongType));
    let echo = r#"{"src":"c1","dest":"n1","body":{"type":"echo","echo":null}}"#;
    assert_eq!(Message::<echo::Payload>::decode(echo), Err(DecodeError::WrongType));
}

#[test]
fn a_kind_that_the_recipient_does_not_know_is_reported() {
    let line = r#"{"src":"c1","dest":"n1","body":{"type":"generate","msg_id":2}}"#;
    assert_eq!(Message::<echo::Payload>::decode(line), Err(DecodeError::UnknownType));
    assert_eq!(
        Message::<unique_ids::Payload>::decode(line).map(|m| m.body.payload),
        Ok(unique_ids::Payload::Generate)
    );
    let upper = r#"{"src":"c1","dest":"n1","body":{"type":"Echo","echo":"x"}}"#;
    assert_eq!(Message::<echo::Payload>::decode(upper), Err(DecodeError::UnknownType));
}

#[test]
fn the_first_thing_that_is_wrong_is_reported() {
    let line = r#"{"src":1,"body":{"type":"nope"}}"#;
    assert_eq!(Message::<echo::Payload>::decode(line), Err(DecodeError::WrongType));
    let line = r#"{"src":"a","body":{"type":"nope"}}"#;
    assert_eq!(Message::<echo::Payload>::decode(line), Err(DecodeError::MissingField));
    let line = r#"{"src":"a","dest":"b","body":{"type":"nope","msg_id":"x"}}"#;
    assert_eq!(Message::<echo::Payload>::decode(line), Err(DecodeError::WrongType));
    let line = r#"{"src":"a","dest":"b","body":{"type":"nope","msg_id":1}}"#;
    assert_eq!(Message::<echo::Payload>::decode(line), Err(DecodeError::UnknownType));
}

#[test]
fn a_handshake_is_read() {
    let line = r#"{"src":"c1","dest":"n1","body":{"type":"init","msg_id":1,"node_id":"n1","node_ids":["n1","n2"]}}"#;
    assert_eq!(
        Message::<Init>::decode(line),
        Ok(Message {
            src: "c1".to_string(),
            dest: "n1".to_string(),
            body: Body {
                id: Some(1),
                in_reply_to: None,
                payload: Init {
                    node_id: "n1".to_string(),
                    node_ids: vec!["n1".to_string(), "n2".to_string()],
                },
            },
        })
    );
}

#[test]
fn a_handshake_has_to_be_of_kind_init_and_complete() {
    let other = r#"{"src":"c1","dest":"n1","body":{"type":"echo","node_id":"n1","node_ids":[]}}"#;
    assert_eq!(Message::<Init>::decode(other), Err(DecodeError::UnknownType));
    let short = r#"{"src":"c1","dest":"n1","body":{"type":"init","node_id":"n1"}}"#;
    assert_eq!(Message::<Init>::decode(short), Err(DecodeError::MissingField));
    let mixed = r#"{"src":"c1","dest":"n1","body":{"type":"init","node_id":"n1","node_ids":["n1",2]}}"#;
    assert_eq!(Message::<Init>::decode(mixed), Err(DecodeError::WrongType));
}

#[test]
fn a_message_is_written_as_one_line() {
    let line = echo_message("hello").encode().unwrap();
    assert_eq!(
        line,
        "{\"body\":{\"echo\":\"hello\",\"in_reply_to\":null,\"msg_id\":2,\"type\":\"echo\"},\"dest\":\"n1\",\"src\":\"c1\"}\n"
    );
}

#[test]
fn an_acknowledgement_is_written_with_its_kind_only() {
    let ack = Message {
        src: "n1".to_string(),
        dest: "c1".to_string(),
        body: Body { id: Some(0), in_reply_to: Some(1), payload: InitOk },
    };
    assert_eq!(
        ack.encode().unwrap(),
        "{\"body\":{\"in_reply_to\":1,\"msg_id\":0,\"type\":\"init_ok\"},\"dest\":\"c1\",\"src\":\"n1\"}\n"
    );
}

#[test]
fn a_line_feed_inside_a_text_does_not_break_the_line() {
    let line = echo_message("one\ntwo\r\n\"three\"\t\\ \u{1F600} \u{0}").encode().unwrap();
    assert!(line.ends_with('\n'));
    assert_eq!(line.matches('\n').count(), 1);
    assert_eq!(
        Message::<echo::Payload>::decode(&line),
        Ok(echo_message("one\ntwo\r\n\"three\"\t\\ \u{1F600} \u{0}"))
    );
}

#[test]
fn what_is_written_is_read_back() {
    let messages = vec![
        echo_message(""),
        echo_message("hello"),
        Message {
            src: "".to_string(),
            dest: "n\"1".to_string(),
            body: Body {
                id: None,
                in_reply_to: Some(usize::MAX),
                payload: echo::Payload::EchoOk { echo: "msg_id".to_string() },
            },
        },
    ];
    for message in messages {
        let line = message.encode().unwrap();
        assert_eq!(Message::<echo::Payload>::decode(&line), Ok(message));
    }
}

#[test]
fn every_payload_of_the_broadcast_node_is_read_back() {
    let payloads = vec![
        broadcast::Payload::Topology {
            topology: vec![
                ("n1".to_string(), vec!["n2".to_string(), "n3".to_string()]),
                ("n2".to_string(), vec![]),
            ],
        },
        broadcast::Payload::Topology { topology: vec![] },
        broadcast::Payload::TopologyOk,
        broadcast::Payload::Broadcast { message: 0 },
        broadcast::Payload::Broadcast { message: usize::MAX },
        broadcast::Payload::BroadcastOk,
        broadcast::Payload::Read,
        broadcast::Payload::ReadOk { messages: vec![] },
        broadcast::Payload::ReadOk { messages: vec![5, 7, 5] },
    ];
    for payload in payloads {
        let message = Message {
            src: "n1".to_string(),
            dest: "c9".to_string(),
            body: Body { id: Some(3), in_reply_to: Some(4), payload },
        };
        let line = message.encode().unwrap();
        assert_eq!(Message::<broadcast::Payload>::decode(&line), Ok(message));
    }
}

#[test]
fn a_handshake_and_an_identifier_are_read_back() {
    let init = Message {
        src: "c1".to_string(),
        dest: "n1".to_string(),
        body: Body {
            id: Some(1),
            in_reply_to: None,
            payload: Init { node_id: "n1".to_string(), node_ids: vec!["n1".to_string()] },
        },
    };
    let line = init.encode().unwrap();
    assert_eq!(Message::<Init>::decode(&line), Ok(init));
    let made = Message {
        src: "n1".to_string(),
        dest: "c1".to_string(),
        body: Body {
            id: Some(1),
            in_reply_to: Some(2),
            payload: unique_ids::Payload::GenerateOk { id: "n1-1".to_string() },
        },
    };
    let line = made.encode().unwrap();
    assert_eq!(Message::<unique_ids::Payload>::decode(&line), Ok(made));
}

#[test]
fn the_tree_of_a_message_is_read_back() {
    let message = echo_message("hello");
    let json = message.to_json();
    assert_eq!(Message::<echo::Payload>::from_json(&json), Ok(message));
}

#[test]
fn a_message_as_a_tree() {
    assert_eq!(
        echo_message("hello").to_json(),
        Json::Object(vec![
            ("src".to_string(), Json::Text("c1".to_string())),
            ("dest".to_string(), Json::Text("n1".to_string())),
            (
                "body".to_string(),
                Json::Object(vec![
                    ("type".to_string(), Json::Text("echo".to_string())),
                    ("echo".to_string(), Json::Text("hello".to_string())),
                    ("msg_id".to_string(), Json::Number(Some(2))),
                    ("in_reply_to".to_string(), Json::Null),
                ]),
            ),
        ])
    );
}

#[test]
fn of_two_members_of_one_name_the_first_counts() {
    let json = Json::Object(vec![
        ("src".to_string(), Json::Text("a".to_string())),
        ("src".to_string(), Json::Number(Some(1))),
        ("dest".to_string(), Json::Text("b".to_string())),
        (
            "body".to_string(),
            Json::Object(vec![
                ("type".to_string(), Json::Text("echo_ok".to_string())),
                ("echo".to_string(), Json::Text("x".to_string())),
            ]),
        ),
    ]);
    let message = Message::<echo::Payload>::from_json(&json).unwrap();
    assert_eq!(message.src, "a");
    assert_eq!(message.body.payload, echo::Payload::EchoOk { echo: "x".to_string() });
}

#[test]
fn json_is_read_as_a_tree() {
    assert_eq!(
        parse(r#"{"b":[1,-1,2.5,"x",true,null],"a":{}}"#),
        Ok(Json::Object(vec![
            ("a".to_string(), Json::Object(vec![])),
            (
                "b".to_string(),
                Json::List(vec![
                    Json::Number(Some(1)),
                    Json::Number(None),
                    Json::Number(None),
                    Json::Text("x".to_string()),
                    Json::Bool(true),
                    Json::Null,
                ]),
            ),
        ]))
    );
    assert_eq!(parse("[1,"), Err(DecodeError::NotJson));
    assert_eq!(parse("7"), Ok(Json::Number(Some(7))));
}

#[test]
fn a_value_of_serde_json_is_taken_apart_in_order() {
    let value: serde_json::Value =
        serde_json::from_str(r#"{"z":[1,[2,3],{"y":"x","a":null}],"m":false}"#).unwrap();
    assert_eq!(
        from_value(value),
        Json::Object(vec![
            ("m".to_string(), Json::Bool(false)),
            (
                "z".to_string(),
                Json::List(vec![
                    Json::Number(Some(1)),
                    Json::List(vec![Json::Number(Some(2)), Json::Number(Some(3))]),
                    Json::Object(vec![
                        ("a".to_string(), Json::Null),
                        ("y".to_string(), Json::Text("x".to_string())),
                    ]),
                ]),
            ),
        ])
    );
}

#[test]
fn what_is_written_is_what_serde_json_reads() {
    let message = Message {
        src: "n1".to_string(),
        dest: "c1".to_string(),
        body: Body {
            id: Some(4),
            in_reply_to: Some(9),
            payload: broadcast::Payload::ReadOk { messages: vec![5, 7] },
        },
    };
    let line = message.encode().unwrap();
    let value: serde_json::Value = serde_json::from_str(&line).unwrap();
    assert_eq!(value["src"], "n1");
    assert_eq!(value["dest"], "c1");
    assert_eq!(value["body"]["type"], "read_ok");
    assert_eq!(value["body"]["msg_id"], 4);
    assert_eq!(value["body"]["in_reply_to"], 9);
    assert_eq!(value["body"]["messages"][0], 5);
    assert_eq!(value["body"]["messages"][1], 7);
    assert_eq!(value["body"].as_object().unwrap().len(), 4);
    assert_eq!(value.as_object().unwrap().len(), 3);
}

#[test]
fn a_line_ends_in_one_line_feed() {
    assert_eq!(end_line("{}".to_string()), "{}\n");
    assert_eq!(end_line("".to_string()), "\n");
    assert_eq!(end_line("a\n".to_string()), "a\n\n");
}

#[test]
fn writing_a_message_succeeds() {
    assert!(echo_message("").encode().is_ok());
    assert!(echo_message("\u{0}\u{7f}\u{ffff}").encode().is_ok());
}

#[test]
fn a_topology_is_read_back_by_its_names() {
    let written = Message {
        src: "c1".to_string(),
        dest: "n1".to_string(),
        body: Body {
            id: Some(1),
            in_reply_to: None,
            payload: broadcast::Payload::Topology {
                topology: vec![
                    ("n3".to_string(), vec!["n2".to_string()]),
                    ("n1".to_string(), vec!["n2".to_string(), "n3".to_string()]),
                    ("n2".to_string(), vec![]),
                ],
            },
        },
    };
    let read = Message::<broadcast::Payload>::decode(&written.encode().unwrap()).unwrap();
    assert_eq!(read.src, "c1");
    assert_eq!(read.body.id, Some(1));
    assert_eq!(
        read.body.payload,
        broadcast::Payload::Topology {
            topology: vec![
                ("n1".to_string(), vec!["n2".to_string(), "n3".to_string()]),
                ("n2".to_string(), vec![]),
                ("n3".to_string(), vec!["n2".to_string()]),
            ],
        }
    );
}

#[test]
fn of_a_name_twice_in_a_text_the_last_counts() {
    let line = r#"{"src":"c1","dest":"n1","body":{"type":"topology","topology":{"n1":["n2"],"n1":[]}}}"#;
    assert_eq!(
        Message::<broadcast::Payload>::decode(line).unwrap().body.payload,
        broadcast::Payload::Topology { topology: vec![("n1".to_string(), vec![])] }
    );
}

use laserbeam::echo::Payload;
use laserbeam::node::{acknowledge, reply_to};
use laserbeam::{Body, Init, InitOk, Message};

fn request() -> Message<Payload> {
    Message {
        src: "c1".to_string(),
        dest: "n1".to_string(),
        body: Body { id: Some(7), in_reply_to: None, payload: Payload::Echo { echo: "hi".to_string() } },
    }
}

#[test]
fn reply_swaps_sender_and_recipient() {
    let reply = request().into_reply(3, Payload::EchoOk { echo: "hi".to_string() });
    assert_eq!(reply.src, "n1");
    assert_eq!(reply.dest, "c1");
}

#[test]
fn reply_carries_the_given_id_and_refers_to_the_request() {
    let reply = request().into_reply(3, Payload::EchoOk { echo: "hi".to_string() });
    assert_eq!(reply.body.id, Some(3));
    assert_eq!(reply.body.in_reply_to, Some(7));
    assert_eq!(reply.body.payload, Payload::EchoOk { echo: "hi".to_string() });
}

#[test]
fn reply_to_a_message_without_id_refers_to_none() {
    let mut message = request();
    message.body.id = None;
    let reply = message.into_reply(1, InitOk);
    assert_eq!(reply.body.in_reply_to, None);
    assert_eq!(reply.body.id, Some(1));
    assert_eq!(reply.body.payload, InitOk);
}

#[test]
fn body_reply_keeps_the_new_payload() {
    let body = Body { id: Some(41), in_reply_to: Some(2), payload: 5u8 };
    let reply = body.into_reply(usize::MAX, "x");
    assert_eq!(reply, Body { id: Some(usize::MAX), in_reply_to: Some(41), payload: "x" });
}

#[test]
fn reply_of_a_reply_goes_back_again() {
    let there = request().into_reply(1, 0u8);
    let back = there.into_reply(2, 1u8);
    assert_eq!(back.src, "c1");
    assert_eq!(back.dest, "n1");
    assert_eq!(back.body.in_reply_to, Some(1));
}

#[test]
fn acknowledgement_has_id_zero() {
    let init = Message {
        src: "c0".to_string(),
        dest: "n3".to_string(),
        body: Body {
            id: Some(12),
            in_reply_to: None,
            payload: Init { node_id: "n3".to_string(), node_ids: vec!["n3".to_string()] },
        },
    };
    let ack = acknowledge(init);
    assert_eq!(
        ack,
        Message {
            src: "n3".to_string(),
            dest: "c0".to_string(),
            body: Body { id: Some(0), in_reply_to: Some(12), payload: InitOk },
        }
    );
}

#[test]
fn no_answer_gives_no_reply() {
    assert_eq!(reply_to(request(), None), None);
}

#[test]
fn an_answer_is_wrapped_into_the_reply() {
    let reply = reply_to(request(), Some((9, Payload::EchoOk { echo: "hi".to_string() })));
    assert_eq!(
        reply,
        Some(Message {
            src: "n1".to_string(),
            dest: "c1".to_string(),
            body: Body {
                id: Some(9),
                in_reply_to: Some(7),
                payload: Payload::EchoOk { echo: "hi".to_string() },
            },
        })
    );
}

#[test]
fn a_copy_of_a_message_is_equal_to_it() {
    let init = Message {
        src: "c0".to_string(),
        dest: "n3".to_string(),
        body: Body {
            id: None,
            in_reply_to: Some(4),
            payload: Init {
                node_id: "n3".to_string(),
                node_ids: vec!["n1".to_string(), "n2".to_string(), "n3".to_string()],
            },
        },
    };
    assert_eq!(init.clone(), init);
}

use laserbeam::combined::{Node, Payload};
use laserbeam::{Body, Message};

fn inbound(id: usize, payload: Payload) -> Message<Payload> {
    Message {
        src: "c1".to_string(),
        dest: "n1".to_string(),
        body: Body { id: Some(id), in_reply_to: None, payload },
    }
}

fn init() -> Payload {
    Payload::Init { node_id: "n1".to_string(), node_ids: vec!["n1".to_string(), "n2".to_string()] }
}

#[test]
fn a_new_node_has_given_no_id() {
    assert_eq!(Node::new().last_sent(), 0);
}

#[test]
fn the_handshake_is_acknowledged_under_id_zero() {
    let mut node = Node::new();
    let reply = node.handle(inbound(1, init())).unwrap();
    assert_eq!(
        reply,
        Message {
            src: "n1".to_string(),
            dest: "c1".to_string(),
            body: Body { id: Some(0), in_reply_to: Some(1), payload: Payload::InitOk },
        }
    );
    assert_eq!(node.last_sent(), 0);
    assert_eq!(node.gen_unique_id(), "n1-1");
}

#[test]
fn after_the_handshake_the_first_answer_has_id_one() {
    let mut node = Node::new();
    let ack = node.handle(inbound(1, init())).unwrap();
    let reply = node.handle(inbound(2, Payload::Echo { echo: "hello".to_string() })).unwrap();
    assert_eq!(ack.body.id, Some(0));
    assert_eq!(ack.body.in_reply_to, Some(1));
    assert_eq!(reply.body.id, Some(1));
    assert_eq!(reply.body.in_reply_to, Some(2));
    assert_eq!(reply.body.payload, Payload::EchoOk { echo: "hello".to_string() });
}

#[test]
fn a_new_node_has_room_for_every_payload() {
    let mut node = Node::new();
    assert!(node.room_for(&init()));
    assert!(node.room_for(&Payload::Generate));
    assert!(node.room_for(&Payload::EchoOk { echo: "".to_string() }));
}

#[test]
fn an_identifier_is_made_of_the_name_and_the_id_after_the_one_of_the_answer() {
    let mut node = Node::new();
    node.handle(inbound(1, init()));
    let reply = node.handle(inbound(2, Payload::Generate)).unwrap();
    assert_eq!(reply.body.id, Some(1));
    assert_eq!(reply.body.payload, Payload::GenerateOk { id: "n1-2".to_string() });
    let reply = node.handle(inbound(3, Payload::Generate)).unwrap();
    assert_eq!(reply.body.id, Some(2));
    assert_eq!(reply.body.payload, Payload::GenerateOk { id: "n1-3".to_string() });
}

#[test]
fn before_the_handshake_the_name_is_empty() {
    let mut node = Node::new();
    assert_eq!(node.gen_unique_id(), "-1");
    let reply = node.handle(inbound(2, Payload::Generate)).unwrap();
    assert_eq!(reply.body.payload, Payload::GenerateOk { id: "-2".to_string() });
}

#[test]
fn what_is_not_answered_takes_an_id_all_the_same() {
    let mut node = Node::new();
    assert_eq!(node.handle(inbound(1, Payload::EchoOk { echo: "x".to_string() })), None);
    assert_eq!(node.handle(inbound(2, Payload::InitOk)), None);
    assert_eq!(node.handle(inbound(3, Payload::GenerateOk { id: "x".to_string() })), None);
    assert_eq!(node.handle(inbound(4, Payload::BroadcastOk)), None);
    assert_eq!(node.handle(inbound(5, Payload::ReadOk { messages: vec![] })), None);
    assert_eq!(node.handle(inbound(6, Payload::TopologyOk)), None);
    assert_eq!(node.last_sent(), 6);
    let reply = node.handle(inbound(7, Payload::Echo { echo: "x".to_string() })).unwrap();
    assert_eq!(reply.body.id, Some(7));
    assert_eq!(reply.body.in_reply_to, Some(7));
    assert_eq!(reply.body.payload, Payload::EchoOk { echo: "x".to_string() });
}

#[test]
fn broadcasts_are_kept_in_the_order_of_receipt() {
    let mut node = Node::new();
    assert_eq!(
        node.handle(inbound(1, Payload::Broadcast { message: 5 })).unwrap().body.payload,
        Payload::BroadcastOk
    );
    assert_eq!(
        node.handle(inbound(2, Payload::Read)).unwrap().body.payload,
        Payload::ReadOk { messages: vec![5] }
    );
    node.handle(inbound(3, Payload::Broadcast { message: 7 }));
    assert_eq!(
        node.handle(inbound(4, Payload::Read)).unwrap().body.payload,
        Payload::ReadOk { messages: vec![5, 7] }
    );
    assert_eq!(
        node.handle(inbound(5, Payload::Topology { topology: vec![] })).unwrap().body.payload,
        Payload::TopologyOk
    );
}

#[test]
fn the_next_id_is_one_more() {
    let mut node = Node::new();
    assert_eq!(node.increment_id(), 1);
    assert_eq!(node.increment_id(), 2);
    assert_eq!(node.last_sent(), 2);
}

#[test]
fn the_body_of_a_reply_refers_to_the_body_that_it_answers() {
    let mut node = Node::new();
    let body = Body { id: Some(30), in_reply_to: Some(4), payload: Payload::Read };
    assert_eq!(
        node.reply_body(body),
        Some(Body { id: Some(1), in_reply_to: Some(30), payload: Payload::ReadOk { messages: vec![] } })
    );
    let body = Body { id: Some(31), in_reply_to: None, payload: Payload::ReadOk { messages: vec![] } };
    assert_eq!(node.reply_body(body), None);
}

#[test]
fn a_payload_is_answered_by_its_acknowledgement() {
    let mut node = Node::new();
    assert_eq!(init().into_reply(&mut node), Some(Payload::InitOk));
    assert_eq!(node.gen_unique_id(), "n1-1");
    assert_eq!(Payload::InitOk.into_reply(&mut node), None);
    assert_eq!(node.last_sent(), 0);
}

#[test]
fn every_payload_is_read_back() {
    let payloads = vec![
        init(),
        Payload::InitOk,
        Payload::Echo { echo: "a b".to_string() },
        Payload::EchoOk { echo: "".to_string() },
        Payload::Generate,
        Payload::GenerateOk { id: "n1-1".to_string() },
        Payload::Topology { topology: vec![("n1".to_string(), vec!["n2".to_string()])] },
        Payload::TopologyOk,
        Payload::Broadcast { message: 8 },
        Payload::BroadcastOk,
        Payload::Read,
        Payload::ReadOk { messages: vec![1, 2, 3] },
    ];
    for payload in payloads {
        let message = inbound(1, payload);
        let line = message.encode().unwrap();
        assert_eq!(Message::<Payload>::decode(&line), Ok(message));
    }
}

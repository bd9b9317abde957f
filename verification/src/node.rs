//! The contract between the message loop and a node's handler, and the decisions
//! of the loop: the handshake, and what is sent for one inbound message.

use crate::json::DecodeError;
use crate::message::{Body, Envelope, Init, InitOk, InitView, Message};
use crate::wire::read_line;
use vstd::prelude::*;

verus! {

/// What a node does: it is made from the handshake, and it handles one payload at
/// a time, answering with at most one payload and the id that the answer carries.
///
/// A node says in `begun` and `handled` what its two operations do. Whatever it
/// says there, its ids have to grow: `lemma_begun` and `lemma_handled` hold it to
/// that.
pub trait Node: Sized {
    type Payload;

    /// The largest id that the node has given to a message of its own so far. The
    /// acknowledgement of the handshake has used 0.
    spec fn sent(&self) -> nat;

    /// Whether a payload is one that the node never answers.
    spec fn terminal(input: Self::Payload) -> bool;

    /// Whether `node` is what `from_init` makes of the handshake `init_msg`.
    spec fn begun(node: Self, init_msg: Envelope<InitView>) -> bool;

    /// Whether `handle` may take a node from `before` to `after` on `input` and
    /// answer it with `answer`.
    spec fn handled(
        before: Self,
        input: Self::Payload,
        after: Self,
        answer: Option<(usize, Self::Payload)>,
    ) -> bool;

    /// A node that has just been made has used no id but 0.
    proof fn lemma_begun(node: Self, init_msg: Envelope<InitView>)
        requires
            Self::begun(node, init_msg),
        ensures
            node.sent() == 0,
    ;

    /// A payload that is never answered gets no answer. An answer carries an id
    /// above every id used before, which is then the largest one used; without an
    /// answer the largest id used stays what it was.
    proof fn lemma_handled(
        before: Self,
        input: Self::Payload,
        after: Self,
        answer: Option<(usize, Self::Payload)>,
    )
        requires
            Self::handled(before, input, after, answer),
        ensures
            Self::terminal(input) ==> answer is None,
            match answer {
                Some((id, _)) => before.sent() < id && after.sent() == id,
                None => after.sent() == before.sent(),
            },
    ;

    fn from_init(init_msg: Message<Init>) -> (node: Self)
        ensures
            Self::begun(node, init_msg@),
    ;

    /// The largest id used so far, for a caller that has to know whether another
    /// one is left.
    fn last_sent(&self) -> (id: usize)
        ensures
            id == self.sent(),
    ;

    /// Tells whether a payload is one that the node never answers.
    fn is_terminal(input: &Self::Payload) -> (terminal: bool)
        ensures
            terminal == Self::terminal(*input),
    ;

    /// Handles one payload. A payload that is never answered is handled at any
    /// time; any other as long as an id is left to answer it with.
    fn handle(&mut self, input: &Self::Payload) -> (answer: Option<(usize, Self::Payload)>)
        requires
            !Self::terminal(*input) ==> old(self).sent() < usize::MAX,
        ensures
            Self::handled(*old(self), *input, *final(self), answer),
    ;
}

/// The message that goes out for `input` when the handler has answered `answer`.
pub open spec fn reply_of<P>(input: Message<P>, answer: Option<(usize, P)>) -> Option<Message<P>> {
    match answer {
        Some((id, payload)) => Some(
            Message {
                src: input.dest,
                dest: input.src,
                body: Body { id: Some(id), in_reply_to: input.body.id, payload },
            },
        ),
        None => None,
    }
}

/// What holds of one turn of the loop, in which a node whose largest id was `before`
/// got `input`, `reply` went out, and the node's largest id became `after`.
pub open spec fn turn_holds<P>(
    before: nat,
    input: Message<P>,
    reply: Option<Message<P>>,
    after: nat,
) -> bool {
    match reply {
        Some(m) => {
            &&& m.src == input.dest
            &&& m.dest == input.src
            &&& m.body.in_reply_to == input.body.id
            &&& m.body.id matches Some(id) && before < id && after == id
        },
        None => after == before,
    }
}

/// The acknowledgement of a handshake: the reply to it with id 0.
pub fn acknowledge(init_msg: Message<Init>) -> (ack: Message<InitOk>)
    ensures
        ack == (Message {
            src: init_msg.dest,
            dest: init_msg.src,
            body: Body { id: Some(0usize), in_reply_to: init_msg.body.id, payload: InitOk },
        }),
{
    init_msg.into_reply(0, InitOk)
}

/// The handshake: makes the node from the first message and acknowledges it.
pub fn handshake<N: Node>(init_msg: Message<Init>) -> (started: (N, Message<InitOk>))
    ensures
        N::begun(started.0, init_msg@),
        started.0.sent() == 0,
        started.1 == (Message {
            src: init_msg.dest,
            dest: init_msg.src,
            body: Body { id: Some(0usize), in_reply_to: init_msg.body.id, payload: InitOk },
        }),
{
    let copy = init_msg.clone();
    proof {
        assert(copy@.payload.node_ids =~= init_msg@.payload.node_ids);
    }
    let node = N::from_init(copy);
    proof {
        N::lemma_begun(node, init_msg@);
    }
    let ack = acknowledge(init_msg);
    (node, ack)
}

/// The first line is missing or is no handshake.
#[derive(Debug, PartialEq, Eq, Clone, Copy)]
pub struct HandshakeMissingOrMalformed {
    pub cause: DecodeError,
}

/// Starts a node from the first line of its input: where the line is a handshake,
/// the node is made from it and the handshake is acknowledged with id 0; any
/// other line, an empty one too, is an error.
pub fn start<N: Node>(first_line: &str) -> (r: Result<
    (N, Message<InitOk>),
    HandshakeMissingOrMalformed,
>)
    ensures
        match read_line::<Init>(first_line@) {
            Ok(init) => r matches Ok((node, ack)) && N::begun(node, init) && node.sent() == 0
                && ack@ == (Envelope {
                src: init.dest,
                dest: init.src,
                id: Some(0usize),
                in_reply_to: init.id,
                payload: InitOk,
            }),
            Err(e) => r matches Err(x) && x.cause == e,
        },
{
    match Message::<Init>::decode(first_line) {
        Ok(init_msg) => Ok(handshake(init_msg)),
        Err(cause) => Err(HandshakeMissingOrMalformed { cause }),
    }
}

/// Wraps the handler's answer to `input`, if there is one, into the reply to it.
pub fn reply_to<P>(input: Message<P>, answer: Option<(usize, P)>) -> (reply: Option<Message<P>>)
    ensures
        reply == reply_of(input, answer),
{
    match answer {
        Some((msg_id, reply_payload)) => Some(input.into_reply(msg_id, reply_payload)),
        None => None,
    }
}

/// One turn of the loop: hands the payload of `input` to the node and gives back
/// what is to be sent, if anything: the node's answer, wrapped into the reply to
/// `input`.
pub fn respond<N: Node>(node: &mut N, input: Message<N::Payload>) -> (reply: Option<
    Message<N::Payload>,
>)
    requires
        !N::terminal(input.body.payload) ==> old(node).sent() < usize::MAX,
    ensures
        exists|answer: Option<(usize, N::Payload)>|
            #[trigger] N::handled(*old(node), input.body.payload, *final(node), answer) && reply
                == reply_of(input, answer),
        N::terminal(input.body.payload) ==> reply is None,
        turn_holds(old(node).sent(), input, reply, final(node).sent()),
{
    let answer = node.handle(&input.body.payload);
    proof {
        N::lemma_handled(*old(node), input.body.payload, *node, answer);
    }
    reply_to(input, answer)
}

/// One turn of the loop as a record.
pub struct Turn<P> {
    pub before: nat,
    pub input: Message<P>,
    pub reply: Option<Message<P>>,
    pub after: nat,
}

/// A run of the loop: every turn is one that `respond` can make, and each starts
/// where the one before it ended.
pub open spec fn is_run<P>(turns: Seq<Turn<P>>) -> bool {
    &&& forall|i: int|
        0 <= i < turns.len() ==> turn_holds(
            (#[trigger] turns[i]).before,
            turns[i].input,
            turns[i].reply,
            turns[i].after,
        )
    &&& forall|i: int| 0 < i < turns.len() ==> (#[trigger] turns[i]).before == turns[i - 1].after
}

/// In a run the largest id used never falls.
pub proof fn lemma_counter_never_falls<P>(turns: Seq<Turn<P>>, i: int, j: int)
    requires
        is_run(turns),
        0 <= i <= j < turns.len(),
    ensures
        turns[i].before <= turns[j].before,
        turns[j].before <= turns[j].after,
    decreases j - i,
{
    if i < j {
        lemma_counter_never_falls(turns, i, j - 1);
    }
}

/// In a run, whatever the inbound messages are, every reply goes back to the sender
/// of the message that caused it and refers to that message's id, and of two replies
/// the later one has the larger id.
pub proof fn lemma_replies_correlate_and_ids_increase<P>(turns: Seq<Turn<P>>)
    requires
        is_run(turns),
    ensures
        forall|i: int|
            0 <= i < turns.len() && (#[trigger] turns[i]).reply is Some ==> {
                &&& turns[i].reply->0.body.in_reply_to == turns[i].input.body.id
                &&& turns[i].reply->0.src == turns[i].input.dest
                &&& turns[i].reply->0.dest == turns[i].input.src
                &&& turns[i].reply->0.body.id is Some
            },
        forall|i: int, j: int|
            0 <= i < j < turns.len() && (#[trigger] turns[i]).reply is Some && (
            #[trigger] turns[j]).reply is Some ==> turns[i].reply->0.body.id->0
                < turns[j].reply->0.body.id->0,
{
    assert forall|i: int, j: int|
        0 <= i < j < turns.len() && (#[trigger] turns[i]).reply is Some && (
        #[trigger] turns[j]).reply is Some implies turns[i].reply->0.body.id->0
        < turns[j].reply->0.body.id->0 by {
        lemma_counter_never_falls(turns, i + 1, j);
    }
}

} // verus!

//! The envelope of a message and the rule that derives a reply from a request.

use vstd::prelude::*;

verus! {

/// One message: its sender, its recipient and its body.
#[derive(Debug, PartialEq, Eq)]
pub struct Message<P> {
    pub src: String,
    pub dest: String,
    pub body: Body<P>,
}

/// The sender's id for a message, the id of the message that it answers, and the payload.
#[derive(Debug, PartialEq, Eq)]
pub struct Body<P> {
    pub id: Option<usize>,
    pub in_reply_to: Option<usize>,
    pub payload: P,
}

/// The handshake: the node's own name and the names of all nodes of the cluster.
#[derive(Debug, PartialEq, Eq)]
pub struct Init {
    pub node_id: String,
    pub node_ids: Vec<String>,
}

/// A message as a value of mathematics, with the payload as `T` has it.
pub struct Envelope<T> {
    pub src: Seq<char>,
    pub dest: Seq<char>,
    pub id: Option<usize>,
    pub in_reply_to: Option<usize>,
    pub payload: T,
}

impl<P: View> View for Message<P> {
    type V = Envelope<P::V>;

    open spec fn view(&self) -> Envelope<P::V> {
        Envelope {
            src: self.src@,
            dest: self.dest@,
            id: self.body.id,
            in_reply_to: self.body.in_reply_to,
            payload: self.body.payload@,
        }
    }
}

/// The acknowledgement of the handshake. It carries nothing but its kind.
#[derive(Debug, PartialEq, Eq)]
pub struct InitOk;

/// The handshake as a value of mathematics.
pub struct InitView {
    pub node_id: Seq<char>,
    pub node_ids: Seq<Seq<char>>,
}

impl View for Init {
    type V = InitView;

    open spec fn view(&self) -> InitView {
        InitView {
            node_id: self.node_id@,
            node_ids: Seq::new(self.node_ids.len() as nat, |i: int| self.node_ids[i]@),
        }
    }
}

impl View for InitOk {
    type V = InitOk;

    open spec fn view(&self) -> InitOk {
        InitOk
    }
}

impl<P> Body<P> {
    /// The body of a reply to this one: it carries `msg_id` as its own id, refers to
    /// this body's id, and holds `reply_payload`.
    pub fn into_reply<U>(self, msg_id: usize, reply_payload: U) -> (reply: Body<U>)
        ensures
            reply.id == Some(msg_id),
            reply.in_reply_to == self.id,
            reply.payload == reply_payload,
    {
        Body { id: Some(msg_id), in_reply_to: self.id, payload: reply_payload }
    }
}

impl<P> Message<P> {
    /// The reply to this message: sender and recipient change places, and the body is
    /// the reply to this message's body.
    pub fn into_reply<U>(self, msg_id: usize, reply_payload: U) -> (reply: Message<U>)
        ensures
            reply.src == self.dest,
            reply.dest == self.src,
            reply.body.id == Some(msg_id),
            reply.body.in_reply_to == self.body.id,
            reply.body.payload == reply_payload,
    {
        Message {
            src: self.dest,
            dest: self.src,
            body: self.body.into_reply(msg_id, reply_payload),
        }
    }
}

impl<P: Clone> Clone for Body<P> {
    fn clone(&self) -> (copy: Self)
        ensures
            copy.id == self.id,
            copy.in_reply_to == self.in_reply_to,
            cloned(self.payload, copy.payload),
    {
        Body { id: self.id, in_reply_to: self.in_reply_to, payload: self.payload.clone() }
    }
}

impl<P: Clone> Clone for Message<P> {
    fn clone(&self) -> (copy: Self)
        ensures
            copy.src == self.src,
            copy.dest == self.dest,
            copy.body.id == self.body.id,
            copy.body.in_reply_to == self.body.in_reply_to,
            cloned(self.body.payload, copy.body.payload),
    {
        Message { src: self.src.clone(), dest: self.dest.clone(), body: self.body.clone() }
    }
}

impl Clone for Init {
    fn clone(&self) -> (copy: Self)
        ensures
            copy.node_id == self.node_id,
            copy.node_ids.len() == self.node_ids.len(),
            forall|i: int| 0 <= i < self.node_ids.len() ==> copy.node_ids[i] == self.node_ids[i],
    {
        Init { node_id: self.node_id.clone(), node_ids: self.node_ids.clone() }
    }
}

impl Clone for InitOk {
    fn clone(&self) -> (copy: Self) {
        InitOk
    }
}

} // verus!

//! A node that sends back what it is sent.

use crate::fields::{
    as_text, find, is_name, lemma_find_in_two, literal_json, lookup, member, text_json, text_of,
};
use crate::json::{lemma_flat_members_laid_out, DecodeError, Json, Tree};
use crate::message::{Envelope, Init, InitView, Message};
use crate::node::Node;
use crate::wire::{lemma_names, Wire};
use vstd::prelude::*;

verus! {

/// What is said to an echo node and what it says.
#[derive(Debug, PartialEq, Eq)]
pub enum Payload {
    Echo { echo: String },
    EchoOk { echo: String },
}

/// A payload as a value of mathematics.
pub enum PayloadView {
    Echo { echo: Seq<char> },
    EchoOk { echo: Seq<char> },
}

impl View for Payload {
    type V = PayloadView;

    open spec fn view(&self) -> PayloadView {
        match self {
            Payload::Echo { echo } => PayloadView::Echo { echo: echo@ },
            Payload::EchoOk { echo } => PayloadView::EchoOk { echo: echo@ },
        }
    }
}

/// How long the names are that are written here, and with which letter those of
/// one length begin: by this they are told apart.
proof fn lemma_kinds()
    ensures
        "echo"@.len() == 4,
        "echo"@[0] == 'e',
        "echo_ok"@.len() == 7,
{
    reveal_strlit("echo");
    reveal_strlit("echo_ok");
}

impl Wire for Payload {
    /// Every payload is well formed.
    open spec fn wf(payload: PayloadView) -> bool {
        true
    }

    open spec fn same(one: PayloadView, other: PayloadView) -> bool {
        one == other
    }

    proof fn lemma_read_by_find(one: Seq<(Seq<char>, Tree)>, other: Seq<(Seq<char>, Tree)>) {
    }

    proof fn lemma_read_wf(members: Seq<(Seq<char>, Tree)>) {
    }

    proof fn lemma_read_laid_out(payload: PayloadView, rest: Seq<(Seq<char>, Tree)>) {
        lemma_flat_members_laid_out(Self::members(payload));
        Self::lemma_read_back(payload, rest);
    }

    open spec fn members(payload: PayloadView) -> Seq<(Seq<char>, Tree)> {
        match payload {
            PayloadView::Echo { echo } => seq![
                ("type"@, Tree::Text("echo"@)),
                ("echo"@, Tree::Text(echo)),
            ],
            PayloadView::EchoOk { echo } => seq![
                ("type"@, Tree::Text("echo_ok"@)),
                ("echo"@, Tree::Text(echo)),
            ],
        }
    }

    open spec fn read(members: Seq<(Seq<char>, Tree)>) -> Result<PayloadView, DecodeError> {
        match as_text(find(members, "type"@)) {
            Err(e) => Err(e),
            Ok(kind) => if kind == "echo"@ {
                match as_text(find(members, "echo"@)) {
                    Err(e) => Err(e),
                    Ok(echo) => Ok(PayloadView::Echo { echo }),
                }
            } else if kind == "echo_ok"@ {
                match as_text(find(members, "echo"@)) {
                    Err(e) => Err(e),
                    Ok(echo) => Ok(PayloadView::EchoOk { echo }),
                }
            } else {
                Err(DecodeError::UnknownType)
            },
        }
    }

    proof fn lemma_read_back(payload: PayloadView, rest: Seq<(Seq<char>, Tree)>) {
        lemma_names();
        lemma_kinds();
        let own = Self::members(payload);
        lemma_find_in_two(own, rest, "type"@);
        lemma_find_in_two(own, rest, "echo"@);
        assert(find(own, "type"@) == Some(own[0].1) && find(own, "echo"@) == Some(own[1].1)) by {
            reveal_with_fuel(find, 3);
        }
    }

    proof fn lemma_members(payload: PayloadView) {
        lemma_names();
        lemma_kinds();
        let own = Self::members(payload);
        assert(find(own, "msg_id"@) is None && find(own, "in_reply_to"@) is None) by {
            reveal_with_fuel(find, 3);
        }
    }

    fn to_members(&self) -> (members: Vec<(String, Json)>) {
        let mut members: Vec<(String, Json)> = Vec::new();
        match self {
            Payload::Echo { echo } => {
                members.push(member("type", literal_json("echo")));
                members.push(member("echo", text_json(echo)));
            },
            Payload::EchoOk { echo } => {
                members.push(member("type", literal_json("echo_ok")));
                members.push(member("echo", text_json(echo)));
            },
        }
        members
    }

    fn from_members(members: &Vec<(String, Json)>) -> (r: Result<Self, DecodeError>) {
        let kind = match text_of(lookup(members, "type")) {
            Ok(kind) => kind,
            Err(e) => {
                return Err(e);
            },
        };
        if is_name(&kind, "echo") {
            match text_of(lookup(members, "echo")) {
                Ok(echo) => Ok(Payload::Echo { echo }),
                Err(e) => Err(e),
            }
        } else if is_name(&kind, "echo_ok") {
            match text_of(lookup(members, "echo")) {
                Ok(echo) => Ok(Payload::EchoOk { echo }),
                Err(e) => Err(e),
            }
        } else {
            Err(DecodeError::UnknownType)
        }
    }
}

/// The echo node. All that it keeps is the last id that it has used.
pub struct EchoNode {
    last_sent_message: usize,
}

impl Node for EchoNode {
    type Payload = Payload;

    closed spec fn sent(&self) -> nat {
        self.last_sent_message as nat
    }

    open spec fn terminal(input: Payload) -> bool {
        input is EchoOk
    }

    open spec fn begun(node: Self, init_msg: Envelope<InitView>) -> bool {
        node.sent() == 0
    }

    /// An `echo` is answered with the same text under the next id. An `echo_ok` is
    /// not answered and changes nothing.
    open spec fn handled(
        before: Self,
        input: Payload,
        after: Self,
        answer: Option<(usize, Payload)>,
    ) -> bool {
        match input {
            Payload::Echo { echo } => {
                &&& after.sent() == before.sent() + 1
                &&& answer matches Some((id, Payload::EchoOk { echo: back }))
                &&& id == before.sent() + 1
                &&& back@ == echo@
            },
            Payload::EchoOk { .. } => answer is None && after == before,
        }
    }

    proof fn lemma_begun(node: Self, init_msg: Envelope<InitView>) {
    }

    proof fn lemma_handled(
        before: Self,
        input: Payload,
        after: Self,
        answer: Option<(usize, Payload)>,
    ) {
    }

    fn from_init(_init_msg: Message<Init>) -> (node: Self) {
        EchoNode { last_sent_message: 0 }
    }

    fn last_sent(&self) -> (id: usize) {
        self.last_sent_message
    }

    fn is_terminal(input: &Payload) -> (terminal: bool) {
        match input {
            Payload::EchoOk { .. } => true,
            _ => false,
        }
    }

    fn handle(&mut self, input: &Payload) -> (answer: Option<(usize, Payload)>) {
        match input {
            Payload::Echo { echo } => {
                self.last_sent_message += 1;
                Some((self.last_sent_message, Payload::EchoOk { echo: echo.clone() }))
            },
            Payload::EchoOk { .. } => None,
        }
    }
}

} // verus!

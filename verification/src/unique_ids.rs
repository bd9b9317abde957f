//! A node that hands out identifiers, each only once.

use crate::decimal::{label, labelled, lemma_labels_differ};
use crate::fields::{
    as_text, find, is_name, lemma_find_in_two, literal_json, lookup, member, text_json, text_of,
};
use crate::json::{lemma_flat_members_laid_out, DecodeError, Json, Tree};
use crate::message::{Envelope, Init, InitView, Message};
use crate::node::Node;
use crate::wire::{lemma_names, Wire};
use vstd::prelude::*;

verus! {

/// What is said to a node that hands out identifiers and what it says.
#[derive(Debug, PartialEq, Eq)]
pub enum Payload {
    Generate,
    GenerateOk { id: String },
}

/// A payload as a value of mathematics.
pub enum PayloadView {
    Generate,
    GenerateOk { id: Seq<char> },
}

impl View for Payload {
    type V = PayloadView;

    open spec fn view(&self) -> PayloadView {
        match self {
            Payload::Generate => PayloadView::Generate,
            Payload::GenerateOk { id } => PayloadView::GenerateOk { id: id@ },
        }
    }
}

/// How long the names are that are written here, and with which letter those of
/// one length begin: by this they are told apart.
proof fn lemma_kinds()
    ensures
        "generate"@.len() == 8,
        "generate_ok"@.len() == 11,
        "id"@.len() == 2,
{
    reveal_strlit("generate");
    reveal_strlit("generate_ok");
    reveal_strlit("id");
}

impl Wire for Payload {
    /// Every payload is well formed.
    open spec fn wf(payload: PayloadView) -> bool {
        true
    }

    open spec fn same(one: PayloadView, other: PayloadView) -> bool {
        one == other
    }

    proof fn lemma_read_by_find(one: Seq<(Seq<char>, Tree)>, other: Seq<(Seq<char>, Tree)>) {
    }

    proof fn lemma_read_wf(members: Seq<(Seq<char>, Tree)>) {
    }

    proof fn lemma_read_laid_out(payload: PayloadView, rest: Seq<(Seq<char>, Tree)>) {
        lemma_flat_members_laid_out(Self::members(payload));
        Self::lemma_read_back(payload, rest);
    }

    open spec fn members(payload: PayloadView) -> Seq<(Seq<char>, Tree)> {
        match payload {
            PayloadView::Generate => seq![("type"@, Tree::Text("generate"@))],
            PayloadView::GenerateOk { id } => seq![
                ("type"@, Tree::Text("generate_ok"@)),
                ("id"@, Tree::Text(id)),
            ],
        }
    }

    open spec fn read(members: Seq<(Seq<char>, Tree)>) -> Result<PayloadView, DecodeError> {
        match as_text(find(members, "type"@)) {
            Err(e) => Err(e),
            Ok(kind) => if kind == "generate"@ {
                Ok(PayloadView::Generate)
            } else if kind == "generate_ok"@ {
                match as_text(find(members, "id"@)) {
                    Err(e) => Err(e),
                    Ok(id) => Ok(PayloadView::GenerateOk { id }),
                }
            } else {
                Err(DecodeError::UnknownType)
            },
        }
    }

    proof fn lemma_read_back(payload: PayloadView, rest: Seq<(Seq<char>, Tree)>) {
        lemma_names();
        lemma_kinds();
        let own = Self::members(payload);
        lemma_find_in_two(own, rest, "type"@);
        lemma_find_in_two(own, rest, "id"@);
        assert(find(own, "type"@) == Some(own[0].1)) by {
            reveal_with_fuel(find, 3);
        }
        if payload is GenerateOk {
            assert(find(own, "id"@) == Some(own[1].1)) by {
                reveal_with_fuel(find, 3);
            }
        }
    }

    proof fn lemma_members(payload: PayloadView) {
        lemma_names();
        lemma_kinds();
        let own = Self::members(payload);
        assert(find(own, "msg_id"@) is None && find(own, "in_reply_to"@) is None) by {
            reveal_with_fuel(find, 3);
        }
    }

    fn to_members(&self) -> (members: Vec<(String, Json)>) {
        let mut members: Vec<(String, Json)> = Vec::new();
        match self {
            Payload::Generate => {
                members.push(member("type", literal_json("generate")));
            },
            Payload::GenerateOk { id } => {
                members.push(member("type", literal_json("generate_ok")));
                members.push(member("id", text_json(id)));
            },
        }
        members
    }

    fn from_members(members: &Vec<(String, Json)>) -> (r: Result<Self, DecodeError>) {
        let kind = match text_of(lookup(members, "type")) {
            Ok(kind) => kind,
            Err(e) => {
                return Err(e);
            },
        };
        if is_name(&kind, "generate") {
            Ok(Payload::Generate)
        } else if is_name(&kind, "generate_ok") {
            match text_of(lookup(members, "id")) {
                Ok(id) => Ok(Payload::GenerateOk { id }),
                Err(e) => Err(e),
            }
        } else {
            Err(DecodeError::UnknownType)
        }
    }
}

/// The node: its name and the last id that it has used.
pub struct UniqueIdNode {
    id: String,
    last_sent_message: usize,
}

impl UniqueIdNode {
    /// The node's own name, which every identifier that it hands out begins with.
    pub closed spec fn name(&self) -> Seq<char> {
        self.id@
    }
}

impl Node for UniqueIdNode {
    type Payload = Payload;

    closed spec fn sent(&self) -> nat {
        self.last_sent_message as nat
    }

    open spec fn terminal(input: Payload) -> bool {
        input is GenerateOk
    }

    /// The node takes its name from the handshake.
    open spec fn begun(node: Self, init_msg: Envelope<InitView>) -> bool {
        node.sent() == 0 && node.name() == init_msg.payload.node_id
    }

    /// A `generate` is answered under the next id with an identifier made of the
    /// node's name and that id. A `generate_ok` is not answered and changes nothing.
    open spec fn handled(
        before: Self,
        input: Payload,
        after: Self,
        answer: Option<(usize, Payload)>,
    ) -> bool {
        match input {
            Payload::Generate => {
                &&& after.name() == before.name()
                &&& after.sent() == before.sent() + 1
                &&& answer matches Some((id, Payload::GenerateOk { id: made }))
                &&& id == before.sent() + 1
                &&& made@ == label(before.name(), before.sent() + 1)
            },
            Payload::GenerateOk { .. } => answer is None && after == before,
        }
    }

    proof fn lemma_begun(node: Self, init_msg: Envelope<InitView>) {
    }

    proof fn lemma_handled(
        before: Self,
        input: Payload,
        after: Self,
        answer: Option<(usize, Payload)>,
    ) {
    }

    fn from_init(init_msg: Message<Init>) -> (node: Self) {
        UniqueIdNode { id: init_msg.body.payload.node_id, last_sent_message: 0 }
    }

    fn last_sent(&self) -> (id: usize) {
        self.last_sent_message
    }

    fn is_terminal(input: &Payload) -> (terminal: bool) {
        match input {
            Payload::GenerateOk { .. } => true,
            _ => false,
        }
    }

    fn handle(&mut self, input: &Payload) -> (answer: Option<(usize, Payload)>) {
        match input {
            Payload::Generate => {
                self.last_sent_message += 1;
                Some(
                    (
                        self.last_sent_message,
                        Payload::GenerateOk { id: labelled(&self.id, self.last_sent_message) },
                    ),
                )
            },
            Payload::GenerateOk { .. } => None,
        }
    }
}

/// A node never hands out an identifier twice: of two turns of one node, of which
/// the second begins no earlier than the first has ended, the identifiers differ.
pub proof fn lemma_identifiers_differ(
    first_before: UniqueIdNode,
    first_after: UniqueIdNode,
    first: Option<(usize, Payload)>,
    second_before: UniqueIdNode,
    second_after: UniqueIdNode,
    second: Option<(usize, Payload)>,
)
    requires
        UniqueIdNode::handled(first_before, Payload::Generate, first_after, first),
        UniqueIdNode::handled(second_before, Payload::Generate, second_after, second),
        first_after.name() == second_before.name(),
        first_after.sent() <= second_before.sent(),
    ensures
        first matches Some((_, Payload::GenerateOk { id: one })) && second matches Some(
            (_, Payload::GenerateOk { id: other }),
        ) && one@ != other@,
{
    lemma_labels_differ(first_before.name(), first_before.sent() + 1, second_before.sent() + 1);
}

} // verus!

//! A node that keeps the numbers that are broadcast to it and tells them on request.

use crate::fields::{
    as_number, as_numbers, as_text, as_text_lists, find, is_name, is_text_list, lemma_find_in_two, lemma_kept_finds, lemma_table_members, lemma_text_lists_members, same_table, table_distinct, table_members, text_lists,
    lemma_numbers_back, lemma_text_lists_back, literal_json, lookup, member, number_json,
    number_of, number_tree, numbers_json, numbers_of, numbers_tree, table_view, text_lists_json,
    text_lists_of, text_lists_tree, text_of,
};
use crate::json::{
    keeps, kept, laid_out, lemma_flat_members_laid_out, members_laid_out, well_laid, DecodeError,
    Json, Tree,
};
use crate::message::{Envelope, Init, InitView, Message};
use crate::node::Node;
use crate::wire::{lemma_find_laid_out, lemma_names, Wire};
use vstd::prelude::*;

verus! {

/// What is said to a broadcast node and what it says.
#[derive(Debug, PartialEq, Eq)]
pub enum Payload {
    /// For each node its neighbours. In a topology that was read no name occurs
    /// twice; of one that is written with a name twice `serde_json` keeps one.
    Topology { topology: Vec<(String, Vec<String>)> },
    TopologyOk,
    Broadcast { message: usize },
    BroadcastOk,
    Read,
    ReadOk { messages: Vec<usize> },
}

/// A payload as a value of mathematics.
pub enum PayloadView {
    Topology { topology: Seq<(Seq<char>, Seq<Seq<char>>)> },
    TopologyOk,
    Broadcast { message: usize },
    BroadcastOk,
    Read,
    ReadOk { messages: Seq<usize> },
}

impl View for Payload {
    type V = PayloadView;

    open spec fn view(&self) -> PayloadView {
        match self {
            Payload::Topology { topology } => PayloadView::Topology {
                topology: table_view(topology@),
            },
            Payload::TopologyOk => PayloadView::TopologyOk,
            Payload::Broadcast { message } => PayloadView::Broadcast { message: *message },
            Payload::BroadcastOk => PayloadView::BroadcastOk,
            Payload::Read => PayloadView::Read,
            Payload::ReadOk { messages } => PayloadView::ReadOk { messages: messages@ },
        }
    }
}

/// How long the names are that are written here, and with which letter those of
/// one length begin: by this they are told apart.
proof fn lemma_kinds()
    ensures
        "topology"@.len() == 8,
        "topology_ok"@.len() == 11,
        "broadcast"@.len() == 9,
        "broadcast_ok"@.len() == 12,
        "read"@.len() == 4,
        "read_ok"@.len() == 7,
        "message"@.len() == 7,
        "messages"@.len() == 8,
{
    reveal_strlit("topology");
    reveal_strlit("topology_ok");
    reveal_strlit("broadcast");
    reveal_strlit("broadcast_ok");
    reveal_strlit("read");
    reveal_strlit("read_ok");
    reveal_strlit("message");
    reveal_strlit("messages");
}

impl Wire for Payload {
    /// A topology is well formed where no name occurs twice in it.
    open spec fn wf(payload: PayloadView) -> bool {
        match payload {
            PayloadView::Topology { topology } => table_distinct(topology),
            _ => true,
        }
    }

    /// Two topologies say the same where they have the same neighbours under every
    /// name, in whatever order the names stand. Any other payloads say the same
    /// where they are equal.
    open spec fn same(one: PayloadView, other: PayloadView) -> bool {
        match (one, other) {
            (PayloadView::Topology { topology: a }, PayloadView::Topology { topology: b }) => {
                same_table(a, b)
            },
            _ => one == other,
        }
    }

    proof fn lemma_read_by_find(one: Seq<(Seq<char>, Tree)>, other: Seq<(Seq<char>, Tree)>) {
    }

    proof fn lemma_read_wf(members: Seq<(Seq<char>, Tree)>) {
        if Self::read(members) matches Ok(PayloadView::Topology { topology }) {
            let held = find(members, "topology"@)->0->Object_0;
            lemma_kinds();
            lemma_text_lists_members(held);
        }
    }

    proof fn lemma_read_laid_out(payload: PayloadView, rest: Seq<(Seq<char>, Tree)>) {
        match payload {
            PayloadView::Topology { topology } => {
                lemma_names();
                lemma_kinds();
                let own = Self::members(payload);
                let laid = members_laid_out(own);
                let given = table_members(topology);
                let held = kept(given);
                lemma_table_members(topology);
                lemma_flat_members_laid_out(given);
                assert(own[1].1 == Tree::Object(given));
                assert(well_laid(own[1].1));
                assert(keeps(given, held));
                assert(laid_out(own[1].1) == Tree::Object(held));
                assert(find(own, "type"@) == Some(own[0].1) && find(own, "topology"@) == Some(
                    own[1].1,
                )) by {
                    reveal_with_fuel(find, 3);
                }
                lemma_find_laid_out(own, "type"@);
                lemma_find_laid_out(own, "topology"@);
                lemma_find_in_two(laid, rest, "type"@);
                lemma_find_in_two(laid, rest, "topology"@);
                assert forall|i: int| 0 <= i < held.len() implies is_text_list(
                    (#[trigger] held[i]).1,
                ) by {
                    assert(given.contains(held[i]));
                    let j = choose|j: int| 0 <= j < given.len() && given[j] == held[i];
                    assert(is_text_list(given[j].1));
                }
                lemma_text_lists_members(held);
                assert forall|key: Seq<char>| #[trigger]
                    find(table_members(text_lists(held)), key) == find(given, key) by {
                    lemma_kept_finds(given, held, key);
                }
            },
            PayloadView::ReadOk { messages } => {
                lemma_numbers_back(messages);
                lemma_flat_members_laid_out(Self::members(payload));
                Self::lemma_read_back(payload, rest);
            },
            _ => {
                lemma_flat_members_laid_out(Self::members(payload));
                Self::lemma_read_back(payload, rest);
            },
        }
    }

    open spec fn members(payload: PayloadView) -> Seq<(Seq<char>, Tree)> {
        match payload {
            PayloadView::Topology { topology } => seq![
                ("type"@, Tree::Text("topology"@)),
                ("topology"@, text_lists_tree(topology)),
            ],
            PayloadView::TopologyOk => seq![("type"@, Tree::Text("topology_ok"@))],
            PayloadView::Broadcast { message } => seq![
                ("type"@, Tree::Text("broadcast"@)),
                ("message"@, number_tree(message)),
            ],
            PayloadView::BroadcastOk => seq![("type"@, Tree::Text("broadcast_ok"@))],
            PayloadView::Read => seq![("type"@, Tree::Text("read"@))],
            PayloadView::ReadOk { messages } => seq![
                ("type"@, Tree::Text("read_ok"@)),
                ("messages"@, numbers_tree(messages)),
            ],
        }
    }

    open spec fn read(members: Seq<(Seq<char>, Tree)>) -> Result<PayloadView, DecodeError> {
        match as_text(find(members, "type"@)) {
            Err(e) => Err(e),
            Ok(kind) => if kind == "topology"@ {
                match as_text_lists(find(members, "topology"@)) {
                    Err(e) => Err(e),
                    Ok(topology) => Ok(PayloadView::Topology { topology }),
                }
            } else if kind == "topology_ok"@ {
                Ok(PayloadView::TopologyOk)
            } else if kind == "broadcast"@ {
                match as_number(find(members, "message"@)) {
                    Err(e) => Err(e),
                    Ok(message) => Ok(PayloadView::Broadcast { message }),
                }
            } else if kind == "broadcast_ok"@ {
                Ok(PayloadView::BroadcastOk)
            } else if kind == "read"@ {
                Ok(PayloadView::Read)
            } else if kind == "read_ok"@ {
                match as_numbers(find(members, "messages"@)) {
                    Err(e) => Err(e),
                    Ok(messages) => Ok(PayloadView::ReadOk { messages }),
                }
            } else {
                Err(DecodeError::UnknownType)
            },
        }
    }

    proof fn lemma_read_back(payload: PayloadView, rest: Seq<(Seq<char>, Tree)>) {
        lemma_names();
        lemma_kinds();
        let own = Self::members(payload);
        lemma_find_in_two(own, rest, "type"@);
        match payload {
            PayloadView::Topology { topology } => {
                lemma_find_in_two(own, rest, "topology"@);
                lemma_text_lists_back(topology);
                assert(find(own, "topology"@) == Some(own[1].1)) by {
                    reveal_with_fuel(find, 3);
                }
            },
            PayloadView::Broadcast { message } => {
                lemma_find_in_two(own, rest, "message"@);
                assert(find(own, "message"@) == Some(own[1].1)) by {
                    reveal_with_fuel(find, 3);
                }
            },
            PayloadView::ReadOk { messages } => {
                lemma_find_in_two(own, rest, "messages"@);
                lemma_numbers_back(messages);
                assert(find(own, "messages"@) == Some(own[1].1)) by {
                    reveal_with_fuel(find, 3);
                }
            },
            _ => {},
        }
    }

    proof fn lemma_members(payload: PayloadView) {
        lemma_names();
        lemma_kinds();
        let own = Self::members(payload);
        assert(find(own, "msg_id"@) is None && find(own, "in_reply_to"@) is None) by {
            reveal_with_fuel(find, 3);
        }
        match payload {
            PayloadView::Topology { topology } => {
                lemma_table_members(topology);
            },
            PayloadView::ReadOk { messages } => {
                lemma_numbers_back(messages);
            },
            _ => {},
        }
    }

    fn to_members(&self) -> (members: Vec<(String, Json)>) {
        let mut members: Vec<(String, Json)> = Vec::new();
        match self {
            Payload::Topology { topology } => {
                members.push(member("type", literal_json("topology")));
                members.push(member("topology", text_lists_json(topology)));
            },
            Payload::TopologyOk => {
                members.push(member("type", literal_json("topology_ok")));
            },
            Payload::Broadcast { message } => {
                members.push(member("type", literal_json("broadcast")));
                members.push(member("message", number_json(*message)));
            },
            Payload::BroadcastOk => {
                members.push(member("type", literal_json("broadcast_ok")));
            },
            Payload::Read => {
                members.push(member("type", literal_json("read")));
            },
            Payload::ReadOk { messages } => {
                members.push(member("type", literal_json("read_ok")));
                members.push(member("messages", numbers_json(messages)));
            },
        }
        members
    }

    fn from_members(members: &Vec<(String, Json)>) -> (r: Result<Self, DecodeError>) {
        let kind = match text_of(lookup(members, "type")) {
            Ok(kind) => kind,
            Err(e) => {
                return Err(e);
            },
        };
        if is_name(&kind, "topology") {
            match text_lists_of(lookup(members, "topology")) {
                Ok(topology) => Ok(Payload::Topology { topology }),
                Err(e) => Err(e),
            }
        } else if is_name(&kind, "topology_ok") {
            Ok(Payload::TopologyOk)
        } else if is_name(&kind, "broadcast") {
            match number_of(lookup(members, "message")) {
                Ok(message) => Ok(Payload::Broadcast { message }),
                Err(e) => Err(e),
            }
        } else if is_name(&kind, "broadcast_ok") {
            Ok(Payload::BroadcastOk)
        } else if is_name(&kind, "read") {
            Ok(Payload::Read)
        } else if is_name(&kind, "read_ok") {
            match numbers_of(lookup(members, "messages")) {
                Ok(messages) => Ok(Payload::ReadOk { messages }),
                Err(e) => Err(e),
            }
        } else {
            Err(DecodeError::UnknownType)
        }
    }
}

/// The node: the last id that it has used and the numbers that it has seen.
pub struct BroadcastNode {
    last_sent_message: usize,
    messages: Vec<usize>,
}

impl BroadcastNode {
    /// The numbers received so far, in the order in which they came.
    pub closed spec fn seen(&self) -> Seq<usize> {
        self.messages@
    }
}

impl Node for BroadcastNode {
    type Payload = Payload;

    closed spec fn sent(&self) -> nat {
        self.last_sent_message as nat
    }

    open spec fn terminal(input: Payload) -> bool {
        input is TopologyOk || input is BroadcastOk || input is ReadOk
    }

    /// The node has seen nothing yet.
    open spec fn begun(node: Self, init_msg: Envelope<InitView>) -> bool {
        node.sent() == 0 && node.seen() == Seq::<usize>::empty()
    }

    /// A `broadcast` adds its number to those seen, a `read` is answered with all of
    /// them in the order in which they came, a `topology` is acknowledged and not
    /// kept. Each of these answers goes out under the next id. The three
    /// acknowledgements are not answered and change nothing.
    open spec fn handled(
        before: Self,
        input: Payload,
        after: Self,
        answer: Option<(usize, Payload)>,
    ) -> bool {
        match input {
            Payload::Topology { .. } => {
                &&& after.seen() == before.seen()
                &&& after.sent() == before.sent() + 1
                &&& answer matches Some((id, Payload::TopologyOk))
                &&& id == before.sent() + 1
            },
            Payload::Broadcast { message } => {
                &&& after.seen() == before.seen().push(message)
                &&& after.sent() == before.sent() + 1
                &&& answer matches Some((id, Payload::BroadcastOk))
                &&& id == before.sent() + 1
            },
            Payload::Read => {
                &&& after.seen() == before.seen()
                &&& after.sent() == before.sent() + 1
                &&& answer matches Some((id, Payload::ReadOk { messages }))
                &&& id == before.sent() + 1
                &&& messages@ == before.seen()
            },
            Payload::TopologyOk | Payload::BroadcastOk | Payload::ReadOk { .. } => {
                answer is None && after == before
            },
        }
    }

    proof fn lemma_begun(node: Self, init_msg: Envelope<InitView>) {
    }

    proof fn lemma_handled(
        before: Self,
        input: Payload,
        after: Self,
        answer: Option<(usize, Payload)>,
    ) {
    }

    fn from_init(_init_msg: Message<Init>) -> (node: Self) {
        BroadcastNode { last_sent_message: 0, messages: Vec::new() }
    }

    fn last_sent(&self) -> (id: usize) {
        self.last_sent_message
    }

    fn is_terminal(input: &Payload) -> (terminal: bool) {
        match input {
            Payload::TopologyOk | Payload::BroadcastOk | Payload::ReadOk { .. } => true,
            _ => false,
        }
    }

    fn handle(&mut self, input: &Payload) -> (answer: Option<(usize, Payload)>) {
        let reply = match input {
            Payload::Topology { .. } => Some(Payload::TopologyOk),
            Payload::Broadcast { message } => {
                self.messages.push(*message);
                Some(Payload::BroadcastOk)
            },
            Payload::Read => Some(Payload::ReadOk { messages: self.messages.clone() }),
            Payload::TopologyOk | Payload::BroadcastOk | Payload::ReadOk { .. } => None,
        };
        match reply {
            Some(reply) => {
                self.last_sent_message += 1;
                Some((self.last_sent_message, reply))
            },
            None => None,
        }
    }
}

/// What a node tells on a `read` is what it had seen before, with the numbers
/// broadcast since then added at the end in the order in which they came; whether
/// a number was there before makes no difference. Here for one broadcast and the
/// read that follows it.
pub proof fn lemma_read_tells_what_was_broadcast(
    before: BroadcastNode,
    message: usize,
    between: BroadcastNode,
    acknowledged: Option<(usize, Payload)>,
    after: BroadcastNode,
    told: Option<(usize, Payload)>,
)
    requires
        BroadcastNode::handled(before, Payload::Broadcast { message }, between, acknowledged),
        BroadcastNode::handled(between, Payload::Read, after, told),
    ensures
        acknowledged matches Some((id, Payload::BroadcastOk)) && id == before.sent() + 1,
        between.seen() == before.seen().push(message),
        between.seen().len() == before.seen().len() + 1,
        forall|i: int| 0 <= i < before.seen().len() ==> between.seen()[i] == before.seen()[i],
        told matches Some((id, Payload::ReadOk { messages })) && id == before.sent() + 2
            && messages@ == before.seen().push(message),
        after.seen() == between.seen(),
{
}

} // verus!

//! One node that does all of it: it takes the handshake as a message like any
//! other, echoes, hands out identifiers and keeps what is broadcast. It
//! acknowledges the handshake under id 0, which is kept for that. To every other
//! message that it handles it gives the next id, also to one that it does not
//! answer.

use crate::decimal::{label, labelled};
use crate::fields::{
    as_number, as_numbers, as_text, as_text_lists, as_texts, find, is_name, is_text_list, lemma_find_in_two, lemma_kept_finds, lemma_table_members, lemma_text_lists_members, same_table, table_distinct, table_members, text_lists,
    lemma_numbers_back, lemma_text_lists_back, lemma_texts_back, literal_json, lookup, member,
    number_json, number_of, number_tree, numbers_json, numbers_of, numbers_tree, strings_view,
    table_view, text_json, text_lists_json, text_lists_of, text_lists_tree, text_of, texts_json,
    texts_of, texts_tree,
};
use crate::json::{
    keeps, kept, laid_out, lemma_flat_members_laid_out, members_laid_out, well_laid, DecodeError,
    Json, Tree,
};
use crate::message::{Body, Message};
use crate::wire::{lemma_find_laid_out, lemma_names, Wire};
use vstd::prelude::*;

verus! {

/// Everything that is said to the node or by it.
#[derive(Debug, PartialEq, Eq)]
pub enum Payload {
    Init { node_id: String, node_ids: Vec<String> },
    InitOk,
    Echo { echo: String },
    EchoOk { echo: String },
    Generate,
    GenerateOk { id: String },
    /// For each node its neighbours. In a topology that was read no name occurs
    /// twice; of one that is written with a name twice `serde_json` keeps one.
    Topology { topology: Vec<(String, Vec<String>)> },
    TopologyOk,
    Broadcast { message: usize },
    BroadcastOk,
    Read,
    ReadOk { messages: Vec<usize> },
}

/// A payload as a value of mathematics.
pub enum PayloadView {
    Init { node_id: Seq<char>, node_ids: Seq<Seq<char>> },
    InitOk,
    Echo { echo: Seq<char> },
    EchoOk { echo: Seq<char> },
    Generate,
    GenerateOk { id: Seq<char> },
    Topology { topology: Seq<(Seq<char>, Seq<Seq<char>>)> },
    TopologyOk,
    Broadcast { message: usize },
    BroadcastOk,
    Read,
    ReadOk { messages: Seq<usize> },
}

impl View for Payload {
    type V = PayloadView;

    open spec fn view(&self) -> PayloadView {
        match self {
            Payload::Init { node_id, node_ids } => PayloadView::Init {
                node_id: node_id@,
                node_ids: strings_view(node_ids@),
            },
            Payload::InitOk => PayloadView::InitOk,
            Payload::Echo { echo } => PayloadView::Echo { echo: echo@ },
            Payload::EchoOk { echo } => PayloadView::EchoOk { echo: echo@ },
            Payload::Generate => PayloadView::Generate,
            Payload::GenerateOk { id } => PayloadView::GenerateOk { id: id@ },
            Payload::Topology { topology } => PayloadView::Topology {
                topology: table_view(topology@),
            },
            Payload::TopologyOk => PayloadView::TopologyOk,
            Payload::Broadcast { message } => PayloadView::Broadcast { message: *message },
            Payload::BroadcastOk => PayloadView::BroadcastOk,
            Payload::Read => PayloadView::Read,
            Payload::ReadOk { messages } => PayloadView::ReadOk { messages: messages@ },
        }
    }
}

/// The node: its name, the last id that it has given, and the numbers that were
/// broadcast to it.
pub struct Node {
    id: String,
    last_sent_msg_id: usize,
    seen_broadcasts: Vec<usize>,
}

/// What the node answers to a payload when its name is `name`, the id of the answer
/// is `id` and it has seen `seen`.
pub open spec fn answer(name: Seq<char>, id: nat, seen: Seq<usize>, input: PayloadView) -> Option<
    PayloadView,
> {
    match input {
        PayloadView::Init { .. } => Some(PayloadView::InitOk),
        PayloadView::Echo { echo } => Some(PayloadView::EchoOk { echo }),
        PayloadView::Generate => Some(PayloadView::GenerateOk { id: label(name, id + 1) }),
        PayloadView::Broadcast { .. } => Some(PayloadView::BroadcastOk),
        PayloadView::Read => Some(PayloadView::ReadOk { messages: seen }),
        PayloadView::Topology { .. } => Some(PayloadView::TopologyOk),
        _ => None,
    }
}

/// The node's name after a payload: the handshake gives it.
pub open spec fn name_after(name: Seq<char>, input: PayloadView) -> Seq<char> {
    match input {
        PayloadView::Init { node_id, .. } => node_id,
        _ => name,
    }
}

/// What the node has seen after a payload: a broadcast adds its number.
pub open spec fn seen_after(seen: Seq<usize>, input: PayloadView) -> Seq<usize> {
    match input {
        PayloadView::Broadcast { message } => seen.push(message),
        _ => seen,
    }
}

/// The id under which a payload is answered by a node whose last id was `sent`:
/// the handshake under 0, anything else under the next id.
pub open spec fn id_for(sent: nat, input: PayloadView) -> nat {
    if input is Init {
        0
    } else {
        sent + 1
    }
}

/// The last id of a node after a payload: the handshake takes none, anything else
/// takes the next one, answered or not.
pub open spec fn sent_after(sent: nat, input: PayloadView) -> nat {
    if input is Init {
        sent
    } else {
        sent + 1
    }
}

/// The message that goes out for `input` from a node whose name is `name`, whose
/// last id was `sent` and which has seen `seen`.
pub open spec fn outcome(
    name: Seq<char>,
    sent: nat,
    seen: Seq<usize>,
    input: crate::message::Envelope<PayloadView>,
) -> Option<crate::message::Envelope<PayloadView>> {
    match answer(name, id_for(sent, input.payload), seen, input.payload) {
        Some(payload) => Some(
            crate::message::Envelope {
                src: input.dest,
                dest: input.src,
                id: Some(id_for(sent, input.payload) as usize),
                in_reply_to: input.id,
                payload,
            },
        ),
        None => None,
    }
}

/// The ids and the payload of a body, if there is one.
pub open spec fn body_view(body: Option<Body<Payload>>) -> Option<(Option<usize>, Option<usize>, PayloadView)> {
    match body {
        Some(body) => Some((body.id, body.in_reply_to, body.payload@)),
        None => None,
    }
}

/// A payload as a value of mathematics, if there is one.
pub open spec fn payload_view(payload: Option<Payload>) -> Option<PayloadView> {
    match payload {
        Some(payload) => Some(payload@),
        None => None,
    }
}

/// A message as a value of mathematics, if there is one.
pub open spec fn message_view(message: Option<Message<Payload>>) -> Option<
    crate::message::Envelope<PayloadView>,
> {
    match message {
        Some(message) => Some(message@),
        None => None,
    }
}

impl Payload {
    /// Whether this is the handshake.
    pub fn is_handshake(&self) -> (b: bool)
        ensures
            b == (self@ is Init),
    {
        match self {
            Payload::Init { .. } => true,
            _ => false,
        }
    }

    /// The answer to this payload from a node that has already taken the id for it.
    pub fn into_reply(self, issuer: &mut Node) -> (reply: Option<Payload>)
        requires
            self is Generate ==> old(issuer).sent() < usize::MAX,
        ensures
            payload_view(reply) == answer(
                old(issuer).name(),
                old(issuer).sent(),
                old(issuer).seen(),
                self@,
            ),
            final(issuer).sent() == old(issuer).sent(),
            final(issuer).name() == name_after(old(issuer).name(), self@),
            final(issuer).seen() == seen_after(old(issuer).seen(), self@),
    {
        match self {
            Payload::Init { node_id, .. } => {
                issuer.id = node_id;
                Some(Payload::InitOk)
            },
            Payload::Echo { echo } => Some(Payload::EchoOk { echo }),
            Payload::Generate => Some(Payload::GenerateOk { id: issuer.gen_unique_id() }),
            Payload::Broadcast { message } => {
                issuer.seen_broadcasts.push(message);
                Some(Payload::BroadcastOk)
            },
            Payload::Read => Some(Payload::ReadOk { messages: issuer.seen_broadcasts.clone() }),
            Payload::Topology { .. } => Some(Payload::TopologyOk),
            Payload::InitOk => None,
            Payload::EchoOk { .. } => None,
            Payload::GenerateOk { .. } => None,
            Payload::BroadcastOk => None,
            Payload::ReadOk { .. } => None,
            Payload::TopologyOk => None,
        }
    }
}

impl Node {
    /// The node's name, empty until the handshake has given one.
    pub closed spec fn name(&self) -> Seq<char> {
        self.id@
    }

    /// The last id that the node has given to a message.
    pub closed spec fn sent(&self) -> nat {
        self.last_sent_msg_id as nat
    }

    /// The numbers that were broadcast to the node, in the order in which they came.
    pub closed spec fn seen(&self) -> Seq<usize> {
        self.seen_broadcasts@
    }

    /// Whether the node has the ids left that handling a payload takes: none for
    /// the handshake, else one, and for a `generate` one more, which the identifier
    /// is made of.
    pub open spec fn has_room(&self, input: PayloadView) -> bool {
        if input is Init {
            true
        } else if input is Generate {
            self.sent() + 1 < usize::MAX
        } else {
            self.sent() < usize::MAX
        }
    }

    /// Tells whether the node has the ids left that handling a payload takes.
    pub fn room_for(&self, input: &Payload) -> (enough: bool)
        ensures
            enough == self.has_room(input@),
    {
        match input {
            Payload::Init { .. } => true,
            Payload::Generate => self.last_sent_msg_id < usize::MAX - 1,
            _ => self.last_sent_msg_id < usize::MAX,
        }
    }

    /// A node without a name that has given no id and seen nothing.
    pub fn new() -> (node: Self)
        ensures
            node.name() == Seq::<char>::empty(),
            node.sent() == 0,
            node.seen() == Seq::<usize>::empty(),
    {
        Node { id: String::new(), last_sent_msg_id: 0, seen_broadcasts: Vec::new() }
    }

    /// The last id that the node has given.
    pub fn last_sent(&self) -> (id: usize)
        ensures
            id == self.sent(),
    {
        self.last_sent_msg_id
    }

    /// Takes the next id and returns it.
    pub fn increment_id(&mut self) -> (id: usize)
        requires
            old(self).sent() < usize::MAX,
        ensures
            id == old(self).sent() + 1,
            final(self).sent() == id,
            final(self).name() == old(self).name(),
            final(self).seen() == old(self).seen(),
    {
        self.last_sent_msg_id += 1;
        self.last_sent_msg_id
    }

    /// An identifier made of the node's name and the id after the last one given.
    pub fn gen_unique_id(&self) -> (id: String)
        requires
            self.sent() < usize::MAX,
        ensures
            id@ == label(self.name(), self.sent() + 1),
    {
        labelled(&self.id, self.last_sent_msg_id + 1)
    }

    /// The body of the reply to a body. The handshake is answered under id 0 and
    /// takes no id of the node's; for anything else the next id is taken before
    /// the payload is looked at, so it is spent also where there is no reply.
    pub fn reply_body(&mut self, body: Body<Payload>) -> (reply: Option<Body<Payload>>)
        requires
            old(self).has_room(body.payload@),
        ensures
            body_view(reply) == match answer(
                old(self).name(),
                id_for(old(self).sent(), body.payload@),
                old(self).seen(),
                body.payload@,
            ) {
                Some(payload) => Some(
                    (Some(id_for(old(self).sent(), body.payload@) as usize), body.id, payload),
                ),
                None => None,
            },
            final(self).sent() == sent_after(old(self).sent(), body.payload@),
            final(self).name() == name_after(old(self).name(), body.payload@),
            final(self).seen() == seen_after(old(self).seen(), body.payload@),
    {
        let id = if body.payload.is_handshake() {
            0
        } else {
            self.increment_id()
        };
        let in_reply_to = body.id;
        match body.payload.into_reply(self) {
            Some(payload) => Some(Body { id: Some(id), in_reply_to, payload }),
            None => None,
        }
    }

    /// Handles one message: gives back the reply to it, if it is one to answer.
    pub fn handle(&mut self, input: Message<Payload>) -> (reply: Option<Message<Payload>>)
        requires
            old(self).has_room(input.body.payload@),
        ensures
            message_view(reply) == outcome(
                old(self).name(),
                old(self).sent(),
                old(self).seen(),
                input@,
            ),
            final(self).sent() == sent_after(old(self).sent(), input.body.payload@),
            final(self).name() == name_after(old(self).name(), input.body.payload@),
            final(self).seen() == seen_after(old(self).seen(), input.body.payload@),
    {
        let src = input.dest;
        let dest = input.src;
        match self.reply_body(input.body) {
            Some(body) => Some(Message { src, dest, body }),
            None => None,
        }
    }
}

/// How long the names are that are written here, and with which letter those of
/// one length begin: by this they are told apart.
proof fn lemma_kinds()
    ensures
        "init"@.len() == 4,
        "init"@[0] == 'i',
        "init_ok"@.len() == 7,
        "init_ok"@[0] == 'i',
        "echo"@.len() == 4,
        "echo"@[0] == 'e',
        "echo_ok"@.len() == 7,
        "echo_ok"@[0] == 'e',
        "generate"@.len() == 8,
        "generate"@[0] == 'g',
        "generate_ok"@.len() == 11,
        "generate_ok"@[0] == 'g',
        "topology"@.len() == 8,
        "topology"@[0] == 't',
        "topology_ok"@.len() == 11,
        "topology_ok"@[0] == 't',
        "broadcast"@.len() == 9,
        "broadcast_ok"@.len() == 12,
        "read"@.len() == 4,
        "read"@[0] == 'r',
        "read_ok"@.len() == 7,
        "read_ok"@[0] == 'r',
        "node_id"@.len() == 7,
        "node_ids"@.len() == 8,
        "id"@.len() == 2,
        "message"@.len() == 7,
        "messages"@.len() == 8,
{
    reveal_strlit("init");
    reveal_strlit("init_ok");
    reveal_strlit("echo");
    reveal_strlit("echo_ok");
    reveal_strlit("generate");
    reveal_strlit("generate_ok");
    reveal_strlit("topology");
    reveal_strlit("topology_ok");
    reveal_strlit("broadcast");
    reveal_strlit("broadcast_ok");
    reveal_strlit("read");
    reveal_strlit("read_ok");
    reveal_strlit("node_id");
    reveal_strlit("node_ids");
    reveal_strlit("id");
    reveal_strlit("message");
    reveal_strlit("messages");
}

impl Wire for Payload {
    /// A topology is well formed where no name occurs twice in it.
    open spec fn wf(payload: PayloadView) -> bool {
        match payload {
            PayloadView::Topology { topology } => table_distinct(topology),
            _ => true,
        }
    }

    /// Two topologies say the same where they have the same neighbours under every
    /// name, in whatever order the names stand. Any other payloads say the same
    /// where they are equal.
    open spec fn same(one: PayloadView, other: PayloadView) -> bool {
        match (one, other) {
            (PayloadView::Topology { topology: a }, PayloadView::Topology { topology: b }) => {
                same_table(a, b)
            },
            _ => one == other,
        }
    }

    proof fn lemma_read_by_find(one: Seq<(Seq<char>, Tree)>, other: Seq<(Seq<char>, Tree)>) {
    }

    proof fn lemma_read_wf(members: Seq<(Seq<char>, Tree)>) {
        if Self::read(members) matches Ok(PayloadView::Topology { topology }) {
            let held = find(members, "topology"@)->0->Object_0;
            lemma_kinds();
            lemma_text_lists_members(held);
        }
    }

    proof fn lemma_read_laid_out(payload: PayloadView, rest: Seq<(Seq<char>, Tree)>) {
        match payload {
            PayloadView::Topology { topology } => {
                lemma_names();
                lemma_kinds();
                let own = Self::members(payload);
                let laid = members_laid_out(own);
                let given = table_members(topology);
                let held = kept(given);
                lemma_table_members(topology);
                lemma_flat_members_laid_out(given);
                assert(own[1].1 == Tree::Object(given));
                assert(well_laid(own[1].1));
                assert(keeps(given, held));
                assert(laid_out(own[1].1) == Tree::Object(held));
                assert(find(own, "type"@) == Some(own[0].1) && find(own, "topology"@) == Some(
                    own[1].1,
                )) by {
                    reveal_with_fuel(find, 3);
                }
                lemma_find_laid_out(own, "type"@);
                lemma_find_laid_out(own, "topology"@);
                lemma_find_in_two(laid, rest, "type"@);
                lemma_find_in_two(laid, rest, "topology"@);
                assert forall|i: int| 0 <= i < held.len() implies is_text_list(
                    (#[trigger] held[i]).1,
                ) by {
                    assert(given.contains(held[i]));
                    let j = choose|j: int| 0 <= j < given.len() && given[j] == held[i];
                    assert(is_text_list(given[j].1));
                }
                lemma_text_lists_members(held);
                assert forall|key: Seq<char>| #[trigger]
                    find(table_members(text_lists(held)), key) == find(given, key) by {
                    lemma_kept_finds(given, held, key);
                }
            },
            PayloadView::Init { node_ids, .. } => {
                lemma_texts_back(node_ids);
                lemma_flat_members_laid_out(Self::members(payload));
                Self::lemma_read_back(payload, rest);
            },
            PayloadView::ReadOk { messages } => {
                lemma_numbers_back(messages);
                lemma_flat_members_laid_out(Self::members(payload));
                Self::lemma_read_back(payload, rest);
            },
            _ => {
                lemma_flat_members_laid_out(Self::members(payload));
                Self::lemma_read_back(payload, rest);
            },
        }
    }

    open spec fn members(payload: PayloadView) -> Seq<(Seq<char>, Tree)> {
        match payload {
            PayloadView::Init { node_id, node_ids } => seq![
                ("type"@, Tree::Text("init"@)),
                ("node_id"@, Tree::Text(node_id)),
                ("node_ids"@, texts_tree(node_ids)),
            ],
            PayloadView::InitOk => seq![("type"@, Tree::Text("init_ok"@))],
            PayloadView::Echo { echo } => seq![
                ("type"@, Tree::Text("echo"@)),
                ("echo"@, Tree::Text(echo)),
            ],
            PayloadView::EchoOk { echo } => seq![
                ("type"@, Tree::Text("echo_ok"@)),
                ("echo"@, Tree::Text(echo)),
            ],
            PayloadView::Generate => seq![("type"@, Tree::Text("generate"@))],
            PayloadView::GenerateOk { id } => seq![
                ("type"@, Tree::Text("generate_ok"@)),
                ("id"@, Tree::Text(id)),
            ],
            PayloadView::Topology { topology } => seq![
                ("type"@, Tree::Text("topology"@)),
                ("topology"@, text_lists_tree(topology)),
            ],
            PayloadView::TopologyOk => seq![("type"@, Tree::Text("topology_ok"@))],
            PayloadView::Broadcast { message } => seq![
                ("type"@, Tree::Text("broadcast"@)),
                ("message"@, number_tree(message)),
            ],
            PayloadView::BroadcastOk => seq![("type"@, Tree::Text("broadcast_ok"@))],
            PayloadView::Read => seq![("type"@, Tree::Text("read"@))],
            PayloadView::ReadOk { messages } => seq![
                ("type"@, Tree::Text("read_ok"@)),
                ("messages"@, numbers_tree(messages)),
            ],
        }
    }

    open spec fn read(members: Seq<(Seq<char>, Tree)>) -> Result<PayloadView, DecodeError> {
        match as_text(find(members, "type"@)) {
            Err(e) => Err(e),
            Ok(kind) => if kind == "init"@ {
                match as_text(find(members, "node_id"@)) {
                    Err(e) => Err(e),
                    Ok(node_id) => match as_texts(find(members, "node_ids"@)) {
                        Err(e) => Err(e),
                        Ok(node_ids) => Ok(PayloadView::Init { node_id, node_ids }),
                    },
                }
            } else if kind == "init_ok"@ {
                Ok(PayloadView::InitOk)
            } else if kind == "echo"@ {
                match as_text(find(members, "echo"@)) {
                    Err(e) => Err(e),
                    Ok(echo) => Ok(PayloadView::Echo { echo }),
                }
            } else if kind == "echo_ok"@ {
                match as_text(find(members, "echo"@)) {
                    Err(e) => Err(e),
                    Ok(echo) => Ok(PayloadView::EchoOk { echo }),
                }
            } else if kind == "generate"@ {
                Ok(PayloadView::Generate)
            } else if kind == "generate_ok"@ {
                match as_text(find(members, "id"@)) {
                    Err(e) => Err(e),
                    Ok(id) => Ok(PayloadView::GenerateOk { id }),
                }
            } else if kind == "topology"@ {
                match as_text_lists(find(members, "topology"@)) {
                    Err(e) => Err(e),
                    Ok(topology) => Ok(PayloadView::Topology { topology }),
                }
            } else if kind == "topology_ok"@ {
                Ok(PayloadView::TopologyOk)
            } else if kind == "broadcast"@ {
                match as_number(find(members, "message"@)) {
                    Err(e) => Err(e),
                    Ok(message) => Ok(PayloadView::Broadcast { message }),
                }
            } else if kind == "broadcast_ok"@ {
                Ok(PayloadView::BroadcastOk)
            } else if kind == "read"@ {
                Ok(PayloadView::Read)
            } else if kind == "read_ok"@ {
                match as_numbers(find(members, "messages"@)) {
                    Err(e) => Err(e),
                    Ok(messages) => Ok(PayloadView::ReadOk { messages }),
                }
            } else {
                Err(DecodeError::UnknownType)
            },
        }
    }

    proof fn lemma_read_back(payload: PayloadView, rest: Seq<(Seq<char>, Tree)>) {
        lemma_names();
        lemma_kinds();
        let own = Self::members(payload);
        lemma_find_in_two(own, rest, "type"@);
        match payload {
            PayloadView::Init { node_id, node_ids } => {
                lemma_find_in_two(own, rest, "node_id"@);
                lemma_find_in_two(own, rest, "node_ids"@);
                lemma_texts_back(node_ids);
                assert(find(own, "node_id"@) == Some(own[1].1) && find(own, "node_ids"@) == Some(
                    own[2].1,
                )) by {
                    reveal_with_fuel(find, 4);
                }
            },
            PayloadView::Echo { .. } | PayloadView::EchoOk { .. } => {
                lemma_find_in_two(own, rest, "echo"@);
                assert(find(own, "echo"@) == Some(own[1].1)) by {
                    reveal_with_fuel(find, 3);
                }
            },
            PayloadView::GenerateOk { .. } => {
                lemma_find_in_two(own, rest, "id"@);
                assert(find(own, "id"@) == Some(own[1].1)) by {
                    reveal_with_fuel(find, 3);
                }
            },
            PayloadView::Topology { topology } => {
                lemma_find_in_two(own, rest, "topology"@);
                lemma_text_lists_back(topology);
                assert(find(own, "topology"@) == Some(own[1].1)) by {
                    reveal_with_fuel(find, 3);
                }
            },
            PayloadView::Broadcast { .. } => {
                lemma_find_in_two(own, rest, "message"@);
                assert(find(own, "message"@) == Some(own[1].1)) by {
                    reveal_with_fuel(find, 3);
                }
            },
            PayloadView::ReadOk { messages } => {
                lemma_find_in_two(own, rest, "messages"@);
                lemma_numbers_back(messages);
                assert(find(own, "messages"@) == Some(own[1].1)) by {
                    reveal_with_fuel(find, 3);
                }
            },
            _ => {},
        }
    }

    proof fn lemma_members(payload: PayloadView) {
        lemma_names();
        lemma_kinds();
        let own = Self::members(payload);
        assert(find(own, "msg_id"@) is None && find(own, "in_reply_to"@) is None) by {
            reveal_with_fuel(find, 4);
        }
        match payload {
            PayloadView::Init { node_id, node_ids } => {
                lemma_texts_back(node_ids);
            },
            PayloadView::Topology { topology } => {
                lemma_table_members(topology);
            },
            PayloadView::ReadOk { messages } => {
                lemma_numbers_back(messages);
            },
            _ => {},
        }
    }

    fn to_members(&self) -> (members: Vec<(String, Json)>) {
        let mut members: Vec<(String, Json)> = Vec::new();
        match self {
            Payload::Init { node_id, node_ids } => {
                members.push(member("type", literal_json("init")));
                members.push(member("node_id", text_json(node_id)));
                members.push(member("node_ids", texts_json(node_ids)));
            },
            Payload::InitOk => {
                members.push(member("type", literal_json("init_ok")));
            },
            Payload::Echo { echo } => {
                members.push(member("type", literal_json("echo")));
                members.push(member("echo", text_json(echo)));
            },
            Payload::EchoOk { echo } => {
                members.push(member("type", literal_json("echo_ok")));
                members.push(member("echo", text_json(echo)));
            },
            Payload::Generate => {
                members.push(member("type", literal_json("generate")));
            },
            Payload::GenerateOk { id } => {
                members.push(member("type", literal_json("generate_ok")));
                members.push(member("id", text_json(id)));
            },
            Payload::Topology { topology } => {
                members.push(member("type", literal_json("topology")));
                members.push(member("topology", text_lists_json(topology)));
            },
            Payload::TopologyOk => {
                members.push(member("type", literal_json("topology_ok")));
            },
            Payload::Broadcast { message } => {
                members.push(member("type", literal_json("broadcast")));
                members.push(member("message", number_json(*message)));
            },
            Payload::BroadcastOk => {
                members.push(member("type", literal_json("broadcast_ok")));
            },
            Payload::Read => {
                members.push(member("type", literal_json("read")));
            },
            Payload::ReadOk { messages } => {
                members.push(member("type", literal_json("read_ok")));
                members.push(member("messages", numbers_json(messages)));
            },
        }
        members
    }

    fn from_members(members: &Vec<(String, Json)>) -> (r: Result<Self, DecodeError>) {
        let kind = match text_of(lookup(members, "type")) {
            Ok(kind) => kind,
            Err(e) => {
                return Err(e);
            },
        };
        if is_name(&kind, "init") {
            let node_id = match text_of(lookup(members, "node_id")) {
                Ok(node_id) => node_id,
                Err(e) => {
                    return Err(e);
                },
            };
            match texts_of(lookup(members, "node_ids")) {
                Ok(node_ids) => Ok(Payload::Init { node_id, node_ids }),
                Err(e) => Err(e),
            }
        } else if is_name(&kind, "init_ok") {
            Ok(Payload::InitOk)
        } else if is_name(&kind, "echo") {
            match text_of(lookup(members, "echo")) {
                Ok(echo) => Ok(Payload::Echo { echo }),
                Err(e) => Err(e),
            }
        } else if is_name(&kind, "echo_ok") {
            match text_of(lookup(members, "echo")) {
                Ok(echo) => Ok(Payload::EchoOk { echo }),
                Err(e) => Err(e),
            }
        } else if is_name(&kind, "generate") {
            Ok(Payload::Generate)
        } else if is_name(&kind, "generate_ok") {
            match text_of(lookup(members, "id")) {
                Ok(id) => Ok(Payload::GenerateOk { id }),
                Err(e) => Err(e),
            }
        } else if is_name(&kind, "topology") {
            match text_lists_of(lookup(members, "topology")) {
                Ok(topology) => Ok(Payload::Topology { topology }),
                Err(e) => Err(e),
            }
        } else if is_name(&kind, "topology_ok") {
            Ok(Payload::TopologyOk)
        } else if is_name(&kind, "broadcast") {
            match number_of(lookup(members, "message")) {
                Ok(message) => Ok(Payload::Broadcast { message }),
                Err(e) => Err(e),
            }
        } else if is_name(&kind, "broadcast_ok") {
            Ok(Payload::BroadcastOk)
        } else if is_name(&kind, "read") {
            Ok(Payload::Read)
        } else if is_name(&kind, "read_ok") {
            match numbers_of(lookup(members, "messages")) {
                Ok(messages) => Ok(Payload::ReadOk { messages }),
                Err(e) => Err(e),
            }
        } else {
            Err(DecodeError::UnknownType)
        }
    }
}

} // verus!

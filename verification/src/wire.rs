//! How a message is written as JSON: an object with `src`, `dest` and `body`, the
//! body an object that holds `msg_id`, `in_reply_to` and the members of the
//! payload side by side.

use crate::fields::{
    as_object, as_optional_number, as_text, find, lemma_find_in_two, lemma_find_is_member,
    lemma_kept_finds, lookup, member, object_of, optional_number_json, optional_number_of,
    optional_number_tree, text_json, text_of,
};
use crate::json::{
    distinct_names, exact, kept, laid_out, lemma_object_view, members_laid_out, members_view,
    parse, parsed, render, rendered, well_laid, DecodeError, EncodeError, Json, Tree,
};
use crate::message::{Body, Envelope, Message};
use vstd::prelude::*;
use vstd::string::StringExecFns;

verus! {

/// A payload that can be written as the members of a body and read from them.
pub trait Wire: View + Sized {
    /// Whether a payload is well formed: one that is read is.
    spec fn wf(payload: Self::V) -> bool;

    /// Whether two payloads say the same.
    spec fn same(one: Self::V, other: Self::V) -> bool;

    /// The members that a payload is written as, its kind under `type` among them.
    spec fn members(payload: Self::V) -> Seq<(Seq<char>, Tree)>;

    /// The payload that the members of a body say, or why they say none.
    spec fn read(members: Seq<(Seq<char>, Tree)>) -> Result<Self::V, DecodeError>;

    /// What is read depends on the members only through what is found under each
    /// name: not on their order, nor on members that nothing asks for.
    proof fn lemma_read_by_find(one: Seq<(Seq<char>, Tree)>, other: Seq<(Seq<char>, Tree)>)
        requires
            forall|key: Seq<char>| #[trigger] find(one, key) == find(other, key),
        ensures
            Self::read(one) == Self::read(other),
    ;

    /// A payload that is read is well formed.
    proof fn lemma_read_wf(members: Seq<(Seq<char>, Tree)>)
        ensures
            Self::read(members) matches Ok(payload) ==> Self::wf(payload),
    ;

    /// What a well-formed payload is written as is read back as that payload,
    /// whatever other members follow it.
    proof fn lemma_read_back(payload: Self::V, rest: Seq<(Seq<char>, Tree)>)
        requires
            Self::wf(payload),
        ensures
            Self::read(Self::members(payload) + rest) == Ok::<Self::V, DecodeError>(payload),
    ;

    /// What a well-formed payload is written as, with every value laid out as
    /// `serde_json` holds it, is read back as a payload that says the same.
    proof fn lemma_read_laid_out(payload: Self::V, rest: Seq<(Seq<char>, Tree)>)
        requires
            Self::wf(payload),
            forall|i: int|
                0 <= i < Self::members(payload).len() ==> well_laid(
                    (#[trigger] Self::members(payload)[i]).1,
                ),
        ensures
            Self::read(members_laid_out(Self::members(payload)) + rest) matches Ok(back)
                && Self::same(back, payload),
    ;

    /// A payload is written with whole numbers only, with no name twice, and with
    /// no member under a name of the body's own.
    proof fn lemma_members(payload: Self::V)
        ensures
            forall|i: int|
                0 <= i < Self::members(payload).len() ==> exact(
                    (#[trigger] Self::members(payload)[i]).1,
                ),
            distinct_names(Self::members(payload)),
            find(Self::members(payload), "msg_id"@) is None,
            find(Self::members(payload), "in_reply_to"@) is None,
    ;

    fn to_members(&self) -> (members: Vec<(String, Json)>)
        ensures
            members_view(members@) == Self::members(self@),
    ;

    fn from_members(members: &Vec<(String, Json)>) -> (r: Result<Self, DecodeError>)
        ensures
            match Self::read(members_view(members@)) {
                Ok(payload) => r matches Ok(p) && p@ == payload,
                Err(e) => r matches Err(x) && x == e,
            },
    ;
}

/// Two messages say the same: they agree in all but the payloads, and these say
/// the same.
pub open spec fn same_envelope<P: Wire>(one: Envelope<P::V>, other: Envelope<P::V>) -> bool {
    &&& one.src == other.src
    &&& one.dest == other.dest
    &&& one.id == other.id
    &&& one.in_reply_to == other.in_reply_to
    &&& P::same(one.payload, other.payload)
}

/// Under a name, laying out the members finds what is found without, laid out.
pub proof fn lemma_find_laid_out(members: Seq<(Seq<char>, Tree)>, key: Seq<char>)
    ensures
        find(members_laid_out(members), key) == match find(members, key) {
            Some(tree) => Some(laid_out(tree)),
            None => None,
        },
    decreases members.len(),
{
    if members.len() > 0 {
        assert(members_laid_out(members).drop_last() =~= members_laid_out(members.drop_last()));
        lemma_find_laid_out(members.drop_last(), key);
    }
}

/// The members of a body: those of the payload, then the two ids.
pub open spec fn body_members<P: Wire>(envelope: Envelope<P::V>) -> Seq<(Seq<char>, Tree)> {
    P::members(envelope.payload) + seq![
        ("msg_id"@, optional_number_tree(envelope.id)),
        ("in_reply_to"@, optional_number_tree(envelope.in_reply_to)),
    ]
}

/// A message as JSON.
pub open spec fn message_tree<P: Wire>(envelope: Envelope<P::V>) -> Tree {
    Tree::Object(
        seq![
            ("src"@, Tree::Text(envelope.src)),
            ("dest"@, Tree::Text(envelope.dest)),
            ("body"@, Tree::Object(body_members::<P>(envelope))),
        ],
    )
}

/// The message that a JSON value says, or why it says none: the first of what
/// is wrong with `src`, `dest`, `body`, `msg_id`, `in_reply_to` and the payload,
/// in this order.
pub open spec fn read_message<P: Wire>(tree: Tree) -> Result<Envelope<P::V>, DecodeError> {
    match tree {
        Tree::Object(members) => match as_text(find(members, "src"@)) {
            Err(e) => Err(e),
            Ok(src) => match as_text(find(members, "dest"@)) {
                Err(e) => Err(e),
                Ok(dest) => match as_object(find(members, "body"@)) {
                    Err(e) => Err(e),
                    Ok(body) => match as_optional_number(find(body, "msg_id"@)) {
                        Err(e) => Err(e),
                        Ok(id) => match as_optional_number(find(body, "in_reply_to"@)) {
                            Err(e) => Err(e),
                            Ok(in_reply_to) => match P::read(body) {
                                Err(e) => Err(e),
                                Ok(payload) => Ok(
                                    Envelope { src, dest, id, in_reply_to, payload },
                                ),
                            },
                        },
                    },
                },
            },
        },
        _ => Err(DecodeError::WrongType),
    }
}

/// The message that a line of text says, or why it says none.
pub open spec fn read_line<P: Wire>(line: Seq<char>) -> Result<Envelope<P::V>, DecodeError> {
    match parsed(line) {
        Some(tree) => read_message::<P>(tree),
        None => Err(DecodeError::NotJson),
    }
}

/// The line of text that a message is written as: what `serde_json` writes for it
/// as JSON, ended by a line feed; and the error where `serde_json` reports one.
pub open spec fn written_line<P: Wire>(envelope: Envelope<P::V>) -> Result<
    Seq<char>,
    EncodeError,
> {
    match rendered(laid_out(message_tree::<P>(envelope))) {
        Some(text) => Ok(text.push('\n')),
        None => Err(EncodeError::Refused),
    }
}

/// A text is one line: it ends in a line feed and holds no other.
pub open spec fn is_line(text: Seq<char>) -> bool {
    &&& text.len() >= 1
    &&& text.last() == '\n'
    &&& !text.drop_last().contains('\n')
}

/// How long the names of the members of a message and of its body are, and with
/// which letter those of one length begin: by this they are told apart.
pub proof fn lemma_names()
    ensures
        "src"@.len() == 3,
        "dest"@.len() == 4,
        "dest"@[0] == 'd',
        "body"@.len() == 4,
        "body"@[0] == 'b',
        "type"@.len() == 4,
        "type"@[0] == 't',
        "msg_id"@.len() == 6,
        "in_reply_to"@.len() == 11,
{
    reveal_strlit("src");
    reveal_strlit("dest");
    reveal_strlit("body");
    reveal_strlit("type");
    reveal_strlit("msg_id");
    reveal_strlit("in_reply_to");
}

/// A message is written with whole numbers only, and no object of it has a name
/// twice.
pub proof fn lemma_message_tree<P: Wire>(envelope: Envelope<P::V>)
    ensures
        exact(message_tree::<P>(envelope)),
        distinct_names(message_tree::<P>(envelope)->Object_0),
        distinct_names(body_members::<P>(envelope)),
        find(body_members::<P>(envelope), "msg_id"@) == Some(optional_number_tree(envelope.id)),
        find(body_members::<P>(envelope), "in_reply_to"@) == Some(
            optional_number_tree(envelope.in_reply_to),
        ),
{
    lemma_names();
    let members = message_tree::<P>(envelope)->Object_0;
    let own = P::members(envelope.payload);
    let ids = seq![
        ("msg_id"@, optional_number_tree(envelope.id)),
        ("in_reply_to"@, optional_number_tree(envelope.in_reply_to)),
    ];
    let body = body_members::<P>(envelope);
    P::lemma_members(envelope.payload);
    lemma_find_in_two(own, ids, "msg_id"@);
    lemma_find_in_two(own, ids, "in_reply_to"@);
    assert(find(ids, "msg_id"@) == Some(optional_number_tree(envelope.id)) && find(
        ids,
        "in_reply_to"@,
    ) == Some(optional_number_tree(envelope.in_reply_to))) by {
        reveal_with_fuel(find, 3);
    }
    lemma_find_is_member(own, "msg_id"@);
    lemma_find_is_member(own, "in_reply_to"@);
    assert forall|i: int, j: int| 0 <= i < j < body.len() implies (#[trigger] body[i]).0 != (
    #[trigger] body[j]).0 by {
        if j < own.len() {
            assert(body[i] == own[i] && body[j] == own[j]);
        } else if i < own.len() {
            assert(body[i] == own[i]);
            assert(body[j] == ids[j - own.len()]);
        } else {
            assert(body[i] == ids[i - own.len()] && body[j] == ids[j - own.len()]);
        }
    }
    assert forall|i: int| 0 <= i < body.len() implies exact((#[trigger] body[i]).1) by {}
    assert forall|i: int| 0 <= i < members.len() implies exact((#[trigger] members[i]).1) by {}
}

/// Round trip: a well-formed message that is written as JSON is read back as the
/// same message.
pub proof fn lemma_round_trip<P: Wire>(envelope: Envelope<P::V>)
    requires
        P::wf(envelope.payload),
    ensures
        read_message::<P>(message_tree::<P>(envelope)) == Ok::<Envelope<P::V>, DecodeError>(
            envelope,
        ),
{
    lemma_message_tree::<P>(envelope);
    let members = message_tree::<P>(envelope)->Object_0;
    let ids = seq![
        ("msg_id"@, optional_number_tree(envelope.id)),
        ("in_reply_to"@, optional_number_tree(envelope.in_reply_to)),
    ];
    assert(find(members, "src"@) == Some(Tree::Text(envelope.src)) && find(members, "dest"@)
        == Some(Tree::Text(envelope.dest)) && find(members, "body"@) == Some(
        Tree::Object(body_members::<P>(envelope)),
    )) by {
        reveal_with_fuel(find, 4);
    }
    P::lemma_read_back(envelope.payload, ids);
}

/// Round trip through what `serde_json` is handed: a well-formed message, written
/// as JSON and laid out as `serde_json` holds it, with the members of every object
/// as its map keeps them, is read back as a message that says the same.
pub proof fn lemma_round_trip_laid_out<P: Wire>(envelope: Envelope<P::V>)
    requires
        P::wf(envelope.payload),
        well_laid(message_tree::<P>(envelope)),
    ensures
        read_message::<P>(laid_out(message_tree::<P>(envelope))) matches Ok(back)
            && same_envelope::<P>(back, envelope),
{
    lemma_names();
    lemma_message_tree::<P>(envelope);
    let top = message_tree::<P>(envelope)->Object_0;
    let own = P::members(envelope.payload);
    let ids = seq![
        ("msg_id"@, optional_number_tree(envelope.id)),
        ("in_reply_to"@, optional_number_tree(envelope.in_reply_to)),
    ];
    let body = body_members::<P>(envelope);
    let top_laid = members_laid_out(top);
    let top_held = kept(top_laid);
    let body_laid = members_laid_out(body);
    let body_held = kept(body_laid);

    assert(top[2] == ("body"@, Tree::Object(body)));
    assert(well_laid(top[2].1));
    assert(laid_out(Tree::Object(body)) == Tree::Object(body_held));
    assert(distinct_names(top_laid)) by {
        assert forall|i: int, j: int| 0 <= i < j < top_laid.len() implies (
        #[trigger] top_laid[i]).0 != (#[trigger] top_laid[j]).0 by {
            assert(top_laid[i].0 == top[i].0 && top_laid[j].0 == top[j].0);
        }
    }
    assert(distinct_names(body_laid)) by {
        assert forall|i: int, j: int| 0 <= i < j < body_laid.len() implies (
        #[trigger] body_laid[i]).0 != (#[trigger] body_laid[j]).0 by {
            assert(body_laid[i].0 == body[i].0 && body_laid[j].0 == body[j].0);
        }
    }
    assert(find(top, "src"@) == Some(Tree::Text(envelope.src)) && find(top, "dest"@) == Some(
        Tree::Text(envelope.dest),
    ) && find(top, "body"@) == Some(Tree::Object(body))) by {
        reveal_with_fuel(find, 4);
    }
    lemma_find_laid_out(top, "src"@);
    lemma_find_laid_out(top, "dest"@);
    lemma_find_laid_out(top, "body"@);
    lemma_kept_finds(top_laid, top_held, "src"@);
    lemma_kept_finds(top_laid, top_held, "dest"@);
    lemma_kept_finds(top_laid, top_held, "body"@);

    lemma_find_laid_out(body, "msg_id"@);
    lemma_find_laid_out(body, "in_reply_to"@);
    lemma_kept_finds(body_laid, body_held, "msg_id"@);
    lemma_kept_finds(body_laid, body_held, "in_reply_to"@);

    assert forall|key: Seq<char>| #[trigger] find(body_held, key) == find(body_laid, key) by {
        lemma_kept_finds(body_laid, body_held, key);
    }
    P::lemma_read_by_find(body_held, body_laid);
    assert(body_laid =~= members_laid_out(own) + ids);
    assert forall|i: int| 0 <= i < own.len() implies well_laid((#[trigger] own[i]).1) by {
        assert(body[i] == own[i]);
        assert(well_laid(body[i].1));
    }
    P::lemma_read_laid_out(envelope.payload, ids);
}

/// Ends a text with a line feed.
pub fn end_line(text: String) -> (line: String)
    ensures
        line@ == text@.push('\n'),
        !text@.contains('\n') ==> is_line(line@),
{
    let mut line = text;
    proof {
        reveal_strlit("\n");
    }
    line.append("\n");
    line
}

impl<P: Wire> Message<P> {
    /// Writes the message as JSON.
    pub fn to_json(&self) -> (json: Json)
        ensures
            json@ == message_tree::<P>(self@),
            exact(json@),
    {
        let mut body = self.body.payload.to_members();
        body.push(member("msg_id", optional_number_json(self.body.id)));
        body.push(member("in_reply_to", optional_number_json(self.body.in_reply_to)));
        let mut members: Vec<(String, Json)> = Vec::new();
        members.push(member("src", text_json(&self.src)));
        members.push(member("dest", text_json(&self.dest)));
        proof {
            lemma_object_view(body);
            assert(members_view(body@) =~= body_members::<P>(self@)) by {
            }
        }
        members.push(member("body", Json::Object(body)));
        proof {
            lemma_object_view(members);
            assert(members_view(members@) =~= message_tree::<P>(self@)->Object_0);
            lemma_message_tree::<P>(self@);
        }
        Json::Object(members)
    }

    /// Reads a message from JSON. A message that is read is well formed.
    pub fn from_json(json: &Json) -> (r: Result<Self, DecodeError>)
        ensures
            match read_message::<P>(json@) {
                Ok(envelope) => r matches Ok(message) && message@ == envelope && P::wf(
                    envelope.payload,
                ),
                Err(e) => r matches Err(x) && x == e,
            },
    {
        let members = match json {
            Json::Object(members) => {
                proof {
                    lemma_object_view(*members);
                }
                members
            },
            _ => {
                return Err(DecodeError::WrongType);
            },
        };
        let src = match text_of(lookup(members, "src")) {
            Ok(src) => src,
            Err(e) => {
                return Err(e);
            },
        };
        let dest = match text_of(lookup(members, "dest")) {
            Ok(dest) => dest,
            Err(e) => {
                return Err(e);
            },
        };
        let body = match object_of(lookup(members, "body")) {
            Ok(body) => body,
            Err(e) => {
                return Err(e);
            },
        };
        let id = match optional_number_of(lookup(body, "msg_id")) {
            Ok(id) => id,
            Err(e) => {
                return Err(e);
            },
        };
        let in_reply_to = match optional_number_of(lookup(body, "in_reply_to")) {
            Ok(in_reply_to) => in_reply_to,
            Err(e) => {
                return Err(e);
            },
        };
        proof {
            P::lemma_read_wf(members_view(body@));
        }
        let payload = match P::from_members(body) {
            Ok(payload) => payload,
            Err(e) => {
                return Err(e);
            },
        };
        Ok(Message { src, dest, body: Body { id, in_reply_to, payload } })
    }

    /// Reads a message from a line of text. A message that is read is well formed.
    pub fn decode(line: &str) -> (r: Result<Self, DecodeError>)
        ensures
            match read_line::<P>(line@) {
                Ok(envelope) => r matches Ok(message) && message@ == envelope && P::wf(
                    envelope.payload,
                ),
                Err(e) => r matches Err(x) && x == e,
            },
    {
        match parse(line) {
            Ok(json) => Self::from_json(&json),
            Err(e) => Err(e),
        }
    }

    /// Writes the message as one line of text, the line feed that ends it included:
    /// the text that `serde_json` writes for the message as JSON, and an error
    /// where `serde_json` reports one. What `serde_json` is handed for a
    /// well-formed message reads back as a message that says the same.
    pub fn encode(&self) -> (r: Result<String, EncodeError>)
        ensures
            match written_line::<P>(self@) {
                Ok(line) => r matches Ok(l) && l@ == line && is_line(line),
                Err(e) => r matches Err(x) && x == e,
            },
            P::wf(self@.payload) ==> (read_message::<P>(
                laid_out(message_tree::<P>(self@)),
            ) matches Ok(back) && same_envelope::<P>(back, self@)),
    {
        let json = self.to_json();
        let r = render(&json);
        proof {
            if P::wf(self@.payload) {
                lemma_round_trip_laid_out::<P>(self@);
            }
        }
        match r {
            Ok(text) => Ok(end_line(text)),
            Err(e) => Err(e),
        }
    }
}

} // verus!

//! How the handshake and its acknowledgement are written as JSON.

use crate::fields::{
    as_text, as_texts, find, is_name, lemma_find_in_two, lemma_texts_back, literal_json, lookup,
    member, text_json, text_of, texts_json, texts_of, texts_tree,
};
use crate::json::{lemma_flat_members_laid_out, DecodeError, Json, Tree};
use crate::message::{Init, InitOk, InitView};
use crate::wire::{lemma_names, Wire};
use vstd::prelude::*;

verus! {

/// How long the names are that are written here, and with which letter those of
/// one length begin: by this they are told apart.
proof fn lemma_kinds()
    ensures
        "init"@.len() == 4,
        "init_ok"@.len() == 7,
        "node_id"@.len() == 7,
        "node_ids"@.len() == 8,
{
    reveal_strlit("init");
    reveal_strlit("init_ok");
    reveal_strlit("node_id");
    reveal_strlit("node_ids");
}

impl Wire for Init {
    /// Every payload is well formed.
    open spec fn wf(payload: InitView) -> bool {
        true
    }

    open spec fn same(one: InitView, other: InitView) -> bool {
        one == other
    }

    proof fn lemma_read_by_find(one: Seq<(Seq<char>, Tree)>, other: Seq<(Seq<char>, Tree)>) {
    }

    proof fn lemma_read_wf(members: Seq<(Seq<char>, Tree)>) {
    }

    proof fn lemma_read_laid_out(payload: InitView, rest: Seq<(Seq<char>, Tree)>) {
        lemma_texts_back(payload.node_ids);
        lemma_flat_members_laid_out(Self::members(payload));
        Self::lemma_read_back(payload, rest);
    }

    open spec fn members(payload: InitView) -> Seq<(Seq<char>, Tree)> {
        seq![
            ("type"@, Tree::Text("init"@)),
            ("node_id"@, Tree::Text(payload.node_id)),
            ("node_ids"@, texts_tree(payload.node_ids)),
        ]
    }

    /// A handshake is of kind `init` and names the node and all nodes.
    open spec fn read(members: Seq<(Seq<char>, Tree)>) -> Result<InitView, DecodeError> {
        match as_text(find(members, "type"@)) {
            Err(e) => Err(e),
            Ok(kind) => if kind == "init"@ {
                match as_text(find(members, "node_id"@)) {
                    Err(e) => Err(e),
                    Ok(node_id) => match as_texts(find(members, "node_ids"@)) {
                        Err(e) => Err(e),
                        Ok(node_ids) => Ok(InitView { node_id, node_ids }),
                    },
                }
            } else {
                Err(DecodeError::UnknownType)
            },
        }
    }

    proof fn lemma_read_back(payload: InitView, rest: Seq<(Seq<char>, Tree)>) {
        lemma_names();
        lemma_kinds();
        let own = Self::members(payload);
        lemma_find_in_two(own, rest, "type"@);
        lemma_find_in_two(own, rest, "node_id"@);
        lemma_find_in_two(own, rest, "node_ids"@);
        lemma_texts_back(payload.node_ids);
        assert(find(own, "type"@) == Some(own[0].1) && find(own, "node_id"@) == Some(own[1].1)
            && find(own, "node_ids"@) == Some(own[2].1)) by {
            reveal_with_fuel(find, 4);
        }
    }

    proof fn lemma_members(payload: InitView) {
        lemma_names();
        lemma_kinds();
        let own = Self::members(payload);
        lemma_texts_back(payload.node_ids);
        assert(find(own, "msg_id"@) is None && find(own, "in_reply_to"@) is None) by {
            reveal_with_fuel(find, 4);
        }
    }

    fn to_members(&self) -> (members: Vec<(String, Json)>) {
        let mut members: Vec<(String, Json)> = Vec::new();
        members.push(member("type", literal_json("init")));
        members.push(member("node_id", text_json(&self.node_id)));
        members.push(member("node_ids", texts_json(&self.node_ids)));
        members
    }

    fn from_members(members: &Vec<(String, Json)>) -> (r: Result<Self, DecodeError>) {
        let kind = match text_of(lookup(members, "type")) {
            Ok(kind) => kind,
            Err(e) => {
                return Err(e);
            },
        };
        if !is_name(&kind, "init") {
            return Err(DecodeError::UnknownType);
        }
        let node_id = match text_of(lookup(members, "node_id")) {
            Ok(node_id) => node_id,
            Err(e) => {
                return Err(e);
            },
        };
        match texts_of(lookup(members, "node_ids")) {
            Ok(node_ids) => {
                let init = Init { node_id, node_ids };
                Ok(init)
            },
            Err(e) => Err(e),
        }
    }
}

impl Wire for InitOk {
    /// Every payload is well formed.
    open spec fn wf(payload: InitOk) -> bool {
        true
    }

    open spec fn same(one: InitOk, other: InitOk) -> bool {
        one == other
    }

    proof fn lemma_read_by_find(one: Seq<(Seq<char>, Tree)>, other: Seq<(Seq<char>, Tree)>) {
    }

    proof fn lemma_read_wf(members: Seq<(Seq<char>, Tree)>) {
    }

    proof fn lemma_read_laid_out(payload: InitOk, rest: Seq<(Seq<char>, Tree)>) {
        lemma_flat_members_laid_out(Self::members(payload));
        Self::lemma_read_back(payload, rest);
    }

    open spec fn members(payload: InitOk) -> Seq<(Seq<char>, Tree)> {
        seq![("type"@, Tree::Text("init_ok"@))]
    }

    open spec fn read(members: Seq<(Seq<char>, Tree)>) -> Result<InitOk, DecodeError> {
        match as_text(find(members, "type"@)) {
            Err(e) => Err(e),
            Ok(kind) => if kind == "init_ok"@ {
                Ok(InitOk)
            } else {
                Err(DecodeError::UnknownType)
            },
        }
    }

    proof fn lemma_read_back(payload: InitOk, rest: Seq<(Seq<char>, Tree)>) {
        let own = Self::members(payload);
        lemma_find_in_two(own, rest, "type"@);
        assert(find(own, "type"@) == Some(own[0].1)) by {
            reveal_with_fuel(find, 2);
        }
    }

    proof fn lemma_members(payload: InitOk) {
        lemma_names();
        let own = Self::members(payload);
        assert(find(own, "msg_id"@) is None && find(own, "in_reply_to"@) is None) by {
            reveal_with_fuel(find, 2);
        }
    }

    fn to_members(&self) -> (members: Vec<(String, Json)>) {
        let mut members: Vec<(String, Json)> = Vec::new();
        members.push(member("type", literal_json("init_ok")));
        members
    }

    fn from_members(members: &Vec<(String, Json)>) -> (r: Result<Self, DecodeError>) {
        let kind = match text_of(lookup(members, "type")) {
            Ok(kind) => kind,
            Err(e) => {
                return Err(e);
            },
        };
        if is_name(&kind, "init_ok") {
            Ok(InitOk)
        } else {
            Err(DecodeError::UnknownType)
        }
    }
}

} // verus!

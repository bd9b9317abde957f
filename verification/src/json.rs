//! JSON as a tree of plain values, and the passage between text and tree, which
//! `serde_json` makes.

use vstd::prelude::*;

verus! {

/// What a JSON text says, as a value of mathematics. A number is kept where it is
/// an integer from 0 to 2^64 - 1; of any other number only its presence is kept.
/// The members of an object stand in the order in which they are held.
pub enum Tree {
    Null,
    Bool(bool),
    Number(Option<u64>),
    Text(Seq<char>),
    List(Seq<Tree>),
    Object(Seq<(Seq<char>, Tree)>),
}

/// A JSON value.
#[derive(Debug, PartialEq, Eq)]
pub enum Json {
    Null,
    Bool(bool),
    Number(Option<u64>),
    Text(String),
    List(Vec<Json>),
    Object(Vec<(String, Json)>),
}

/// Why a text is not a message.
#[derive(Debug, PartialEq, Eq, Clone, Copy)]
pub enum DecodeError {
    /// The text is not JSON.
    NotJson,
    /// A member that has to be there is not.
    MissingField,
    /// A value is of another type than the one that has to stand there.
    WrongType,
    /// The payload is of no kind that the recipient knows.
    UnknownType,
}

/// A message could not be written as text.
#[derive(Debug, PartialEq, Eq, Clone, Copy)]
pub enum EncodeError {
    /// `serde_json` reported an error.
    Refused,
}

/// A JSON value as a value of mathematics.
pub open spec fn json_tree(json: Json) -> Tree
    decreases json,
{
    match json {
        Json::Null => Tree::Null,
        Json::Bool(b) => Tree::Bool(b),
        Json::Number(n) => Tree::Number(n),
        Json::Text(s) => Tree::Text(s@),
        Json::List(items) => Tree::List(
            Seq::new(
                items.len() as nat,
                |i: int|
                    if 0 <= i < items.len() {
                        json_tree(items[i])
                    } else {
                        Tree::Null
                    },
            ),
        ),
        Json::Object(members) => Tree::Object(
            Seq::new(
                members.len() as nat,
                |i: int|
                    if 0 <= i < members.len() {
                        (members[i].0@, json_tree(members[i].1))
                    } else {
                        (Seq::empty(), Tree::Null)
                    },
            ),
        ),
    }
}

impl View for Json {
    type V = Tree;

    open spec fn view(&self) -> Tree {
        json_tree(*self)
    }
}

/// The members of an object, as values of mathematics.
pub open spec fn members_view(members: Seq<(String, Json)>) -> Seq<(Seq<char>, Tree)> {
    Seq::new(members.len(), |i: int| (members[i].0@, members[i].1@))
}

/// The items of a list, as values of mathematics.
pub open spec fn items_view(items: Seq<Json>) -> Seq<Tree> {
    Seq::new(items.len(), |i: int| items[i]@)
}

/// An object is seen as its members are.
pub proof fn lemma_object_view(members: Vec<(String, Json)>)
    ensures
        Json::Object(members)@ == Tree::Object(members_view(members@)),
{
    assert(Json::Object(members)@->Object_0 =~= members_view(members@));
}

/// A list is seen as its items are.
pub proof fn lemma_list_view(items: Vec<Json>)
    ensures
        Json::List(items)@ == Tree::List(items_view(items@)),
{
    assert(Json::List(items)@->List_0 =~= items_view(items@));
}

/// Every number in the tree is one that is kept whole.
pub open spec fn exact(tree: Tree) -> bool
    decreases tree,
{
    match tree {
        Tree::Number(n) => n is Some,
        Tree::List(items) => forall|i: int| 0 <= i < items.len() ==> exact(#[trigger] items[i]),
        Tree::Object(members) => forall|i: int|
            0 <= i < members.len() ==> exact((#[trigger] members[i]).1),
        _ => true,
    }
}

/// No two members have one name.
pub open spec fn distinct_names(members: Seq<(Seq<char>, Tree)>) -> bool {
    forall|i: int, j: int|
        0 <= i < j < members.len() ==> (#[trigger] members[i]).0 != (#[trigger] members[j]).0
}

/// Whether a member of that name is among the members.
pub open spec fn has_name(members: Seq<(Seq<char>, Tree)>, name: Seq<char>) -> bool {
    exists|i: int| 0 <= i < members.len() && (#[trigger] members[i]).0 == name
}

/// Whether `held` is what a map may hold of the members `given` to it: every name
/// given is held once, with a value that was given under it.
pub open spec fn keeps(given: Seq<(Seq<char>, Tree)>, held: Seq<(Seq<char>, Tree)>) -> bool {
    &&& distinct_names(held)
    &&& forall|i: int| 0 <= i < held.len() ==> given.contains(#[trigger] held[i])
    &&& forall|j: int| 0 <= j < given.len() ==> has_name(held, (#[trigger] given[j]).0)
}

/// Whether no object is in the tree.
pub open spec fn flat(tree: Tree) -> bool
    decreases tree,
{
    match tree {
        Tree::List(items) => forall|i: int| 0 <= i < items.len() ==> flat(#[trigger] items[i]),
        Tree::Object(_) => false,
        _ => true,
    }
}

/// `serde_json::Value`, a JSON value as `serde_json` holds it. Nothing is known of
/// one but what `content` says.
#[verifier::external_type_specification]
#[verifier::external_body]
pub struct ExValue(serde_json::Value);

/// `serde_json::Error`, the error of `serde_json`. Nothing is known of one.
#[verifier::external_type_specification]
#[verifier::external_body]
pub struct ExError(serde_json::Error);

/// One level of a `serde_json::Value`: which variant it is, with the values below
/// it as `serde_json` holds them.
enum Opened {
    Null,
    Bool(bool),
    Number(Option<u64>),
    Text(String),
    List(Vec<serde_json::Value>),
    Object(Vec<(String, serde_json::Value)>),
}

/// The tree of one level, over the trees that the values below it hold.
spec fn opened_tree(opened: Opened) -> Tree {
    match opened {
        Opened::Null => Tree::Null,
        Opened::Bool(b) => Tree::Bool(b),
        Opened::Number(n) => Tree::Number(n),
        Opened::Text(s) => Tree::Text(s@),
        Opened::List(items) => Tree::List(
            Seq::new(items.len() as nat, |i: int| content(items[i])),
        ),
        Opened::Object(members) => Tree::Object(
            Seq::new(members.len() as nat, |i: int| (members[i].0@, content(members[i].1))),
        ),
    }
}

/// The tree that `serde_json::from_str` reads from a text as a `serde_json::Value`,
/// and `None` where it reports an error.
pub uninterp spec fn parsed(text: Seq<char>) -> Option<Tree>;

/// The tree that a `serde_json::Value` holds.
pub uninterp spec fn content(value: serde_json::Value) -> Tree;

/// The members that a `serde_json::Map` holds once it has been collected from the
/// given ones: it keeps them by their names.
pub uninterp spec fn kept(members: Seq<(Seq<char>, Tree)>) -> Seq<(Seq<char>, Tree)>;

/// The text that `serde_json::to_string` writes for a `serde_json::Value` that
/// holds the tree, and `None` where it reports an error.
pub uninterp spec fn rendered(tree: Tree) -> Option<Seq<char>>;

/// A tree as a `serde_json::Value` holds it that has been built from it, level by
/// level: the members of every object are those that `serde_json` keeps.
pub open spec fn laid_out(tree: Tree) -> Tree
    decreases tree,
{
    match tree {
        Tree::List(items) => Tree::List(items_laid_out(items)),
        Tree::Object(members) => Tree::Object(kept(members_laid_out(members))),
        _ => tree,
    }
}

/// The items of a list, each laid out.
pub open spec fn items_laid_out(items: Seq<Tree>) -> Seq<Tree>
    decreases items,
{
    Seq::new(
        items.len(),
        |i: int|
            if 0 <= i < items.len() {
                laid_out(items[i])
            } else {
                Tree::Null
            },
    )
}

/// The members of an object, the value of each laid out.
pub open spec fn members_laid_out(members: Seq<(Seq<char>, Tree)>) -> Seq<(Seq<char>, Tree)>
    decreases members,
{
    Seq::new(
        members.len(),
        |i: int|
            if 0 <= i < members.len() {
                (members[i].0, laid_out(members[i].1))
            } else {
                (Seq::empty(), Tree::Null)
            },
    )
}

/// Whether at every object of the tree `serde_json` keeps of the members, each
/// laid out, every name once with a value given under it.
pub open spec fn well_laid(tree: Tree) -> bool
    decreases tree,
{
    match tree {
        Tree::List(items) => forall|i: int|
            0 <= i < items.len() ==> well_laid(#[trigger] items[i]),
        Tree::Object(members) => {
            &&& keeps(members_laid_out(members), kept(members_laid_out(members)))
            &&& forall|i: int| 0 <= i < members.len() ==> well_laid((#[trigger] members[i]).1)
        },
        _ => true,
    }
}

/// A tree without an object is laid out as it is.
pub proof fn lemma_flat_laid_out(tree: Tree)
    requires
        flat(tree),
    ensures
        laid_out(tree) == tree,
        well_laid(tree),
    decreases tree,
{
    match tree {
        Tree::List(items) => {
            assert forall|i: int| 0 <= i < items.len() implies laid_out(#[trigger] items[i])
                == items[i] && well_laid(items[i]) by {
                lemma_flat_laid_out(items[i]);
            }
            assert(items_laid_out(items) =~= items);
        },
        _ => {},
    }
}

/// Members without an object under them are laid out as they are.
pub proof fn lemma_flat_members_laid_out(members: Seq<(Seq<char>, Tree)>)
    requires
        forall|i: int| 0 <= i < members.len() ==> flat((#[trigger] members[i]).1),
    ensures
        members_laid_out(members) == members,
{
    assert forall|i: int| 0 <= i < members.len() implies laid_out((#[trigger] members[i]).1)
        == members[i].1 by {
        lemma_flat_laid_out(members[i].1);
    }
}

/// `serde_json::from_str`, read as a `serde_json::Value`. What it returns depends
/// on the text alone: `parsed` names it.
#[verifier::external_body]
fn parse_value(text: &str) -> (r: Result<serde_json::Value, serde_json::Error>)
    ensures
        match r {
            Ok(value) => parsed(text@) == Some(content(value)),
            Err(_) => parsed(text@) is None,
        },
{
    serde_json::from_str(text)
}

/// Takes one level of a `serde_json::Value` apart: tells its variants apart and
/// moves what they hold, with `serde_json::Number::as_u64` for a number and the
/// members of a `serde_json::Map` in the order in which it yields them. What the
/// value holds is the tree of that level.
#[verifier::external_body]
fn open_value(value: serde_json::Value) -> (opened: Opened)
    ensures
        opened_tree(opened) == content(value),
{
    match value {
        serde_json::Value::Null => Opened::Null,
        serde_json::Value::Bool(b) => Opened::Bool(b),
        serde_json::Value::Number(n) => Opened::Number(n.as_u64()),
        serde_json::Value::String(s) => Opened::Text(s),
        serde_json::Value::Array(items) => Opened::List(items),
        serde_json::Value::Object(members) => Opened::Object(members.into_iter().collect()),
    }
}

/// Puts one level of a `serde_json::Value` together, with `serde_json::Value::from`
/// for a number and a `serde_json::Map` collected from the members of an object.
/// The value holds the tree of that level, the members of an object as the map
/// keeps them: every name given once, with a value that was given under it.
#[verifier::external_body]
fn close_value(opened: Opened) -> (value: serde_json::Value)
    requires
        opened matches Opened::Number(n) ==> n is Some,
    ensures
        content(value) == match opened_tree(opened) {
            Tree::Object(members) => Tree::Object(kept(members)),
            tree => tree,
        },
        (opened_tree(opened), content(value)) matches (Tree::Object(given), Tree::Object(held))
            ==> keeps(given, held),
{
    match opened {
        Opened::Null => serde_json::Value::Null,
        Opened::Bool(b) => serde_json::Value::Bool(b),
        Opened::Number(n) => serde_json::Value::from(n),
        Opened::Text(s) => serde_json::Value::String(s),
        Opened::List(items) => serde_json::Value::Array(items),
        Opened::Object(members) => serde_json::Value::Object(members.into_iter().collect()),
    }
}

/// `serde_json::to_string` on a `serde_json::Value` that holds whole numbers only.
/// What it returns, a text or an error, depends on what the value holds alone:
/// `rendered` names it. The compact form that `serde_json` writes has no line feed
/// in it, as a line feed inside a string is written as an escape.
#[verifier::external_body]
fn render_value(value: &serde_json::Value) -> (r: Result<String, serde_json::Error>)
    requires
        exact(content(*value)),
    ensures
        match r {
            Ok(text) => rendered(content(*value)) == Some(text@) && !text@.contains('\n'),
            Err(_) => rendered(content(*value)) is None,
        },
{
    serde_json::to_string(value)
}

/// The items of a list from the last to the first.
fn reversed<T>(items: Vec<T>) -> (back: Vec<T>)
    ensures
        back@ == items@.reverse(),
{
    let ghost all = items@;
    let mut items = items;
    let mut back: Vec<T> = Vec::new();
    while items.len() > 0
        invariant
            items.len() + back.len() == all.len(),
            forall|j: int| 0 <= j < items.len() ==> items[j] == all[j],
            forall|j: int| 0 <= j < back.len() ==> back[j] == all[all.len() - 1 - j],
        decreases items.len(),
    {
        let item = items.pop().unwrap();
        back.push(item);
    }
    back
}

/// Takes a `serde_json::Value` apart into a JSON value of the library's own.
pub fn from_value(value: serde_json::Value) -> (json: Json)
    ensures
        json@ == content(value),
    decreases content(value),
{
    let ghost whole = content(value);
    match open_value(value) {
        Opened::Null => Json::Null,
        Opened::Bool(b) => Json::Bool(b),
        Opened::Number(n) => Json::Number(n),
        Opened::Text(s) => Json::Text(s),
        Opened::List(items) => {
            let ghost all = Seq::new(items.len() as nat, |i: int| content(items[i]));
            let mut items = items;
            let mut back: Vec<Json> = Vec::new();
            while items.len() > 0
                invariant
                    whole == content(value),
                    whole == Tree::List(all),
                    items.len() + back.len() == all.len(),
                    forall|j: int| 0 <= j < items.len() ==> content(#[trigger] items[j]) == all[j],
                    forall|j: int|
                        0 <= j < back.len() ==> (#[trigger] back[j])@ == all[all.len() - 1 - j],
                decreases items.len(),
            {
                let item = items.pop().unwrap();
                assert(decreases_to!(whole => whole->List_0));
                back.push(from_value(item));
            }
            let out = reversed(back);
            proof {
                lemma_list_view(out);
                assert(items_view(out@) =~= all);
            }
            Json::List(out)
        },
        Opened::Object(members) => {
            let ghost all = Seq::new(
                members.len() as nat,
                |i: int| (members[i].0@, content(members[i].1)),
            );
            let mut members = members;
            let mut back: Vec<(String, Json)> = Vec::new();
            while members.len() > 0
                invariant
                    whole == content(value),
                    whole == Tree::Object(all),
                    members.len() + back.len() == all.len(),
                    forall|j: int|
                        0 <= j < members.len() ==> (#[trigger] members[j]).0@ == all[j].0
                            && content(members[j].1) == all[j].1,
                    forall|j: int|
                        0 <= j < back.len() ==> (#[trigger] back[j]).0@ == all[all.len() - 1
                            - j].0 && back[j].1@ == all[all.len() - 1 - j].1,
                decreases members.len(),
            {
                let (name, below) = members.pop().unwrap();
                assert(decreases_to!(whole => whole->Object_0));
                back.push((name, from_value(below)));
            }
            let out = reversed(back);
            proof {
                lemma_object_view(out);
                assert(members_view(out@) =~= all);
            }
            Json::Object(out)
        },
    }
}

/// Builds a `serde_json::Value` from a JSON value of the library's own.
fn to_value(json: &Json) -> (value: serde_json::Value)
    requires
        exact(json@),
    ensures
        content(value) == laid_out(json@),
        exact(content(value)),
        well_laid(json@),
    decreases json,
{
    match json {
        Json::Null => close_value(Opened::Null),
        Json::Bool(b) => close_value(Opened::Bool(*b)),
        Json::Number(n) => close_value(Opened::Number(*n)),
        Json::Text(s) => close_value(Opened::Text(s.clone())),
        Json::List(items) => {
            proof {
                lemma_list_view(*items);
                assert forall|j: int| 0 <= j < items.len() implies exact((#[trigger] items[j])@) by {
                    assert(exact(items_view(items@)[j]));
                }
            }
            let mut values: Vec<serde_json::Value> = Vec::new();
            let mut i: usize = 0;
            while i < items.len()
                invariant
                    i <= items.len(),
                    values.len() == i,
                    *json == Json::List(*items),
                    forall|j: int| 0 <= j < items.len() ==> exact((#[trigger] items[j])@),
                    forall|j: int| 0 <= j < i ==> well_laid((#[trigger] items[j])@),
                    forall|j: int|
                        0 <= j < i ==> content(#[trigger] values[j]) == laid_out(items[j]@)
                            && exact(content(values[j])),
                decreases items.len() - i,
            {
                assert(decreases_to!(*json => json->List_0));
                values.push(to_value(&items[i]));
                i += 1;
            }
            let ghost below = Seq::new(values.len() as nat, |j: int| content(values[j]));
            let value = close_value(Opened::List(values));
            proof {
                assert(below =~= items_laid_out(items_view(items@)));
                assert forall|j: int| 0 <= j < items_view(items@).len() implies well_laid(
                    #[trigger] items_view(items@)[j],
                ) by {
                }
            }
            value
        },
        Json::Object(members) => {
            proof {
                lemma_object_view(*members);
                assert forall|j: int| 0 <= j < members.len() implies exact(
                    (#[trigger] members[j]).1@,
                ) by {
                    assert(exact(members_view(members@)[j].1));
                }
            }
            let mut values: Vec<(String, serde_json::Value)> = Vec::new();
            let mut i: usize = 0;
            while i < members.len()
                invariant
                    i <= members.len(),
                    values.len() == i,
                    *json == Json::Object(*members),
                    forall|j: int| 0 <= j < members.len() ==> exact((#[trigger] members[j]).1@),
                    forall|j: int| 0 <= j < i ==> well_laid((#[trigger] members[j]).1@),
                    forall|j: int|
                        0 <= j < i ==> (#[trigger] values[j]).0@ == members[j].0@ && content(
                            values[j].1,
                        ) == laid_out(members[j].1@) && exact(content(values[j].1)),
                decreases members.len() - i,
            {
                assert(decreases_to!(*json => json->Object_0));
                values.push((members[i].0.clone(), to_value(&members[i].1)));
                i += 1;
            }
            let ghost below = Seq::new(
                values.len() as nat,
                |j: int| (values[j].0@, content(values[j].1)),
            );
            let value = close_value(Opened::Object(values));
            proof {
                assert(below =~= members_laid_out(members_view(members@)));
                let held = kept(below);
                assert forall|j: int| 0 <= j < held.len() implies exact((#[trigger] held[j]).1) by {
                    let k = choose|k: int| 0 <= k < below.len() && below[k] == held[j];
                }
                assert forall|j: int| 0 <= j < members_view(members@).len() implies well_laid(
                    (#[trigger] members_view(members@)[j]).1,
                ) by {
                }
            }
            value
        },
    }
}

/// Reads a text as JSON.
pub fn parse(text: &str) -> (r: Result<Json, DecodeError>)
    ensures
        match parsed(text@) {
            Some(tree) => r matches Ok(json) && json@ == tree,
            None => r == Err::<Json, DecodeError>(DecodeError::NotJson),
        },
{
    match parse_value(text) {
        Ok(value) => Ok(from_value(value)),
        Err(_) => Err(DecodeError::NotJson),
    }
}

/// Writes JSON as text, on one line: the text that `serde_json` writes for the
/// value laid out, and an error where `serde_json` reports one.
pub(crate) fn render(json: &Json) -> (r: Result<String, EncodeError>)
    requires
        exact(json@),
    ensures
        match rendered(laid_out(json@)) {
            Some(text) => r matches Ok(t) && t@ == text && !text.contains('\n'),
            None => r matches Err(e) && e == EncodeError::Refused,
        },
        well_laid(json@),
{
    let value = to_value(json);
    match render_value(&value) {
        Ok(text) => Ok(text),
        Err(_) => Err(EncodeError::Refused),
    }
}

} // verus!

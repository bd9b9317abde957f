//! The members of a JSON object: how one is found by its name, and how texts,
//! numbers and lists of them are read from members and written as members.

use crate::json::{
    distinct_names, exact, flat, has_name, items_view, keeps, lemma_list_view, lemma_object_view,
    members_view, DecodeError, Json, Tree,
};
use vstd::prelude::*;
use vstd::string::StringExecFns;

verus! {


/// The value of the first member of that name.
pub open spec fn find(members: Seq<(Seq<char>, Tree)>, key: Seq<char>) -> Option<Tree>
    decreases members.len(),
{
    if members.len() == 0 {
        None
    } else {
        match find(members.drop_last(), key) {
            Some(tree) => Some(tree),
            None => if members.last().0 == key {
                Some(members.last().1)
            } else {
                None
            },
        }
    }
}

/// A member is looked for in what comes first, and in the rest only if it is not there.
pub proof fn lemma_find_in_two(
    first: Seq<(Seq<char>, Tree)>,
    rest: Seq<(Seq<char>, Tree)>,
    key: Seq<char>,
)
    ensures
        find(first + rest, key) == match find(first, key) {
            Some(tree) => Some(tree),
            None => find(rest, key),
        },
    decreases rest.len(),
{
    if rest.len() == 0 {
    } else {
        assert((first + rest).drop_last() =~= first + rest.drop_last());
        lemma_find_in_two(first, rest.drop_last(), key);
    }
}

/// What is found under a name is the value of a member of that name, and nothing
/// is found only where there is no such member.
pub proof fn lemma_find_is_member(members: Seq<(Seq<char>, Tree)>, key: Seq<char>)
    ensures
        match find(members, key) {
            Some(tree) => members.contains((key, tree)),
            None => !has_name(members, key),
        },
    decreases members.len(),
{
    if members.len() > 0 {
        let front = members.drop_last();
        lemma_find_is_member(front, key);
        match find(front, key) {
            Some(tree) => {
                let i = choose|i: int| 0 <= i < front.len() && front[i] == (key, tree);
                assert(members[i] == (key, tree));
            },
            None => {
                if members.last().0 == key {
                    assert(members[members.len() - 1] == (key, members.last().1));
                } else {
                    assert forall|i: int| 0 <= i < members.len() implies (#[trigger] members[i]).0
                        != key by {
                        if i < front.len() {
                            assert(front[i] == members[i]);
                        }
                    }
                }
            },
        }
    }
}

/// Where no two members have one name, each member is found under its name.
pub proof fn lemma_find_member(members: Seq<(Seq<char>, Tree)>, i: int)
    requires
        distinct_names(members),
        0 <= i < members.len(),
    ensures
        find(members, members[i].0) == Some(members[i].1),
{
    let key = members[i].0;
    lemma_find_is_member(members, key);
    match find(members, key) {
        Some(tree) => {
            let j = choose|j: int| 0 <= j < members.len() && members[j] == (key, tree);
            assert(j == i);
        },
        None => {},
    }
}

/// Of members of which no two have one name, a map keeps what is found under every
/// name.
pub proof fn lemma_kept_finds(
    given: Seq<(Seq<char>, Tree)>,
    held: Seq<(Seq<char>, Tree)>,
    key: Seq<char>,
)
    requires
        distinct_names(given),
        keeps(given, held),
    ensures
        find(held, key) == find(given, key),
{
    lemma_find_is_member(given, key);
    lemma_find_is_member(held, key);
    match find(given, key) {
        Some(tree) => {
            let j = choose|j: int| 0 <= j < given.len() && given[j] == (key, tree);
            assert(has_name(held, given[j].0));
            let i = choose|i: int| 0 <= i < held.len() && (#[trigger] held[i]).0 == key;
            assert(given.contains(held[i]));
            let k = choose|k: int| 0 <= k < given.len() && given[k] == held[i];
            assert(k == j);
            lemma_find_member(held, i);
        },
        None => {
            if find(held, key) is Some {
                let tree = find(held, key)->0;
                let i = choose|i: int| 0 <= i < held.len() && held[i] == (key, tree);
                assert(given.contains(held[i]));
                let k = choose|k: int| 0 <= k < given.len() && given[k] == held[i];
                assert(given[k].0 == key);
            }
        },
    }
}

/// What was found, as a value of mathematics.
pub open spec fn found_view(found: Option<&Json>) -> Option<Tree> {
    match found {
        Some(json) => Some(json@),
        None => None,
    }
}

/// Whether a number can be held as a `usize`.
pub open spec fn fits(n: u64) -> bool {
    n <= usize::MAX
}

/// A text that has to be there.
pub open spec fn as_text(found: Option<Tree>) -> Result<Seq<char>, DecodeError> {
    match found {
        None => Err(DecodeError::MissingField),
        Some(Tree::Text(text)) => Ok(text),
        Some(_) => Err(DecodeError::WrongType),
    }
}

/// A number that has to be there.
pub open spec fn as_number(found: Option<Tree>) -> Result<usize, DecodeError> {
    match found {
        None => Err(DecodeError::MissingField),
        Some(Tree::Number(Some(n))) => if fits(n) {
            Ok(n as usize)
        } else {
            Err(DecodeError::WrongType)
        },
        Some(_) => Err(DecodeError::WrongType),
    }
}

/// A number that may be left out or be `null`.
pub open spec fn as_optional_number(found: Option<Tree>) -> Result<Option<usize>, DecodeError> {
    match found {
        None => Ok(None),
        Some(Tree::Null) => Ok(None),
        Some(Tree::Number(Some(n))) => if fits(n) {
            Ok(Some(n as usize))
        } else {
            Err(DecodeError::WrongType)
        },
        Some(_) => Err(DecodeError::WrongType),
    }
}

/// An object that has to be there.
pub open spec fn as_object(found: Option<Tree>) -> Result<Seq<(Seq<char>, Tree)>, DecodeError> {
    match found {
        None => Err(DecodeError::MissingField),
        Some(Tree::Object(members)) => Ok(members),
        Some(_) => Err(DecodeError::WrongType),
    }
}

/// Whether every item is a text.
pub open spec fn all_text(items: Seq<Tree>) -> bool {
    forall|i: int| 0 <= i < items.len() ==> (#[trigger] items[i]) is Text
}

/// The texts that the items are.
pub open spec fn texts(items: Seq<Tree>) -> Seq<Seq<char>> {
    Seq::new(items.len(), |i: int| items[i]->Text_0)
}

/// A list of texts that has to be there.
pub open spec fn as_texts(found: Option<Tree>) -> Result<Seq<Seq<char>>, DecodeError> {
    match found {
        None => Err(DecodeError::MissingField),
        Some(Tree::List(items)) => if all_text(items) {
            Ok(texts(items))
        } else {
            Err(DecodeError::WrongType)
        },
        Some(_) => Err(DecodeError::WrongType),
    }
}

/// Whether a value is a whole number that can be held as a `usize`.
pub open spec fn is_count(tree: Tree) -> bool {
    tree matches Tree::Number(Some(n)) && fits(n)
}

/// Whether every item is such a number.
pub open spec fn all_counts(items: Seq<Tree>) -> bool {
    forall|i: int| 0 <= i < items.len() ==> is_count(#[trigger] items[i])
}

/// The numbers that the items are.
pub open spec fn counts(items: Seq<Tree>) -> Seq<usize> {
    Seq::new(items.len(), |i: int| items[i]->Number_0->0 as usize)
}

/// A list of numbers that has to be there.
pub open spec fn as_numbers(found: Option<Tree>) -> Result<Seq<usize>, DecodeError> {
    match found {
        None => Err(DecodeError::MissingField),
        Some(Tree::List(items)) => if all_counts(items) {
            Ok(counts(items))
        } else {
            Err(DecodeError::WrongType)
        },
        Some(_) => Err(DecodeError::WrongType),
    }
}

/// Whether a value is a list of texts.
pub open spec fn is_text_list(tree: Tree) -> bool {
    tree matches Tree::List(items) && all_text(items)
}

/// Whether the value of every member is a list of texts.
pub open spec fn all_text_lists(members: Seq<(Seq<char>, Tree)>) -> bool {
    forall|i: int| 0 <= i < members.len() ==> is_text_list((#[trigger] members[i]).1)
}

/// The names of the members, each with the texts under it.
pub open spec fn text_lists(members: Seq<(Seq<char>, Tree)>) -> Seq<(Seq<char>, Seq<Seq<char>>)> {
    Seq::new(members.len(), |i: int| (members[i].0, texts(members[i].1->List_0)))
}

/// An object that has to be there, has a list of texts under every name and no
/// name twice.
pub open spec fn as_text_lists(found: Option<Tree>) -> Result<
    Seq<(Seq<char>, Seq<Seq<char>>)>,
    DecodeError,
> {
    match found {
        None => Err(DecodeError::MissingField),
        Some(Tree::Object(members)) => if all_text_lists(members) && distinct_names(members) {
            Ok(text_lists(members))
        } else {
            Err(DecodeError::WrongType)
        },
        Some(_) => Err(DecodeError::WrongType),
    }
}

/// The texts that strings hold.
pub open spec fn strings_view(strings: Seq<String>) -> Seq<Seq<char>> {
    Seq::new(strings.len(), |i: int| strings[i]@)
}

/// The names and texts that a table of strings holds.
pub open spec fn table_view(table: Seq<(String, Vec<String>)>) -> Seq<(Seq<char>, Seq<Seq<char>>)> {
    Seq::new(table.len(), |i: int| (table[i].0@, strings_view(table[i].1@)))
}

/// A number as JSON.
pub open spec fn number_tree(n: usize) -> Tree {
    Tree::Number(Some(n as u64))
}

/// A number as JSON, and `null` where there is none.
pub open spec fn optional_number_tree(n: Option<usize>) -> Tree {
    match n {
        Some(n) => number_tree(n),
        None => Tree::Null,
    }
}

/// A list of texts as JSON.
pub open spec fn texts_tree(items: Seq<Seq<char>>) -> Tree {
    Tree::List(Seq::new(items.len(), |i: int| Tree::Text(items[i])))
}

/// A list of numbers as JSON.
pub open spec fn numbers_tree(items: Seq<usize>) -> Tree {
    Tree::List(Seq::new(items.len(), |i: int| number_tree(items[i])))
}

/// The members that a table of names and texts is written as: a list of texts
/// under every name.
pub open spec fn table_members(table: Seq<(Seq<char>, Seq<Seq<char>>)>) -> Seq<
    (Seq<char>, Tree),
> {
    Seq::new(table.len(), |i: int| (table[i].0, texts_tree(table[i].1)))
}

/// A table of names and texts as JSON: an object with a list under every name.
pub open spec fn text_lists_tree(table: Seq<(Seq<char>, Seq<Seq<char>>)>) -> Tree {
    Tree::Object(table_members(table))
}

/// No name occurs twice in the table.
pub open spec fn table_distinct(table: Seq<(Seq<char>, Seq<Seq<char>>)>) -> bool {
    distinct_names(table_members(table))
}

/// Two tables say the same: under every name the same texts, in whatever order
/// the names stand.
pub open spec fn same_table(
    one: Seq<(Seq<char>, Seq<Seq<char>>)>,
    other: Seq<(Seq<char>, Seq<Seq<char>>)>,
) -> bool {
    forall|key: Seq<char>|
        #[trigger] find(table_members(one), key) == find(table_members(other), key)
}

/// What is written for a list of texts is read back as it.
pub proof fn lemma_texts_back(items: Seq<Seq<char>>)
    ensures
        as_texts(Some(texts_tree(items))) == Ok::<Seq<Seq<char>>, DecodeError>(items),
        exact(texts_tree(items)),
        flat(texts_tree(items)),
{
    let written = texts_tree(items)->List_0;
    assert(texts(written) =~= items);
    assert forall|i: int| 0 <= i < written.len() implies exact(#[trigger] written[i]) && flat(
        written[i],
    ) by {}
}

/// What is written for a list of numbers is read back as it.
pub proof fn lemma_numbers_back(items: Seq<usize>)
    ensures
        as_numbers(Some(numbers_tree(items))) == Ok::<Seq<usize>, DecodeError>(items),
        exact(numbers_tree(items)),
        flat(numbers_tree(items)),
{
    let written = numbers_tree(items)->List_0;
    assert(counts(written) =~= items);
    assert forall|i: int| 0 <= i < written.len() implies exact(#[trigger] written[i]) && flat(
        written[i],
    ) by {}
}

/// What is written for a table of texts in which no name occurs twice is read
/// back as it.
pub proof fn lemma_text_lists_back(table: Seq<(Seq<char>, Seq<Seq<char>>)>)
    requires
        table_distinct(table),
    ensures
        as_text_lists(Some(text_lists_tree(table))) == Ok::<
            Seq<(Seq<char>, Seq<Seq<char>>)>,
            DecodeError,
        >(table),
{
    lemma_table_members(table);
    assert(text_lists(table_members(table)) =~= table);
}

/// What a table is written as: under every name a list of texts, whole numbers
/// only, and no object below.
pub proof fn lemma_table_members(table: Seq<(Seq<char>, Seq<Seq<char>>)>)
    ensures
        all_text_lists(table_members(table)),
        exact(text_lists_tree(table)),
        forall|i: int|
            0 <= i < table.len() ==> flat((#[trigger] table_members(table)[i]).1) && texts(
                table_members(table)[i].1->List_0,
            ) == table[i].1,
{
    let members = table_members(table);
    assert forall|i: int| 0 <= i < members.len() implies is_text_list((#[trigger] members[i]).1)
        && texts(members[i].1->List_0) == table[i].1 && exact(members[i].1) && flat(
        members[i].1,
    ) by {
        lemma_texts_back(table[i].1);
    }
}

/// What is read of members that have a list of texts under every name is written
/// as these members.
pub proof fn lemma_text_lists_members(members: Seq<(Seq<char>, Tree)>)
    requires
        all_text_lists(members),
    ensures
        table_members(text_lists(members)) == members,
{
    assert forall|i: int| 0 <= i < members.len() implies table_members(text_lists(members))[i]
        == members[i] by {
        let items = members[i].1->List_0;
        assert(texts_tree(texts(items))->List_0 =~= items);
    }
}

/// Finds the first member of that name.
pub fn lookup<'a>(members: &'a Vec<(String, Json)>, key: &str) -> (found: Option<&'a Json>)
    ensures
        found_view(found) == find(members_view(members@), key@),
{
    let name = String::from_str(key);
    let mut found: Option<&'a Json> = None;
    let mut i: usize = 0;
    while i < members.len()
        invariant
            i <= members.len(),
            name@ == key@,
            found_view(found) == find(members_view(members@).take(i as int), key@),
        decreases members.len() - i,
    {
        if found.is_none() && members[i].0 == name {
            found = Some(&members[i].1);
        }
        proof {
            let all = members_view(members@);
            assert(all.take(i + 1).drop_last() =~= all.take(i as int));
        }
        i += 1;
    }
    proof {
        assert(members_view(members@).take(i as int) =~= members_view(members@));
    }
    found
}

/// Reads a text that has to be there.
pub fn text_of(found: Option<&Json>) -> (r: Result<String, DecodeError>)
    ensures
        match as_text(found_view(found)) {
            Ok(text) => r matches Ok(t) && t@ == text,
            Err(e) => r matches Err(x) && x == e,
        },
{
    match found {
        None => Err(DecodeError::MissingField),
        Some(Json::Text(text)) => Ok(text.clone()),
        Some(_) => Err(DecodeError::WrongType),
    }
}

/// Reads a number that has to be there.
pub fn number_of(found: Option<&Json>) -> (r: Result<usize, DecodeError>)
    ensures
        r == as_number(found_view(found)),
{
    match found {
        None => Err(DecodeError::MissingField),
        Some(Json::Number(Some(n))) => if *n <= usize::MAX as u64 {
            Ok(*n as usize)
        } else {
            Err(DecodeError::WrongType)
        },
        Some(_) => Err(DecodeError::WrongType),
    }
}

/// Reads a number that may be left out or be `null`.
pub fn optional_number_of(found: Option<&Json>) -> (r: Result<Option<usize>, DecodeError>)
    ensures
        r == as_optional_number(found_view(found)),
{
    match found {
        None => Ok(None),
        Some(Json::Null) => Ok(None),
        Some(Json::Number(Some(n))) => if *n <= usize::MAX as u64 {
            Ok(Some(*n as usize))
        } else {
            Err(DecodeError::WrongType)
        },
        Some(_) => Err(DecodeError::WrongType),
    }
}

/// Reads an object that has to be there.
pub fn object_of<'a>(found: Option<&'a Json>) -> (r: Result<&'a Vec<(String, Json)>, DecodeError>)
    ensures
        match as_object(found_view(found)) {
            Ok(members) => r matches Ok(m) && members_view(m@) == members,
            Err(e) => r matches Err(x) && x == e,
        },
{
    match found {
        None => Err(DecodeError::MissingField),
        Some(Json::Object(members)) => {
            Ok(members)
        },
        Some(_) => Err(DecodeError::WrongType),
    }
}

/// The texts in a list, if all its items are texts.
fn texts_in(items: &Vec<Json>) -> (r: Option<Vec<String>>)
    ensures
        match r {
            Some(out) => all_text(items_view(items@)) && strings_view(out@) == texts(
                items_view(items@),
            ),
            None => !all_text(items_view(items@)),
        },
{
    let mut out: Vec<String> = Vec::new();
    let mut i: usize = 0;
    while i < items.len()
        invariant
            i <= items.len(),
            out.len() == i,
            forall|j: int| 0 <= j < i ==> (#[trigger] items_view(items@)[j]) is Text,
            forall|j: int| 0 <= j < i ==> (#[trigger] out[j])@ == items_view(items@)[j]->Text_0,
        decreases items.len() - i,
    {
        match &items[i] {
            Json::Text(text) => {
                out.push(text.clone());
            },
            _ => {
                assert(!(items_view(items@)[i as int] is Text));
                return None;
            },
        }
        i += 1;
    }
    Some(out)
}

/// Reads a list of texts that has to be there.
pub fn texts_of(found: Option<&Json>) -> (r: Result<Vec<String>, DecodeError>)
    ensures
        match as_texts(found_view(found)) {
            Ok(items) => r matches Ok(out) && strings_view(out@) == items,
            Err(e) => r matches Err(x) && x == e,
        },
{
    match found {
        None => Err(DecodeError::MissingField),
        Some(Json::List(items)) => {
            proof {
                lemma_list_view(*items);
            }
            match texts_in(items) {
                Some(out) => Ok(out),
                None => Err(DecodeError::WrongType),
            }
        },
        Some(_) => Err(DecodeError::WrongType),
    }
}

/// Reads a list of numbers that has to be there.
pub fn numbers_of(found: Option<&Json>) -> (r: Result<Vec<usize>, DecodeError>)
    ensures
        match as_numbers(found_view(found)) {
            Ok(items) => r matches Ok(out) && out@ == items,
            Err(e) => r matches Err(x) && x == e,
        },
{
    match found {
        None => Err(DecodeError::MissingField),
        Some(Json::List(items)) => {
            proof {
                lemma_list_view(*items);
            }
            let mut out: Vec<usize> = Vec::new();
            let mut i: usize = 0;
            while i < items.len()
                invariant
                    i <= items.len(),
                    out.len() == i,
                    found_view(found) == Some(Tree::List(items_view(items@))),
                    forall|j: int| 0 <= j < i ==> is_count(#[trigger] items_view(items@)[j]),
                    forall|j: int|
                        0 <= j < i ==> (#[trigger] out[j]) == items_view(
                            items@,
                        )[j]->Number_0->0 as usize,
                decreases items.len() - i,
            {
                match &items[i] {
                    Json::Number(Some(n)) => {
                        if *n <= usize::MAX as u64 {
                            out.push(*n as usize);
                        } else {
                            assert(!is_count(items_view(items@)[i as int]));
                            return Err(DecodeError::WrongType);
                        }
                    },
                    _ => {
                        return Err(DecodeError::WrongType);
                    },
                }
                i += 1;
            }
            Ok(out)
        },
        Some(_) => Err(DecodeError::WrongType),
    }
}

/// Whether the name of a member is the name of one before it.
fn named_before(members: &Vec<(String, Json)>, i: usize) -> (found: bool)
    requires
        i < members.len(),
    ensures
        found == exists|j: int| 0 <= j < i && (#[trigger] members[j]).0@ == members[i as int].0@,
{
    let mut j: usize = 0;
    while j < i
        invariant
            j <= i < members.len(),
            forall|k: int| 0 <= k < j ==> (#[trigger] members[k]).0@ != members[i as int].0@,
        decreases i - j,
    {
        if members[j].0 == members[i].0 {
            return true;
        }
        j += 1;
    }
    false
}

/// Reads an object that has to be there, has a list of texts under every name and
/// no name twice. No name occurs twice in the table that is read.
pub fn text_lists_of(found: Option<&Json>) -> (r: Result<Vec<(String, Vec<String>)>, DecodeError>)
    ensures
        match as_text_lists(found_view(found)) {
            Ok(table) => r matches Ok(out) && table_view(out@) == table && table_distinct(table),
            Err(e) => r matches Err(x) && x == e,
        },
{
    match found {
        None => Err(DecodeError::MissingField),
        Some(Json::Object(members)) => {
            proof {
                lemma_object_view(*members);
            }
            let ghost all = members_view(members@);
            let mut out: Vec<(String, Vec<String>)> = Vec::new();
            let mut i: usize = 0;
            while i < members.len()
                invariant
                    i <= members.len(),
                    out.len() == i,
                    all == members_view(members@),
                    found_view(found) == Some(Tree::Object(all)),
                    forall|j: int| 0 <= j < i ==> is_text_list((#[trigger] all[j]).1),
                    forall|j: int, k: int|
                        0 <= j < k < i ==> (#[trigger] all[j]).0 != (#[trigger] all[k]).0,
                    forall|j: int|
                        0 <= j < i ==> (#[trigger] out[j]).0@ == all[j].0 && strings_view(
                            out[j].1@,
                        ) == texts(all[j].1->List_0),
                decreases members.len() - i,
            {
                if named_before(members, i) {
                    proof {
                        let j = choose|j: int|
                            0 <= j < i && (#[trigger] members[j]).0@ == members[i as int].0@;
                        assert(all[j].0 == all[i as int].0);
                    }
                    return Err(DecodeError::WrongType);
                }
                assert forall|j: int| 0 <= j < i implies (#[trigger] all[j]).0 != all[i as int].0 by {
                }
                match &members[i].1 {
                    Json::List(items) => {
                        proof {
                            lemma_list_view(*items);
                        }
                        match texts_in(items) {
                            Some(names) => {
                                out.push((members[i].0.clone(), names));
                            },
                            None => {
                                assert(!is_text_list(all[i as int].1));
                                return Err(DecodeError::WrongType);
                            },
                        }
                    },
                    _ => {
                        return Err(DecodeError::WrongType);
                    },
                }
                i += 1;
            }
            Ok(out)
        },
        Some(_) => Err(DecodeError::WrongType),
    }
}

/// Whether a text is a given name.
pub fn is_name(text: &String, name: &str) -> (same: bool)
    ensures
        same == (text@ == name@),
{
    let other = String::from_str(name);
    *text == other
}

/// A member of an object.
pub fn member(key: &str, value: Json) -> (m: (String, Json))
    ensures
        m.0@ == key@,
        m.1 == value,
{
    (String::from_str(key), value)
}

/// A text as JSON.
pub fn text_json(text: &String) -> (json: Json)
    ensures
        json@ == Tree::Text(text@),
{
    Json::Text(text.clone())
}

/// A text as JSON.
pub fn literal_json(text: &str) -> (json: Json)
    ensures
        json@ == Tree::Text(text@),
{
    Json::Text(String::from_str(text))
}

/// A number as JSON.
pub fn number_json(n: usize) -> (json: Json)
    ensures
        json@ == number_tree(n),
{
    Json::Number(Some(n as u64))
}

/// A number as JSON, and `null` where there is none.
pub fn optional_number_json(n: Option<usize>) -> (json: Json)
    ensures
        json@ == optional_number_tree(n),
{
    match n {
        Some(n) => number_json(n),
        None => Json::Null,
    }
}

/// A list of texts as JSON.
pub fn texts_json(items: &Vec<String>) -> (json: Json)
    ensures
        json@ == texts_tree(strings_view(items@)),
{
    let mut out: Vec<Json> = Vec::new();
    let mut i: usize = 0;
    while i < items.len()
        invariant
            i <= items.len(),
            out.len() == i,
            forall|j: int| 0 <= j < i ==> (#[trigger] out[j])@ == Tree::Text(items[j]@),
        decreases items.len() - i,
    {
        out.push(Json::Text(items[i].clone()));
        i += 1;
    }
    proof {
        lemma_list_view(out);
        assert(items_view(out@) =~= texts_tree(strings_view(items@))->List_0);
    }
    Json::List(out)
}

/// A list of numbers as JSON.
pub fn numbers_json(items: &Vec<usize>) -> (json: Json)
    ensures
        json@ == numbers_tree(items@),
{
    let mut out: Vec<Json> = Vec::new();
    let mut i: usize = 0;
    while i < items.len()
        invariant
            i <= items.len(),
            out.len() == i,
            forall|j: int| 0 <= j < i ==> (#[trigger] out[j])@ == number_tree(items[j]),
        decreases items.len() - i,
    {
        out.push(number_json(items[i]));
        i += 1;
    }
    proof {
        lemma_list_view(out);
        assert(items_view(out@) =~= numbers_tree(items@)->List_0);
    }
    Json::List(out)
}

/// A table of names and texts as JSON. The object has a name twice exactly where
/// the table has.
pub fn text_lists_json(table: &Vec<(String, Vec<String>)>) -> (json: Json)
    ensures
        json@ == text_lists_tree(table_view(table@)),
        distinct_names(json@->Object_0) == table_distinct(table_view(table@)),
{
    let mut out: Vec<(String, Json)> = Vec::new();
    let mut i: usize = 0;
    while i < table.len()
        invariant
            i <= table.len(),
            out.len() == i,
            forall|j: int|
                0 <= j < i ==> (#[trigger] out[j]).0@ == table[j].0@ && out[j].1@ == texts_tree(
                    strings_view(table[j].1@),
                ),
        decreases table.len() - i,
    {
        out.push((table[i].0.clone(), texts_json(&table[i].1)));
        i += 1;
    }
    proof {
        lemma_object_view(out);
        assert(members_view(out@) =~= text_lists_tree(table_view(table@))->Object_0);
    }
    Json::Object(out)
}

} // verus!

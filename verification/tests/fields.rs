use laserbeam::fields::{
    is_name, literal_json, lookup, member, number_json, number_of, numbers_json, numbers_of,
    object_of, optional_number_json, optional_number_of, text_json, text_lists_json,
    text_lists_of, text_of, texts_json, texts_of,
};
use laserbeam::{DecodeError, Json};

fn members() -> Vec<(String, Json)> {
    vec![
        ("a".to_string(), Json::Text("x".to_string())),
        ("b".to_string(), Json::Number(Some(3))),
        ("a".to_string(), Json::Null),
        ("c".to_string(), Json::Number(None)),
        ("".to_string(), Json::Bool(false)),
    ]
}

#[test]
fn the_first_member_of_a_name_is_found() {
    let members = members();
    assert_eq!(lookup(&members, "a"), Some(&Json::Text("x".to_string())));
    assert_eq!(lookup(&members, "b"), Some(&Json::Number(Some(3))));
    assert_eq!(lookup(&members, ""), Some(&Json::Bool(false)));
    assert_eq!(lookup(&members, "d"), None);
    assert_eq!(lookup(&members, "A"), None);
    assert_eq!(lookup(&Vec::new(), "a"), None);
}

#[test]
fn a_text_is_read_where_a_text_stands() {
    let members = members();
    assert_eq!(text_of(lookup(&members, "a")), Ok("x".to_string()));
    assert_eq!(text_of(lookup(&members, "b")), Err(DecodeError::WrongType));
    assert_eq!(text_of(lookup(&members, "d")), Err(DecodeError::MissingField));
    assert_eq!(text_of(Some(&Json::Null)), Err(DecodeError::WrongType));
}

#[test]
fn a_number_is_read_where_a_whole_number_stands() {
    let members = members();
    assert_eq!(number_of(lookup(&members, "b")), Ok(3));
    assert_eq!(number_of(lookup(&members, "c")), Err(DecodeError::WrongType));
    assert_eq!(number_of(lookup(&members, "a")), Err(DecodeError::WrongType));
    assert_eq!(number_of(lookup(&members, "d")), Err(DecodeError::MissingField));
    assert_eq!(number_of(Some(&Json::Null)), Err(DecodeError::WrongType));
    assert_eq!(number_of(Some(&Json::Number(Some(0)))), Ok(0));
    assert_eq!(number_of(Some(&Json::Number(Some(usize::MAX as u64)))), Ok(usize::MAX));
}

#[test]
fn a_number_that_may_be_left_out() {
    let members = members();
    assert_eq!(optional_number_of(lookup(&members, "b")), Ok(Some(3)));
    assert_eq!(optional_number_of(lookup(&members, "d")), Ok(None));
    assert_eq!(optional_number_of(Some(&Json::Null)), Ok(None));
    assert_eq!(optional_number_of(lookup(&members, "c")), Err(DecodeError::WrongType));
    assert_eq!(optional_number_of(lookup(&members, "a")), Err(DecodeError::WrongType));
    assert_eq!(optional_number_of(Some(&Json::Bool(true))), Err(DecodeError::WrongType));
}

#[test]
fn an_object_is_read_where_an_object_stands() {
    let inner = members();
    let json = Json::Object(members());
    assert_eq!(object_of(Some(&json)), Ok(&inner));
    assert_eq!(object_of(Some(&Json::List(vec![]))), Err(DecodeError::WrongType));
    assert_eq!(object_of(None), Err(DecodeError::MissingField));
}

#[test]
fn lists_are_read_item_by_item() {
    let texts = Json::List(vec![Json::Text("a".to_string()), Json::Text("".to_string())]);
    assert_eq!(texts_of(Some(&texts)), Ok(vec!["a".to_string(), "".to_string()]));
    assert_eq!(texts_of(Some(&Json::List(vec![]))), Ok(vec![]));
    let mixed = Json::List(vec![Json::Text("a".to_string()), Json::Number(Some(1))]);
    assert_eq!(texts_of(Some(&mixed)), Err(DecodeError::WrongType));
    assert_eq!(texts_of(Some(&Json::Text("a".to_string()))), Err(DecodeError::WrongType));
    assert_eq!(texts_of(None), Err(DecodeError::MissingField));

    let numbers = Json::List(vec![Json::Number(Some(5)), Json::Number(Some(7))]);
    assert_eq!(numbers_of(Some(&numbers)), Ok(vec![5, 7]));
    assert_eq!(numbers_of(Some(&mixed)), Err(DecodeError::WrongType));
    let inexact = Json::List(vec![Json::Number(Some(5)), Json::Number(None)]);
    assert_eq!(numbers_of(Some(&inexact)), Err(DecodeError::WrongType));
    assert_eq!(numbers_of(Some(&Json::Null)), Err(DecodeError::WrongType));
    assert_eq!(numbers_of(None), Err(DecodeError::MissingField));
}

#[test]
fn a_table_is_read_member_by_member() {
    let table = Json::Object(vec![
        ("n1".to_string(), Json::List(vec![Json::Text("n2".to_string())])),
        ("n2".to_string(), Json::List(vec![])),
    ]);
    assert_eq!(
        text_lists_of(Some(&table)),
        Ok(vec![("n1".to_string(), vec!["n2".to_string()]), ("n2".to_string(), vec![])])
    );
    let wrong = Json::Object(vec![("n1".to_string(), Json::Text("n2".to_string()))]);
    assert_eq!(text_lists_of(Some(&wrong)), Err(DecodeError::WrongType));
    let deeper = Json::Object(vec![("n1".to_string(), Json::List(vec![Json::Null]))]);
    assert_eq!(text_lists_of(Some(&deeper)), Err(DecodeError::WrongType));
    assert_eq!(text_lists_of(Some(&Json::List(vec![]))), Err(DecodeError::WrongType));
    assert_eq!(text_lists_of(None), Err(DecodeError::MissingField));
}

#[test]
fn values_are_written_as_they_are_read() {
    assert_eq!(text_json(&"a".to_string()), Json::Text("a".to_string()));
    assert_eq!(literal_json("a"), Json::Text("a".to_string()));
    assert_eq!(number_json(7), Json::Number(Some(7)));
    assert_eq!(optional_number_json(Some(7)), Json::Number(Some(7)));
    assert_eq!(optional_number_json(None), Json::Null);
    assert_eq!(member("k", Json::Null), ("k".to_string(), Json::Null));
    let texts = vec!["a".to_string(), "b".to_string()];
    assert_eq!(texts_of(Some(&texts_json(&texts))), Ok(texts));
    let numbers = vec![0, 1, usize::MAX];
    assert_eq!(numbers_of(Some(&numbers_json(&numbers))), Ok(numbers));
    let table = vec![("b".to_string(), vec!["b".to_string()]), ("a".to_string(), vec![])];
    assert_eq!(text_lists_of(Some(&text_lists_json(&table))), Ok(table));
}

#[test]
fn names_are_told_apart_letter_by_letter() {
    assert!(is_name(&"echo".to_string(), "echo"));
    assert!(!is_name(&"echo".to_string(), "echo_ok"));
    assert!(!is_name(&"Echo".to_string(), "echo"));
    assert!(is_name(&"".to_string(), ""));
}

#[test]
fn a_table_with_a_name_twice_is_not_read() {
    let twice = Json::Object(vec![
        ("n1".to_string(), Json::List(vec![Json::Text("n2".to_string())])),
        ("n2".to_string(), Json::List(vec![])),
        ("n1".to_string(), Json::List(vec![])),
    ]);
    assert_eq!(text_lists_of(Some(&twice)), Err(DecodeError::WrongType));
    let table = vec![("a".to_string(), vec!["b".to_string()]), ("a".to_string(), vec![])];
    assert_eq!(
        text_lists_of(Some(&text_lists_json(&table))),
        Err(DecodeError::WrongType)
    );
    let once = Json::Object(vec![
        ("n1".to_string(), Json::List(vec![])),
        ("N1".to_string(), Json::List(vec![])),
        ("".to_string(), Json::List(vec![])),
    ]);
    assert!(text_lists_of(Some(&once)).is_ok());
}

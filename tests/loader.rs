use dfa_sim::{check_word, dfa_from_json, load_dfa, Field, Json, LoadError};

const SAMPLE: &str = r#"{
  "states": ["q0", "q1"],
  "alphabet": ["a", "b"],
  "func": {"q0": {"a": "q1", "b": "q0"}, "q1": {"a": "q1", "b": "q0"}},
  "start": "q0",
  "end": ["q1"]
}"#;

fn names(v: &[String]) -> Vec<&str> {
    v.iter().map(|x| x.as_str()).collect()
}

#[test]
fn loads_sample_document() {
    let d = load_dfa(SAMPLE).unwrap();
    assert_eq!(names(&d.states), vec!["q0", "q1"]);
    assert_eq!(names(&d.alphabet), vec!["a", "b"]);
    assert_eq!(d.start, "q0");
    assert_eq!(names(&d.end), vec!["q1"]);
    assert_eq!(d.func.len(), 2);
    assert_eq!(d.func[0].0, "q0");
    assert_eq!(
        d.func[0].1,
        vec![("a".to_string(), "q1".to_string()), ("b".to_string(), "q0".to_string())]
    );
    assert!(check_word("a", &d));
    assert!(!check_word("b", &d));
    assert!(!check_word("", &d));
    assert!(check_word("aa", &d));
    assert!(!check_word("ax", &d));
}

#[test]
fn missing_start_is_refused() {
    let text = r#"{"states": ["q0"], "alphabet": ["a"], "func": {}, "end": []}"#;
    assert_eq!(load_dfa(text).unwrap_err(), LoadError::Missing(Field::Start));
}

#[test]
fn each_missing_field_is_named() {
    let text = r#"{"alphabet": ["a"], "func": {}, "start": "q", "end": []}"#;
    assert_eq!(load_dfa(text).unwrap_err(), LoadError::Missing(Field::States));
    let text = r#"{"states": [], "func": {}, "start": "q", "end": []}"#;
    assert_eq!(load_dfa(text).unwrap_err(), LoadError::Missing(Field::Alphabet));
    let text = r#"{"states": [], "alphabet": [], "start": "q", "end": []}"#;
    assert_eq!(load_dfa(text).unwrap_err(), LoadError::Missing(Field::Func));
    let text = r#"{"states": [], "alphabet": [], "func": {}, "start": "q"}"#;
    assert_eq!(load_dfa(text).unwrap_err(), LoadError::Missing(Field::End));
}

#[test]
fn first_bad_field_wins() {
    let text = r#"{"states": "q0", "alphabet": 3, "start": "q"}"#;
    assert_eq!(load_dfa(text).unwrap_err(), LoadError::Shape(Field::States));
}

#[test]
fn wrong_shapes_are_refused() {
    let text = r#"{"states": ["q0", 1], "alphabet": [], "func": {}, "start": "q0", "end": []}"#;
    assert_eq!(load_dfa(text).unwrap_err(), LoadError::Shape(Field::States));
    let text = r#"{"states": [], "alphabet": {}, "func": {}, "start": "q0", "end": []}"#;
    assert_eq!(load_dfa(text).unwrap_err(), LoadError::Shape(Field::Alphabet));
    let text = r#"{"states": [], "alphabet": [], "func": {"q0": {"a": 1}}, "start": "q0", "end": []}"#;
    assert_eq!(load_dfa(text).unwrap_err(), LoadError::Shape(Field::Func));
    let text = r#"{"states": [], "alphabet": [], "func": {"q0": []}, "start": "q0", "end": []}"#;
    assert_eq!(load_dfa(text).unwrap_err(), LoadError::Shape(Field::Func));
    let text = r#"{"states": [], "alphabet": [], "func": {}, "start": null, "end": []}"#;
    assert_eq!(load_dfa(text).unwrap_err(), LoadError::Shape(Field::Start));
    let text = r#"{"states": [], "alphabet": [], "func": {}, "start": "q0", "end": "q0"}"#;
    assert_eq!(load_dfa(text).unwrap_err(), LoadError::Shape(Field::End));
}

#[test]
fn document_that_is_not_an_object_misses_every_field() {
    assert_eq!(load_dfa("[1, 2]").unwrap_err(), LoadError::Missing(Field::States));
    assert_eq!(load_dfa("\"x\"").unwrap_err(), LoadError::Missing(Field::States));
}

#[test]
fn invalid_json_reports_position() {
    match load_dfa("{\"states\": [\n  \"q0\",,\n]}") {
        Err(LoadError::Syntax { line, column }) => {
            assert_eq!(line, 2);
            assert!(column > 0);
        }
        other => panic!("expected a syntax error, got {:?}", other.map(|d| d.start)),
    }
    assert!(matches!(load_dfa(""), Err(LoadError::Syntax { .. })));
}

#[test]
fn names_are_not_checked_against_states() {
    let text = r#"{"states": [], "alphabet": [], "func": {"p": {"zz": "r"}}, "start": "s", "end": ["t"]}"#;
    let d = load_dfa(text).unwrap();
    assert_eq!(d.start, "s");
    assert!(!check_word("", &d));
}

#[test]
fn duplicate_keys_keep_the_last_value() {
    let text = r#"{"states": ["q0"], "alphabet": ["a"], "func": {"q0": {"a": "q0", "a": "q1"}},
                   "start": "q0", "start": "q1", "end": ["q1"]}"#;
    let d = load_dfa(text).unwrap();
    assert_eq!(d.start, "q1");
    assert_eq!(d.func[0].1, vec![("a".to_string(), "q1".to_string())]);
}

#[test]
fn extra_fields_are_ignored() {
    let text = r#"{"name": 7, "states": ["q"], "alphabet": ["a"], "func": {"q": {"a": "q"}},
                   "start": "q", "end": ["q"], "more": [true, null, 1.5]}"#;
    let d = load_dfa(text).unwrap();
    assert!(check_word("aaa", &d));
}

#[test]
fn builds_from_a_json_tree() {
    let doc = Json::Object(vec![
        ("states".to_string(), Json::Array(vec![Json::Str("q".to_string())])),
        ("alphabet".to_string(), Json::Array(vec![Json::Str("a".to_string())])),
        (
            "func".to_string(),
            Json::Object(vec![(
                "q".to_string(),
                Json::Object(vec![("a".to_string(), Json::Str("q".to_string()))]),
            )]),
        ),
        ("start".to_string(), Json::Str("q".to_string())),
        ("end".to_string(), Json::Array(vec![])),
    ]);
    let d = dfa_from_json(&doc).unwrap();
    assert_eq!(d.start, "q");
    assert!(!check_word("a", &d));
    let bad = Json::Object(vec![("states".to_string(), Json::Bool(true))]);
    assert_eq!(dfa_from_json(&bad).unwrap_err(), LoadError::Shape(Field::States));
    assert_eq!(dfa_from_json(&Json::Null).unwrap_err(), LoadError::Missing(Field::States));
}

#[test]
fn field_names() {
    assert_eq!(Field::States.name(), "states");
    assert_eq!(Field::Alphabet.name(), "alphabet");
    assert_eq!(Field::Func.name(), "func");
    assert_eq!(Field::Start.name(), "start");
    assert_eq!(Field::End.name(), "end");
}

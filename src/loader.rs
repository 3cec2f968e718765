use vstd::prelude::*;
use vstd::string::*;
use crate::automaton::{lemma_lookup_take, lookup, DFA, DfaView, Entries};
use crate::json::{json_document, parse_json, Json};

verus! {

/// The five fields of an automaton document.
#[derive(Clone, Copy, Debug, PartialEq, Eq, Structural)]
pub enum Field {
    States,
    Alphabet,
    Func,
    Start,
    End,
}

/// Why a document could not be loaded.
#[derive(Clone, Copy, Debug, PartialEq, Eq, Structural)]
pub enum LoadError {
    /// The text is not JSON; the parser stopped at this line and column.
    Syntax { line: usize, column: usize },
    /// The document has no such field.
    Missing(Field),
    /// The field is there but does not have its shape.
    Shape(Field),
}

impl Field {
    /// The key of the field in the document.
    pub open spec fn key(self) -> Seq<char> {
        match self {
            Field::States => seq!['s', 't', 'a', 't', 'e', 's'],
            Field::Alphabet => seq!['a', 'l', 'p', 'h', 'a', 'b', 'e', 't'],
            Field::Func => seq!['f', 'u', 'n', 'c'],
            Field::Start => seq!['s', 't', 'a', 'r', 't'],
            Field::End => seq!['e', 'n', 'd'],
        }
    }

    /// The key of the field in the document.
    pub fn name(&self) -> (r: String)
        ensures
            r@ == self.key(),
    {
        match self {
            Field::States => {
                let r = String::from_str("states");
                proof {
                    reveal_strlit("states");
                }
                assert(r@ =~= self.key());
                r
            },
            Field::Alphabet => {
                let r = String::from_str("alphabet");
                proof {
                    reveal_strlit("alphabet");
                }
                assert(r@ =~= self.key());
                r
            },
            Field::Func => {
                let r = String::from_str("func");
                proof {
                    reveal_strlit("func");
                }
                assert(r@ =~= self.key());
                r
            },
            Field::Start => {
                let r = String::from_str("start");
                proof {
                    reveal_strlit("start");
                }
                assert(r@ =~= self.key());
                r
            },
            Field::End => {
                let r = String::from_str("end");
                proof {
                    reveal_strlit("end");
                }
                assert(r@ =~= self.key());
                r
            },
        }
    }
}

/// Object members keyed by the views of their names.
pub open spec fn members(entries: Seq<(String, Json)>) -> Entries<Json> {
    entries.map_values(|e: (String, Json)| (e.0@, e.1))
}

/// The value of field `f` of `doc`; a document that is not an object has none.
pub open spec fn field_value(doc: Json, f: Field) -> Option<Json> {
    match doc {
        Json::Object(entries) => lookup(members(entries@), f.key()),
        _ => None,
    }
}

/// The strings of `j`, if it is an array of strings.
pub open spec fn string_list(j: Json) -> Option<Seq<Seq<char>>> {
    match j {
        Json::Array(items) => if forall|i: int| 0 <= i < items.len() ==> #[trigger] items@[i] is Str {
            Some(items@.map_values(|x: Json| x->Str_0@))
        } else {
            None
        },
        _ => None,
    }
}

/// The transitions of one state, if `j` is an object of strings.
pub open spec fn transition_row(j: Json) -> Option<Entries<Seq<char>>> {
    match j {
        Json::Object(entries) => if forall|i: int|
            0 <= i < entries.len() ==> #[trigger] entries@[i].1 is Str {
            Some(entries@.map_values(|e: (String, Json)| (e.0@, e.1->Str_0@)))
        } else {
            None
        },
        _ => None,
    }
}

/// The transition function, if `j` is an object of objects of strings.
pub open spec fn transition_table(j: Json) -> Option<Entries<Entries<Seq<char>>>> {
    match j {
        Json::Object(entries) => if forall|i: int|
            0 <= i < entries.len() ==> #[trigger] transition_row(entries@[i].1) is Some {
            Some(
                entries@.map_values(
                    |e: (String, Json)| (e.0@, transition_row(e.1)->Some_0),
                ),
            )
        } else {
            None
        },
        _ => None,
    }
}

/// The text of `j`, if it is a string.
pub open spec fn string_value(j: Json) -> Option<Seq<char>> {
    match j {
        Json::Str(s) => Some(s@),
        _ => None,
    }
}

/// Reads field `f` of `doc` with `shape`: missing, of the wrong shape, or
/// its content.
pub open spec fn read_field<T>(doc: Json, f: Field, shape: spec_fn(Json) -> Option<T>) -> Result<
    T,
    LoadError,
> {
    match field_value(doc, f) {
        None => Err(LoadError::Missing(f)),
        Some(j) => match shape(j) {
            None => Err(LoadError::Shape(f)),
            Some(v) => Ok(v),
        },
    }
}

/// The automaton that `doc` describes, or the first field, in the order
/// states, alphabet, func, start, end, that is missing or malformed.
pub open spec fn document_automaton(doc: Json) -> Result<DfaView, LoadError> {
    match read_field(doc, Field::States, |j| string_list(j)) {
        Err(e) => Err(e),
        Ok(states) => match read_field(doc, Field::Alphabet, |j| string_list(j)) {
            Err(e) => Err(e),
            Ok(alphabet) => match read_field(doc, Field::Func, |j| transition_table(j)) {
                Err(e) => Err(e),
                Ok(func) => match read_field(doc, Field::Start, |j| string_value(j)) {
                    Err(e) => Err(e),
                    Ok(start) => match read_field(doc, Field::End, |j| string_list(j)) {
                        Err(e) => Err(e),
                        Ok(end) => Ok(DfaView { states, alphabet, func, start, end }),
                    },
                },
            },
        },
    }
}

/// The index of the member that `key` looks up to.
fn find_member(entries: &Vec<(String, Json)>, key: &String) -> (r: Option<usize>)
    ensures
        match r {
            Some(i) => i < entries.len() && lookup(members(entries@), key@) == Some(
                entries@[i as int].1,
            ),
            None => lookup(members(entries@), key@) is None,
        },
{
    let ghost m = members(entries@);
    let mut i: usize = entries.len();
    while i > 0
        invariant
            i <= entries.len(),
            m == members(entries@),
            forall|j: int| i <= j < m.len() ==> #[trigger] m[j].0 != key@,
        decreases i,
    {
        i = i - 1;
        if entries[i].0 == *key {
            proof {
                lemma_lookup_take(m, key@, i + 1);
                assert(m.take(i + 1).drop_last() =~= m.take(i as int));
            }
            return Some(i);
        }
    }
    proof {
        lemma_lookup_take(m, key@, 0);
    }
    None
}

/// The value of field `f` of `doc`.
fn get_field(doc: &Json, f: Field) -> (r: Option<&Json>)
    ensures
        match r {
            Some(j) => field_value(*doc, f) == Some(*j),
            None => field_value(*doc, f) is None,
        },
{
    match doc {
        Json::Object(entries) => {
            let key = f.name();
            match find_member(entries, &key) {
                Some(i) => Some(&entries[i].1),
                None => None,
            }
        },
        _ => None,
    }
}

/// The strings of `j`, if it is an array of strings.
fn read_strings(j: &Json) -> (r: Option<Vec<String>>)
    ensures
        match string_list(*j) {
            Some(ss) => r is Some && r->Some_0.deep_view() == ss,
            None => r is None,
        },
{
    match j {
        Json::Array(items) => {
            let mut out: Vec<String> = Vec::new();
            let mut i: usize = 0;
            while i < items.len()
                invariant
                    *j == Json::Array(*items),
                    i <= items.len(),
                    forall|k: int| 0 <= k < i ==> #[trigger] items@[k] is Str,
                    out.deep_view() =~= items@.take(i as int).map_values(|x: Json| x->Str_0@),
                decreases items.len() - i,
            {
                let ghost before = out.deep_view();
                match &items[i] {
                    Json::Str(s) => {
                        out.push(s.clone());
                        assert(out.deep_view() =~= before.push(s@));
                        assert(items@.take(i + 1).map_values(|x: Json| x->Str_0@) =~= items@.take(
                            i as int,
                        ).map_values(|x: Json| x->Str_0@).push(s@));
                    },
                    _ => {
                        assert(!(items@[i as int] is Str));
                        return None;
                    },
                }
                i = i + 1;
            }
            assert(items@.take(i as int) =~= items@);
            Some(out)
        },
        _ => None,
    }
}

/// The text of `j`, if it is a string.
fn read_string(j: &Json) -> (r: Option<String>)
    ensures
        match string_value(*j) {
            Some(s) => r is Some && r->Some_0@ == s,
            None => r is None,
        },
{
    match j {
        Json::Str(s) => Some(s.clone()),
        _ => None,
    }
}

/// The transitions of one state, if `j` is an object of strings.
fn read_row(j: &Json) -> (r: Option<Vec<(String, String)>>)
    ensures
        match transition_row(*j) {
            Some(row) => r is Some && r->Some_0.deep_view() == row,
            None => r is None,
        },
{
    match j {
        Json::Object(entries) => {
            let mut out: Vec<(String, String)> = Vec::new();
            let mut i: usize = 0;
            while i < entries.len()
                invariant
                    *j == Json::Object(*entries),
                    i <= entries.len(),
                    forall|k: int| 0 <= k < i ==> #[trigger] entries@[k].1 is Str,
                    out.deep_view() =~= entries@.take(i as int).map_values(
                        |e: (String, Json)| (e.0@, e.1->Str_0@),
                    ),
                decreases entries.len() - i,
            {
                let ghost before = out.deep_view();
                match &entries[i].1 {
                    Json::Str(s) => {
                        out.push((entries[i].0.clone(), s.clone()));
                        assert(out.deep_view() =~= before.push((entries@[i as int].0@, s@)));
                        assert(entries@.take(i + 1).map_values(
                            |e: (String, Json)| (e.0@, e.1->Str_0@),
                        ) =~= entries@.take(i as int).map_values(
                            |e: (String, Json)| (e.0@, e.1->Str_0@),
                        ).push((entries@[i as int].0@, s@)));
                    },
                    _ => {
                        assert(!(entries@[i as int].1 is Str));
                        return None;
                    },
                }
                i = i + 1;
            }
            assert(entries@.take(i as int) =~= entries@);
            Some(out)
        },
        _ => None,
    }
}

/// The transition function, if `j` is an object of objects of strings.
fn read_transitions(j: &Json) -> (r: Option<Vec<(String, Vec<(String, String)>)>>)
    ensures
        match transition_table(*j) {
            Some(t) => r is Some && r->Some_0.deep_view() == t,
            None => r is None,
        },
{
    match j {
        Json::Object(entries) => {
            let mut out: Vec<(String, Vec<(String, String)>)> = Vec::new();
            let mut i: usize = 0;
            while i < entries.len()
                invariant
                    *j == Json::Object(*entries),
                    i <= entries.len(),
                    forall|k: int| 0 <= k < i ==> #[trigger] transition_row(entries@[k].1) is Some,
                    out.deep_view() =~= entries@.take(i as int).map_values(
                        |e: (String, Json)| (e.0@, transition_row(e.1)->Some_0),
                    ),
                decreases entries.len() - i,
            {
                let ghost before = out.deep_view();
                match read_row(&entries[i].1) {
                    Some(row) => {
                        let ghost rv = row.deep_view();
                        out.push((entries[i].0.clone(), row));
                        assert(out.deep_view() =~= before.push((entries@[i as int].0@, rv)));
                        assert(entries@.take(i + 1).map_values(
                            |e: (String, Json)| (e.0@, transition_row(e.1)->Some_0),
                        ) =~= entries@.take(i as int).map_values(
                            |e: (String, Json)| (e.0@, transition_row(e.1)->Some_0),
                        ).push((entries@[i as int].0@, rv)));
                    },
                    None => {
                        assert(transition_row(entries@[i as int].1) is None);
                        return None;
                    },
                }
                i = i + 1;
            }
            assert(entries@.take(i as int) =~= entries@);
            Some(out)
        },
        _ => None,
    }
}

/// Builds the automaton that `doc` describes. Fails on the first field, in
/// the order states, alphabet, func, start, end, that is missing or does not
/// have its shape. Names are not checked against one another.
pub fn dfa_from_json(doc: &Json) -> (r: Result<DFA, LoadError>)
    ensures
        match document_automaton(*doc) {
            Ok(m) => r is Ok && r->Ok_0@ == m,
            Err(e) => r == Err::<DFA, LoadError>(e),
        },
{
    let states = match get_field(doc, Field::States) {
        None => return Err(LoadError::Missing(Field::States)),
        Some(j) => match read_strings(j) {
            None => return Err(LoadError::Shape(Field::States)),
            Some(v) => v,
        },
    };
    let alphabet = match get_field(doc, Field::Alphabet) {
        None => return Err(LoadError::Missing(Field::Alphabet)),
        Some(j) => match read_strings(j) {
            None => return Err(LoadError::Shape(Field::Alphabet)),
            Some(v) => v,
        },
    };
    let func = match get_field(doc, Field::Func) {
        None => return Err(LoadError::Missing(Field::Func)),
        Some(j) => match read_transitions(j) {
            None => return Err(LoadError::Shape(Field::Func)),
            Some(v) => v,
        },
    };
    let start = match get_field(doc, Field::Start) {
        None => return Err(LoadError::Missing(Field::Start)),
        Some(j) => match read_string(j) {
            None => return Err(LoadError::Shape(Field::Start)),
            Some(v) => v,
        },
    };
    let end = match get_field(doc, Field::End) {
        None => return Err(LoadError::Missing(Field::End)),
        Some(j) => match read_strings(j) {
            None => return Err(LoadError::Shape(Field::End)),
            Some(v) => v,
        },
    };
    Ok(DFA::new(states, alphabet, func, start, end))
}


/// Loads the automaton that the JSON text `text` describes. Text that does not
/// parse gives `LoadError::Syntax` with the parser's position; a parsed
/// document gives what `dfa_from_json` gives on it.
pub fn load_dfa(text: &str) -> (r: Result<DFA, LoadError>)
    ensures
        match json_document(text@) {
            None => r matches Err(LoadError::Syntax { .. }),
            Some(doc) => match document_automaton(doc) {
                Ok(m) => r is Ok && r->Ok_0@ == m,
                Err(e) => r == Err::<DFA, LoadError>(e),
            },
        },
{
    match parse_json(text) {
        Ok(doc) => dfa_from_json(&doc),
        Err(e) => Err(LoadError::Syntax { line: e.line(), column: e.column() }),
    }
}

} // verus!

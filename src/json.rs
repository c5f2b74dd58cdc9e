//! Reading the store's JSON result documents.
//!
//! A document is read one level at a time: parsing a text yields its top node, whose
//! elements and member values are handed back as JSON texts of their own.

use crate::text::chars_of;
use serde_json::Value;
use vstd::prelude::*;

verus! {

/// The top level of a JSON value; nested values are kept as JSON text.
#[derive(Debug)]
pub enum JsonNode {
    Null,
    Bool(bool),
    /// A number, as the parser writes it.
    Number(String),
    Text(String),
    /// The elements, each as JSON text.
    Array(Vec<String>),
    /// The members in the parser's order, each a key and a value as JSON text.
    Object(Vec<(String, String)>),
}

/// What the JSON parser makes of `text`; `None` where it is not JSON.
pub uninterp spec fn json_node_of(text: Seq<char>) -> Option<JsonNode>;

/// Relies on serde_json::from_str into serde_json::Value: it parses `text` as JSON, and the
/// outcome depends on the text alone. Nested values are written back with their `Display`.
#[verifier::external_body]
fn parse_json_node(text: &str) -> (r: Option<JsonNode>)
    ensures
        r == json_node_of(text@),
{
    let v = match serde_json::from_str::<Value>(text) {
        Ok(v) => v,
        Err(_) => return None,
    };
    Some(match v {
        Value::Null => JsonNode::Null,
        Value::Bool(b) => JsonNode::Bool(b),
        Value::Number(n) => JsonNode::Number(n.to_string()),
        Value::String(s) => JsonNode::Text(s),
        Value::Array(a) => JsonNode::Array(a.iter().map(|e| e.to_string()).collect()),
        Value::Object(m) => JsonNode::Object(m.iter().map(|(k, e)| (k.clone(), e.to_string())).collect()),
    })
}

pub open spec fn opt_view(o: Option<String>) -> Option<Seq<char>> {
    match o {
        Some(s) => Some(s@),
        None => None,
    }
}

/// The value text of the first member named `key`.
pub open spec fn member_in(members: Seq<(String, String)>, key: Seq<char>) -> Option<Seq<char>>
    decreases members.len(),
{
    if members.len() == 0 {
        None
    } else if members[0].0@ == key {
        Some(members[0].1@)
    } else {
        member_in(members.drop_first(), key)
    }
}

/// The text of member `key` of the object that `text` holds.
pub open spec fn member_of(text: Seq<char>, key: Seq<char>) -> Option<Seq<char>> {
    match json_node_of(text) {
        Some(JsonNode::Object(m)) => member_in(m@, key),
        _ => None,
    }
}

/// The text of element `i` of the array that `text` holds.
pub open spec fn element_of(text: Seq<char>, i: int) -> Option<Seq<char>> {
    match json_node_of(text) {
        Some(JsonNode::Array(a)) => if 0 <= i < a@.len() {
            Some(a@[i]@)
        } else {
            None
        },
        _ => None,
    }
}

/// The number of elements of the array that `text` holds; 0 for anything else.
pub open spec fn element_count(text: Seq<char>) -> nat {
    match json_node_of(text) {
        Some(JsonNode::Array(a)) => a@.len(),
        _ => 0,
    }
}

/// The string that `text` holds.
pub open spec fn string_of(text: Seq<char>) -> Option<Seq<char>> {
    match json_node_of(text) {
        Some(JsonNode::Text(s)) => Some(s@),
        _ => None,
    }
}

pub open spec fn member_at(text: Option<Seq<char>>, key: Seq<char>) -> Option<Seq<char>> {
    match text {
        Some(t) => member_of(t, key),
        None => None,
    }
}

/// The text of the `bindings` array of a result document.
pub open spec fn bindings_of(doc: Seq<char>) -> Option<Seq<char>> {
    member_at(member_of(doc, "results"@), "bindings"@)
}

/// The number of rows of a result document.
pub open spec fn row_count(doc: Seq<char>) -> nat {
    match bindings_of(doc) {
        Some(b) => element_count(b),
        None => 0,
    }
}

/// The value bound to `var` in row `i` of a result document: `results.bindings[i].var.value`.
pub open spec fn binding_value(doc: Seq<char>, i: int, var: Seq<char>) -> Option<Seq<char>> {
    match bindings_of(doc) {
        Some(b) => match member_at(member_at(element_of(b, i), var), "value"@) {
            Some(v) => string_of(v),
            None => None,
        },
        None => None,
    }
}

/// The answer of a yes/no result document: its `boolean` member, and no where it has none.
pub open spec fn ask_answer(doc: Seq<char>) -> bool {
    match member_of(doc, "boolean"@) {
        Some(t) => json_node_of(t) == Some(JsonNode::Bool(true)),
        None => false,
    }
}

fn member_in_exec(members: &Vec<(String, String)>, key: &str) -> (r: Option<String>)
    ensures
        opt_view(r) == member_in(members@, key@),
{
    let mut i: usize = 0;
    assert(members@.subrange(0, members@.len() as int) =~= members@);
    while i < members.len()
        invariant
            i <= members@.len(),
            member_in(members@, key@) == member_in(members@.subrange(i as int, members@.len() as int), key@),
        decreases members@.len() - i,
    {
        let ghost rest = members@.subrange(i as int, members@.len() as int);
        assert(rest.drop_first() =~= members@.subrange(i + 1, members@.len() as int));
        let k = members[i].0.as_str();
        if crate::text::chars_eq(k, key) {
            return Some(members[i].1.clone());
        }
        i = i + 1;
    }
    None
}

/// The text of member `key` of the object that `text` holds.
pub fn json_member(text: &str, key: &str) -> (r: Option<String>)
    ensures
        opt_view(r) == member_of(text@, key@),
{
    match parse_json_node(text) {
        Some(JsonNode::Object(m)) => member_in_exec(&m, key),
        _ => None,
    }
}

fn json_member_at(text: &Option<String>, key: &str) -> (r: Option<String>)
    ensures
        opt_view(r) == member_at(opt_view(*text), key@),
{
    match text {
        Some(t) => json_member(t.as_str(), key),
        None => None,
    }
}

/// The elements of the array that `text` holds, each as JSON text; empty for anything else.
pub fn json_elements(text: &str) -> (r: Vec<String>)
    ensures
        r@.len() == element_count(text@),
        forall|i: int| 0 <= i < r@.len() ==> element_of(text@, i) == Some(#[trigger] r@[i]@),
{
    match parse_json_node(text) {
        Some(JsonNode::Array(a)) => a,
        _ => Vec::new(),
    }
}

/// The string that `text` holds.
pub fn json_string(text: &str) -> (r: Option<String>)
    ensures
        opt_view(r) == string_of(text@),
{
    match parse_json_node(text) {
        Some(JsonNode::Text(s)) => Some(s),
        _ => None,
    }
}

/// The answer of a yes/no result document; no where the document holds none.
pub fn read_ask_answer(doc: &str) -> (r: bool)
    ensures
        r == ask_answer(doc@),
{
    match json_member(doc, "boolean") {
        Some(t) => match parse_json_node(t.as_str()) {
            Some(JsonNode::Bool(b)) => b,
            _ => false,
        },
        None => false,
    }
}

/// The rows of a result document: for row `i` and each of `vars`, the value bound to it.
pub fn read_rows(doc: &str, vars: &[&str]) -> (r: Vec<Vec<Option<String>>>)
    ensures
        r@.len() == row_count(doc@),
        forall|i: int|
            0 <= i < r@.len() ==> (#[trigger] r@[i])@.len() == vars@.len() && forall|j: int|
                0 <= j < vars@.len() ==> opt_view(#[trigger] r@[i]@[j]) == binding_value(
                    doc@,
                    i,
                    vars@[j]@,
                ),
{
    let results = json_member(doc, "results");
    let bindings = json_member_at(&results, "bindings");
    let mut rows: Vec<Vec<Option<String>>> = Vec::new();
    match bindings {
        None => {
            return rows;
        },
        Some(b) => {
            let elements = json_elements(b.as_str());
            let mut i: usize = 0;
            while i < elements.len()
                invariant
                    i <= elements@.len(),
                    elements@.len() == element_count(b@),
                    bindings_of(doc@) == Some(b@),
                    forall|k: int|
                        0 <= k < elements@.len() ==> element_of(b@, k) == Some(
                            #[trigger] elements@[k]@,
                        ),
                    rows@.len() == i,
                    forall|k: int|
                        0 <= k < i ==> (#[trigger] rows@[k])@.len() == vars@.len() && forall|
                            j: int,
                        |
                            0 <= j < vars@.len() ==> opt_view(#[trigger] rows@[k]@[j])
                                == binding_value(doc@, k, vars@[j]@),
                decreases elements@.len() - i,
            {
                let mut row: Vec<Option<String>> = Vec::new();
                let mut j: usize = 0;
                while j < vars.len()
                    invariant
                        j <= vars@.len(),
                        i < elements@.len(),
                        bindings_of(doc@) == Some(b@),
                        element_of(b@, i as int) == Some(elements@[i as int]@),
                        row@.len() == j,
                        forall|m: int|
                            0 <= m < j ==> opt_view(#[trigger] row@[m]) == binding_value(
                                doc@,
                                i as int,
                                vars@[m]@,
                            ),
                    decreases vars@.len() - j,
                {
                    let cell = json_member(elements[i].as_str(), vars[j]);
                    let value = json_member_at(&cell, "value");
                    let s = match value {
                        Some(v) => json_string(v.as_str()),
                        None => None,
                    };
                    row.push(s);
                    j = j + 1;
                }
                rows.push(row);
                i = i + 1;
            }
            rows
        },
    }
}

} // verus!

verus! {

/// Whether `text` is JSON.
pub fn json_is_valid(text: &str) -> (r: bool)
    ensures
        r == (json_node_of(text@) is Some),
{
    match parse_json_node(text) {
        Some(_) => true,
        None => false,
    }
}

/// What a single-value lookup comes to: `None` where the store failed or answered with
/// something that is not JSON; else the value bound to `var` in the first row, if any.
pub open spec fn lookup_result(response: Option<Seq<char>>, var: Seq<char>) -> Option<Option<Seq<char>>> {
    match response {
        Some(doc) => if json_node_of(doc) is Some {
            Some(binding_value(doc, 0, var))
        } else {
            None
        },
        None => None,
    }
}

pub open spec fn opt_opt_view(o: Option<Option<String>>) -> Option<Option<Seq<char>>> {
    match o {
        Some(x) => Some(opt_view(x)),
        None => None,
    }
}

/// The value bound to `var` in the first row of the store's answer; `None` where the store
/// failed (`response` is `None`) or its answer is not JSON.
pub fn first_binding(response: &Option<String>, var: &str) -> (r: Option<Option<String>>)
    ensures
        opt_opt_view(r) == lookup_result(opt_view(*response), var@),
{
    match response {
        Some(doc) => {
            if !json_is_valid(doc.as_str()) {
                return None;
            }
            let vars: [&str; 1] = [var];
            let rows = read_rows(doc.as_str(), vars.as_slice());
            if rows.len() == 0 {
                proof {
                    if bindings_of(doc@) is Some {
                        assert(element_of(bindings_of(doc@)->0, 0) is None);
                    }
                }
                return Some(None);
            }
            let row = &rows[0];
            assert(opt_view(row@[0]) == binding_value(doc@, 0, vars@[0]@));
            match &row[0] {
                Some(v) => Some(Some(v.clone())),
                None => Some(None),
            }
        },
        None => None,
    }
}

} // verus!

verus! {

/// The answer of a yes/no query; `None` where the store failed (`response` is `None`) or
/// its answer is not JSON. A JSON answer without a `boolean` member reads as no.
pub fn ask_from_response(response: &Option<String>) -> (r: Option<bool>)
    ensures
        r is Some <==> (response is Some && json_node_of(response->0@) is Some),
        r is Some ==> r->0 == ask_answer(response->0@),
{
    match response {
        Some(doc) => if json_is_valid(doc.as_str()) {
            Some(read_ask_answer(doc.as_str()))
        } else {
            None
        },
        None => None,
    }
}

} // verus!

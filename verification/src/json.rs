//! The normalized JSON object graph embedded in a catalog page.
//!
//! A value is modelled by [`JsonValue`]; its mathematical shape is
//! [`JsonNode`]. Object fields are kept in source order and looked up by the
//! first occurrence of a key, so a lookup is a pure function of the parsed
//! page text.

use vstd::prelude::*;

use crate::text::{normalize_text, normalized_text};

verus! {

broadcast use vstd::std_specs::vec::axiom_vec_index_decreases, vstd::seq::axiom_seq_index_decreases;

/// A JSON-like value: the executable representation of one node (or subtree)
/// of the embedded object graph.
#[derive(Debug)]
pub enum JsonValue {
    Null,
    Bool(bool),
    Int(i64),
    Str(String),
    Arr(Vec<JsonValue>),
    Obj(Vec<(String, JsonValue)>),
}

/// The mathematical shape of a [`JsonValue`].
pub enum JsonNode {
    Null,
    Bool(bool),
    Int(int),
    Str(Seq<char>),
    Arr(Seq<JsonNode>),
    Obj(Seq<(Seq<char>, JsonNode)>),
}

/// The models of `items[from..]`, element by element.
pub open spec fn arr_nodes(items: Vec<JsonValue>, from: int) -> Seq<JsonNode>
    decreases items, items.len() - from,
{
    if from < 0 || from >= items.len() {
        Seq::empty()
    } else {
        seq![items[from]@] + arr_nodes(items, from + 1)
    }
}

/// The models of the object entries `entries[from..]`, keys paired with
/// the models of their values.
pub open spec fn obj_nodes(entries: Vec<(String, JsonValue)>, from: int) -> Seq<
    (Seq<char>, JsonNode),
>
    decreases entries, entries.len() - from,
{
    if from < 0 || from >= entries.len() {
        Seq::empty()
    } else {
        seq![(entries[from].0@, entries[from].1@)] + obj_nodes(entries, from + 1)
    }
}

impl View for JsonValue {
    type V = JsonNode;

    open spec fn view(&self) -> JsonNode
        decreases self,
    {
        match self {
            JsonValue::Null => JsonNode::Null,
            JsonValue::Bool(b) => JsonNode::Bool(*b),
            JsonValue::Int(i) => JsonNode::Int(*i as int),
            JsonValue::Str(s) => JsonNode::Str(s@),
            JsonValue::Arr(items) => JsonNode::Arr(arr_nodes(*items, 0)),
            JsonValue::Obj(entries) => JsonNode::Obj(obj_nodes(*entries, 0)),
        }
    }
}

/// `arr_nodes(items, from)` lists the model of each element in order.
pub proof fn lemma_arr_nodes(items: Vec<JsonValue>, from: int)
    requires
        0 <= from <= items.len(),
    ensures
        arr_nodes(items, from).len() == items.len() - from,
        forall|j: int|
            0 <= j < items.len() - from ==> arr_nodes(items, from)[j] == items[from + j]@,
    decreases items.len() - from,
{
    if from < items.len() {
        lemma_arr_nodes(items, from + 1);
        let tail = arr_nodes(items, from + 1);
        assert(arr_nodes(items, from) == seq![items[from]@] + tail);
        assert(arr_nodes(items, from).len() == 1 + tail.len());
        assert forall|j: int| 0 <= j < items.len() - from implies arr_nodes(items, from)[j]
            == items[from + j]@ by {
            if j == 0 {
                assert(arr_nodes(items, from)[0] == items[from]@);
            } else {
                assert(arr_nodes(items, from)[j] == tail[j - 1]);
            }
        }
    }
}

/// `obj_nodes(entries, from)` lists key and value model of each entry in order.
pub proof fn lemma_obj_nodes(entries: Vec<(String, JsonValue)>, from: int)
    requires
        0 <= from <= entries.len(),
    ensures
        obj_nodes(entries, from).len() == entries.len() - from,
        forall|j: int|
            0 <= j < entries.len() - from ==> obj_nodes(entries, from)[j] == (
            entries[from + j].0@,
            entries[from + j].1@,
            ),
    decreases entries.len() - from,
{
    if from < entries.len() {
        lemma_obj_nodes(entries, from + 1);
        let tail = obj_nodes(entries, from + 1);
        assert(obj_nodes(entries, from) == seq![(entries[from].0@, entries[from].1@)] + tail);
        assert(obj_nodes(entries, from).len() == 1 + tail.len());
        assert forall|j: int| 0 <= j < entries.len() - from implies obj_nodes(entries, from)[j]
            == (entries[from + j].0@, entries[from + j].1@) by {
            if j == 0 {
                assert(obj_nodes(entries, from)[0] == (entries[from].0@, entries[from].1@));
            } else {
                assert(obj_nodes(entries, from)[j] == tail[j - 1]);
            }
        }
    }
}

/// First entry of `entries` whose key is `key`, if any.
pub open spec fn lookup_entries(entries: Seq<(Seq<char>, JsonNode)>, key: Seq<char>) -> Option<
    JsonNode,
>
    decreases entries.len(),
{
    if entries.len() == 0 {
        None
    } else if entries[0].0 == key {
        Some(entries[0].1)
    } else {
        lookup_entries(entries.drop_first(), key)
    }
}

/// Field lookup on a node: defined only for objects, absent everywhere else.
pub open spec fn node_get(node: JsonNode, key: Seq<char>) -> Option<JsonNode> {
    match node {
        JsonNode::Obj(entries) => lookup_entries(entries, key),
        _ => None,
    }
}

proof fn lemma_lookup_entries_skip(
    entries: Seq<(Seq<char>, JsonNode)>,
    key: Seq<char>,
    i: int,
)
    requires
        0 <= i < entries.len(),
        entries[i].0 != key,
        lookup_entries(entries, key) == lookup_entries(entries.skip(i), key),
    ensures
        lookup_entries(entries, key) == lookup_entries(entries.skip(i + 1), key),
{
    assert(entries.skip(i).drop_first() =~= entries.skip(i + 1));
    assert(entries.skip(i)[0] == entries[i]);
}

/// Character-by-character string equality, stated over the views.
pub fn str_eq(a: &str, b: &str) -> (r: bool)
    ensures
        r == (a@ == b@),
{
    let a_len = a.unicode_len();
    let b_len = b.unicode_len();
    if a_len != b_len {
        assert(a@.len() != b@.len());
        return false;
    }
    let mut i: usize = 0;
    while i < a_len
        invariant
            a_len == a@.len(),
            b_len == b@.len(),
            a_len == b_len,
            i <= a_len,
            forall|j: int| 0 <= j < i ==> a@[j] == b@[j],
        decreases a_len - i,
    {
        if a.get_char(i) != b.get_char(i) {
            return false;
        }
        i += 1;
    }
    assert(a@ =~= b@);
    true
}

impl JsonValue {
    /// The value of the field `key`, if this value is an object carrying it.
    pub fn get<'a>(&'a self, key: &str) -> (r: Option<&'a JsonValue>)
        ensures
            match r {
                Some(n) => node_get(self@, key@) == Some(n@),
                None => node_get(self@, key@) is None,
            },
    {
        match self {
            JsonValue::Obj(entries) => {
                let ghost gentries = obj_nodes(*entries, 0);
                proof {
                    lemma_obj_nodes(*entries, 0);
                    assert(gentries.skip(0) =~= gentries);
                }
                let mut i: usize = 0;
                while i < entries.len()
                    invariant
                        gentries == obj_nodes(*entries, 0),
                        self@ == JsonNode::Obj(gentries),
                        gentries.len() == entries@.len(),
                        forall|j: int|
                            0 <= j < entries@.len() ==> gentries[j] == (
                            entries@[j].0@,
                            entries@[j].1@,
                            ),
                        i <= entries@.len(),
                        lookup_entries(gentries, key@) == lookup_entries(
                            gentries.skip(i as int),
                            key@,
                        ),
                    decreases entries@.len() - i,
                {
                    if str_eq(entries[i].0.as_str(), key) {
                        assert(lookup_entries(gentries.skip(i as int), key@) == Some(
                            gentries[i as int].1,
                        )) by {
                            assert(gentries.skip(i as int)[0] == gentries[i as int]);
                        }
                        return Some(&entries[i].1);
                    }
                    proof {
                        lemma_lookup_entries_skip(gentries, key@, i as int);
                    }
                    i += 1;
                }
                assert(gentries.skip(gentries.len() as int) =~= Seq::<
                    (Seq<char>, JsonNode),
                >::empty());
                None
            },
            _ => None,
        }
    }
}

/// The model of an optional value reference.
pub open spec fn opt_node(v: Option<&JsonValue>) -> Option<JsonNode> {
    match v {
        Some(x) => Some(x@),
        None => None,
    }
}

/// Field lookup lifted over absence: a missing intermediate stays missing.
pub open spec fn node_get_opt(n: Option<JsonNode>, key: Seq<char>) -> Option<JsonNode> {
    match n {
        Some(m) => node_get(m, key),
        None => None,
    }
}

/// Field lookup over an optional value, for fallback chains.
pub fn get_opt<'a>(v: Option<&'a JsonValue>, key: &str) -> (r: Option<&'a JsonValue>)
    ensures
        opt_node(r) == node_get_opt(opt_node(v), key@),
{
    match v {
        Some(x) => x.get(key),
        None => None,
    }
}

/// The normalized text of an optional string-typed value: string values are
/// trimmed and their whitespace runs collapsed; empty results, non-strings
/// and absent values are all absent.
pub open spec fn node_text(n: Option<JsonNode>) -> Option<Seq<char>> {
    match n {
        Some(JsonNode::Str(s)) => if normalized_text(s).len() == 0 {
            None
        } else {
            Some(normalized_text(s))
        },
        _ => None,
    }
}

/// Normalizes an optional value to a non-empty string, or to absence.
pub fn to_normalized_string(v: Option<&JsonValue>) -> (r: Option<String>)
    ensures
        match r {
            Some(s) => node_text(opt_node(v)) == Some(s@),
            None => node_text(opt_node(v)) is None,
        },
{
    match v {
        Some(JsonValue::Str(s)) => {
            let n = normalize_text(s.as_str());
            if n.unicode_len() == 0 {
                None
            } else {
                Some(n)
            }
        },
        _ => None,
    }
}

impl JsonValue {
    /// The string held by this value, if it is string-typed.
    pub fn as_str<'a>(&'a self) -> (r: Option<&'a String>)
        ensures
            match r {
                Some(s) => self@ == JsonNode::Str(s@),
                None => !(self@ is Str),
            },
    {
        match self {
            JsonValue::Str(s) => Some(s),
            _ => None,
        }
    }

    /// The integer held by this value, if it is integer-typed.
    pub fn as_int(&self) -> (r: Option<i64>)
        ensures
            match r {
                Some(n) => self@ == JsonNode::Int(n as int),
                None => !(self@ is Int),
            },
    {
        match self {
            JsonValue::Int(n) => Some(*n),
            _ => None,
        }
    }

    /// The elements of this value, if it is an array.
    pub fn as_array<'a>(&'a self) -> (r: Option<&'a Vec<JsonValue>>)
        ensures
            match r {
                Some(items) => {
                    &&& self@ is Arr
                    &&& self@->Arr_0.len() == items@.len()
                    &&& forall|i: int|
                        0 <= i < items@.len() ==> self@->Arr_0[i] == #[trigger] items@[i]@
                },
                None => !(self@ is Arr),
            },
    {
        match self {
            JsonValue::Arr(items) => {
                proof {
                    lemma_arr_nodes(*items, 0);
                }
                Some(items)
            },
            _ => None,
        }
    }

    /// Whether this value is an object.
    pub fn is_object(&self) -> (r: bool)
        ensures
            r == (self@ is Obj),
    {
        match self {
            JsonValue::Obj(_) => true,
            _ => false,
        }
    }
}

/// What parsing a text as a JSON document yields; a function of the text
/// alone.
pub uninterp spec fn parsed_graph(s: Seq<char>) -> Option<JsonNode>;

/// Relies on serde_json::from_str: whether a text parses as JSON, and to
/// which document, depends on the text alone.
#[verifier::external_body]
pub fn parse_json(s: &str) -> (r: Result<JsonValue, serde_json::Error>)
    ensures
        match r {
            Ok(v) => parsed_graph(s@) == Some(v@),
            Err(_) => parsed_graph(s@) is None,
        },
{
    match serde_json::from_str::<serde_json::Value>(s) {
        Ok(v) => Ok(json_value_of(&v)),
        Err(e) => Err(e),
    }
}

#[verifier::external_type_specification]
#[verifier::external_body]
pub struct ExSerdeJsonValue(serde_json::Value);

/// Relies on the serde_json::Value variants: converts each to the matching
/// variant of [`JsonValue`]; numbers outside the signed 64-bit range become
/// `Null`, which every reader treats as an absent field.
#[verifier::external_body]
fn json_value_of(v: &serde_json::Value) -> JsonValue {
    match v {
        serde_json::Value::Null => JsonValue::Null,
        serde_json::Value::Bool(b) => JsonValue::Bool(*b),
        serde_json::Value::Number(n) => match n.as_i64() {
            Some(i) => JsonValue::Int(i),
            None => JsonValue::Null,
        },
        serde_json::Value::String(s) => JsonValue::Str(s.clone()),
        serde_json::Value::Array(a) => JsonValue::Arr(a.iter().map(json_value_of).collect()),
        serde_json::Value::Object(o) => JsonValue::Obj(
            o.iter().map(|(k, w)| (k.clone(), json_value_of(w))).collect(),
        ),
    }
}

} // verus!

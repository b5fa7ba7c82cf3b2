//! JSON documents as plain values.
//!
//! `serde_json` reads the text; what it found is held here as a tree whose
//! every part can be spoken of in a contract.
use vstd::prelude::*;

verus! {

/// The longest document that is read, in bytes.
pub const DOCUMENT_LIMIT: usize = 0x7fff_ffff;

/// What a JSON number is to a reader of counters: the text it prints as, its
/// value as an unsigned counter, and the bits of the double nearest to it.
pub struct NumberTree {
    pub text: Seq<char>,
    pub unsigned: Option<u64>,
    pub double: Option<u64>,
}

/// The mathematical content of a JSON document.
pub enum JsonTree {
    Null,
    Bool(bool),
    Number(NumberTree),
    Text(Seq<char>),
    Array(Seq<JsonTree>),
    Object(Seq<(Seq<char>, JsonTree)>),
}

/// A JSON number as plain values.
pub struct JsonNumber {
    pub text: String,
    pub unsigned: Option<u64>,
    pub double: Option<u64>,
}

/// A JSON document as plain values.
pub enum Json {
    Null,
    Bool(bool),
    Number(JsonNumber),
    Text(String),
    Array(Vec<Json>),
    Object(Vec<(String, Json)>),
}

/// The content of the first field called `name`.
pub open spec fn lookup(fields: Seq<(Seq<char>, JsonTree)>, name: Seq<char>) -> Option<JsonTree>
    decreases fields.len(),
{
    if fields.len() == 0 {
        None
    } else if fields[0].0 == name {
        Some(fields[0].1)
    } else {
        lookup(fields.drop_first(), name)
    }
}

impl JsonTree {
    /// The field called `name`, of an object that has it.
    pub open spec fn field(self, name: Seq<char>) -> Option<JsonTree> {
        match self {
            JsonTree::Object(fields) => lookup(fields, name),
            _ => None,
        }
    }

    /// The field `inner` of the field `outer`.
    pub open spec fn nested(self, outer: Seq<char>, inner: Seq<char>) -> Option<JsonTree> {
        match self.field(outer) {
            Some(tree) => tree.field(inner),
            None => None,
        }
    }

    pub open spec fn unsigned(self) -> Option<u64> {
        match self {
            JsonTree::Number(n) => n.unsigned,
            _ => None,
        }
    }

    pub open spec fn double(self) -> Option<u64> {
        match self {
            JsonTree::Number(n) => n.double,
            _ => None,
        }
    }

    pub open spec fn boolean(self) -> Option<bool> {
        match self {
            JsonTree::Bool(b) => Some(b),
            _ => None,
        }
    }

    pub open spec fn text(self) -> Option<Seq<char>> {
        match self {
            JsonTree::Text(s) => Some(s),
            _ => None,
        }
    }

    pub open spec fn array(self) -> Option<Seq<JsonTree>> {
        match self {
            JsonTree::Array(items) => Some(items),
            _ => None,
        }
    }
}

impl JsonNumber {
    pub open spec fn tree(&self) -> NumberTree {
        NumberTree { text: self.text@, unsigned: self.unsigned, double: self.double }
    }
}

impl Json {
    /// The document's content.
    pub open spec fn tree(&self) -> JsonTree
        decreases self,
    {
        match self {
            Json::Null => JsonTree::Null,
            Json::Bool(b) => JsonTree::Bool(*b),
            Json::Number(n) => JsonTree::Number(n.tree()),
            Json::Text(s) => JsonTree::Text(s@),
            Json::Array(items) => JsonTree::Array(
                Seq::new(
                    items@.len(),
                    |i: int|
                        if 0 <= i < items@.len() {
                            items@[i].tree()
                        } else {
                            JsonTree::Null
                        },
                ),
            ),
            Json::Object(fields) => JsonTree::Object(
                Seq::new(
                    fields@.len(),
                    |i: int|
                        if 0 <= i < fields@.len() {
                            (fields@[i].0@, fields@[i].1.tree())
                        } else {
                            (Seq::empty(), JsonTree::Null)
                        },
                ),
            ),
        }
    }
}

/// The content of an optional document.
pub open spec fn tree_of(json: Option<&Json>) -> Option<JsonTree> {
    match json {
        Some(json) => Some(json.tree()),
        None => None,
    }
}

/// The contents of a list of documents.
pub open spec fn trees_of(items: Seq<Json>) -> Seq<JsonTree> {
    Seq::new(items.len(), |i: int| items[i].tree())
}

impl Json {
    /// The field called `name`, of an object that has it.
    pub fn get(&self, name: &str) -> (r: Option<&Json>)
        ensures
            tree_of(r) == self.tree().field(name@),
    {
        match self {
            Json::Object(fields) => {
                let ghost all = self.tree()->Object_0;
                let wanted = name.to_owned();
                let mut i: usize = 0;
                assert(all.skip(0) =~= all);
                while i < fields.len()
                    invariant
                        i <= fields@.len(),
                        self.tree() == JsonTree::Object(all),
                        wanted@ == name@,
                        all.len() == fields@.len(),
                        forall|k: int|
                            0 <= k < fields@.len() ==> #[trigger] all[k] == (
                                fields@[k].0@,
                                fields@[k].1.tree(),
                            ),
                        lookup(all.skip(i as int), name@) == lookup(all, name@),
                    decreases fields@.len() - i,
                {
                    proof {
                        assert(all.skip(i as int)[0] == all[i as int]);
                        assert(all.skip(i as int).drop_first() =~= all.skip(i + 1));
                    }
                    if fields[i].0 == wanted {
                        return Some(&fields[i].1);
                    }
                    i += 1;
                }
                None
            },
            _ => None,
        }
    }

    /// The field `inner` of the field `outer`.
    pub fn get_nested(&self, outer: &str, inner: &str) -> (r: Option<&Json>)
        ensures
            tree_of(r) == self.tree().nested(outer@, inner@),
    {
        match self.get(outer) {
            Some(json) => json.get(inner),
            None => None,
        }
    }

    /// The counter that a number holds, if it is an unsigned integer.
    pub fn as_u64(&self) -> (r: Option<u64>)
        ensures
            r == self.tree().unsigned(),
    {
        match self {
            Json::Number(n) => n.unsigned,
            _ => None,
        }
    }

    /// The bits of the double nearest to a number.
    pub fn as_double(&self) -> (r: Option<u64>)
        ensures
            r == self.tree().double(),
    {
        match self {
            Json::Number(n) => n.double,
            _ => None,
        }
    }

    pub fn as_bool(&self) -> (r: Option<bool>)
        ensures
            r == self.tree().boolean(),
    {
        match self {
            Json::Bool(b) => Some(*b),
            _ => None,
        }
    }

    pub fn as_text(&self) -> (r: Option<&String>)
        ensures
            r.deep_view() == self.tree().text(),
    {
        match self {
            Json::Text(s) => Some(s),
            _ => None,
        }
    }

    pub fn as_array(&self) -> (r: Option<&Vec<Json>>)
        ensures
            match r {
                Some(items) => self.tree().array() == Some(trees_of(items@)),
                None => self.tree().array() is None,
            },
    {
        match self {
            Json::Array(items) => {
                assert(self.tree()->Array_0 =~= trees_of(items@));
                Some(items)
            },
            _ => None,
        }
    }

    /// Reads one document from bytes.
    pub fn parse(bytes: &[u8]) -> (r: Option<Json>)
        requires
            bytes@.len() <= DOCUMENT_LIMIT,
        ensures
            match r {
                Some(json) => json_document(bytes@) == Some(json.tree()),
                None => json_document(bytes@) is None,
            },
    {
        match read_value(bytes) {
            Some(value) => Some(plain(value)),
            None => None,
        }
    }
}

/// `serde_json::Value` is carried through without looking inside; its content
/// is spoken of as [`json_tree`].
#[verifier::external_type_specification]
#[verifier::external_body]
pub struct ExValue(serde_json::Value);

/// The content of a `serde_json::Value`.
pub uninterp spec fn json_tree(value: serde_json::Value) -> JsonTree;

/// The document that `serde_json::from_slice` reads from these bytes, if they
/// hold exactly one.
pub uninterp spec fn json_document(bytes: Seq<u8>) -> Option<JsonTree>;

/// One level of a `serde_json::Value`.
enum Node {
    Null,
    Bool(bool),
    Number(JsonNumber),
    Text(String),
    Array(Vec<serde_json::Value>),
    Object(Vec<(String, serde_json::Value)>),
}

spec fn items_tree(items: Seq<serde_json::Value>) -> Seq<JsonTree> {
    Seq::new(items.len(), |i: int| json_tree(items[i]))
}

spec fn fields_tree(fields: Seq<(String, serde_json::Value)>) -> Seq<(Seq<char>, JsonTree)> {
    Seq::new(fields.len(), |i: int| (fields[i].0@, json_tree(fields[i].1)))
}

impl Node {
    spec fn tree(&self) -> JsonTree {
        match self {
            Node::Null => JsonTree::Null,
            Node::Bool(b) => JsonTree::Bool(*b),
            Node::Number(n) => JsonTree::Number(n.tree()),
            Node::Text(s) => JsonTree::Text(s@),
            Node::Array(items) => JsonTree::Array(items_tree(items@)),
            Node::Object(fields) => JsonTree::Object(fields_tree(fields@)),
        }
    }
}

/// `serde_json::from_slice` reads one whole `Value` from bytes, or fails. Whether it
/// fails and what the value holds depend on the bytes alone; which bytes hold which
/// document is left to `serde_json`. It counts the digits of a number in thirty-two bits,
/// so that the bytes are limited.
#[verifier::external_body]
fn read_value(bytes: &[u8]) -> (r: Option<serde_json::Value>)
    requires
        bytes@.len() <= DOCUMENT_LIMIT,
    ensures
        match r {
            Some(value) => json_document(bytes@) == Some(json_tree(value)),
            None => json_document(bytes@) is None,
        },
{
    serde_json::from_slice::<serde_json::Value>(bytes).ok()
}

/// Opens one level of a `serde_json::Value`: its variant, with the values that it holds.
/// A number is given by what `Number::to_string`, `as_u64` and `as_f64` say of it, an
/// object by its fields in the order in which `Map::into_iter` yields them. Nothing is
/// claimed of how a number's text and values belong together.
#[verifier::external_body]
fn open_value(value: serde_json::Value) -> (r: Node)
    ensures
        r.tree() == json_tree(value),
{
    match value {
        serde_json::Value::Null => Node::Null,
        serde_json::Value::Bool(b) => Node::Bool(b),
        serde_json::Value::Number(n) => Node::Number(JsonNumber {
            text: n.to_string(),
            unsigned: n.as_u64(),
            double: n.as_f64().map(|double| double.to_bits()),
        }),
        serde_json::Value::String(s) => Node::Text(s),
        serde_json::Value::Array(items) => Node::Array(items),
        serde_json::Value::Object(fields) => Node::Object(fields.into_iter().collect()),
    }
}

/// Copies a `serde_json::Value` into plain values.
fn plain(value: serde_json::Value) -> (r: Json)
    ensures
        r.tree() == json_tree(value),
    decreases json_tree(value),
{
    let node = open_value(value);
    let ghost whole = json_tree(value);
    match node {
        Node::Null => Json::Null,
        Node::Bool(b) => Json::Bool(b),
        Node::Number(n) => Json::Number(n),
        Node::Text(s) => Json::Text(s),
        Node::Array(items) => {
            let mut out: Vec<Json> = Vec::new();
            let ghost trees = items_tree(items@);
            for item in it: items
                invariant
                    whole == JsonTree::Array(trees),
                    whole == json_tree(value),
                    trees == items_tree(it.seq()),
                    out@.len() == it.index(),
                    forall|i: int| 0 <= i < out@.len() ==> #[trigger] out@[i].tree() == trees[i],
            {
                assert(decreases_to!(whole => whole->Array_0));
                assert(decreases_to!(trees => trees[out@.len() as int]));
                out.push(plain(item));
            }
            let r = Json::Array(out);
            assert forall|i: int| 0 <= i < trees.len() implies r.tree()->Array_0[i] == trees[i] by {
                assert(out@[i].tree() == trees[i]);
            }
            assert(r.tree()->Array_0 =~= trees);
            r
        },
        Node::Object(fields) => {
            let mut out: Vec<(String, Json)> = Vec::new();
            let ghost trees = fields_tree(fields@);
            for field in it: fields
                invariant
                    whole == JsonTree::Object(trees),
                    whole == json_tree(value),
                    trees == fields_tree(it.seq()),
                    out@.len() == it.index(),
                    forall|i: int|
                        0 <= i < out@.len() ==> (#[trigger] out@[i].0@, out@[i].1.tree())
                            == trees[i],
            {
                let (name, content) = field;
                assert(decreases_to!(whole => whole->Object_0));
                assert(decreases_to!(trees => trees[out@.len() as int]));
                assert(decreases_to!(trees[out@.len() as int] => trees[out@.len() as int].1));
                out.push((name, plain(content)));
            }
            let r = Json::Object(out);
            assert forall|i: int| 0 <= i < trees.len() implies r.tree()->Object_0[i]
                == trees[i] by {
                assert((out@[i].0@, out@[i].1.tree()) == trees[i]);
            }
            assert(r.tree()->Object_0 =~= trees);
            r
        },
    }
}

} // verus!

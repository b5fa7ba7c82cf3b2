//! What the fields of a document say.
use crate::double::Double;
use crate::json::{lookup, JsonTree};
use crate::text::{is_control, printable, visible};
use vstd::prelude::*;

verus! {

/// Whether an object's first field of this name holds this value.
pub open spec fn holds_field(tree: JsonTree, name: Seq<char>, value: JsonTree) -> bool {
    tree matches JsonTree::Object(fields) && exists|i: int|
        0 <= i < fields.len() && #[trigger] fields[i] == (name, value) && forall|j: int|
            0 <= j < i ==> (#[trigger] fields[j]).0 != name
}

/// Whether a document has no field of this name.
pub open spec fn lacks_field(tree: JsonTree, name: Seq<char>) -> bool {
    tree matches JsonTree::Object(fields) ==> forall|j: int|
        0 <= j < fields.len() ==> (#[trigger] fields[j]).0 != name
}

/// Whether a document tells a count under this name.
pub open spec fn tells(tree: JsonTree, name: Seq<char>, n: u64) -> bool {
    exists|value: JsonTree| #[trigger]
        holds_field(tree, name, value) && (value matches JsonTree::Number(number)
            && number.unsigned == Some(n))
}

/// Whether a document tells a count under a name within a field.
pub open spec fn tells_within(
    tree: JsonTree,
    outer: Seq<char>,
    inner: Seq<char>,
    n: u64,
) -> bool {
    exists|part: JsonTree| #[trigger] holds_field(tree, outer, part) && tells(part, inner, n)
}

/// Whether a result is the count that a document tells under this name, and nothing where
/// it tells none.
pub open spec fn is_count_of(result: Option<u64>, tree: JsonTree, name: Seq<char>) -> bool {
    forall|n: u64| result == Some(n) <==> #[trigger] tells(tree, name, n)
}

/// Whether a result is the count that a document tells under a name within a field.
pub open spec fn is_count_within(
    result: Option<u64>,
    tree: JsonTree,
    outer: Seq<char>,
    inner: Seq<char>,
) -> bool {
    forall|n: u64| result == Some(n) <==> #[trigger] tells_within(tree, outer, inner, n)
}

/// Whether a document tells a number that is not below zero under this name.
pub open spec fn measures(tree: JsonTree, name: Seq<char>, double: Double) -> bool {
    double.usable() && exists|value: JsonTree| #[trigger]
        holds_field(tree, name, value) && (value matches JsonTree::Number(number)
            && number.double == Some(double.bits))
}

/// Whether a result is the measure that a document tells under this name.
pub open spec fn is_measure_of(result: Option<Double>, tree: JsonTree, name: Seq<char>) -> bool {
    forall|double: Double| result == Some(double) <==> #[trigger] measures(tree, name, double)
}

proof fn lemma_lookup(fields: Seq<(Seq<char>, JsonTree)>, name: Seq<char>)
    ensures
        match lookup(fields, name) {
            Some(value) => exists|i: int|
                0 <= i < fields.len() && #[trigger] fields[i] == (name, value) && forall|j: int|
                    0 <= j < i ==> (#[trigger] fields[j]).0 != name,
            None => forall|j: int| 0 <= j < fields.len() ==> (#[trigger] fields[j]).0 != name,
        },
    decreases fields.len(),
{
    if fields.len() > 0 {
        let rest = fields.drop_first();
        lemma_lookup(rest, name);
        if fields[0].0 != name {
            match lookup(rest, name) {
                Some(value) => {
                    let i = choose|i: int|
                        0 <= i < rest.len() && #[trigger] rest[i] == (name, value) && forall|j: int|
                            0 <= j < i ==> (#[trigger] rest[j]).0 != name;
                    assert(fields[i + 1] == (name, value));
                    assert forall|j: int| 0 <= j < i + 1 implies (
                    #[trigger] fields[j]).0 != name by {
                        if j > 0 {
                            assert(rest[j - 1].0 != name);
                        }
                    }
                },
                None => {
                    assert forall|j: int| 0 <= j < fields.len() implies (
                    #[trigger] fields[j]).0 != name by {
                        if j > 0 {
                            assert(rest[j - 1].0 != name);
                        }
                    }
                },
            }
        } else {
            assert(fields[0] == (name, fields[0].1));
        }
    }
}

/// A field is found by its name: the first of that name, of an object alone.
pub proof fn fields_are_found_by_name(tree: JsonTree, name: Seq<char>)
    ensures
        forall|value: JsonTree|
            tree.field(name) == Some(value) <==> #[trigger] holds_field(tree, name, value),
        tree.field(name) is None <==> lacks_field(tree, name),
{
    if let JsonTree::Object(fields) = tree {
        lemma_lookup(fields, name);
        assert forall|value: JsonTree| tree.field(name) == Some(value) <==> #[trigger] holds_field(
            tree,
            name,
            value,
        ) by {
            if holds_field(tree, name, value) {
                let i = choose|i: int|
                    0 <= i < fields.len() && #[trigger] fields[i] == (name, value) && forall|
                        j: int,
                    |
                        0 <= j < i ==> (#[trigger] fields[j]).0 != name;
                match lookup(fields, name) {
                    Some(found) => {
                        let k = choose|k: int|
                            0 <= k < fields.len() && #[trigger] fields[k] == (name, found)
                                && forall|j: int| 0 <= j < k ==> (#[trigger] fields[j]).0 != name;
                        assert(i == k) by {
                            if i < k {
                                assert(fields[i].0 != name);
                            } else if k < i {
                                assert(fields[k].0 != name);
                            }
                        }
                    },
                    None => {
                        assert(fields[i].0 != name);
                    },
                }
            }
        }
    }
}

/// A counter is the unsigned number in the field of its name, and nothing where that field
/// is missing or holds anything else.
pub proof fn counters_are_read_by_name(tree: JsonTree, name: Seq<char>)
    ensures
        is_count_of(tree.counter(name), tree, name),
{
    fields_are_found_by_name(tree, name);
    assert forall|n: u64| tree.counter(name) == Some(n) <==> #[trigger] tells(tree, name, n) by {
        if let Some(value) = tree.field(name) {
            assert(holds_field(tree, name, value));
        }
    }
}

/// A counter within a field is the unsigned number in the field of its name there.
pub proof fn nested_counters_are_read_by_name(
    tree: JsonTree,
    outer: Seq<char>,
    inner: Seq<char>,
)
    ensures
        is_count_within(tree.nested_counter(outer, inner), tree, outer, inner),
{
    fields_are_found_by_name(tree, outer);
    assert forall|n: u64|
        tree.nested_counter(outer, inner) == Some(n) <==> #[trigger] tells_within(
            tree,
            outer,
            inner,
            n,
        ) by {
        if let Some(part) = tree.field(outer) {
            assert(holds_field(tree, outer, part));
            counters_are_read_by_name(part, inner);
            assert(part.counter(inner) == Some(n) <==> tells(part, inner, n));
        }
    }
}

/// A measure is the number in the field of its name, where it is finite and not below zero.
pub proof fn measures_are_read_by_name(tree: JsonTree, name: Seq<char>)
    ensures
        is_measure_of(tree.rate(name), tree, name),
{
    fields_are_found_by_name(tree, name);
    assert forall|double: Double|
        tree.rate(name) == Some(double) <==> #[trigger] measures(tree, name, double) by {
        if let Some(value) = tree.field(name) {
            assert(holds_field(tree, name, value));
        }
    }
}

/// Whether a text could stand on a terminal as it is.
pub open spec fn clean(s: Seq<char>) -> bool {
    forall|i: int|
        0 <= i < s.len() ==> (#[trigger] s[i]) as nat >= 0x20 && !(0x7f <= s[i] as nat <= 0x9f)
}

proof fn lemma_filter_clean(s: Seq<char>)
    requires
        clean(s),
    ensures
        s.filter(visible()) == s,
    decreases s.len(),
{
    if s.len() == 0 {
        assert(s.filter(visible()) =~= s);
    } else {
        let t = s.drop_last();
        assert forall|i: int| 0 <= i < t.len() implies (#[trigger] t[i]) as nat >= 0x20 && !(0x7f
            <= t[i] as nat <= 0x9f) by {
            assert(s[i] as nat >= 0x20);
        }
        lemma_filter_clean(t);
        t.lemma_filter_push(s.last(), visible());
        assert(t.push(s.last()) =~= s);
        assert(s[s.len() - 1] as nat >= 0x20);
    }
}

/// A text that could stand on a terminal as it is, is kept as it is up to the limit.
pub proof fn clean_texts_are_kept(s: Seq<char>, limit: nat)
    requires
        clean(s),
    ensures
        printable(s, limit) == if s.len() <= limit {
            s
        } else {
            s.take(limit as int)
        },
{
    lemma_filter_clean(s);
}

/// A control character leaves no trace, wherever it stands.
pub proof fn control_characters_leave_no_trace(
    a: Seq<char>,
    c: char,
    b: Seq<char>,
    limit: nat,
)
    requires
        c as nat <= 0x1f || 0x7f <= c as nat <= 0x9f,
    ensures
        printable(a.push(c) + b, limit) == printable(a + b, limit),
{
    Seq::filter_distributes_over_add(a.push(c), b, visible());
    Seq::filter_distributes_over_add(a, b, visible());
    a.lemma_filter_push(c, visible());
    assert(is_control(c));
}

/// Whether an identifier stands under this name: a text, or a number as it is written.
pub open spec fn names(tree: JsonTree, name: Seq<char>, text: Seq<char>) -> bool {
    exists|value: JsonTree| #[trigger]
        holds_field(tree, name, value) && (value == JsonTree::Text(text) || (
        value matches JsonTree::Number(number) && number.text == text))
}

/// An identifier is what stands under its name, made fit for a terminal; there is none
/// where nothing of it is left, and none of anything but a text or a number.
pub proof fn identifiers_are_read_by_name(tree: JsonTree, name: Seq<char>)
    ensures
        forall|text: Seq<char>| #[trigger]
            names(tree, name, text) ==> tree.identifier(name) == (if printable(text, 120).len()
                > 0 {
                Some(printable(text, 120))
            } else {
                None
            }),
        (forall|text: Seq<char>| !#[trigger] names(tree, name, text)) ==> tree.identifier(
            name,
        ) is None,
{
    fields_are_found_by_name(tree, name);
    assert forall|text: Seq<char>| #[trigger] names(tree, name, text) implies tree.identifier(name)
        == (if printable(text, 120).len() > 0 {
        Some(printable(text, 120))
    } else {
        None
    }) by {
        let value = choose|value: JsonTree| #[trigger]
            holds_field(tree, name, value) && (value == JsonTree::Text(text) || (
            value matches JsonTree::Number(number) && number.text == text));
        assert(tree.field(name) == Some(value));
    }
    if let Some(value) = tree.field(name) {
        assert(holds_field(tree, name, value));
        match value {
            JsonTree::Text(text) => assert(names(tree, name, text)),
            JsonTree::Number(number) => assert(names(tree, name, number.text)),
            _ => {},
        }
    }
}

/// A value is taken only as what it is.
pub proof fn values_are_taken_as_they_are(tree: JsonTree)
    ensures
        ({
            &&& tree matches JsonTree::Number(n) ==> tree.unsigned() == n.unsigned && tree.double()
                == n.double
            &&& tree matches JsonTree::Bool(b) ==> tree.boolean() == Some(b)
            &&& tree matches JsonTree::Text(s) ==> tree.text() == Some(s)
            &&& tree matches JsonTree::Array(items) ==> tree.array() == Some(items)
            &&& !(tree is Number) ==> tree.unsigned() is None && tree.double() is None
            &&& !(tree is Bool) ==> tree.boolean() is None
            &&& !(tree is Text) ==> tree.text() is None
            &&& !(tree is Array) ==> tree.array() is None
        }),
{
}

/// A field within a field is found by the two names.
pub proof fn nested_fields_are_found_by_name(tree: JsonTree, outer: Seq<char>, inner: Seq<char>)
    ensures
        forall|part: JsonTree, value: JsonTree| #[trigger]
            holds_field(tree, outer, part) && #[trigger] holds_field(part, inner, value)
                ==> tree.nested(outer, inner) == Some(value),
        lacks_field(tree, outer) ==> tree.nested(outer, inner) is None,
        forall|part: JsonTree| #[trigger]
            holds_field(tree, outer, part) && lacks_field(part, inner) ==> tree.nested(
                outer,
                inner,
            ) is None,
{
    fields_are_found_by_name(tree, outer);
    if let Some(part) = tree.field(outer) {
        fields_are_found_by_name(part, inner);
    }
}

} // verus!

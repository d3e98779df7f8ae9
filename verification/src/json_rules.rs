//! How JSON values are written, compared and ordered, case by case.

use crate::json::{
    escaped, escaped_text, fields_sorted, fields_text, items_sorted, items_text, json_text, quoted,
    same_tree, sorted_tree, trees, Json, JsonTree,
};
use crate::json_laws::{
    lemma_fields_sorted_each, lemma_items_sorted_each, lemma_same_fields_each,
    lemma_same_items_each,
};
use crate::text::{signed_decimal, text_before};
use vstd::prelude::*;

verus! {

// ---------------------------------------------------------------------------
// What a value stands for
// ---------------------------------------------------------------------------

/// A value stands for itself: the number, the text, the items one by one, and the fields
/// one by one with their names.
pub proof fn law_value_stands_for_itself(v: Json)
    ensures
        v is Null ==> v.tree() == JsonTree::Null,
        v matches Json::Bool(b) ==> v.tree() == JsonTree::Bool(b),
        v matches Json::Number(n) ==> v.tree() == JsonTree::Number(n as int),
        v matches Json::Fraction(s) ==> v.tree() == JsonTree::Fraction(s@),
        v matches Json::Text(s) ==> v.tree() == JsonTree::Text(s@),
        v matches Json::Array(items) ==> v.tree() is Array && v.tree()->Array_0.len()
            == items@.len() && forall|i: int|
            0 <= i < items@.len() ==> #[trigger] v.tree()->Array_0[i] == items@[i].tree(),
        v matches Json::Object(fields) ==> v.tree() is Object && v.tree()->Object_0.len()
            == fields@.len() && forall|i: int|
            0 <= i < fields@.len() ==> #[trigger] v.tree()->Object_0[i] == (
                fields@[i].0@,
                fields@[i].1.tree(),
            ),
{
}

/// A list of values stands for the list of what each of them stands for.
pub proof fn law_values_stand_for_themselves(items: Seq<Json>)
    ensures
        trees(items).len() == items.len(),
        forall|i: int| 0 <= i < items.len() ==> #[trigger] trees(items)[i] == items[i].tree(),
{
}

// ---------------------------------------------------------------------------
// Text
// ---------------------------------------------------------------------------

/// The values without parts.
pub proof fn law_text_of_a_plain_value(n: int, s: Seq<char>)
    ensures
        json_text(JsonTree::Null) == "null"@,
        json_text(JsonTree::Bool(true)) == "true"@,
        json_text(JsonTree::Bool(false)) == "false"@,
        json_text(JsonTree::Number(n)) == signed_decimal(n),
        json_text(JsonTree::Fraction(s)) == s,
        json_text(JsonTree::Text(s)) == quoted(s),
        json_text(JsonTree::Array(Seq::empty())) == seq!['[', ']'],
        json_text(JsonTree::Object(Seq::empty())) == seq!['{', '}'],
{
    assert(items_text(Seq::empty(), 0) == Seq::<char>::empty());
    assert(fields_text(Seq::empty(), 0) == Seq::<char>::empty());
    assert(json_text(JsonTree::Array(Seq::empty())) =~= seq!['[', ']']);
    assert(json_text(JsonTree::Object(Seq::empty())) =~= seq!['{', '}']);
}

proof fn lemma_items_push(items: Seq<JsonTree>, x: JsonTree, i: int)
    requires
        0 <= i < items.len(),
    ensures
        items_text(items.push(x), i) == items_text(items, i) + seq![','] + json_text(x),
    decreases items.len() - i,
{
    let more = items.push(x);
    let n = items.len() as int;
    assert(more[i] == items[i]);
    if i + 1 < n {
        lemma_items_push(items, x, i + 1);
        assert(items_text(more, i) =~= items_text(items, i) + seq![','] + json_text(x));
    } else {
        assert(more[n] == x);
        assert(items_text(more, n) =~= json_text(x));
        assert(items_text(items, i) =~= json_text(items[i]));
        assert(items_text(more, i) =~= items_text(items, i) + seq![','] + json_text(x));
    }
}

/// One more item of an array stands before the closing bracket, behind a comma unless it
/// is the first.
pub proof fn law_item_is_written_behind_the_others(items: Seq<JsonTree>, x: JsonTree)
    ensures
        items.len() == 0 ==> json_text(JsonTree::Array(items.push(x))) == seq!['['] + json_text(x)
            + seq![']'],
        items.len() > 0 ==> json_text(JsonTree::Array(items.push(x))) == json_text(
            JsonTree::Array(items),
        ).drop_last() + seq![','] + json_text(x) + seq![']'],
{
    let more = items.push(x);
    if items.len() == 0 {
        assert(more[0] == x);
        assert(items_text(more, 0) =~= json_text(x));
    } else {
        lemma_items_push(items, x, 0);
        let t = json_text(JsonTree::Array(items));
        assert(t.drop_last() =~= seq!['['] + items_text(items, 0));
        assert(json_text(JsonTree::Array(more)) =~= t.drop_last() + seq![','] + json_text(x)
            + seq![']']);
    }
}

proof fn lemma_fields_push(
    fields: Seq<(Seq<char>, JsonTree)>,
    name: Seq<char>,
    x: JsonTree,
    i: int,
)
    requires
        0 <= i < fields.len(),
    ensures
        fields_text(fields.push((name, x)), i) == fields_text(fields, i) + seq![','] + quoted(name)
            + seq![':'] + json_text(x),
    decreases fields.len() - i,
{
    let more = fields.push((name, x));
    let n = fields.len() as int;
    assert(more[i] == fields[i]);
    let end = seq![','] + quoted(name) + seq![':'] + json_text(x);
    if i + 1 < n {
        lemma_fields_push(fields, name, x, i + 1);
        assert(fields_text(more, i + 1) =~= fields_text(fields, i + 1) + end);
        assert(fields_text(more, i) =~= fields_text(fields, i) + end);
    } else {
        assert(more[n] == (name, x));
        assert(fields_text(more, n) =~= quoted(name) + seq![':'] + json_text(x));
        assert(fields_text(fields, i) =~= quoted(fields[i].0) + seq![':'] + json_text(
            fields[i].1,
        ));
        assert(fields_text(more, i) =~= fields_text(fields, i) + end);
    }
    assert(fields_text(fields, i) + end =~= fields_text(fields, i) + seq![','] + quoted(name)
        + seq![':'] + json_text(x));
}

/// One more field of an object stands before the closing brace, its name in quotes, a
/// colon and its value, behind a comma unless it is the first.
pub proof fn law_field_is_written_behind_the_others(
    fields: Seq<(Seq<char>, JsonTree)>,
    name: Seq<char>,
    x: JsonTree,
)
    ensures
        fields.len() == 0 ==> json_text(JsonTree::Object(fields.push((name, x)))) == seq!['{']
            + quoted(name) + seq![':'] + json_text(x) + seq!['}'],
        fields.len() > 0 ==> json_text(JsonTree::Object(fields.push((name, x)))) == json_text(
            JsonTree::Object(fields),
        ).drop_last() + seq![','] + quoted(name) + seq![':'] + json_text(x) + seq!['}'],
{
    let more = fields.push((name, x));
    if fields.len() == 0 {
        assert(more[0] == (name, x));
        assert(fields_text(more, 0) =~= quoted(name) + seq![':'] + json_text(x));
        assert(json_text(JsonTree::Object(more)) =~= seq!['{'] + quoted(name) + seq![':']
            + json_text(x) + seq!['}']);
    } else {
        lemma_fields_push(fields, name, x, 0);
        let t = json_text(JsonTree::Object(fields));
        assert(t.drop_last() =~= seq!['{'] + fields_text(fields, 0));
        assert(json_text(JsonTree::Object(more)) =~= t.drop_last() + seq![','] + quoted(name)
            + seq![':'] + json_text(x) + seq!['}']);
    }
}

/// A string is its characters, each escaped, between double quotes.
pub proof fn law_string_is_its_characters(s: Seq<char>, c: char)
    ensures
        quoted(Seq::<char>::empty()) == seq!['"', '"'],
        quoted(seq![c] + s) == seq!['"'] + escaped(c) + quoted(s).skip(1),
{
    assert(quoted(Seq::<char>::empty()) =~= seq!['"', '"']);
    let t = seq![c] + s;
    assert(t[0] == c && t.drop_first() =~= s);
    assert(escaped_text(t) == escaped(c) + escaped_text(s));
    assert(quoted(s).skip(1) =~= escaped_text(s) + seq!['"']);
    assert(quoted(t) =~= seq!['"'] + escaped(c) + quoted(s).skip(1));
}

/// A character that is no control character, quote or backslash stands for itself; the
/// others have a backslash before them.
pub proof fn law_characters_stand_for_themselves(c: char)
    ensures
        c >= ' ' && c != '"' && c != '\\' ==> escaped(c) == seq![c],
        escaped('"') == seq!['\\', '"'],
        escaped('\\') == seq!['\\', '\\'],
        escaped('\n') == seq!['\\', 'n'],
        escaped('\r') == seq!['\\', 'r'],
        escaped('\t') == seq!['\\', 't'],
        escaped('\u{8}') == seq!['\\', 'b'],
        escaped('\u{c}') == seq!['\\', 'f'],
        escaped('\0') == seq!['\\', 'u', '0', '0', '0', '0'],
        escaped('\u{1f}') == seq!['\\', 'u', '0', '0', '1', 'f'],
{
}

// ---------------------------------------------------------------------------
// Equality
// ---------------------------------------------------------------------------

/// Values are equal where they are of the same kind and equal in every part; only a zero
/// with a fraction is equal to another text, that of the zero with the other sign.
pub proof fn law_equal_in_every_part(a: JsonTree, b: JsonTree)
    ensures
        match a {
            JsonTree::Null => same_tree(a, b) <==> b is Null,
            JsonTree::Bool(x) => same_tree(a, b) <==> b == JsonTree::Bool(x),
            JsonTree::Number(x) => same_tree(a, b) <==> b == JsonTree::Number(x),
            JsonTree::Fraction(x) => same_tree(a, b) <==> b == JsonTree::Fraction(x) || (x
                == "0.0"@ && b == JsonTree::Fraction("-0.0"@)) || (x == "-0.0"@ && b
                == JsonTree::Fraction("0.0"@)),
            JsonTree::Text(x) => same_tree(a, b) <==> b == JsonTree::Text(x),
            JsonTree::Array(x) => same_tree(a, b) <==> (b matches JsonTree::Array(y) && x.len()
                == y.len() && forall|i: int|
                0 <= i < x.len() ==> same_tree(#[trigger] x[i], y[i])),
            JsonTree::Object(x) => same_tree(a, b) <==> (b matches JsonTree::Object(y) && x.len()
                == y.len() && forall|i: int|
                0 <= i < x.len() ==> (#[trigger] x[i]).0 == y[i].0 && same_tree(x[i].1, y[i].1)),
        },
{
    match (a, b) {
        (JsonTree::Array(x), JsonTree::Array(y)) => lemma_same_items_each(x, y, x.len() as int),
        (JsonTree::Object(x), JsonTree::Object(y)) => lemma_same_fields_each(x, y, x.len() as int),
        _ => {},
    }
}

// ---------------------------------------------------------------------------
// Order of the names
// ---------------------------------------------------------------------------

proof fn lemma_items_sorted_at(items: Seq<JsonTree>, k: int, i: int)
    requires
        0 <= i < k <= items.len(),
        items_sorted(items, k),
    ensures
        sorted_tree(items[i]),
    decreases k,
{
    if i < k - 1 {
        lemma_items_sorted_at(items, k - 1, i);
    }
}

proof fn lemma_fields_sorted_at(fields: Seq<(Seq<char>, JsonTree)>, k: int, i: int)
    requires
        0 <= i < k <= fields.len(),
        fields_sorted(fields, k),
    ensures
        sorted_tree(fields[i].1),
        i > 0 ==> text_before(fields[i - 1].0, fields[i].0),
    decreases k,
{
    if i < k - 1 {
        lemma_fields_sorted_at(fields, k - 1, i);
    }
}

/// A value is sorted where the names ascend in every object in it, from each field to
/// the next.
pub proof fn law_sorted_in_every_object(t: JsonTree)
    ensures
        match t {
            JsonTree::Array(items) => sorted_tree(t) <==> forall|i: int|
                0 <= i < items.len() ==> sorted_tree(#[trigger] items[i]),
            JsonTree::Object(fields) => sorted_tree(t) <==> (forall|i: int|
                0 <= i < fields.len() ==> sorted_tree((#[trigger] fields[i]).1)) && (forall|
                i: int,
                j: int,
            |
                0 <= i < fields.len() && j == i + 1 && j < fields.len() ==> text_before(
                    (#[trigger] fields[i]).0,
                    (#[trigger] fields[j]).0,
                )),
            _ => sorted_tree(t),
        },
{
    match t {
        JsonTree::Array(items) => {
            if sorted_tree(t) {
                assert forall|i: int| 0 <= i < items.len() implies sorted_tree(
                    #[trigger] items[i],
                ) by {
                    lemma_items_sorted_at(items, items.len() as int, i);
                }
            }
            if forall|i: int| 0 <= i < items.len() ==> sorted_tree(#[trigger] items[i]) {
                lemma_items_sorted_each(items, items.len() as int);
            }
        },
        JsonTree::Object(fields) => {
            if sorted_tree(t) {
                assert forall|i: int| 0 <= i < fields.len() implies sorted_tree(
                    (#[trigger] fields[i]).1,
                ) by {
                    lemma_fields_sorted_at(fields, fields.len() as int, i);
                }
                assert forall|i: int, j: int|
                    0 <= i < fields.len() && j == i + 1 && j < fields.len() implies text_before(
                    (#[trigger] fields[i]).0,
                    (#[trigger] fields[j]).0,
                ) by {
                    lemma_fields_sorted_at(fields, fields.len() as int, j);
                }
            }
            if (forall|i: int| 0 <= i < fields.len() ==> sorted_tree((#[trigger] fields[i]).1)) && (
            forall|i: int, j: int|
                0 <= i < fields.len() && j == i + 1 && j < fields.len() ==> text_before(
                    (#[trigger] fields[i]).0,
                    (#[trigger] fields[j]).0,
                )) {
                lemma_fields_sorted_each(fields, fields.len() as int);
            }
        },
        _ => {},
    }
}

} // verus!

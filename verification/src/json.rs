//! JSON values, their equality and their canonical text: compact, with the fields of
//! an object in the order in which the value holds them.

use crate::json_laws::{lemma_fields_sorted_each, lemma_items_sorted_each};
use crate::text::{signed_decimal, signed_decimal_text, text_before};
use crate::textmap::TextMap;
use vstd::prelude::*;
use vstd::string::*;

verus! {

/// A JSON value.
#[derive(Debug)]
pub enum Json {
    Null,
    Bool(bool),
    Number(i128),
    /// A number with a fraction or an exponent, by its text. Every such number has one
    /// text, but for the sign of a zero.
    Fraction(String),
    Text(String),
    Array(Vec<Json>),
    Object(Vec<(String, Json)>),
}

/// What a JSON value stands for.
pub enum JsonTree {
    Null,
    Bool(bool),
    Number(int),
    Fraction(Seq<char>),
    Text(Seq<char>),
    Array(Seq<JsonTree>),
    Object(Seq<(Seq<char>, JsonTree)>),
}

/// What a list of JSON values stands for.
pub open spec fn trees(items: Seq<Json>) -> Seq<JsonTree> {
    items.map_values(|item: Json| item.tree())
}

impl Json {
    /// What the value stands for.
    pub open spec fn tree(self) -> JsonTree
        decreases self,
    {
        match self {
            Json::Null => JsonTree::Null,
            Json::Bool(b) => JsonTree::Bool(b),
            Json::Number(n) => JsonTree::Number(n as int),
            Json::Fraction(s) => JsonTree::Fraction(s@),
            Json::Text(s) => JsonTree::Text(s@),
            Json::Array(items) => JsonTree::Array(
                Seq::new(
                    items@.len(),
                    |i: int|
                        if 0 <= i < items@.len() {
                            items@[i].tree()
                        } else {
                            JsonTree::Null
                        },
                ),
            ),
            Json::Object(fields) => JsonTree::Object(
                Seq::new(
                    fields@.len(),
                    |i: int|
                        if 0 <= i < fields@.len() {
                            (fields@[i].0@, fields@[i].1.tree())
                        } else {
                            (Seq::empty(), JsonTree::Null)
                        },
                ),
            ),
        }
    }
}

// ---------------------------------------------------------------------------
// Objects
// ---------------------------------------------------------------------------

/// The names in every object ascend.
pub open spec fn sorted_tree(t: JsonTree) -> bool
    decreases t, 0int,
{
    match t {
        JsonTree::Array(items) => items_sorted(items, items.len() as int),
        JsonTree::Object(fields) => fields_sorted(fields, fields.len() as int),
        _ => true,
    }
}

/// The same of the first `k` items.
pub open spec fn items_sorted(items: Seq<JsonTree>, k: int) -> bool
    decreases items, k,
{
    if 0 < k <= items.len() {
        items_sorted(items, k - 1) && sorted_tree(items[k - 1])
    } else {
        true
    }
}

/// The same of the first `k` fields, whose names ascend.
pub open spec fn fields_sorted(fields: Seq<(Seq<char>, JsonTree)>, k: int) -> bool
    decreases fields, k,
{
    if 0 < k <= fields.len() {
        &&& fields_sorted(fields, k - 1)
        &&& sorted_tree(fields[k - 1].1)
        &&& k > 1 ==> text_before(fields[k - 2].0, fields[k - 1].0)
    } else {
        true
    }
}

impl Json {
    /// The object with the entries of a map as its fields.
    pub fn object(map: TextMap<Json>) -> (r: Json)
        requires
            map.wf(),
            forall|i: int|
                0 <= i < map.entries@.len() ==> sorted_tree((#[trigger] map.entries@[i]).1.tree()),
        ensures
            r == Json::Object(map.entries),
            sorted_tree(r.tree()),
    {
        let ghost entries = map.entries@;
        let r = Json::Object(map.entries);
        proof {
            let fields = r.tree()->Object_0;
            assert forall|i: int| 0 <= i < fields.len() implies sorted_tree(
                (#[trigger] fields[i]).1,
            ) by {
                assert(fields[i] == (entries[i].0@, entries[i].1.tree()));
            }
            assert forall|i: int, j: int|
                0 <= i < fields.len() && j == i + 1 && j < fields.len() implies text_before(
                (#[trigger] fields[i]).0,
                (#[trigger] fields[j]).0,
            ) by {
                assert(text_before(entries[i].0@, entries[j].0@));
            }
            lemma_fields_sorted_each(fields, fields.len() as int);
        }
        r
    }

    /// The array with the given items.
    pub fn array(items: Vec<Json>) -> (r: Json)
        ensures
            r == Json::Array(items),
            r.tree() == JsonTree::Array(trees(items@)),
            (forall|i: int| 0 <= i < items@.len() ==> sorted_tree((#[trigger] items@[i]).tree()))
                ==> sorted_tree(r.tree()),
    {
        let r = Json::Array(items);
        proof {
            let t = trees(items@);
            assert(r.tree()->Array_0 =~= t);
            if forall|i: int| 0 <= i < items@.len() ==> sorted_tree(
                (#[trigger] items@[i]).tree(),
            ) {
                assert forall|i: int| 0 <= i < t.len() implies sorted_tree(#[trigger] t[i]) by {
                    assert(t[i] == items@[i].tree());
                }
                lemma_items_sorted_each(t, t.len() as int);
            }
        }
        r
    }
}

// ---------------------------------------------------------------------------
// Equality
// ---------------------------------------------------------------------------

/// The text of a zero with a fraction, of either sign.
pub open spec fn zero_fraction(s: Seq<char>) -> bool {
    s == "0.0"@ || s == "-0.0"@
}

/// Two values are equal as JSON: alike in everything, except that a zero with a
/// fraction has no sign.
pub open spec fn same_tree(a: JsonTree, b: JsonTree) -> bool
    decreases a, 0int,
{
    match (a, b) {
        (JsonTree::Null, JsonTree::Null) => true,
        (JsonTree::Bool(x), JsonTree::Bool(y)) => x == y,
        (JsonTree::Number(x), JsonTree::Number(y)) => x == y,
        (JsonTree::Fraction(x), JsonTree::Fraction(y)) => {
            x == y || (zero_fraction(x) && zero_fraction(y))
        },
        (JsonTree::Text(x), JsonTree::Text(y)) => x == y,
        (JsonTree::Array(x), JsonTree::Array(y)) => {
            x.len() == y.len() && same_items(x, y, x.len() as int)
        },
        (JsonTree::Object(x), JsonTree::Object(y)) => {
            x.len() == y.len() && same_fields(x, y, x.len() as int)
        },
        _ => false,
    }
}

/// The first `k` items of two arrays are equal as JSON.
pub open spec fn same_items(x: Seq<JsonTree>, y: Seq<JsonTree>, k: int) -> bool
    decreases x, k,
{
    if 0 < k <= x.len() {
        same_items(x, y, k - 1) && same_tree(x[k - 1], y[k - 1])
    } else {
        true
    }
}

/// The first `k` fields of two objects have the same names and are equal as JSON.
pub open spec fn same_fields(
    x: Seq<(Seq<char>, JsonTree)>,
    y: Seq<(Seq<char>, JsonTree)>,
    k: int,
) -> bool
    decreases x, k,
{
    if 0 < k <= x.len() {
        same_fields(x, y, k - 1) && x[k - 1].0 == y[k - 1].0 && same_tree(x[k - 1].1, y[k - 1].1)
    } else {
        true
    }
}

/// Arrays that are equal in the first `m` items are equal in the first `k` of those.
proof fn lemma_same_items_prefix(x: Seq<JsonTree>, y: Seq<JsonTree>, k: int, m: int)
    requires
        0 <= k <= m <= x.len(),
        same_items(x, y, m),
    ensures
        same_items(x, y, k),
    decreases m,
{
    if k < m {
        lemma_same_items_prefix(x, y, k, m - 1);
    }
}

/// Objects that are equal in the first `m` fields are equal in the first `k` of those.
proof fn lemma_same_fields_prefix(
    x: Seq<(Seq<char>, JsonTree)>,
    y: Seq<(Seq<char>, JsonTree)>,
    k: int,
    m: int,
)
    requires
        0 <= k <= m <= x.len(),
        same_fields(x, y, m),
    ensures
        same_fields(x, y, k),
    decreases m,
{
    if k < m {
        lemma_same_fields_prefix(x, y, k, m - 1);
    }
}

/// Whether a text is that of a zero with a fraction.
fn is_zero_fraction(s: &str) -> (r: bool)
    ensures
        r == zero_fraction(s@),
{
    let plus = "0.0".to_owned();
    let minus = "-0.0".to_owned();
    let text = s.to_owned();
    text == plus || text == minus
}

impl Json {
    /// Whether two values are equal as JSON.
    pub fn same(&self, other: &Json) -> (r: bool)
        ensures
            r == same_tree(self.tree(), other.tree()),
        decreases self,
    {
        match (self, other) {
            (Json::Null, Json::Null) => true,
            (Json::Bool(x), Json::Bool(y)) => *x == *y,
            (Json::Number(x), Json::Number(y)) => *x == *y,
            (Json::Fraction(x), Json::Fraction(y)) => {
                *x == *y || (is_zero_fraction(x.as_str()) && is_zero_fraction(y.as_str()))
            },
            (Json::Text(x), Json::Text(y)) => *x == *y,
            (Json::Array(x), Json::Array(y)) => {
                if x.len() != y.len() {
                    return false;
                }
                let ghost (s, t) = (self.tree()->Array_0, other.tree()->Array_0);
                let mut i: usize = 0;
                while i < x.len()
                    invariant
                        i <= x.len(),
                        x.len() == y.len(),
                        *self == Json::Array(*x),
                        self.tree() == JsonTree::Array(s),
                        other.tree() == JsonTree::Array(t),
                        s.len() == x.len(),
                        t.len() == y.len(),
                        forall|j: int| 0 <= j < x.len() ==> #[trigger] s[j] == x@[j].tree(),
                        forall|j: int| 0 <= j < y.len() ==> #[trigger] t[j] == y@[j].tree(),
                        same_items(s, t, i as int),
                    decreases x.len() - i,
                {
                    proof {
                        assert(decreases_to!(*self => self->Array_0));
                        assert(decreases_to!(*x => x@));
                        assert(decreases_to!(x@ => x@[i as int]));
                    }
                    if !x[i].same(&y[i]) {
                        proof {
                            assert(!same_items(s, t, i + 1));
                            if same_items(s, t, s.len() as int) {
                                lemma_same_items_prefix(s, t, i + 1, s.len() as int);
                            }
                        }
                        return false;
                    }
                    i = i + 1;
                }
                true
            },
            (Json::Object(x), Json::Object(y)) => {
                if x.len() != y.len() {
                    return false;
                }
                let ghost (s, t) = (self.tree()->Object_0, other.tree()->Object_0);
                let mut i: usize = 0;
                while i < x.len()
                    invariant
                        i <= x.len(),
                        x.len() == y.len(),
                        *self == Json::Object(*x),
                        self.tree() == JsonTree::Object(s),
                        other.tree() == JsonTree::Object(t),
                        s.len() == x.len(),
                        t.len() == y.len(),
                        forall|j: int|
                            0 <= j < x.len() ==> #[trigger] s[j] == (x@[j].0@, x@[j].1.tree()),
                        forall|j: int|
                            0 <= j < y.len() ==> #[trigger] t[j] == (y@[j].0@, y@[j].1.tree()),
                        same_fields(s, t, i as int),
                    decreases x.len() - i,
                {
                    proof {
                        assert(decreases_to!(*self => self->Object_0));
                        assert(decreases_to!(*x => x@));
                        assert(decreases_to!(x@ => x@[i as int]));
                        assert(decreases_to!(x@[i as int] => x@[i as int].1));
                    }
                    if x[i].0 != y[i].0 || !x[i].1.same(&y[i].1) {
                        proof {
                            assert(!same_fields(s, t, i + 1));
                            if same_fields(s, t, s.len() as int) {
                                lemma_same_fields_prefix(s, t, i + 1, s.len() as int);
                            }
                        }
                        return false;
                    }
                    i = i + 1;
                }
                true
            },
            _ => false,
        }
    }
}

impl PartialEq for Json {
    /// Whether two values are equal as JSON.
    fn eq(&self, other: &Json) -> (r: bool) {
        self.same(other)
    }
}

impl vstd::std_specs::cmp::PartialEqSpecImpl for Json {
    open spec fn obeys_eq_spec() -> bool {
        true
    }

    open spec fn eq_spec(&self, other: &Json) -> bool {
        same_tree(self.tree(), other.tree())
    }
}

// ---------------------------------------------------------------------------
// Text
// ---------------------------------------------------------------------------

/// The lower-case hexadecimal digit of a number below sixteen.
pub open spec fn hex_digit(n: int) -> char {
    if n < 10 {
        (48 + n) as char
    } else {
        (87 + n) as char
    }
}

/// A character as it is written inside a JSON string.
pub open spec fn escaped(c: char) -> Seq<char> {
    if c == '"' {
        seq!['\\', '"']
    } else if c == '\\' {
        seq!['\\', '\\']
    } else if c == '\u{8}' {
        seq!['\\', 'b']
    } else if c == '\t' {
        seq!['\\', 't']
    } else if c == '\n' {
        seq!['\\', 'n']
    } else if c == '\u{c}' {
        seq!['\\', 'f']
    } else if c == '\r' {
        seq!['\\', 'r']
    } else if (c as int) < 32 {
        seq!['\\', 'u', '0', '0', hex_digit(c as int / 16), hex_digit(c as int % 16)]
    } else {
        seq![c]
    }
}

/// A text as it is written inside a JSON string.
pub open spec fn escaped_text(s: Seq<char>) -> Seq<char>
    decreases s.len(),
{
    if s.len() == 0 {
        Seq::empty()
    } else {
        escaped(s[0]) + escaped_text(s.drop_first())
    }
}

/// The JSON string of a text.
pub open spec fn quoted(s: Seq<char>) -> Seq<char> {
    seq!['"'] + escaped_text(s) + seq!['"']
}

/// The items of an array from index `i` on, with commas between them.
pub open spec fn items_text(items: Seq<JsonTree>, i: int) -> Seq<char>
    decreases items, items.len() - i,
{
    if 0 <= i < items.len() {
        json_text(items[i]) + (if i + 1 < items.len() {
            seq![','] + items_text(items, i + 1)
        } else {
            Seq::empty()
        })
    } else {
        Seq::empty()
    }
}

/// The fields of an object from index `i` on, with commas between them.
pub open spec fn fields_text(fields: Seq<(Seq<char>, JsonTree)>, i: int) -> Seq<char>
    decreases fields, fields.len() - i,
{
    if 0 <= i < fields.len() {
        quoted(fields[i].0) + seq![':'] + json_text(fields[i].1) + (if i + 1 < fields.len() {
            seq![','] + fields_text(fields, i + 1)
        } else {
            Seq::empty()
        })
    } else {
        Seq::empty()
    }
}

/// The canonical text of a value.
pub open spec fn json_text(t: JsonTree) -> Seq<char>
    decreases t, 0int,
{
    match t {
        JsonTree::Null => "null"@,
        JsonTree::Bool(b) => if b {
            "true"@
        } else {
            "false"@
        },
        JsonTree::Number(n) => signed_decimal(n),
        JsonTree::Fraction(s) => s,
        JsonTree::Text(s) => quoted(s),
        JsonTree::Array(items) => seq!['['] + items_text(items, 0) + seq![']'],
        JsonTree::Object(fields) => seq!['{'] + fields_text(fields, 0) + seq!['}'],
    }
}

/// `serde_json::to_string` of a string: the text between double quotes, with a
/// backslash escape for the double quote, the backslash and the control characters
/// below the space, and every other character as it is. It has no failing case for a
/// string.
#[verifier::external_body]
fn json_string(s: &str) -> (r: String)
    ensures
        r@ == quoted(s@),
{
    serde_json::to_string(s).expect("a string has a JSON text")
}

impl Json {
    /// The canonical text of the value.
    pub fn to_text(&self) -> (r: String)
        ensures
            r@ == json_text(self.tree()),
        decreases self,
    {
        proof {
            reveal_strlit("[");
            reveal_strlit("]");
            reveal_strlit("{");
            reveal_strlit("}");
            reveal_strlit(",");
            reveal_strlit(":");
        }
        match self {
            Json::Null => "null".to_owned(),
            Json::Bool(b) => if *b {
                "true".to_owned()
            } else {
                "false".to_owned()
            },
            Json::Number(n) => signed_decimal_text(*n),
            Json::Fraction(s) => s.clone(),
            Json::Text(s) => json_string(s.as_str()),
            Json::Array(items) => {
                let ghost t = self.tree()->Array_0;
                let mut out = "[".to_owned();
                let mut i: usize = 0;
                while i < items.len()
                    invariant
                        i <= items.len(),
                        *self == Json::Array(*items),
                        t.len() == items.len(),
                        forall|j: int| 0 <= j < t.len() ==> #[trigger] t[j] == items@[j].tree(),
                        ","@ == seq![','],
                        out@ + (if 0 < i < items.len() {
                            seq![',']
                        } else {
                            Seq::empty()
                        }) + items_text(t, i as int) == seq!['['] + items_text(t, 0),
                    decreases items.len() - i,
                {
                    proof {
                        assert(decreases_to!(*self => self->Array_0));
                        assert(decreases_to!(*items => items@));
                        assert(decreases_to!(items@ => items@[i as int]));
                    }
                    let ghost before = out@;
                    if i > 0 {
                        out.append(",");
                    }
                    let item = items[i].to_text();
                    out.append(item.as_str());
                    proof {
                        let sep = if 0 < i {
                            seq![',']
                        } else {
                            Seq::empty()
                        };
                        let next = if i + 1 < items.len() {
                            seq![',']
                        } else {
                            Seq::empty()
                        };
                        assert(out@ =~= before + sep + json_text(t[i as int]));
                        assert(items_text(t, i as int) == json_text(t[i as int]) + (if i + 1
                            < t.len() {
                            seq![','] + items_text(t, i + 1)
                        } else {
                            Seq::empty()
                        }));
                        assert(out@ + next + items_text(t, i + 1) =~= before + sep + items_text(
                            t,
                            i as int,
                        ));
                    }
                    i = i + 1;
                }
                out.append("]");
                proof {
                    assert(items_text(t, items.len() as int) == Seq::<char>::empty());
                }
                out
            },
            Json::Object(fields) => {
                let ghost t = self.tree()->Object_0;
                let mut out = "{".to_owned();
                let mut i: usize = 0;
                while i < fields.len()
                    invariant
                        i <= fields.len(),
                        *self == Json::Object(*fields),
                        t.len() == fields.len(),
                        forall|j: int|
                            0 <= j < t.len() ==> #[trigger] t[j] == (
                                fields@[j].0@,
                                fields@[j].1.tree(),
                            ),
                        ","@ == seq![','],
                        ":"@ == seq![':'],
                        out@ + (if 0 < i < fields.len() {
                            seq![',']
                        } else {
                            Seq::empty()
                        }) + fields_text(t, i as int) == seq!['{'] + fields_text(t, 0),
                    decreases fields.len() - i,
                {
                    proof {
                        assert(decreases_to!(*self => self->Object_0));
                        assert(decreases_to!(*fields => fields@));
                        assert(decreases_to!(fields@ => fields@[i as int]));
                        assert(decreases_to!(fields@[i as int] => fields@[i as int].1));
                    }
                    let ghost before = out@;
                    if i > 0 {
                        out.append(",");
                    }
                    let key = json_string(fields[i].0.as_str());
                    out.append(key.as_str());
                    out.append(":");
                    let value = fields[i].1.to_text();
                    out.append(value.as_str());
                    proof {
                        let sep = if 0 < i {
                            seq![',']
                        } else {
                            Seq::empty()
                        };
                        let next = if i + 1 < fields.len() {
                            seq![',']
                        } else {
                            Seq::empty()
                        };
                        let field = quoted(t[i as int].0) + seq![':'] + json_text(t[i as int].1);
                        assert(out@ =~= before + sep + field);
                        assert(fields_text(t, i as int) == field + (if i + 1 < t.len() {
                            seq![','] + fields_text(t, i + 1)
                        } else {
                            Seq::empty()
                        }));
                        assert(out@ + next + fields_text(t, i + 1) =~= before + sep + fields_text(
                            t,
                            i as int,
                        ));
                    }
                    i = i + 1;
                }
                out.append("}");
                proof {
                    assert(fields_text(t, fields.len() as int) == Seq::<char>::empty());
                }
                out
            },
        }
    }
}

impl Clone for Json {
    fn clone(&self) -> (r: Json)
        ensures
            r.tree() == self.tree(),
        decreases self,
    {
        match self {
            Json::Null => Json::Null,
            Json::Bool(b) => Json::Bool(*b),
            Json::Number(n) => Json::Number(*n),
            Json::Fraction(s) => Json::Fraction(s.clone()),
            Json::Text(s) => Json::Text(s.clone()),
            Json::Array(items) => {
                let mut out: Vec<Json> = Vec::new();
                let mut i: usize = 0;
                while i < items.len()
                    invariant
                        i <= items.len(),
                        *self == Json::Array(*items),
                        out.len() == i,
                        forall|j: int|
                            0 <= j < i ==> (#[trigger] out@[j]).tree() == items@[j].tree(),
                    decreases items.len() - i,
                {
                    proof {
                        assert(decreases_to!(*self => self->Array_0));
                        assert(decreases_to!(*items => items@));
                        assert(decreases_to!(items@ => items@[i as int]));
                    }
                    out.push(items[i].clone());
                    i = i + 1;
                }
                let r = Json::Array(out);
                assert(r.tree()->Array_0 =~= self.tree()->Array_0);
                r
            },
            Json::Object(fields) => {
                let mut out: Vec<(String, Json)> = Vec::new();
                let mut i: usize = 0;
                while i < fields.len()
                    invariant
                        i <= fields.len(),
                        *self == Json::Object(*fields),
                        out.len() == i,
                        forall|j: int|
                            0 <= j < i ==> (#[trigger] out@[j]).1.tree() == fields@[j].1.tree()
                                && out@[j].0@ == fields@[j].0@,
                    decreases fields.len() - i,
                {
                    proof {
                        assert(decreases_to!(*self => self->Object_0));
                        assert(decreases_to!(*fields => fields@));
                        assert(decreases_to!(fields@ => fields@[i as int]));
                        assert(decreases_to!(fields@[i as int] => fields@[i as int].1));
                    }
                    out.push((fields[i].0.clone(), fields[i].1.clone()));
                    i = i + 1;
                }
                let r = Json::Object(out);
                assert(r.tree()->Object_0 =~= self.tree()->Object_0);
                r
            },
        }
    }
}

} // verus!

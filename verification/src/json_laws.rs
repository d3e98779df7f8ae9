//! The canonical text of a JSON value says which value it is.

use crate::json::{
    escaped, escaped_text, fields_sorted, fields_text, hex_digit, items_sorted, items_text,
    json_text, quoted, same_fields, same_items, same_tree, sorted_tree, JsonTree,
};
use crate::text::{decimal, digit, signed_decimal, text_before};
use vstd::prelude::*;

verus! {

/// A character that numbers are written with.
pub open spec fn number_char(c: char) -> bool {
    ('0' <= c <= '9') || c == '-' || c == '+' || c == '.' || c == 'e' || c == 'E'
}

/// The text of a number with a fraction or an exponent.
pub open spec fn fraction_text(s: Seq<char>) -> bool {
    &&& s.len() > 0
    &&& forall|i: int| 0 <= i < s.len() ==> number_char(#[trigger] s[i])
    &&& exists|i: int| 0 <= i < s.len() && (#[trigger] s[i] == '.' || s[i] == 'e' || s[i] == 'E')
}

/// Every fraction in the value has the text of one.
pub open spec fn tree_ok(t: JsonTree) -> bool
    decreases t, 0int,
{
    match t {
        JsonTree::Fraction(s) => fraction_text(s),
        JsonTree::Array(items) => items_ok(items, items.len() as int),
        JsonTree::Object(fields) => fields_ok(fields, fields.len() as int),
        _ => true,
    }
}

/// The same of the first `k` items.
pub open spec fn items_ok(items: Seq<JsonTree>, k: int) -> bool
    decreases items, k,
{
    if 0 < k <= items.len() {
        items_ok(items, k - 1) && tree_ok(items[k - 1])
    } else {
        true
    }
}

/// The same of the first `k` fields.
pub open spec fn fields_ok(fields: Seq<(Seq<char>, JsonTree)>, k: int) -> bool
    decreases fields, k,
{
    if 0 < k <= fields.len() {
        fields_ok(fields, k - 1) && tree_ok(fields[k - 1].1)
    } else {
        true
    }
}

/// The first `k` items are such where they are one by one.
pub(crate) proof fn lemma_items_ok_each(items: Seq<JsonTree>, k: int)
    requires
        0 <= k <= items.len(),
        forall|i: int| 0 <= i < k ==> tree_ok(#[trigger] items[i]),
    ensures
        items_ok(items, k),
    decreases k,
{
    if k > 0 {
        lemma_items_ok_each(items, k - 1);
    }
}

/// The first `k` fields are such where they are one by one.
pub(crate) proof fn lemma_fields_ok_each(fields: Seq<(Seq<char>, JsonTree)>, k: int)
    requires
        0 <= k <= fields.len(),
        forall|i: int| 0 <= i < k ==> tree_ok((#[trigger] fields[i]).1),
    ensures
        fields_ok(fields, k),
    decreases k,
{
    if k > 0 {
        lemma_fields_ok_each(fields, k - 1);
    }
}

pub(crate) proof fn lemma_items_ok_at(items: Seq<JsonTree>, k: int, i: int)
    requires
        0 <= i < k <= items.len(),
        items_ok(items, k),
    ensures
        tree_ok(items[i]),
    decreases k,
{
    if i < k - 1 {
        lemma_items_ok_at(items, k - 1, i);
    }
}

pub(crate) proof fn lemma_fields_ok_at(fields: Seq<(Seq<char>, JsonTree)>, k: int, i: int)
    requires
        0 <= i < k <= fields.len(),
        fields_ok(fields, k),
    ensures
        tree_ok(fields[i].1),
    decreases k,
{
    if i < k - 1 {
        lemma_fields_ok_at(fields, k - 1, i);
    }
}

/// The names ascend in the first `k` items where they do one by one.
pub proof fn lemma_items_sorted_each(items: Seq<JsonTree>, k: int)
    requires
        0 <= k <= items.len(),
        forall|i: int| 0 <= i < k ==> sorted_tree(#[trigger] items[i]),
    ensures
        items_sorted(items, k),
    decreases k,
{
    if k > 0 {
        lemma_items_sorted_each(items, k - 1);
    }
}

/// The names ascend in the first `k` fields where they do one by one, and from one field
/// to the next.
pub proof fn lemma_fields_sorted_each(fields: Seq<(Seq<char>, JsonTree)>, k: int)
    requires
        0 <= k <= fields.len(),
        forall|i: int| 0 <= i < k ==> sorted_tree((#[trigger] fields[i]).1),
        forall|i: int, j: int|
            0 <= i < k && j == i + 1 && j < k ==> text_before(
                (#[trigger] fields[i]).0,
                (#[trigger] fields[j]).0,
            ),
    ensures
        fields_sorted(fields, k),
    decreases k,
{
    if k > 0 {
        lemma_fields_sorted_each(fields, k - 1);
        if k > 1 {
            assert(text_before(fields[k - 2].0, fields[k - 1].0));
        }
    }
}

// ---------------------------------------------------------------------------
// Sequences
// ---------------------------------------------------------------------------

/// A common prefix can be taken off.
proof fn lemma_cancel(p: Seq<char>, x: Seq<char>, y: Seq<char>)
    requires
        p + x == p + y,
    ensures
        x == y,
{
    assert(x =~= (p + x).skip(p.len() as int));
    assert(y =~= (p + y).skip(p.len() as int));
}

/// What follows a value is nothing, or a comma or closing bracket.
spec fn stop(x: Seq<char>) -> bool {
    x.len() == 0 || x[0] == ',' || x[0] == ']' || x[0] == '}'
}

// ---------------------------------------------------------------------------
// Numbers
// ---------------------------------------------------------------------------

pub(crate) proof fn lemma_decimal_chars(n: nat)
    ensures
        decimal(n).len() > 0,
        forall|i: int| 0 <= i < decimal(n).len() ==> '0' <= #[trigger] decimal(n)[i] <= '9',
    decreases n,
{
    if n >= 10 {
        lemma_decimal_chars(n / 10);
    }
}

pub(crate) proof fn lemma_decimal_injective(n: nat, m: nat)
    requires
        decimal(n) == decimal(m),
    ensures
        n == m,
    decreases n,
{
    lemma_decimal_chars(n / 10);
    lemma_decimal_chars(m / 10);
    let (s, t) = (decimal(n), decimal(m));
    assert(s.last() == digit((n % 10) as int));
    assert(t.last() == digit((m % 10) as int));
    assert(n % 10 == m % 10);
    if n < 10 {
        if m >= 10 {
            assert(t.len() >= 2);
        }
    } else {
        if m < 10 {
            assert(s.len() >= 2);
        } else {
            assert(s.drop_last() =~= decimal(n / 10));
            assert(t.drop_last() =~= decimal(m / 10));
            lemma_decimal_injective(n / 10, m / 10);
        }
    }
}

proof fn lemma_signed_decimal_chars(n: int)
    ensures
        signed_decimal(n).len() > 0,
        forall|i: int|
            0 <= i < signed_decimal(n).len() ==> ('0' <= #[trigger] signed_decimal(n)[i] <= '9'
                || signed_decimal(n)[i] == '-'),
{
    if n < 0 {
        lemma_decimal_chars((-n) as nat);
    } else {
        lemma_decimal_chars(n as nat);
    }
}

/// An integer is written in one way, and no other integer is written so.
pub proof fn law_decimal_injective(n: int, m: int)
    requires
        signed_decimal(n) == signed_decimal(m),
    ensures
        n == m,
{
    let (s, t) = (signed_decimal(n), signed_decimal(m));
    lemma_signed_decimal_chars(n);
    lemma_signed_decimal_chars(m);
    assert(s[0] == t[0]);
    if n < 0 {
        lemma_decimal_chars((-n) as nat);
        if m >= 0 {
            lemma_decimal_chars(m as nat);
            assert('0' <= t[0]);
        } else {
            lemma_cancel(seq!['-'], decimal((-n) as nat), decimal((-m) as nat));
            lemma_decimal_injective((-n) as nat, (-m) as nat);
        }
    } else {
        lemma_decimal_chars(n as nat);
        if m < 0 {
            assert('0' <= s[0]);
        } else {
            lemma_decimal_injective(n as nat, m as nat);
        }
    }
}

/// A number ends where its characters end.
proof fn lemma_token(s: Seq<char>, x: Seq<char>, t: Seq<char>, y: Seq<char>)
    requires
        forall|i: int| 0 <= i < s.len() ==> number_char(#[trigger] s[i]),
        forall|i: int| 0 <= i < t.len() ==> number_char(#[trigger] t[i]),
        stop(x),
        stop(y),
        s + x == t + y,
    ensures
        s == t,
        x == y,
{
    if s.len() < t.len() {
        assert((s + x).len() == (t + y).len());
        assert((s + x)[s.len() as int] == x[0]);
        assert((t + y)[s.len() as int] == t[s.len() as int]);
        assert(number_char(t[s.len() as int]));
        assert(false);
    }
    if t.len() < s.len() {
        assert((s + x).len() == (t + y).len());
        assert((t + y)[t.len() as int] == y[0]);
        assert((s + x)[t.len() as int] == s[t.len() as int]);
        assert(number_char(s[t.len() as int]));
        assert(false);
    }
    assert(s =~= (s + x).take(s.len() as int));
    assert(t =~= (t + y).take(t.len() as int));
    lemma_cancel(s, x, y);
}

// ---------------------------------------------------------------------------
// Strings
// ---------------------------------------------------------------------------

proof fn lemma_escaped_shape(c: char)
    ensures
        escaped(c).len() > 0,
        escaped(c)[0] != '"',
        escaped(c)[0] == '\\' || escaped(c) == seq![c],
        escaped(c)[0] == '\\' ==> escaped(c).len() >= 2,
        escaped(c).len() == 6 <==> (escaped(c)[0] == '\\' && escaped(c)[1] == 'u'),
        escaped(c).len() == 1 || escaped(c).len() == 2 || escaped(c).len() == 6,
{
}

proof fn lemma_hex_injective(n: int, m: int)
    requires
        0 <= n < 16,
        0 <= m < 16,
        hex_digit(n) == hex_digit(m),
    ensures
        n == m,
{
}

/// One escaped character can be told from what follows it.
proof fn lemma_escaped_prefix(c: char, x: Seq<char>, d: char, y: Seq<char>)
    requires
        escaped(c) + x == escaped(d) + y,
    ensures
        c == d,
        x == y,
{
    lemma_escaped_shape(c);
    lemma_escaped_shape(d);
    let (s, t) = (escaped(c), escaped(d));
    let u = s + x;
    assert(u[0] == s[0]);
    assert((t + y)[0] == t[0]);
    if s[0] == '\\' {
        assert(u[1] == s[1]);
        assert((t + y)[1] == t[1]) by {
            if t.len() == 1 {
                assert(t == seq![d]);
                assert(d == '\\');
                assert(t[0] == '\\' ==> t.len() >= 2);
            }
        }
        assert(s.len() == t.len());
        if s.len() == 6 {
            assert(u[4] == s[4] && u[5] == s[5]);
            assert((t + y)[4] == t[4] && (t + y)[5] == t[5]);
            lemma_hex_injective(c as int / 16, d as int / 16);
            lemma_hex_injective(c as int % 16, d as int % 16);
            assert(c as int == d as int);
        }
        assert(c == d);
    } else {
        assert(s == seq![c]);
        assert(t[0] != '\\');
        assert(t == seq![d]);
        assert(c == d);
    }
    lemma_cancel(s, x, y);
}

/// The closing quote of a string can be found.
proof fn lemma_escaped_text_prefix(s: Seq<char>, x: Seq<char>, t: Seq<char>, y: Seq<char>)
    requires
        escaped_text(s) + (seq!['"'] + x) == escaped_text(t) + (seq!['"'] + y),
    ensures
        s == t,
        x == y,
    decreases s.len(),
{
    let qx = seq!['"'] + x;
    let qy = seq!['"'] + y;
    if s.len() == 0 {
        assert(escaped_text(s) + qx =~= qx);
        if t.len() == 0 {
            assert(escaped_text(t) + qy =~= qy);
            lemma_cancel(seq!['"'], x, y);
            assert(s =~= t);
        } else {
            lemma_escaped_shape(t[0]);
            assert((escaped_text(t) + qy)[0] == escaped(t[0])[0]);
            assert(qx[0] == '"');
        }
    } else {
        lemma_escaped_shape(s[0]);
        assert((escaped_text(s) + qx)[0] == escaped(s[0])[0]);
        if t.len() == 0 {
            assert(escaped_text(t) + qy =~= qy);
            assert(qy[0] == '"');
        } else {
            let s1 = s.drop_first();
            let t1 = t.drop_first();
            assert(escaped_text(s) + qx =~= escaped(s[0]) + (escaped_text(s1) + qx));
            assert(escaped_text(t) + qy =~= escaped(t[0]) + (escaped_text(t1) + qy));
            lemma_escaped_prefix(s[0], escaped_text(s1) + qx, t[0], escaped_text(t1) + qy);
            lemma_escaped_text_prefix(s1, x, t1, y);
            assert(s =~= seq![s[0]] + s1);
            assert(t =~= seq![t[0]] + t1);
        }
    }
}

/// A string can be told from what follows it.
proof fn lemma_quoted_prefix(s: Seq<char>, x: Seq<char>, t: Seq<char>, y: Seq<char>)
    requires
        quoted(s) + x == quoted(t) + y,
    ensures
        s == t,
        x == y,
{
    let q = seq!['"'];
    assert(quoted(s) + x =~= q + (escaped_text(s) + (q + x)));
    assert(quoted(t) + y =~= q + (escaped_text(t) + (q + y)));
    lemma_cancel(q, escaped_text(s) + (q + x), escaped_text(t) + (q + y));
    lemma_escaped_text_prefix(s, x, t, y);
}

/// A text is quoted in one way, and no other text is quoted so.
pub proof fn law_quoted_injective(s: Seq<char>, t: Seq<char>)
    requires
        quoted(s) == quoted(t),
    ensures
        s == t,
{
    let none = Seq::<char>::empty();
    assert(quoted(s) + none =~= quoted(s));
    assert(quoted(t) + none =~= quoted(t));
    lemma_quoted_prefix(s, none, t, none);
}

// ---------------------------------------------------------------------------
// Values
// ---------------------------------------------------------------------------

/// Which kind of value a text starts.
spec fn kind(t: JsonTree) -> int {
    match t {
        JsonTree::Null => 0,
        JsonTree::Bool(b) => if b {
            1
        } else {
            2
        },
        JsonTree::Number(_) => 3,
        JsonTree::Fraction(_) => 3,
        JsonTree::Text(_) => 4,
        JsonTree::Array(_) => 5,
        JsonTree::Object(_) => 6,
    }
}

/// Which kind of value starts with a character.
spec fn kind_of(c: char) -> int {
    if c == 'n' {
        0
    } else if c == 't' {
        1
    } else if c == 'f' {
        2
    } else if number_char(c) {
        3
    } else if c == '"' {
        4
    } else if c == '[' {
        5
    } else if c == '{' {
        6
    } else {
        7
    }
}

proof fn lemma_text_first(t: JsonTree)
    requires
        tree_ok(t),
    ensures
        json_text(t).len() > 0,
        kind_of(json_text(t)[0]) == kind(t),
{
    reveal_strlit("null");
    reveal_strlit("true");
    reveal_strlit("false");
    match t {
        JsonTree::Number(n) => {
            lemma_signed_decimal_chars(n);
            assert(json_text(t)[0] == signed_decimal(n)[0]);
        },
        _ => {},
    }
}

/// A value can be told from what follows it.
proof fn lemma_text_prefix(a: JsonTree, x: Seq<char>, b: JsonTree, y: Seq<char>)
    requires
        tree_ok(a),
        tree_ok(b),
        stop(x),
        stop(y),
        json_text(a) + x == json_text(b) + y,
    ensures
        a == b,
        x == y,
    decreases a, 0int,
{
    lemma_text_first(a);
    lemma_text_first(b);
    let (s, t) = (json_text(a), json_text(b));
    assert((s + x)[0] == s[0]);
    assert((t + y)[0] == t[0]);
    assert(kind(a) == kind(b));
    match (a, b) {
        (JsonTree::Number(n), JsonTree::Number(m)) => {
            lemma_signed_decimal_chars(n);
            lemma_signed_decimal_chars(m);
            lemma_token(s, x, t, y);
            law_decimal_injective(n, m);
        },
        (JsonTree::Number(n), JsonTree::Fraction(f)) => {
            lemma_signed_decimal_chars(n);
            lemma_token(s, x, t, y);
            let i = choose|i: int|
                0 <= i < f.len() && (#[trigger] f[i] == '.' || f[i] == 'e' || f[i] == 'E');
            assert(signed_decimal(n)[i] == f[i]);
            assert(false);
        },
        (JsonTree::Fraction(f), JsonTree::Number(n)) => {
            lemma_signed_decimal_chars(n);
            lemma_token(s, x, t, y);
            let i = choose|i: int|
                0 <= i < f.len() && (#[trigger] f[i] == '.' || f[i] == 'e' || f[i] == 'E');
            assert(signed_decimal(n)[i] == f[i]);
            assert(false);
        },
        (JsonTree::Fraction(f), JsonTree::Fraction(g)) => {
            lemma_token(s, x, t, y);
        },
        (JsonTree::Text(f), JsonTree::Text(g)) => {
            lemma_quoted_prefix(f, x, g, y);
        },
        (JsonTree::Array(f), JsonTree::Array(g)) => {
            let open = seq!['['];
            let close = seq![']'];
            assert(s + x =~= open + (items_text(f, 0) + (close + x)));
            assert(t + y =~= open + (items_text(g, 0) + (close + y)));
            lemma_cancel(
                open,
                items_text(f, 0) + (close + x),
                items_text(g, 0) + (close + y),
            );
            lemma_items_prefix(f, x, g, y, 0);
            assert(f =~= g);
        },
        (JsonTree::Object(f), JsonTree::Object(g)) => {
            let open = seq!['{'];
            let close = seq!['}'];
            assert(s + x =~= open + (fields_text(f, 0) + (close + x)));
            assert(t + y =~= open + (fields_text(g, 0) + (close + y)));
            lemma_cancel(
                open,
                fields_text(f, 0) + (close + x),
                fields_text(g, 0) + (close + y),
            );
            lemma_fields_prefix(f, x, g, y, 0);
            assert(f =~= g);
        },
        _ => {
            assert(a == b);
            lemma_cancel(s, x, y);
        },
    }
}

/// The items of an array can be told from what follows the array.
proof fn lemma_items_prefix(
    f: Seq<JsonTree>,
    x: Seq<char>,
    g: Seq<JsonTree>,
    y: Seq<char>,
    i: int,
)
    requires
        0 <= i <= f.len(),
        i <= g.len(),
        i > 0 ==> i < f.len() && i < g.len(),
        items_ok(f, f.len() as int),
        items_ok(g, g.len() as int),
        items_text(f, i) + (seq![']'] + x) == items_text(g, i) + (seq![']'] + y),
    ensures
        f.len() == g.len(),
        forall|j: int| i <= j < f.len() ==> #[trigger] f[j] == g[j],
        x == y,
    decreases f, f.len() - i,
{
    let cx = seq![']'] + x;
    let cy = seq![']'] + y;
    if i < f.len() {
        lemma_items_ok_at(f, f.len() as int, i);
        lemma_text_first(f[i]);
        assert((items_text(f, i) + cx)[0] == json_text(f[i])[0]);
    } else {
        assert(items_text(f, i) + cx =~= cx);
        assert(cx[0] == ']');
    }
    if i < g.len() {
        lemma_items_ok_at(g, g.len() as int, i);
        lemma_text_first(g[i]);
        assert((items_text(g, i) + cy)[0] == json_text(g[i])[0]);
    } else {
        assert(items_text(g, i) + cy =~= cy);
        assert(cy[0] == ']');
    }
    if i < f.len() && i < g.len() {
        let more_f = if i + 1 < f.len() {
            seq![','] + (items_text(f, i + 1) + cx)
        } else {
            cx
        };
        let more_g = if i + 1 < g.len() {
            seq![','] + (items_text(g, i + 1) + cy)
        } else {
            cy
        };
        assert(items_text(f, i) + cx =~= json_text(f[i]) + more_f);
        assert(items_text(g, i) + cy =~= json_text(g[i]) + more_g);
        lemma_text_prefix(f[i], more_f, g[i], more_g);
        assert(more_f[0] == more_g[0]);
        if i + 1 < f.len() {
            assert(i + 1 < g.len());
            lemma_cancel(seq![','], items_text(f, i + 1) + cx, items_text(g, i + 1) + cy);
            lemma_items_prefix(f, x, g, y, i + 1);
        } else {
            assert(i + 1 == g.len());
            lemma_cancel(seq![']'], x, y);
        }
    } else {
        assert(f.len() == i && g.len() == i);
        lemma_cancel(seq![']'], x, y);
    }
}

/// What stands behind the value of the field with index `i`, up to the end.
spec fn after_field(f: Seq<(Seq<char>, JsonTree)>, i: int, close: Seq<char>) -> Seq<char> {
    if i + 1 < f.len() {
        seq![','] + (fields_text(f, i + 1) + close)
    } else {
        close
    }
}

/// A field is a name, a colon, a value and what stands behind it.
proof fn lemma_fields_unfold(f: Seq<(Seq<char>, JsonTree)>, i: int, close: Seq<char>)
    requires
        0 <= i < f.len(),
    ensures
        fields_text(f, i) + close == quoted(f[i].0) + (seq![':'] + (json_text(f[i].1)
            + after_field(f, i, close))),
        (fields_text(f, i) + close)[0] == '"',
{
    let name = quoted(f[i].0);
    let value = json_text(f[i].1);
    if i + 1 < f.len() {
        let rest = fields_text(f, i + 1);
        assert(fields_text(f, i) == name + seq![':'] + value + (seq![','] + rest));
        assert((name + seq![':'] + value + (seq![','] + rest)) + close =~= name + (seq![':'] + (
        value + (seq![','] + (rest + close)))));
    } else {
        assert(fields_text(f, i) == name + seq![':'] + value + Seq::<char>::empty());
        assert((name + seq![':'] + value + Seq::<char>::empty()) + close =~= name + (seq![':'] + (
        value + close)));
    }
}

/// The fields of an object can be told from what follows the object.
proof fn lemma_fields_prefix(
    f: Seq<(Seq<char>, JsonTree)>,
    x: Seq<char>,
    g: Seq<(Seq<char>, JsonTree)>,
    y: Seq<char>,
    i: int,
)
    requires
        0 <= i <= f.len(),
        i <= g.len(),
        i > 0 ==> i < f.len() && i < g.len(),
        fields_ok(f, f.len() as int),
        fields_ok(g, g.len() as int),
        fields_text(f, i) + (seq!['}'] + x) == fields_text(g, i) + (seq!['}'] + y),
    ensures
        f.len() == g.len(),
        forall|j: int| i <= j < f.len() ==> #[trigger] f[j] == g[j],
        x == y,
    decreases f, f.len() - i,
{
    let cx = seq!['}'] + x;
    let cy = seq!['}'] + y;
    if i < f.len() {
        lemma_fields_unfold(f, i, cx);
    } else {
        assert(fields_text(f, i) + cx =~= cx);
        assert(cx[0] == '}');
    }
    if i < g.len() {
        lemma_fields_unfold(g, i, cy);
    } else {
        assert(fields_text(g, i) + cy =~= cy);
        assert(cy[0] == '}');
    }
    if i < f.len() && i < g.len() {
        let more_f = after_field(f, i, cx);
        let more_g = after_field(g, i, cy);
        let value_f = json_text(f[i].1) + more_f;
        let value_g = json_text(g[i].1) + more_g;
        lemma_quoted_prefix(f[i].0, seq![':'] + value_f, g[i].0, seq![':'] + value_g);
        lemma_cancel(seq![':'], value_f, value_g);
        lemma_fields_ok_at(f, f.len() as int, i);
        lemma_fields_ok_at(g, g.len() as int, i);
        assert(decreases_to!(f => f[i]));
        assert(decreases_to!(f[i] => f[i].1));
        assert(stop(more_f));
        assert(stop(more_g));
        lemma_text_prefix(f[i].1, more_f, g[i].1, more_g);
        assert(f[i] == g[i]);
        if i + 1 < f.len() {
            assert(more_f[0] == ',');
            if i + 1 >= g.len() {
                assert(more_g[0] == '}');
            }
            lemma_cancel(seq![','], fields_text(f, i + 1) + cx, fields_text(g, i + 1) + cy);
            lemma_fields_prefix(f, x, g, y, i + 1);
        } else {
            assert(more_f[0] == '}');
            if i + 1 < g.len() {
                assert(more_g[0] == ',');
            }
            lemma_cancel(seq!['}'], x, y);
        }
    } else {
        assert(f.len() == i && g.len() == i);
        lemma_cancel(seq!['}'], x, y);
    }
}

/// The canonical text of a value belongs to no other value.
pub proof fn law_text_injective(a: JsonTree, b: JsonTree)
    requires
        tree_ok(a),
        tree_ok(b),
        json_text(a) == json_text(b),
    ensures
        a == b,
{
    let none = Seq::<char>::empty();
    assert(json_text(a) + none =~= json_text(a));
    assert(json_text(b) + none =~= json_text(b));
    lemma_text_prefix(a, none, b, none);
}

// ---------------------------------------------------------------------------
// Equality
// ---------------------------------------------------------------------------

/// No zero with a fraction is written with a minus sign.
pub open spec fn unsigned_zeros(t: JsonTree) -> bool
    decreases t, 0int,
{
    match t {
        JsonTree::Fraction(s) => s != "-0.0"@,
        JsonTree::Array(items) => items_unsigned(items, items.len() as int),
        JsonTree::Object(fields) => fields_unsigned(fields, fields.len() as int),
        _ => true,
    }
}

/// The same of the first `k` items.
pub open spec fn items_unsigned(items: Seq<JsonTree>, k: int) -> bool
    decreases items, k,
{
    if 0 < k <= items.len() {
        items_unsigned(items, k - 1) && unsigned_zeros(items[k - 1])
    } else {
        true
    }
}

/// The same of the first `k` fields.
pub open spec fn fields_unsigned(fields: Seq<(Seq<char>, JsonTree)>, k: int) -> bool
    decreases fields, k,
{
    if 0 < k <= fields.len() {
        fields_unsigned(fields, k - 1) && unsigned_zeros(fields[k - 1].1)
    } else {
        true
    }
}

/// The first `k` items are such where they are one by one.
pub(crate) proof fn lemma_items_unsigned_each(items: Seq<JsonTree>, k: int)
    requires
        0 <= k <= items.len(),
        forall|i: int| 0 <= i < k ==> unsigned_zeros(#[trigger] items[i]),
    ensures
        items_unsigned(items, k),
    decreases k,
{
    if k > 0 {
        lemma_items_unsigned_each(items, k - 1);
    }
}

/// The first `k` fields are such where they are one by one.
pub(crate) proof fn lemma_fields_unsigned_each(fields: Seq<(Seq<char>, JsonTree)>, k: int)
    requires
        0 <= k <= fields.len(),
        forall|i: int| 0 <= i < k ==> unsigned_zeros((#[trigger] fields[i]).1),
    ensures
        fields_unsigned(fields, k),
    decreases k,
{
    if k > 0 {
        lemma_fields_unsigned_each(fields, k - 1);
    }
}

/// Every value is equal to itself.
pub proof fn law_same_reflexive(t: JsonTree)
    ensures
        same_tree(t, t),
    decreases t, 0int,
{
    match t {
        JsonTree::Array(items) => lemma_same_items_reflexive(items, items.len() as int),
        JsonTree::Object(fields) => lemma_same_fields_reflexive(fields, fields.len() as int),
        _ => {},
    }
}

proof fn lemma_same_items_reflexive(items: Seq<JsonTree>, k: int)
    ensures
        same_items(items, items, k),
    decreases items, k,
{
    if 0 < k <= items.len() {
        lemma_same_items_reflexive(items, k - 1);
        law_same_reflexive(items[k - 1]);
    }
}

proof fn lemma_same_fields_reflexive(fields: Seq<(Seq<char>, JsonTree)>, k: int)
    ensures
        same_fields(fields, fields, k),
    decreases fields, k,
{
    if 0 < k <= fields.len() {
        lemma_same_fields_reflexive(fields, k - 1);
        assert(decreases_to!(fields => fields[k - 1]));
        assert(decreases_to!(fields[k - 1] => fields[k - 1].1));
        law_same_reflexive(fields[k - 1].1);
    }
}

/// Equality does not depend on the order of the two values.
pub proof fn law_same_symmetric(a: JsonTree, b: JsonTree)
    requires
        same_tree(a, b),
    ensures
        same_tree(b, a),
    decreases a, 0int,
{
    match (a, b) {
        (JsonTree::Array(x), JsonTree::Array(y)) => lemma_same_items_symmetric(
            x,
            y,
            x.len() as int,
        ),
        (JsonTree::Object(x), JsonTree::Object(y)) => lemma_same_fields_symmetric(
            x,
            y,
            x.len() as int,
        ),
        _ => {},
    }
}

proof fn lemma_same_items_symmetric(x: Seq<JsonTree>, y: Seq<JsonTree>, k: int)
    requires
        x.len() == y.len(),
        same_items(x, y, k),
    ensures
        same_items(y, x, k),
    decreases x, k,
{
    if 0 < k <= x.len() {
        lemma_same_items_symmetric(x, y, k - 1);
        law_same_symmetric(x[k - 1], y[k - 1]);
    }
}

proof fn lemma_same_fields_symmetric(
    x: Seq<(Seq<char>, JsonTree)>,
    y: Seq<(Seq<char>, JsonTree)>,
    k: int,
)
    requires
        x.len() == y.len(),
        same_fields(x, y, k),
    ensures
        same_fields(y, x, k),
    decreases x, k,
{
    if 0 < k <= x.len() {
        lemma_same_fields_symmetric(x, y, k - 1);
        assert(decreases_to!(x => x[k - 1]));
        assert(decreases_to!(x[k - 1] => x[k - 1].1));
        law_same_symmetric(x[k - 1].1, y[k - 1].1);
    }
}

/// Values that are equal to the same value are equal to each other.
pub proof fn law_same_transitive(a: JsonTree, b: JsonTree, c: JsonTree)
    requires
        same_tree(a, b),
        same_tree(b, c),
    ensures
        same_tree(a, c),
    decreases a, 0int,
{
    match (a, b, c) {
        (JsonTree::Array(x), JsonTree::Array(y), JsonTree::Array(z)) => {
            lemma_same_items_transitive(x, y, z, x.len() as int);
        },
        (JsonTree::Object(x), JsonTree::Object(y), JsonTree::Object(z)) => {
            lemma_same_fields_transitive(x, y, z, x.len() as int);
        },
        _ => {},
    }
}

proof fn lemma_same_items_transitive(
    x: Seq<JsonTree>,
    y: Seq<JsonTree>,
    z: Seq<JsonTree>,
    k: int,
)
    requires
        x.len() == y.len(),
        y.len() == z.len(),
        same_items(x, y, k),
        same_items(y, z, k),
    ensures
        same_items(x, z, k),
    decreases x, k,
{
    if 0 < k <= x.len() {
        lemma_same_items_transitive(x, y, z, k - 1);
        law_same_transitive(x[k - 1], y[k - 1], z[k - 1]);
    }
}

proof fn lemma_same_fields_transitive(
    x: Seq<(Seq<char>, JsonTree)>,
    y: Seq<(Seq<char>, JsonTree)>,
    z: Seq<(Seq<char>, JsonTree)>,
    k: int,
)
    requires
        x.len() == y.len(),
        y.len() == z.len(),
        same_fields(x, y, k),
        same_fields(y, z, k),
    ensures
        same_fields(x, z, k),
    decreases x, k,
{
    if 0 < k <= x.len() {
        lemma_same_fields_transitive(x, y, z, k - 1);
        assert(decreases_to!(x => x[k - 1]));
        assert(decreases_to!(x[k - 1] => x[k - 1].1));
        law_same_transitive(x[k - 1].1, y[k - 1].1, z[k - 1].1);
    }
}

/// Arrays are equal in their first `k` items where these are equal one by one.
pub(crate) proof fn lemma_same_items_each(x: Seq<JsonTree>, y: Seq<JsonTree>, k: int)
    requires
        0 <= k <= x.len(),
    ensures
        same_items(x, y, k) <==> forall|i: int|
            0 <= i < k ==> same_tree(#[trigger] x[i], y[i]),
    decreases k,
{
    if k > 0 {
        lemma_same_items_each(x, y, k - 1);
    }
}

/// Objects are equal in their first `k` fields where these are equal one by one.
pub(crate) proof fn lemma_same_fields_each(
    x: Seq<(Seq<char>, JsonTree)>,
    y: Seq<(Seq<char>, JsonTree)>,
    k: int,
)
    requires
        0 <= k <= x.len(),
    ensures
        same_fields(x, y, k) <==> forall|i: int|
            0 <= i < k ==> (#[trigger] x[i]).0 == y[i].0 && same_tree(x[i].1, y[i].1),
    decreases k,
{
    if k > 0 {
        lemma_same_fields_each(x, y, k - 1);
    }
}

/// Without a negative zero, values that are equal as JSON are alike in everything.
pub proof fn law_same_is_equal(a: JsonTree, b: JsonTree)
    requires
        unsigned_zeros(a),
        unsigned_zeros(b),
        same_tree(a, b),
    ensures
        a == b,
    decreases a, 0int,
{
    match (a, b) {
        (JsonTree::Array(x), JsonTree::Array(y)) => {
            lemma_same_items_equal(x, y, x.len() as int);
            assert(x =~= y);
        },
        (JsonTree::Object(x), JsonTree::Object(y)) => {
            lemma_same_fields_equal(x, y, x.len() as int);
            assert(x =~= y);
        },
        _ => {},
    }
}

proof fn lemma_same_items_equal(x: Seq<JsonTree>, y: Seq<JsonTree>, k: int)
    requires
        0 <= k <= x.len(),
        x.len() == y.len(),
        items_unsigned(x, k),
        items_unsigned(y, k),
        same_items(x, y, k),
    ensures
        forall|i: int| 0 <= i < k ==> #[trigger] x[i] == y[i],
    decreases x, k,
{
    if 0 < k {
        lemma_same_items_equal(x, y, k - 1);
        law_same_is_equal(x[k - 1], y[k - 1]);
    }
}

proof fn lemma_same_fields_equal(
    x: Seq<(Seq<char>, JsonTree)>,
    y: Seq<(Seq<char>, JsonTree)>,
    k: int,
)
    requires
        0 <= k <= x.len(),
        x.len() == y.len(),
        fields_unsigned(x, k),
        fields_unsigned(y, k),
        same_fields(x, y, k),
    ensures
        forall|i: int| 0 <= i < k ==> #[trigger] x[i] == y[i],
    decreases x, k,
{
    if 0 < k {
        lemma_same_fields_equal(x, y, k - 1);
        assert(decreases_to!(x => x[k - 1]));
        assert(decreases_to!(x[k - 1] => x[k - 1].1));
        law_same_is_equal(x[k - 1].1, y[k - 1].1);
    }
}

// ---------------------------------------------------------------------------
// One line
// ---------------------------------------------------------------------------

/// A text without control characters, line ends among them.
pub open spec fn printable(s: Seq<char>) -> bool {
    forall|i: int| 0 <= i < s.len() ==> (#[trigger] s[i] as int) >= 32
}

proof fn lemma_escaped_char_printable(c: char)
    ensures
        printable(escaped(c)),
{
    lemma_escaped_shape(c);
    let e = escaped(c);
    assert(hex_digit(c as int / 16) as int >= 32 || c as int >= 32) by {
        if (c as int) < 32 {
            assert(c as int / 16 == 0 || c as int / 16 == 1);
        }
    }
    assert(hex_digit(c as int % 16) as int >= 32);
    assert forall|i: int| 0 <= i < e.len() implies (#[trigger] e[i] as int) >= 32 by {
        if e.len() == 6 {
            assert(e[0] == '\\' && e[1] == 'u' && e[2] == '0' && e[3] == '0');
            assert(e[4] == hex_digit(c as int / 16) && e[5] == hex_digit(c as int % 16));
        } else if e.len() == 2 {
            assert(e[0] == '\\');
            assert(i == 0 || i == 1);
        } else {
            assert(e[i] == c);
        }
    }
}

proof fn lemma_escaped_printable(s: Seq<char>)
    ensures
        printable(escaped_text(s)),
    decreases s.len(),
{
    if s.len() > 0 {
        lemma_escaped_printable(s.drop_first());
        let (head, tail) = (escaped(s[0]), escaped_text(s.drop_first()));
        lemma_escaped_char_printable(s[0]);
        assert forall|i: int| 0 <= i < escaped_text(s).len() implies (#[trigger] escaped_text(
            s,
        )[i] as int) >= 32 by {
            if i < head.len() {
                assert(escaped_text(s)[i] == head[i]);
            } else {
                assert(escaped_text(s)[i] == tail[i - head.len()]);
            }
        }
    }
}

proof fn lemma_printable_concat(s: Seq<char>, t: Seq<char>)
    requires
        printable(s),
        printable(t),
    ensures
        printable(s + t),
{
    assert forall|i: int| 0 <= i < (s + t).len() implies (#[trigger] (s + t)[i] as int) >= 32 by {
        if i < s.len() {
            assert((s + t)[i] == s[i]);
        } else {
            assert((s + t)[i] == t[i - s.len()]);
        }
    }
}

proof fn lemma_quoted_printable(s: Seq<char>)
    ensures
        printable(quoted(s)),
{
    lemma_escaped_printable(s);
    lemma_printable_concat(seq!['"'], escaped_text(s));
    lemma_printable_concat(seq!['"'] + escaped_text(s), seq!['"']);
}

/// The canonical text of a value is one line.
pub proof fn law_text_is_one_line(t: JsonTree)
    requires
        tree_ok(t),
    ensures
        json_text(t).len() > 0,
        printable(json_text(t)),
        json_text(t)[0] as int > 32,
        (json_text(t)[0] as int) < 127,
    decreases t, 0int,
{
    lemma_text_first(t);
    reveal_strlit("null");
    reveal_strlit("true");
    reveal_strlit("false");
    match t {
        JsonTree::Number(n) => {
            lemma_signed_decimal_chars(n);
            assert(printable(signed_decimal(n)));
        },
        JsonTree::Text(s) => lemma_quoted_printable(s),
        JsonTree::Array(items) => {
            lemma_items_printable(items, 0);
            lemma_printable_concat(seq!['['], items_text(items, 0));
            lemma_printable_concat(seq!['['] + items_text(items, 0), seq![']']);
        },
        JsonTree::Object(fields) => {
            lemma_fields_printable(fields, 0);
            lemma_printable_concat(seq!['{'], fields_text(fields, 0));
            lemma_printable_concat(seq!['{'] + fields_text(fields, 0), seq!['}']);
        },
        _ => {},
    }
}

proof fn lemma_items_printable(items: Seq<JsonTree>, i: int)
    requires
        items_ok(items, items.len() as int),
    ensures
        printable(items_text(items, i)),
    decreases items, items.len() - i,
{
    if 0 <= i < items.len() {
        lemma_items_ok_at(items, items.len() as int, i);
        law_text_is_one_line(items[i]);
        let rest = if i + 1 < items.len() {
            seq![','] + items_text(items, i + 1)
        } else {
            Seq::empty()
        };
        if i + 1 < items.len() {
            lemma_items_printable(items, i + 1);
            lemma_printable_concat(seq![','], items_text(items, i + 1));
        }
        lemma_printable_concat(json_text(items[i]), rest);
    }
}

proof fn lemma_fields_printable(fields: Seq<(Seq<char>, JsonTree)>, i: int)
    requires
        fields_ok(fields, fields.len() as int),
    ensures
        printable(fields_text(fields, i)),
    decreases fields, fields.len() - i,
{
    if 0 <= i < fields.len() {
        lemma_fields_ok_at(fields, fields.len() as int, i);
        assert(decreases_to!(fields => fields[i]));
        assert(decreases_to!(fields[i] => fields[i].1));
        law_text_is_one_line(fields[i].1);
        lemma_quoted_printable(fields[i].0);
        let name = quoted(fields[i].0) + seq![':'];
        let rest = if i + 1 < fields.len() {
            seq![','] + fields_text(fields, i + 1)
        } else {
            Seq::empty()
        };
        if i + 1 < fields.len() {
            lemma_fields_printable(fields, i + 1);
            lemma_printable_concat(seq![','], fields_text(fields, i + 1));
        }
        lemma_printable_concat(quoted(fields[i].0), seq![':']);
        lemma_printable_concat(name, json_text(fields[i].1));
        lemma_printable_concat(name + json_text(fields[i].1), rest);
    }
}

} // verus!

//! Small facts and functions about text: decimal numbers, order, lines.

use vstd::prelude::*;
use vstd::string::*;

verus! {

/// The decimal digit of a number below ten.
pub open spec fn digit(n: int) -> char {
    (48 + n) as char
}

/// A natural number in decimal notation.
pub open spec fn decimal(n: nat) -> Seq<char>
    decreases n,
{
    if n < 10 {
        seq![digit(n as int)]
    } else {
        decimal(n / 10).push(digit((n % 10) as int))
    }
}

/// An integer in decimal notation.
pub open spec fn signed_decimal(n: int) -> Seq<char> {
    if n < 0 {
        seq!['-'] + decimal((-n) as nat)
    } else {
        decimal(n as nat)
    }
}

/// The texts of a list of strings.
pub open spec fn texts(strings: Seq<String>) -> Seq<Seq<char>> {
    strings.map_values(|s: String| s@)
}

/// The text of one digit.
fn digit_text(n: u8) -> (r: &'static str)
    requires
        n < 10,
    ensures
        r@ == seq![digit(n as int)],
{
    proof {
        reveal_strlit("0");
        reveal_strlit("1");
        reveal_strlit("2");
        reveal_strlit("3");
        reveal_strlit("4");
        reveal_strlit("5");
        reveal_strlit("6");
        reveal_strlit("7");
        reveal_strlit("8");
        reveal_strlit("9");
    }
    match n {
        0 => "0",
        1 => "1",
        2 => "2",
        3 => "3",
        4 => "4",
        5 => "5",
        6 => "6",
        7 => "7",
        8 => "8",
        _ => "9",
    }
}

/// A natural number in decimal notation.
pub fn decimal_text(n: u128) -> (r: String)
    ensures
        r@ == decimal(n as nat),
    decreases n,
{
    let last = digit_text((n % 10) as u8);
    if n < 10 {
        last.to_owned()
    } else {
        let mut r = decimal_text(n / 10);
        r.append(last);
        r
    }
}

/// An integer in decimal notation.
pub fn signed_decimal_text(n: i128) -> (r: String)
    ensures
        r@ == signed_decimal(n as int),
{
    if n < 0 {
        let magnitude: u128 = (-(n + 1)) as u128 + 1;
        let mut r = "-".to_owned();
        proof {
            reveal_strlit("-");
        }
        r.append(decimal_text(magnitude).as_str());
        r
    } else {
        decimal_text(n as u128)
    }
}

/// From index `i` on, the first text comes before the second in the order of their
/// characters.
pub open spec fn text_before_from(a: Seq<char>, b: Seq<char>, i: int) -> bool
    decreases b.len() - i,
{
    if i < 0 || b.len() <= i {
        false
    } else if a.len() <= i {
        true
    } else if a[i] != b[i] {
        a[i] < b[i]
    } else {
        text_before_from(a, b, i + 1)
    }
}

/// The first text comes before the second in the order of their characters.
pub open spec fn text_before(a: Seq<char>, b: Seq<char>) -> bool {
    text_before_from(a, b, 0)
}

/// The characters of a text.
pub fn chars_of(s: &str) -> (r: Vec<char>)
    ensures
        r@ == s@,
{
    let mut r: Vec<char> = Vec::new();
    for c in it: s.chars()
        invariant
            it.seq() == s@,
            r@ == s@.take(it.index() as int),
    {
        r.push(c);
        assert(s@.take(it.index() + 1) =~= s@.take(it.index() as int).push(c));
    }
    assert(s@.take(s@.len() as int) =~= s@);
    r
}

/// Whether the first text comes before the second.
pub fn comes_before(a: &str, b: &str) -> (r: bool)
    ensures
        r == text_before(a@, b@),
{
    let xs = chars_of(a);
    let ys = chars_of(b);
    let mut i: usize = 0;
    while i < ys.len()
        invariant
            i <= ys.len(),
            xs@ == a@,
            ys@ == b@,
            text_before(a@, b@) == text_before_from(a@, b@, i as int),
        decreases ys.len() - i,
    {
        if xs.len() <= i {
            return true;
        }
        if xs[i] != ys[i] {
            return xs[i] < ys[i];
        }
        i = i + 1;
    }
    false
}

/// The order of texts goes only one way, and tells different texts apart.
pub(crate) proof fn lemma_text_before_total(a: Seq<char>, b: Seq<char>, i: int)
    requires
        0 <= i <= a.len(),
        i <= b.len(),
        a.take(i) == b.take(i),
    ensures
        !(text_before_from(a, b, i) && text_before_from(b, a, i)),
        a == b <==> !text_before_from(a, b, i) && !text_before_from(b, a, i),
    decreases a.len() + b.len() - i,
{
    if i < a.len() && i < b.len() && a[i] == b[i] {
        assert(a.take(i + 1) =~= a.take(i).push(a[i]));
        assert(b.take(i + 1) =~= b.take(i).push(b[i]));
        lemma_text_before_total(a, b, i + 1);
    } else if i == a.len() && i == b.len() {
        assert(a =~= a.take(i));
        assert(b =~= b.take(i));
    } else if i < a.len() && i < b.len() {
        assert(a[i] != b[i]);
        assert(a[i] < b[i] || b[i] < a[i]);
    }
}

/// The order of texts is transitive.
pub(crate) proof fn lemma_text_before_trans(a: Seq<char>, b: Seq<char>, c: Seq<char>, i: int)
    requires
        0 <= i,
        text_before_from(a, b, i),
        text_before_from(b, c, i),
    ensures
        text_before_from(a, c, i),
    decreases b.len() - i,
{
    if i < a.len() && i < b.len() && i < c.len() && a[i] == b[i] && b[i] == c[i] {
        lemma_text_before_trans(a, b, c, i + 1);
    }
}

/// Of two texts, either they are the same or exactly one comes before the other.
pub proof fn law_text_order_total(a: Seq<char>, b: Seq<char>)
    ensures
        !(text_before(a, b) && text_before(b, a)),
        a == b <==> !text_before(a, b) && !text_before(b, a),
{
    assert(a.take(0) =~= b.take(0));
    lemma_text_before_total(a, b, 0);
}

/// The order of texts is transitive.
pub proof fn law_text_order_transitive(a: Seq<char>, b: Seq<char>, c: Seq<char>)
    requires
        text_before(a, b),
        text_before(b, c),
    ensures
        text_before(a, c),
{
    lemma_text_before_trans(a, b, c, 0);
}

/// The ten digits.
pub proof fn law_digits_are_written_so()
    ensures
        digit(0) == '0',
        digit(1) == '1',
        digit(2) == '2',
        digit(3) == '3',
        digit(4) == '4',
        digit(5) == '5',
        digit(6) == '6',
        digit(7) == '7',
        digit(8) == '8',
        digit(9) == '9',
{
}

/// A number below ten is its digit, and ten times a number and some more is the number
/// with one more digit behind it.
pub proof fn law_decimal_is_positional(n: nat, k: nat)
    requires
        k < 10,
    ensures
        decimal(k) == seq![digit(k as int)],
        n > 0 ==> decimal((10 * n + k) as nat) == decimal(n).push(digit(k as int)),
{
    let m = (10 * n + k) as nat;
    assert(m / 10 == n && m % 10 == k);
}

/// A negative number is written as a minus sign before its magnitude, any other number
/// without a sign.
pub proof fn law_sign_comes_first(n: nat)
    ensures
        signed_decimal(n as int) == decimal(n),
        n > 0 ==> signed_decimal(-(n as int)) == seq!['-'] + decimal(n),
{
}

/// The texts of a list are those of its strings, one by one.
pub proof fn law_texts_one_by_one(strings: Seq<String>)
    ensures
        texts(strings).len() == strings.len(),
        forall|i: int| 0 <= i < strings.len() ==> #[trigger] texts(strings)[i] == strings[i]@,
{
}

proof fn lemma_common_prefix(p: Seq<char>, x: Seq<char>, y: Seq<char>, i: int)
    requires
        0 <= i <= p.len(),
    ensures
        text_before_from(p + x, p + y, i) == text_before_from(p + x, p + y, p.len() as int),
    decreases p.len() - i,
{
    if i < p.len() {
        assert((p + x)[i] == (p + y)[i]);
        lemma_common_prefix(p, x, y, i + 1);
    }
}

/// The first character in which two texts differ decides which comes first; a text comes
/// before every text that goes on from it.
pub proof fn law_first_difference_decides(
    p: Seq<char>,
    c: char,
    x: Seq<char>,
    d: char,
    y: Seq<char>,
)
    requires
        c < d,
    ensures
        text_before(p + seq![c] + x, p + seq![d] + y),
        !text_before(p + seq![d] + y, p + seq![c] + x),
        text_before(p, p + seq![c] + x),
        !text_before(p + seq![c] + x, p),
        !text_before(p, p),
{
    let (a, b) = (seq![c] + x, seq![d] + y);
    let none = Seq::<char>::empty();
    assert(p + seq![c] + x =~= p + a);
    assert(p + seq![d] + y =~= p + b);
    assert(p =~= p + none);
    lemma_common_prefix(p, a, b, 0);
    lemma_common_prefix(p, b, a, 0);
    lemma_common_prefix(p, none, a, 0);
    lemma_common_prefix(p, a, none, 0);
    lemma_common_prefix(p, none, none, 0);
    assert((p + a)[p.len() as int] == c);
    assert((p + b)[p.len() as int] == d);
}

} // verus!

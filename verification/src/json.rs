//! The two kinds of JSON scalar the canonical metadata form is made of:
//! integers in decimal and strings in quotes.

use crate::digest::hex_digit;
use vstd::prelude::*;

verus! {

#[verifier::external_type_specification]
#[verifier::external_body]
pub struct ExJsonError(serde_json::Error);

/// The character of a decimal digit.
pub open spec fn decimal_digit(d: int) -> char {
    if d == 0 {
        '0'
    } else if d == 1 {
        '1'
    } else if d == 2 {
        '2'
    } else if d == 3 {
        '3'
    } else if d == 4 {
        '4'
    } else if d == 5 {
        '5'
    } else if d == 6 {
        '6'
    } else if d == 7 {
        '7'
    } else if d == 8 {
        '8'
    } else {
        '9'
    }
}

/// The decimal digits of a natural number, most significant first, without
/// leading zeros.
pub open spec fn decimal_digits(n: nat) -> Seq<char>
    decreases n,
{
    if n < 10 {
        seq![decimal_digit(n as int)]
    } else {
        decimal_digits(n / 10).push(decimal_digit((n % 10) as int))
    }
}

/// An integer as a JSON number: its decimal digits, after a minus sign where
/// it is negative.
pub open spec fn decimal(v: int) -> Seq<char> {
    if v < 0 {
        seq!['-'] + decimal_digits((-v) as nat)
    } else {
        decimal_digits(v as nat)
    }
}

/// What stands for one character inside a JSON string: a two-character
/// escape for the quote, the backslash and the five control characters that
/// have one, `\u00` and two hexadecimal digits for the other characters
/// below the space, and the character itself otherwise.
pub open spec fn escape_char(c: char) -> Seq<char> {
    if c == '"' {
        seq!['\\', '"']
    } else if c == '\\' {
        seq!['\\', '\\']
    } else if c == '\u{8}' {
        seq!['\\', 'b']
    } else if c == '\u{9}' {
        seq!['\\', 't']
    } else if c == '\u{a}' {
        seq!['\\', 'n']
    } else if c == '\u{c}' {
        seq!['\\', 'f']
    } else if c == '\u{d}' {
        seq!['\\', 'r']
    } else if (c as u32) < 0x20 {
        seq!['\\', 'u', '0', '0', hex_digit(c as u32 as int / 16), hex_digit(c as u32 as int % 16)]
    } else {
        seq![c]
    }
}

/// A text with each character replaced by what stands for it inside a JSON
/// string.
pub open spec fn escaped(s: Seq<char>) -> Seq<char>
    decreases s.len(),
{
    if s.len() == 0 {
        Seq::empty()
    } else {
        escaped(s.drop_last()) + escape_char(s.last())
    }
}

/// A text as a JSON string: escaped, between double quotes.
pub open spec fn quoted(s: Seq<char>) -> Seq<char> {
    seq!['"'] + escaped(s) + seq!['"']
}

/// Calls `serde_json::to_string` on a string slice.
///
/// The serializer writes a quote, the text with the escapes of its table
/// (which `escape_char` restates) and a quote, into a vector in memory; no
/// step of that can fail, so the result is always `Ok`.
#[verifier::external_body]
pub(crate) fn serialize_str(s: &str) -> (res: Result<String, serde_json::Error>)
    ensures
        res is Ok,
        res matches Ok(text) ==> text@ == quoted(s@),
{
    serde_json::to_string(s)
}

fn digit_str(d: u64) -> (res: &'static str)
    requires
        d < 10,
    ensures
        res@ == seq![decimal_digit(d as int)],
{
    proof {
        reveal_strlit("0");
        reveal_strlit("1");
        reveal_strlit("2");
        reveal_strlit("3");
        reveal_strlit("4");
        reveal_strlit("5");
        reveal_strlit("6");
        reveal_strlit("7");
        reveal_strlit("8");
        reveal_strlit("9");
    }
    let res = if d == 0 {
        "0"
    } else if d == 1 {
        "1"
    } else if d == 2 {
        "2"
    } else if d == 3 {
        "3"
    } else if d == 4 {
        "4"
    } else if d == 5 {
        "5"
    } else if d == 6 {
        "6"
    } else if d == 7 {
        "7"
    } else if d == 8 {
        "8"
    } else {
        "9"
    };
    assert(res@ =~= seq![decimal_digit(d as int)]);
    res
}

/// Appends the decimal digits of `n` to `out`.
pub fn push_digits(out: &mut String, n: u64)
    ensures
        final(out)@ == old(out)@ + decimal_digits(n as nat),
    decreases n,
{
    if n >= 10 {
        push_digits(out, n / 10);
    }
    out.append(digit_str(n % 10));
    assert(final(out)@ =~= old(out)@ + decimal_digits(n as nat));
}

/// Appends `v` as a JSON number to `out`.
pub fn push_i32(out: &mut String, v: i32)
    ensures
        final(out)@ == old(out)@ + decimal(v as int),
{
    if v < 0 {
        proof {
            reveal_strlit("-");
        }
        out.append("-");
        push_digits(out, (-(v as i64)) as u64);
        assert(final(out)@ =~= old(out)@ + decimal(v as int));
    } else {
        push_digits(out, v as u64);
    }
}

/// Appends `s` as a JSON string to `out`.
pub fn push_quoted(out: &mut String, s: &str)
    ensures
        final(out)@ == old(out)@ + quoted(s@),
{
    match serialize_str(s) {
        Ok(text) => {
            out.append(text.as_str());
        },
        Err(_) => {},
    }
}

/// Whether a character is one of those a JSON number is written with here: a
/// decimal digit or the minus sign.
pub open spec fn is_number_char(c: char) -> bool {
    c == '-' || c == '0' || c == '1' || c == '2' || c == '3' || c == '4' || c == '5' || c == '6'
        || c == '7' || c == '8' || c == '9'
}

/// The digits of a natural number are at least one, all of them digits, and
/// more than one exactly when the number is ten or more.
pub proof fn lemma_decimal_digits_shape(n: nat)
    ensures
        decimal_digits(n).len() >= 1,
        decimal_digits(n).len() == 1 <==> n < 10,
        forall|i: int|
            0 <= i < decimal_digits(n).len() ==> is_number_char(#[trigger] decimal_digits(n)[i])
                && decimal_digits(n)[i] != '-',
    decreases n,
{
    if n >= 10 {
        lemma_decimal_digits_shape(n / 10);
    }
}

/// Two natural numbers with the same digits are the same number.
pub proof fn lemma_decimal_digits_injective(m: nat, n: nat)
    requires
        decimal_digits(m) == decimal_digits(n),
    ensures
        m == n,
    decreases m,
{
    lemma_decimal_digits_shape(m);
    lemma_decimal_digits_shape(n);
    if m < 10 {
        assert(decimal_digits(m)[0] == decimal_digit(m as int));
        assert(decimal_digits(n)[0] == decimal_digit(n as int));
    } else {
        let a = decimal_digits(m / 10);
        let b = decimal_digits(n / 10);
        let x = decimal_digit((m % 10) as int);
        let y = decimal_digit((n % 10) as int);
        assert(a.push(x) == b.push(y));
        assert(a.push(x).drop_last() =~= a);
        assert(b.push(y).drop_last() =~= b);
        assert(a.push(x).last() == x);
        assert(b.push(y).last() == y);
        lemma_decimal_digits_injective(m / 10, n / 10);
    }
}

/// A JSON number is made of number characters only, and two integers
/// written alike are the same integer.
pub proof fn lemma_decimal_injective(x: int, y: int)
    ensures
        decimal(x).len() >= 1,
        forall|i: int| 0 <= i < decimal(x).len() ==> is_number_char(#[trigger] decimal(x)[i]),
        decimal(x) == decimal(y) ==> x == y,
{
    let dx = decimal_digits((if x < 0 { -x } else { x }) as nat);
    let dy = decimal_digits((if y < 0 { -y } else { y }) as nat);
    lemma_decimal_digits_shape((if x < 0 { -x } else { x }) as nat);
    lemma_decimal_digits_shape((if y < 0 { -y } else { y }) as nat);
    assert forall|i: int| 0 <= i < decimal(x).len() implies is_number_char(
        #[trigger] decimal(x)[i],
    ) by {
        if x < 0 && i > 0 {
            assert(decimal(x)[i] == dx[i - 1]);
        }
    }
    if decimal(x) == decimal(y) {
        if x < 0 {
            assert(decimal(x)[0] == '-');
            if y >= 0 {
                assert(decimal(y)[0] == dy[0]);
            }
            assert(y < 0);
            assert((seq!['-'] + dx).skip(1) =~= dx);
            assert((seq!['-'] + dy).skip(1) =~= dy);
            lemma_decimal_digits_injective((-x) as nat, (-y) as nat);
        } else {
            assert(decimal(x)[0] == dx[0]);
            if y < 0 {
                assert(decimal(y)[0] == '-');
            }
            assert(y >= 0);
            lemma_decimal_digits_injective(x as nat, y as nat);
        }
    }
}

/// Where two texts that begin with a JSON number and go on with another
/// kind of character are the same text, they hold the same number and go on
/// alike.
pub proof fn lemma_decimal_delimited(x: int, rest_x: Seq<char>, y: int, rest_y: Seq<char>)
    requires
        decimal(x) + rest_x == decimal(y) + rest_y,
        rest_x.len() > 0 && !is_number_char(rest_x[0]),
        rest_y.len() > 0 && !is_number_char(rest_y[0]),
    ensures
        x == y,
        rest_x == rest_y,
{
    let a = decimal(x);
    let b = decimal(y);
    let whole = a + rest_x;
    lemma_decimal_injective(x, y);
    lemma_decimal_injective(y, x);
    assert(a.len() == b.len()) by {
        if a.len() < b.len() {
            assert(whole[a.len() as int] == rest_x[0]);
            assert((b + rest_y)[a.len() as int] == b[a.len() as int]);
        }
        if b.len() < a.len() {
            assert((b + rest_y)[b.len() as int] == rest_y[0]);
            assert(whole[b.len() as int] == a[b.len() as int]);
        }
    }
    assert(a =~= b) by {
        assert forall|i: int| 0 <= i < a.len() implies a[i] == b[i] by {
            assert(whole[i] == a[i]);
            assert((b + rest_y)[i] == b[i]);
        }
    }
    assert(rest_x =~= whole.skip(a.len() as int));
    assert(rest_y =~= (b + rest_y).skip(b.len() as int));
}

/// What stands for a character inside a JSON string is never empty and
/// never begins with a double quote.
pub proof fn lemma_escape_char_shape(c: char)
    ensures
        escape_char(c).len() >= 1,
        escape_char(c)[0] != '"',
        escape_char(c)[0] == '\\' ==> escape_char(c).len() >= 2,
{
}

/// No two characters are written alike inside a JSON string, and what
/// stands for one is never the beginning of what stands for another: where
/// two texts that begin with such a piece are the same text, the pieces stand
/// for the same character and the texts go on alike.
pub proof fn lemma_escape_char_delimited(a: char, rest_a: Seq<char>, b: char, rest_b: Seq<char>)
    requires
        escape_char(a) + rest_a == escape_char(b) + rest_b,
    ensures
        a == b,
        rest_a == rest_b,
{
    let ea = escape_char(a);
    let eb = escape_char(b);
    let whole = ea + rest_a;
    let other = eb + rest_b;
    lemma_escape_char_shape(a);
    lemma_escape_char_shape(b);
    assert(whole[0] == ea[0]);
    assert(other[0] == eb[0]);
    assert(a == b) by {
        if ea[0] == '\\' {
            assert(whole[1] == ea[1]);
            assert(other[1] == eb[1]);
            if ea[1] == 'u' {
                assert(ea.len() == 6 && eb.len() == 6);
                assert(whole[4] == ea[4] && other[4] == eb[4]);
                assert(whole[5] == ea[5] && other[5] == eb[5]);
                let va = a as u32 as int;
                let vb = b as u32 as int;
                assert(hex_digit(va / 16) == hex_digit(vb / 16));
                assert(hex_digit(va % 16) == hex_digit(vb % 16));
                assert(0 <= va / 16 < 2 && 0 <= vb / 16 < 2);
                assert(va / 16 == vb / 16);
                assert(va % 16 == vb % 16);
                assert(va == vb);
            }
        }
    }
    assert(rest_a =~= whole.skip(ea.len() as int));
    assert(rest_b =~= other.skip(eb.len() as int));
}

/// An escaped text begins with what stands for its first character and goes
/// on with the rest, escaped.
pub proof fn lemma_escaped_front(s: Seq<char>)
    requires
        s.len() > 0,
    ensures
        escaped(s) == escape_char(s.first()) + escaped(s.drop_first()),
    decreases s.len(),
{
    if s.len() == 1 {
        assert(s.drop_last() =~= Seq::<char>::empty());
        assert(s.drop_first() =~= Seq::<char>::empty());
        assert(escaped(s.drop_last()) =~= Seq::<char>::empty());
        assert(escaped(s) =~= escape_char(s.first()) + escaped(s.drop_first()));
    } else {
        let front = s.drop_last();
        let back = s.drop_first();
        lemma_escaped_front(front);
        assert(front.first() == s.first());
        assert(front.drop_first() =~= back.drop_last());
        assert(back.last() == s.last());
        assert(escaped(back) == escaped(back.drop_last()) + escape_char(back.last()));
        assert(escaped(s) =~= escape_char(s.first()) + escaped(back));
    }
}

/// Where two texts that begin with an escaped text and go on with a double
/// quote are the same text, the escaped texts are the same and the two go on
/// alike.
pub proof fn lemma_escaped_delimited(s: Seq<char>, rest_s: Seq<char>, t: Seq<char>, rest_t: Seq<char>)
    requires
        escaped(s) + rest_s == escaped(t) + rest_t,
        rest_s.len() > 0 && rest_s[0] == '"',
        rest_t.len() > 0 && rest_t[0] == '"',
    ensures
        s == t,
        rest_s == rest_t,
    decreases s.len(),
{
    if s.len() == 0 {
        assert(escaped(s) + rest_s =~= rest_s);
        if t.len() > 0 {
            lemma_escaped_front(t);
            lemma_escape_char_shape(t.first());
            assert((escaped(t) + rest_t)[0] == escape_char(t.first())[0]);
        }
        assert(t.len() == 0);
        assert(escaped(t) + rest_t =~= rest_t);
        assert(s =~= t);
    } else {
        lemma_escaped_front(s);
        lemma_escape_char_shape(s.first());
        if t.len() == 0 {
            assert(escaped(t) + rest_t =~= rest_t);
            assert((escaped(s) + rest_s)[0] == escape_char(s.first())[0]);
        }
        assert(t.len() > 0);
        lemma_escaped_front(t);
        let tail_s = escaped(s.drop_first()) + rest_s;
        let tail_t = escaped(t.drop_first()) + rest_t;
        assert(escaped(s) + rest_s =~= escape_char(s.first()) + tail_s);
        assert(escaped(t) + rest_t =~= escape_char(t.first()) + tail_t);
        lemma_escape_char_delimited(s.first(), tail_s, t.first(), tail_t);
        lemma_escaped_delimited(s.drop_first(), rest_s, t.drop_first(), rest_t);
        assert(s =~= seq![s.first()] + s.drop_first());
        assert(t =~= seq![t.first()] + t.drop_first());
    }
}

/// Where two texts that begin with a JSON string are the same text, the
/// strings hold the same text and the two go on alike.
pub proof fn lemma_quoted_delimited(s: Seq<char>, rest_s: Seq<char>, t: Seq<char>, rest_t: Seq<char>)
    requires
        quoted(s) + rest_s == quoted(t) + rest_t,
    ensures
        s == t,
        rest_s == rest_t,
{
    let close_s = seq!['"'] + rest_s;
    let close_t = seq!['"'] + rest_t;
    let inner_s = escaped(s) + close_s;
    let inner_t = escaped(t) + close_t;
    assert(quoted(s) + rest_s =~= seq!['"'] + inner_s);
    assert(quoted(t) + rest_t =~= seq!['"'] + inner_t);
    assert(inner_s =~= (seq!['"'] + inner_s).skip(1));
    assert(inner_t =~= (seq!['"'] + inner_t).skip(1));
    lemma_escaped_delimited(s, close_s, t, close_t);
    assert(rest_s =~= close_s.skip(1));
    assert(rest_t =~= close_t.skip(1));
}

} // verus!

//! Text helpers shared by the stages: decimal rendering and reading of
//! integers, reading of booleans, and splitting a matched prefix off a text.

use vstd::prelude::*;
use vstd::utf8::*;

verus! {

/// The decimal digit for a value below ten.
pub open spec fn digit_char(d: int) -> char {
    seq!['0', '1', '2', '3', '4', '5', '6', '7', '8', '9'][d]
}

/// The decimal digits of a natural number, most significant first.
pub open spec fn natural_digits(n: nat) -> Seq<char>
    decreases n,
{
    if n < 10 {
        seq![digit_char(n as int)]
    } else {
        natural_digits(n / 10).push(digit_char((n % 10) as int))
    }
}

/// The decimal text of an integer: a minus sign for a negative number, then
/// the digits of its magnitude.
pub open spec fn decimal(n: int) -> Seq<char> {
    if n < 0 {
        seq!['-'] + natural_digits((-n) as nat)
    } else {
        natural_digits(n as nat)
    }
}

fn digit_text(d: u64) -> (r: &'static str)
    requires
        d < 10,
    ensures
        r@ == seq![digit_char(d as int)],
{
    proof {
        reveal_strlit("0");
        reveal_strlit("1");
        reveal_strlit("2");
        reveal_strlit("3");
        reveal_strlit("4");
        reveal_strlit("5");
        reveal_strlit("6");
        reveal_strlit("7");
        reveal_strlit("8");
        reveal_strlit("9");
    }
    let r = if d == 0 {
        "0"
    } else if d == 1 {
        "1"
    } else if d == 2 {
        "2"
    } else if d == 3 {
        "3"
    } else if d == 4 {
        "4"
    } else if d == 5 {
        "5"
    } else if d == 6 {
        "6"
    } else if d == 7 {
        "7"
    } else if d == 8 {
        "8"
    } else {
        "9"
    };
    assert(r@ =~= seq![digit_char(d as int)]);
    r
}

/// Renders a natural number in decimal.
pub fn render_natural(n: u64) -> (r: String)
    ensures
        r@ == natural_digits(n as nat),
    decreases n,
{
    if n < 10 {
        String::from_str(digit_text(n))
    } else {
        let mut r = render_natural(n / 10);
        r.append(digit_text(n % 10));
        assert(r@ =~= natural_digits(n as nat));
        r
    }
}

/// Renders an integer in decimal, as `decimal` describes.
pub fn render_integer(n: i64) -> (r: String)
    ensures
        r@ == decimal(n as int),
{
    if n < 0 {
        let magnitude: u64 = if n == i64::MIN {
            9223372036854775808u64
        } else {
            (-n) as u64
        };
        proof {
            reveal_strlit("-");
        }
        let mut r = String::from_str("-");
        let digits = render_natural(magnitude);
        r.append(digits.as_str());
        assert(r@ =~= decimal(n as int));
        r
    } else {
        render_natural(n as u64)
    }
}

/// True when every character is a decimal digit.
pub open spec fn all_digits(s: Seq<char>) -> bool {
    forall|i: int| 0 <= i < s.len() ==> '0' <= #[trigger] s[i] <= '9'
}

/// The number that a sequence of decimal digits denotes; zero for the empty
/// sequence.
pub open spec fn digits_value(s: Seq<char>) -> nat
    decreases s.len(),
{
    if s.len() == 0 {
        0
    } else {
        (digits_value(s.drop_last()) * 10 + (s.last() as int - '0' as int)) as nat
    }
}

/// The digits of a numeral: what follows its sign, or all of it where it has
/// no sign.
pub open spec fn numeral_body(s: Seq<char>) -> Seq<char> {
    if s.len() > 0 && (s[0] == '-' || s[0] == '+') {
        s.skip(1)
    } else {
        s
    }
}

/// The signed number that a numeral denotes, whether or not it fits.
pub open spec fn numeral_value(s: Seq<char>) -> int {
    if s.len() > 0 && s[0] == '-' {
        -(digits_value(numeral_body(s)) as int)
    } else {
        digits_value(numeral_body(s)) as int
    }
}

/// The 64-bit integer that a text denotes: an optional `+` or `-`, then one
/// or more decimal digits and nothing else, with a value in range. `None`
/// for every other text.
pub open spec fn integer_of(s: Seq<char>) -> Option<i64> {
    if numeral_body(s).len() == 0 || !all_digits(numeral_body(s)) || numeral_value(s) < i64::MIN
        || numeral_value(s) > i64::MAX {
        None
    } else {
        Some(numeral_value(s) as i64)
    }
}

/// Reads a 64-bit integer from a text, as `integer_of` describes.
pub fn parse_integer(text: &str) -> (r: Option<i64>)
    ensures
        r == integer_of(text@),
{
    let ghost s = text@;
    let mut first = true;
    let mut negative = false;
    let mut nonempty = false;
    let mut valid = true;
    let mut overflow = false;
    let mut magnitude: u64 = 0;
    let limit: u64 = 9223372036854775808u64;
    for c in it: text.chars()
        invariant
            it.seq() == s,
            limit == 9223372036854775808u64,
            first == (it.index() == 0),
            negative == (it.index() > 0 && s[0] == '-'),
            nonempty == (numeral_body(s.take(it.index() as int)).len() > 0),
            valid == all_digits(numeral_body(s.take(it.index() as int))),
            valid && !overflow ==> magnitude == digits_value(numeral_body(s.take(it.index() as int)))
                && magnitude <= limit,
            valid && overflow ==> digits_value(numeral_body(s.take(it.index() as int))) > limit,
    {
        let ghost i = it.index() as int;
        let ghost body = numeral_body(s.take(i));
        let ghost grown = numeral_body(s.take(i + 1));
        if first && (c == '-' || c == '+') {
            negative = c == '-';
            assert(grown =~= Seq::<char>::empty());
        } else {
            proof {
                assert(grown =~= body.push(c));
                assert(grown.drop_last() =~= body);
                assert(grown.last() == c);
                assert(all_digits(grown) == (all_digits(body) && '0' <= c <= '9')) by {
                    if all_digits(grown) {
                        assert('0' <= grown[grown.len() - 1] <= '9');
                        assert forall|j: int| 0 <= j < body.len() implies '0' <= #[trigger] body[j]
                            <= '9' by {
                            assert(body[j] == grown[j]);
                        }
                    }
                }
            }
            nonempty = true;
            if '0' <= c && c <= '9' {
                if !overflow {
                    let wide: u128 = (magnitude as u128) * 10 + ((c as u32 - '0' as u32) as u128);
                    if wide > limit as u128 {
                        overflow = true;
                    } else {
                        magnitude = wide as u64;
                    }
                }
            } else {
                valid = false;
            }
        }
        first = false;
    }
    assert(s.take(s.len() as int) =~= s);
    if !nonempty || !valid || overflow {
        None
    } else if negative {
        if magnitude == limit {
            Some(i64::MIN)
        } else {
            Some(-(magnitude as i64))
        }
    } else if magnitude == limit {
        None
    } else {
        Some(magnitude as i64)
    }
}

/// The boolean that a text denotes: `true` or `false`, and nothing else.
pub open spec fn boolean_of(s: Seq<char>) -> Option<bool> {
    if s == "true"@ {
        Some(true)
    } else if s == "false"@ {
        Some(false)
    } else {
        None
    }
}

/// Reads a boolean from a text, as `boolean_of` describes.
pub fn parse_boolean(text: &str) -> (r: Option<bool>)
    ensures
        r == boolean_of(text@),
{
    if same_text(text, "true") {
        Some(true)
    } else if same_text(text, "false") {
        Some(false)
    } else {
        None
    }
}

/// The text that `std::fmt::Debug` gives for a string: the string between
/// double quotes, with the characters that need it escaped.
pub uninterp spec fn quoted(s: Seq<char>) -> Seq<char>;

/// Formats a string with `<str as std::fmt::Debug>::fmt`, through `format!`.
/// Nothing is proved of the escaping: the contract only names the outcome,
/// which depends on the characters of the string alone.
#[verifier::external_body]
pub(crate) fn quote(text: &str) -> (r: String)
    ensures
        r@ == quoted(text@),
{
    format!("{:?}", text)
}

/// Compares two texts character by character.
pub fn same_text(a: &str, b: &str) -> (r: bool)
    ensures
        r == (a@ == b@),
{
    let x = String::from_str(a);
    let y = String::from_str(b);
    x == y
}

/// The number of bytes that a text takes in UTF-8.
pub open spec fn utf8_len(s: Seq<char>) -> nat {
    encode_utf8(s).len()
}

/// The UTF-8 encoding of two texts in a row is the two encodings in a row.
pub proof fn lemma_encode_concat(a: Seq<char>, b: Seq<char>)
    ensures
        encode_utf8(a + b) == encode_utf8(a) + encode_utf8(b),
    decreases a.len(),
{
    if a.len() == 0 {
        assert(a + b =~= b);
        assert(encode_utf8(a) + encode_utf8(b) =~= encode_utf8(b));
    } else {
        lemma_encode_concat(a.drop_first(), b);
        assert((a + b).drop_first() =~= a.drop_first() + b);
        assert(encode_utf8(a + b) =~= encode_utf8(a) + encode_utf8(b));
    }
}

/// A text that is not empty takes at least one byte.
pub proof fn lemma_encode_nonempty(a: Seq<char>)
    ensures
        a.len() > 0 ==> utf8_len(a) > 0,
        a.len() == 0 ==> utf8_len(a) == 0,
{
}

/// Where one text starts with another, the encoding of the other ends at a
/// character boundary of the encoding of the first.
pub proof fn lemma_boundary_after(a: Seq<char>, b: Seq<char>)
    ensures
        is_char_boundary(encode_utf8(a + b), utf8_len(a) as int),
    decreases a.len(),
{
    broadcast use encode_utf8_valid_utf8;

    let bytes = encode_utf8(a + b);
    if a.len() > 0 {
        lemma_encode_concat(a, b);
        lemma_encode_nonempty(a);
        encode_utf8_first_scalar(a + b);
        assert((a + b).drop_first() =~= a.drop_first() + b);
        assert(pop_first_scalar(bytes) =~= encode_utf8(a.drop_first() + b));
        lemma_boundary_after(a.drop_first(), b);
        assert(encode_utf8(a) =~= encode_scalar(a[0] as u32) + encode_utf8(a.drop_first()));
        assert((a + b)[0] == a[0]);
    }
}

/// What the split of a text behind a prefix of it gives, in bytes.
pub proof fn lemma_split_prefix(text: Seq<char>, prefix: Seq<char>)
    requires
        prefix.is_prefix_of(text),
    ensures
        utf8_len(prefix) <= utf8_len(text),
        is_char_boundary(encode_utf8(text), utf8_len(prefix) as int),
        encode_utf8(text).subrange(0, utf8_len(prefix) as int) == encode_utf8(prefix),
        encode_utf8(text).subrange(utf8_len(prefix) as int, utf8_len(text) as int) == encode_utf8(
            text.skip(prefix.len() as int),
        ),
{
    let rest = text.skip(prefix.len() as int);
    assert(text =~= prefix + rest);
    lemma_encode_concat(prefix, rest);
    lemma_boundary_after(prefix, rest);
    assert(encode_utf8(text).subrange(0, utf8_len(prefix) as int) =~= encode_utf8(prefix));
    assert(encode_utf8(text).subrange(utf8_len(prefix) as int, utf8_len(text) as int)
        =~= encode_utf8(rest));
}

/// The number of bytes of a text.
pub fn byte_len(text: &str) -> (r: usize)
    ensures
        r == utf8_len(text@),
{
    text.as_bytes().len()
}

/// The text behind its first `n` bytes, which must end at a character
/// boundary.
pub fn skip_bytes<'a>(text: &'a str, n: usize) -> (r: &'a str)
    requires
        is_char_boundary(encode_utf8(text@), n as int),
    ensures
        encode_utf8(r@) == encode_utf8(text@).subrange(n as int, utf8_len(text@) as int),
{
    let (_, tail) = text.split_at(n);
    assert(encode_utf8(tail@) =~= encode_utf8(text@).subrange(n as int, utf8_len(text@) as int));
    tail
}

/// Two texts with the same encoding are the same text.
pub proof fn lemma_encode_injective(a: Seq<char>, b: Seq<char>)
    requires
        encode_utf8(a) == encode_utf8(b),
    ensures
        a == b,
{
    broadcast use encode_utf8_decode_utf8;

    assert(decode_utf8(encode_utf8(a)) == a);
    assert(decode_utf8(encode_utf8(b)) == b);
}

/// The text behind a prefix: `Some` with what follows the prefix where the
/// text starts with it, `None` where it does not.
pub fn without_prefix<'a>(text: &'a str, prefix: &str) -> (r: Option<&'a str>)
    ensures
        r is Some == prefix@.is_prefix_of(text@),
        r matches Some(rest) ==> rest@ == text@.skip(prefix@.len() as int),
{
    broadcast use {encode_utf8_valid_utf8, encode_utf8_decode_utf8};

    let n = byte_len(prefix);
    proof {
        if prefix@.is_prefix_of(text@) {
            lemma_split_prefix(text@, prefix@);
        }
    }
    if n <= byte_len(text) && text.is_char_boundary(n) {
        let (head, tail) = text.split_at(n);
        let ghost bytes = encode_utf8(text@);
        proof {
            decode_utf8_split(bytes, n as int);
            valid_utf8_split(bytes, n as int);
            assert(decode_utf8(bytes.subrange(0, n as int)) == head@);
            assert(decode_utf8(bytes.subrange(n as int, bytes.len() as int)) == tail@);
            assert(text@ =~= head@ + tail@);
        }
        if same_text(head, prefix) {
            assert(tail@ =~= text@.skip(prefix@.len() as int));
            assert(prefix@ =~= text@.subrange(0, prefix@.len() as int));
            Some(tail)
        } else {
            proof {
                if prefix@.is_prefix_of(text@) {
                    assert(n == utf8_len(prefix@));
                    assert(encode_utf8(head@) == encode_utf8(prefix@));
                    assert(decode_utf8(encode_utf8(prefix@)) == prefix@);
                    assert(decode_utf8(encode_utf8(head@)) == head@);
                    assert(head@ == prefix@);
                }
            }
            None
        }
    } else {
        None
    }
}

} // verus!

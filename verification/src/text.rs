//! Small text helpers shared by the parsers and formatters: decimal digits,
//! ASCII digit and whitespace classification, and wrappers of the `std` string
//! operations that the parsers call (number parsing, lowercasing, pushing a
//! character).
use vstd::prelude::*;

verus! {

pub open spec fn is_ascii_digit(c: char) -> bool {
    '0' <= c <= '9'
}

pub open spec fn is_digit_byte(b: u8) -> bool {
    48 <= b <= 57
}

/// Value of a run of ASCII decimal digit bytes.
pub open spec fn digits_value(b: Seq<u8>) -> nat
    decreases b.len(),
{
    if b.len() == 0 {
        0
    } else {
        digits_value(b.drop_last()) * 10 + (b.last() - 48) as nat
    }
}

/// The value of an optional `+` followed by one or more ASCII digits, as the
/// unsigned `from_str` of `std` reads it before checking the range; `None`
/// for anything else (whitespace, `-`, an empty text).
pub open spec fn unsigned_value(b: Seq<u8>) -> Option<nat> {
    let d = if b.len() > 0 && b[0] == 43 {
        b.skip(1)
    } else {
        b
    };
    if d.len() > 0 && (forall|i: int| 0 <= i < d.len() ==> is_digit_byte(#[trigger] d[i])) {
        Some(digits_value(d))
    } else {
        None
    }
}

/// What `u8::from_str` accepts: an unsigned decimal of at most 255.
pub open spec fn parse_u8_spec(b: Seq<u8>) -> Option<u8> {
    match unsigned_value(b) {
        Some(v) => if v <= 255 {
            Some(v as u8)
        } else {
            None
        },
        None => None,
    }
}

/// What `u16::from_str` accepts: an unsigned decimal of at most 65535.
pub open spec fn parse_u16_spec(b: Seq<u8>) -> Option<u16> {
    match unsigned_value(b) {
        Some(v) => if v <= 65535 {
            Some(v as u16)
        } else {
            None
        },
        None => None,
    }
}

/// `str::parse::<u8>`, as its documentation states: an optional `+` followed
/// by decimal digits, with a value of at most 255.
#[verifier::external_body]
pub(crate) fn parse_u8(s: &str) -> (r: Option<u8>)
    ensures
        r == parse_u8_spec(vstd::utf8::encode_utf8(s@)),
{
    s.parse::<u8>().ok()
}

/// `str::parse::<u16>`, as its documentation states: an optional `+`
/// followed by decimal digits, with a value of at most 65535.
#[verifier::external_body]
pub(crate) fn parse_u16(s: &str) -> (r: Option<u16>)
    ensures
        r == parse_u16_spec(vstd::utf8::encode_utf8(s@)),
{
    s.parse::<u16>().ok()
}

/// What `str::to_lowercase` returns for a text: the Unicode lowercase
/// mapping, applied character by character (with its context rules).
pub uninterp spec fn lowercase(s: Seq<char>) -> Seq<char>;

/// `c` with an ASCII capital letter turned into its small letter.
pub open spec fn ascii_lower_char(c: char) -> char {
    if 'A' <= c <= 'Z' {
        (c as u32 + 32) as char
    } else {
        c
    }
}

/// `c` with an ASCII small letter turned into its capital letter.
pub open spec fn ascii_upper_char(c: char) -> char {
    if 'a' <= c <= 'z' {
        (c as u32 - 32) as char
    } else {
        c
    }
}

/// What `str::to_ascii_lowercase` gives.
pub open spec fn ascii_lowercase(s: Seq<char>) -> Seq<char> {
    s.map_values(|c: char| ascii_lower_char(c))
}

/// What `str::to_ascii_uppercase` gives.
pub open spec fn ascii_uppercase(s: Seq<char>) -> Seq<char> {
    s.map_values(|c: char| ascii_upper_char(c))
}

/// Writing an ASCII text in capitals keeps it ASCII and changes nothing of
/// its lowercase form.
pub proof fn lemma_ascii_case(s: Seq<char>)
    requires
        vstd::utf8::is_ascii_chars(s),
    ensures
        vstd::utf8::is_ascii_chars(ascii_uppercase(s)),
        vstd::utf8::is_ascii_chars(ascii_lowercase(s)),
        ascii_lowercase(ascii_uppercase(s)) == ascii_lowercase(s),
{
    assert forall|i: int| 0 <= i < s.len() implies ascii_lower_char(ascii_upper_char(s[i]))
        == ascii_lower_char(s[i]) by {
        let c = s[i];
        if 'a' <= c <= 'z' {
            assert(ascii_upper_char(c) as u32 == c as u32 - 32);
        }
    }
    assert(ascii_lowercase(ascii_uppercase(s)) =~= ascii_lowercase(s));
}

/// `str::to_lowercase`. Its result is named: it depends on the text alone.
/// Its documentation (beside `str::to_ascii_lowercase`) gives that an ASCII
/// text is lowercased letter by letter, as `to_ascii_lowercase` does; nothing
/// more is claimed for other texts.
#[verifier::external_body]
pub(crate) fn to_lowercase(s: &str) -> (r: String)
    ensures
        r@ == lowercase(s@),
        vstd::utf8::is_ascii_chars(s@) ==> r@ == ascii_lowercase(s@),
{
    s.to_lowercase()
}

/// `String::push`: appends one character.
#[verifier::external_body]
pub(crate) fn push_char(s: &mut String, c: char)
    ensures
        final(s)@ == old(s)@.push(c),
{
    s.push(c)
}

/// The character of a decimal digit `d < 10`.
pub open spec fn digit_char(d: nat) -> char {
    if d == 0 {
        '0'
    } else if d == 1 {
        '1'
    } else if d == 2 {
        '2'
    } else if d == 3 {
        '3'
    } else if d == 4 {
        '4'
    } else if d == 5 {
        '5'
    } else if d == 6 {
        '6'
    } else if d == 7 {
        '7'
    } else if d == 8 {
        '8'
    } else {
        '9'
    }
}

/// Decimal representation of `n`, without leading zeros.
pub open spec fn decimal(n: nat) -> Seq<char>
    decreases n,
{
    if n < 10 {
        seq![digit_char(n)]
    } else {
        decimal(n / 10).push(digit_char(n % 10))
    }
}

pub fn digit_to_char(d: u64) -> (c: char)
    requires
        d < 10,
    ensures
        c == digit_char(d as nat),
{
    if d == 0 {
        '0'
    } else if d == 1 {
        '1'
    } else if d == 2 {
        '2'
    } else if d == 3 {
        '3'
    } else if d == 4 {
        '4'
    } else if d == 5 {
        '5'
    } else if d == 6 {
        '6'
    } else if d == 7 {
        '7'
    } else if d == 8 {
        '8'
    } else {
        '9'
    }
}

/// Append the decimal representation of `n` to `out`.
pub fn push_decimal(out: &mut String, n: u64)
    ensures
        final(out)@ == old(out)@ + decimal(n as nat),
    decreases n,
{
    if n < 10 {
        push_char(out, digit_to_char(n));
        assert(decimal(n as nat) =~= seq![digit_char(n as nat)]);
    } else {
        push_decimal(out, n / 10);
        push_char(out, digit_to_char(n % 10));
    }
}

/// Decimal representation of `n`, as `n.to_string()` writes it.
pub fn to_decimal(n: u64) -> (r: String)
    ensures
        r@ == decimal(n as nat),
{
    let mut s = String::new();
    push_decimal(&mut s, n);
    assert(s@ =~= decimal(n as nat));
    s
}

/// Position of the first character of `c` that satisfies `p`, or `c.len()`
/// when there is none.
pub open spec fn first_match(c: Seq<char>, p: spec_fn(char) -> bool) -> int
    decreases c.len(),
{
    if c.len() == 0 {
        0
    } else {
        let f = first_match(c.drop_last(), p);
        if f < c.len() - 1 {
            f
        } else if p(c.last()) {
            c.len() - 1
        } else {
            c.len() as int
        }
    }
}

pub proof fn lemma_first_match(c: Seq<char>, p: spec_fn(char) -> bool)
    ensures
        0 <= first_match(c, p) <= c.len(),
        forall|k: int| 0 <= k < first_match(c, p) ==> !p(#[trigger] c[k]),
        first_match(c, p) < c.len() ==> p(c[first_match(c, p)]),
    decreases c.len(),
{
    if c.len() > 0 {
        let d = c.drop_last();
        lemma_first_match(d, p);
        assert forall|k: int| 0 <= k < first_match(c, p) implies !p(#[trigger] c[k]) by {
            if k < d.len() {
                assert(d[k] == c[k]);
            }
        }
    }
}

/// Any position that satisfies the characterisation of [first_match] is it.
pub proof fn lemma_first_match_unique(c: Seq<char>, p: spec_fn(char) -> bool, n: int)
    requires
        0 <= n <= c.len(),
        forall|k: int| 0 <= k < n ==> !p(#[trigger] c[k]),
        n < c.len() ==> p(c[n]),
    ensures
        first_match(c, p) == n,
{
    lemma_first_match(c, p);
    let f = first_match(c, p);
    if f < n {
        assert(!p(c[f]));
    } else if n < f {
        assert(!p(c[n]));
    }
}

/// Extending a prefix by one character adds exactly that character.
pub proof fn lemma_take_push_contains(c: Seq<char>, i: int, x: char)
    requires
        0 <= i < c.len(),
    ensures
        c.take(i + 1).contains(x) <==> c.take(i).contains(x) || c[i] == x,
{
    let a = c.take(i);
    let b = c.take(i + 1);
    if b.contains(x) {
        let k = choose|k: int| 0 <= k < b.len() && b[k] == x;
        if k < a.len() {
            assert(a[k] == x);
        }
    }
    if a.contains(x) {
        let k = choose|k: int| 0 <= k < a.len() && a[k] == x;
        assert(b[k] == x);
    }
    if c[i] == x {
        assert(b[i] == x);
    }
}

/// Whether two texts hold the same characters.
pub fn same_text(a: &str, b: &str) -> (r: bool)
    ensures
        r == (a@ == b@),
{
    let n = a.unicode_len();
    if n != b.unicode_len() {
        return false;
    }
    let mut i: usize = 0;
    while i < n
        invariant
            i <= n,
            n == a@.len(),
            n == b@.len(),
            forall|k: int| 0 <= k < i ==> a@[k] == b@[k],
        decreases n - i,
    {
        if a.get_char(i) != b.get_char(i) {
            return false;
        }
        i = i + 1;
    }
    assert(a@ =~= b@);
    true
}

/// The characters with the Unicode `White_Space` property, which is what
/// `char::is_whitespace` tests.
pub open spec fn is_whitespace(c: char) -> bool {
    ||| '\u{9}' <= c <= '\u{d}'
    ||| c == ' '
    ||| c == '\u{85}'
    ||| c == '\u{a0}'
    ||| c == '\u{1680}'
    ||| '\u{2000}' <= c <= '\u{200a}'
    ||| c == '\u{2028}'
    ||| c == '\u{2029}'
    ||| c == '\u{202f}'
    ||| c == '\u{205f}'
    ||| c == '\u{3000}'
}

/// Whether the character has the Unicode `White_Space` property, as
/// `char::is_whitespace` tests.
pub(crate) fn char_is_whitespace(c: char) -> (r: bool)
    ensures
        r == is_whitespace(c),
{
    ('\u{9}' <= c && c <= '\u{d}') || c == ' ' || c == '\u{85}' || c == '\u{a0}' || c
        == '\u{1680}' || ('\u{2000}' <= c && c <= '\u{200a}') || c == '\u{2028}' || c == '\u{2029}'
        || c == '\u{202f}' || c == '\u{205f}' || c == '\u{3000}'
}

/// Nothing but whitespace: what `s.trim().is_empty()` tests.
pub open spec fn is_blank(s: Seq<char>) -> bool {
    forall|k: int| 0 <= k < s.len() ==> is_whitespace(#[trigger] s[k])
}

pub fn blank(s: &str) -> (r: bool)
    ensures
        r == is_blank(s@),
{
    let n = s.unicode_len();
    let mut i: usize = 0;
    while i < n
        invariant
            i <= n,
            n == s@.len(),
            forall|k: int| 0 <= k < i ==> is_whitespace(#[trigger] s@[k]),
        decreases n - i,
    {
        if !char_is_whitespace(s.get_char(i)) {
            return false;
        }
        i = i + 1;
    }
    true
}

} // verus!

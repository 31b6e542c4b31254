//! Aircraft modifications: the modifier set, the engine priority, and the
//! short modification code written between square brackets (e.g. `2sfc`).
use vstd::prelude::*;
use vstd::utf8::{
    encode_utf8, encode_utf8_valid_utf8, is_ascii_chars, is_ascii_chars_encode_utf8,
    is_char_boundary, is_char_boundary_iff_not_is_continuation_byte,
    is_char_boundary_start_end_of_seq,
};
use crate::text::{
    decimal, digit_char, digits_value, first_match, is_ascii_digit, lemma_first_match,
    lemma_first_match_unique, lemma_take_push_contains, lowercase,
    parse_u8, parse_u8_spec, push_char, push_decimal, to_lowercase, ascii_lowercase, ascii_uppercase, lemma_ascii_case,
};

verus! {

/// Errors while reading an aircraft modification code.
#[derive(Debug, Clone, Copy, PartialEq, Eq, Structural)]
pub enum AircraftError {
    /// The digits of the code do not form an engine priority.
    InvalidEnginePriority,
}

#[derive(Debug, Clone, Copy, PartialEq, Eq, Hash, Structural)]
pub enum Modifier {
    Speed,
    Fuel,
    Co2,
    FourX,
    EasyBoost,
}

/// The letter of a modifier in a modification code.
pub open spec fn modifier_letter(m: Modifier) -> char {
    match m {
        Modifier::Speed => 's',
        Modifier::Fuel => 'f',
        Modifier::Co2 => 'c',
        Modifier::FourX => 'x',
        Modifier::EasyBoost => 'e',
    }
}

/// A bitset of modifiers: each modifier is present at most once.
#[derive(Debug, Clone, Copy, PartialEq, Eq, Structural)]
pub struct ModifierSet {
    pub speed: bool,
    pub fuel: bool,
    pub co2: bool,
    pub four_x: bool,
    pub easy_boost: bool,
}

impl ModifierSet {
    pub open spec fn has(self, m: Modifier) -> bool {
        match m {
            Modifier::Speed => self.speed,
            Modifier::Fuel => self.fuel,
            Modifier::Co2 => self.co2,
            Modifier::FourX => self.four_x,
            Modifier::EasyBoost => self.easy_boost,
        }
    }

    pub open spec fn with(self, m: Modifier, present: bool) -> ModifierSet {
        match m {
            Modifier::Speed => ModifierSet { speed: present, ..self },
            Modifier::Fuel => ModifierSet { fuel: present, ..self },
            Modifier::Co2 => ModifierSet { co2: present, ..self },
            Modifier::FourX => ModifierSet { four_x: present, ..self },
            Modifier::EasyBoost => ModifierSet { easy_boost: present, ..self },
        }
    }

    pub open spec fn empty_set() -> ModifierSet {
        ModifierSet { speed: false, fuel: false, co2: false, four_x: false, easy_boost: false }
    }

    pub fn new() -> (r: ModifierSet)
        ensures
            r == ModifierSet::empty_set(),
    {
        ModifierSet { speed: false, fuel: false, co2: false, four_x: false, easy_boost: false }
    }

    pub fn contains(&self, m: &Modifier) -> (r: bool)
        ensures
            r == self.has(*m),
    {
        match m {
            Modifier::Speed => self.speed,
            Modifier::Fuel => self.fuel,
            Modifier::Co2 => self.co2,
            Modifier::FourX => self.four_x,
            Modifier::EasyBoost => self.easy_boost,
        }
    }

    /// Add `m`; returns whether it was absent before.
    pub fn insert(&mut self, m: Modifier) -> (r: bool)
        ensures
            *final(self) == old(self).with(m, true),
            r == !old(self).has(m),
    {
        let was = self.contains(&m);
        match m {
            Modifier::Speed => self.speed = true,
            Modifier::Fuel => self.fuel = true,
            Modifier::Co2 => self.co2 = true,
            Modifier::FourX => self.four_x = true,
            Modifier::EasyBoost => self.easy_boost = true,
        }
        !was
    }

    /// Remove `m`; returns whether it was present before.
    pub fn remove(&mut self, m: &Modifier) -> (r: bool)
        ensures
            *final(self) == old(self).with(*m, false),
            r == old(self).has(*m),
    {
        let was = self.contains(m);
        match m {
            Modifier::Speed => self.speed = false,
            Modifier::Fuel => self.fuel = false,
            Modifier::Co2 => self.co2 = false,
            Modifier::FourX => self.four_x = false,
            Modifier::EasyBoost => self.easy_boost = false,
        }
        was
    }

    pub fn is_empty(&self) -> (r: bool)
        ensures
            r == (*self == ModifierSet::empty_set()),
    {
        !self.speed && !self.fuel && !self.co2 && !self.four_x && !self.easy_boost
    }
}

/// Engine variant of an aircraft; `0` is the default engine.
#[derive(Debug, Clone, Copy, PartialEq, Eq, Structural)]
pub struct EnginePriority(pub u8);

impl EnginePriority {
    pub fn get(&self) -> (r: u8)
        ensures
            r == self.0,
    {
        self.0
    }

    /// Read an engine priority written in decimal.
    pub fn from_str(s: &str) -> (r: Result<EnginePriority, AircraftError>)
        ensures
            r == match parse_u8_spec(encode_utf8(s@)) {
                Some(v) => Ok(EnginePriority(v)),
                None => Err(AircraftError::InvalidEnginePriority),
            },
    {
        match parse_u8(s) {
            Some(v) => Ok(EnginePriority(v)),
            None => Err(AircraftError::InvalidEnginePriority),
        }
    }
}

/// The modifiers and engine variant applied to an aircraft.
#[derive(Debug, Clone, Copy, PartialEq, Eq, Structural)]
pub struct Modification {
    pub mods: ModifierSet,
    pub engine: EnginePriority,
}

/// Position of the first ASCII digit of `c`, or `c.len()` when there is none.
pub open spec fn first_digit(c: Seq<char>) -> int {
    first_match(c, |ch: char| is_ascii_digit(ch))
}

/// One past the position of the last ASCII digit of `c`, or `0`.
pub open spec fn digit_end(c: Seq<char>) -> int
    decreases c.len(),
{
    if c.len() == 0 {
        0
    } else if is_ascii_digit(c.last()) {
        c.len() as int
    } else {
        digit_end(c.drop_last())
    }
}

/// The bytes from the first to the last digit, counting characters as bytes.
pub open spec fn engine_digits(c: Seq<char>) -> Seq<u8> {
    encode_utf8(c).subrange(first_digit(c), digit_end(c))
}

/// The span of digits, taken by character position, falls on character
/// boundaries of the UTF-8 text (always so for ASCII text).
pub open spec fn digit_span_on_boundaries(c: Seq<char>) -> bool {
    first_digit(c) < c.len() ==> {
        &&& is_char_boundary(encode_utf8(c), first_digit(c))
        &&& is_char_boundary(encode_utf8(c), digit_end(c))
    }
}

/// The modifiers whose letter occurs in `c`.
pub open spec fn modifiers_in(c: Seq<char>) -> ModifierSet {
    ModifierSet {
        speed: c.contains('s'),
        fuel: c.contains('f'),
        co2: c.contains('c'),
        four_x: c.contains('x'),
        easy_boost: c.contains('e'),
    }
}

/// Meaning of an already lowercased modification code: the engine priority
/// is the run from the first to the last digit (default engine when there is
/// no digit), and every modifier letter anywhere in the code is applied.
pub open spec fn parse_code(c: Seq<char>) -> Result<Modification, AircraftError> {
    if first_digit(c) == c.len() {
        Ok(Modification { mods: modifiers_in(c), engine: EnginePriority(0) })
    } else {
        match parse_u8_spec(engine_digits(c)) {
            Some(v) => Ok(Modification { mods: modifiers_in(c), engine: EnginePriority(v) }),
            None => Err(AircraftError::InvalidEnginePriority),
        }
    }
}

pub open spec fn flag(b: bool, ch: char) -> Seq<char> {
    if b {
        seq![ch]
    } else {
        seq![]
    }
}

/// The engine priority (when not the default) followed by the modifier
/// letters in the order `s`, `f`, `c`, `x`, `e`.
pub open spec fn display_code(m: Modification) -> Seq<char> {
    (if m.engine.0 != 0 {
        decimal(m.engine.0 as nat)
    } else {
        seq![]
    }) + flag(m.mods.speed, 's') + flag(m.mods.fuel, 'f') + flag(m.mods.co2, 'c') + flag(
        m.mods.four_x,
        'x',
    ) + flag(m.mods.easy_boost, 'e')
}

/// The suffix shown on a selected aircraft: engine priority and the
/// `s`, `f`, `c`, `x` letters between brackets, or nothing when both are empty.
pub open spec fn pill_code(m: Modification) -> Seq<char> {
    let prio = if m.engine.0 != 0 {
        decimal(m.engine.0 as nat)
    } else {
        seq![]
    };
    let letters = flag(m.mods.speed, 's') + flag(m.mods.fuel, 'f') + flag(m.mods.co2, 'c')
        + flag(m.mods.four_x, 'x');
    if prio.len() > 0 || letters.len() > 0 {
        seq!['['] + prio + letters + seq![']']
    } else {
        seq![]
    }
}

/// `m` without the easy boost modifier, which pills do not show.
pub open spec fn without_easy_boost(m: Modification) -> Modification {
    Modification { mods: ModifierSet { easy_boost: false, ..m.mods }, engine: m.engine }
}

/// The pill of a selected aircraft is its modification code (leaving out the
/// easy boost) between brackets, and nothing when that code is empty. It is
/// shown exactly when an engine other than the default or one of the speed,
/// fuel, co2 and 4x modifiers is chosen, and then holds the letter of each
/// chosen one.
#[verifier::rlimit(40)]
pub proof fn lemma_pill_code_meaning(m: Modification)
    ensures
        pill_code(m) == if display_code(without_easy_boost(m)).len() > 0 {
            seq!['['] + display_code(without_easy_boost(m)) + seq![']']
        } else {
            Seq::<char>::empty()
        },
        pill_code(m).len() > 0 <==> (m.engine.0 != 0 || m.mods.speed || m.mods.fuel || m.mods.co2
            || m.mods.four_x),
        pill_code(m).len() > 0 ==> pill_code(m)[0] == '[' && pill_code(m).last() == ']',
        m.mods.speed ==> pill_code(m).contains('s'),
        m.mods.fuel ==> pill_code(m).contains('f'),
        m.mods.co2 ==> pill_code(m).contains('c'),
        m.mods.four_x ==> pill_code(m).contains('x'),
{
    let w = without_easy_boost(m);
    let prio = if m.engine.0 != 0 {
        decimal(m.engine.0 as nat)
    } else {
        seq![]
    };
    if m.engine.0 != 0 {
        lemma_decimal_nonempty(m.engine.0 as nat);
    }
    let fs = flag(m.mods.speed, 's');
    let ff = flag(m.mods.fuel, 'f');
    let fc = flag(m.mods.co2, 'c');
    let fx = flag(m.mods.four_x, 'x');
    let letters = fs + ff + fc + fx;
    assert(display_code(w) =~= prio + letters);
    let p = pill_code(m);
    if prio.len() > 0 || letters.len() > 0 {
        assert(p =~= seq!['['] + (prio + letters) + seq![']']);
        let base: int = 1 + prio.len() as int;
        if m.mods.speed {
            assert(p[base] == 's');
        }
        if m.mods.fuel {
            assert(p[base + fs.len() as int] == 'f');
        }
        if m.mods.co2 {
            assert(p[base + fs.len() as int + ff.len() as int] == 'c');
        }
        if m.mods.four_x {
            assert(p[base + fs.len() as int + ff.len() as int + fc.len() as int] == 'x');
        }
    }
}

pub proof fn lemma_digit_span(c: Seq<char>)
    ensures
        0 <= digit_end(c) <= c.len(),
        first_digit(c) < c.len() ==> first_digit(c) < digit_end(c),
    decreases c.len(),
{
    lemma_first_match(c, |ch: char| is_ascii_digit(ch));
    if c.len() > 0 {
        let d = c.drop_last();
        lemma_digit_span(d);
        lemma_first_match(d, |ch: char| is_ascii_digit(ch));
    }
}

pub proof fn lemma_decimal_nonempty(n: nat)
    ensures
        decimal(n).len() > 0,
    decreases n,
{
    if n >= 10 {
        lemma_decimal_nonempty(n / 10);
    }
}

fn push_flag(out: &mut String, b: bool, ch: char)
    ensures
        final(out)@ == old(out)@ + flag(b, ch),
{
    if b {
        push_char(out, ch);
    } else {
        assert(old(out)@ + flag(b, ch) =~= old(out)@);
    }
}

/// The bytes of an ASCII text, one per character.
pub open spec fn ascii_bytes(c: Seq<char>) -> Seq<u8> {
    Seq::new(c.len(), |i: int| c[i] as u8)
}

proof fn lemma_digit_char(d: nat)
    requires
        d < 10,
    ensures
        is_ascii_digit(digit_char(d)),
        digit_char(d) as u8 == 48 + d,
{
}

/// The decimal text of a number is made of ASCII digits whose value is the
/// number.
pub proof fn lemma_decimal_value(n: nat)
    ensures
        decimal(n).len() >= 1,
        forall|k: int| 0 <= k < decimal(n).len() ==> is_ascii_digit(#[trigger] decimal(n)[k]),
        digits_value(ascii_bytes(decimal(n))) == n,
    decreases n,
{
    if n < 10 {
        lemma_digit_char(n);
        let b = ascii_bytes(decimal(n));
        assert(b.drop_last() =~= Seq::<u8>::empty());
        assert(b.last() == digit_char(n) as u8);
        assert(digits_value(b) == digits_value(b.drop_last()) * 10 + (b.last() - 48) as nat);
    } else {
        let d = decimal(n / 10);
        lemma_decimal_value(n / 10);
        lemma_digit_char(n % 10);
        assert(decimal(n) == d.push(digit_char(n % 10)));
        assert forall|k: int| 0 <= k < decimal(n).len() implies is_ascii_digit(
            #[trigger] decimal(n)[k],
        ) by {
            if k < d.len() {
                assert(decimal(n)[k] == d[k]);
            }
        }
        let b = ascii_bytes(decimal(n));
        assert(b.drop_last() =~= ascii_bytes(d));
        assert(b.last() == digit_char(n % 10) as u8);
        assert(digits_value(b) == digits_value(b.drop_last()) * 10 + (b.last() - 48) as nat);
        assert((n / 10) * 10 + n % 10 == n);
    }
}

proof fn lemma_concat_contains(a: Seq<char>, b: Seq<char>, x: char)
    ensures
        (a + b).contains(x) <==> a.contains(x) || b.contains(x),
{
    let ab = a + b;
    if ab.contains(x) {
        let k = choose|k: int| 0 <= k < ab.len() && ab[k] == x;
        if k < a.len() {
            assert(a[k] == x);
        } else {
            assert(b[k - a.len()] == x);
        }
    }
    if a.contains(x) {
        let k = choose|k: int| 0 <= k < a.len() && a[k] == x;
        assert(ab[k] == x);
    }
    if b.contains(x) {
        let k = choose|k: int| 0 <= k < b.len() && b[k] == x;
        assert(ab[a.len() + k] == x);
    }
}

/// The modifier letters of a code, in display order.
pub open spec fn letters(mods: ModifierSet) -> Seq<char> {
    flag(mods.speed, 's') + flag(mods.fuel, 'f') + flag(mods.co2, 'c') + flag(mods.four_x, 'x')
        + flag(mods.easy_boost, 'e')
}

proof fn lemma_letters(mods: ModifierSet, x: char)
    ensures
        letters(mods).contains(x) <==> (x == 's' && mods.speed) || (x == 'f' && mods.fuel) || (x
            == 'c' && mods.co2) || (x == 'x' && mods.four_x) || (x == 'e' && mods.easy_boost),
        forall|k: int|
            0 <= k < letters(mods).len() ==> !is_ascii_digit(#[trigger] letters(mods)[k]),
        is_ascii_chars(letters(mods)),
{
    let f1 = flag(mods.speed, 's');
    let f2 = flag(mods.fuel, 'f');
    let f3 = flag(mods.co2, 'c');
    let f4 = flag(mods.four_x, 'x');
    let f5 = flag(mods.easy_boost, 'e');
    lemma_concat_contains(f1, f2, x);
    lemma_concat_contains(f1 + f2, f3, x);
    lemma_concat_contains(f1 + f2 + f3, f4, x);
    lemma_concat_contains(f1 + f2 + f3 + f4, f5, x);
    assert(f1.contains(x) <==> x == 's' && mods.speed) by {
        if mods.speed {
            assert(f1[0] == 's');
        }
    }
    assert(f2.contains(x) <==> x == 'f' && mods.fuel) by {
        if mods.fuel {
            assert(f2[0] == 'f');
        }
    }
    assert(f3.contains(x) <==> x == 'c' && mods.co2) by {
        if mods.co2 {
            assert(f3[0] == 'c');
        }
    }
    assert(f4.contains(x) <==> x == 'x' && mods.four_x) by {
        if mods.four_x {
            assert(f4[0] == 'x');
        }
    }
    assert(f5.contains(x) <==> x == 'e' && mods.easy_boost) by {
        if mods.easy_boost {
            assert(f5[0] == 'e');
        }
    }
    let l = letters(mods);
    assert forall|k: int| 0 <= k < l.len() implies !is_ascii_digit(#[trigger] l[k]) && '\0' <= l[k]
        <= '\u{7f}' by {
        assert(l.contains(l[k]));
        lemma_letters_membership(mods, l[k]);
    }
}

proof fn lemma_letters_membership(mods: ModifierSet, x: char)
    requires
        letters(mods).contains(x),
    ensures
        x == 's' || x == 'f' || x == 'c' || x == 'x' || x == 'e',
{
    let f1 = flag(mods.speed, 's');
    let f2 = flag(mods.fuel, 'f');
    let f3 = flag(mods.co2, 'c');
    let f4 = flag(mods.four_x, 'x');
    let f5 = flag(mods.easy_boost, 'e');
    lemma_concat_contains(f1, f2, x);
    lemma_concat_contains(f1 + f2, f3, x);
    lemma_concat_contains(f1 + f2 + f3, f4, x);
    lemma_concat_contains(f1 + f2 + f3 + f4, f5, x);
}

/// In an ASCII code every position is a character boundary, so the digits
/// can always be cut out.
proof fn lemma_ascii_digit_span(c: Seq<char>)
    requires
        is_ascii_chars(c),
    ensures
        digit_span_on_boundaries(c),
{
    let b = encode_utf8(c);
    is_ascii_chars_encode_utf8(c);
    encode_utf8_valid_utf8(c);
    is_char_boundary_start_end_of_seq(b);
    assert forall|k: int| 0 <= k <= c.len() implies is_char_boundary(b, k) by {
        if k < c.len() {
            assert(c[k] as u8 == b[k]);
            is_char_boundary_iff_not_is_continuation_byte(b, k);
        } else {
            assert(k == b.len());
        }
    }
    lemma_digit_span(c);
    lemma_first_match(c, |ch: char| is_ascii_digit(ch));
    if first_digit(c) < c.len() {
        assert(is_char_boundary(b, first_digit(c)));
        assert(is_char_boundary(b, digit_end(c)));
    }
}

proof fn lemma_digit_end(c: Seq<char>)
    ensures
        0 <= digit_end(c) <= c.len(),
        digit_end(c) > 0 ==> is_ascii_digit(c[digit_end(c) - 1]),
        forall|k: int| digit_end(c) <= k < c.len() ==> !is_ascii_digit(#[trigger] c[k]),
    decreases c.len(),
{
    if c.len() > 0 {
        let d = c.drop_last();
        lemma_digit_end(d);
        assert forall|k: int| digit_end(c) <= k < c.len() implies !is_ascii_digit(#[trigger] c[k]) by {
            if k < d.len() {
                assert(d[k] == c[k]);
            }
        }
        if digit_end(c) > 0 && digit_end(c) < c.len() {
            assert(d[digit_end(c) - 1] == c[digit_end(c) - 1]);
        }
    }
}

/// Writing a modification as its code and reading the code back gives the
/// same modification; the digits of a written code always lie on character
/// boundaries.
#[verifier::rlimit(40)]
pub proof fn lemma_code_round_trip(m: Modification)
    ensures
        digit_span_on_boundaries(display_code(m)),
        parse_code(display_code(m)) == Ok::<Modification, AircraftError>(m),
{
    let e = m.engine.0;
    let dd = if e != 0 {
        decimal(e as nat)
    } else {
        Seq::<char>::empty()
    };
    let l = letters(m.mods);
    let c = display_code(m);
    assert(c =~= dd + l);
    lemma_decimal_value(e as nat);
    lemma_letters(m.mods, 's');
    lemma_letters(m.mods, 'f');
    lemma_letters(m.mods, 'c');
    lemma_letters(m.mods, 'x');
    lemma_letters(m.mods, 'e');
    assert forall|k: int| 0 <= k < dd.len() implies is_ascii_digit(#[trigger] dd[k]) by {}
    assert forall|k: int| 0 <= k < c.len() implies '\0' <= #[trigger] c[k] <= '\u{7f}' by {
        if k < dd.len() {
            assert(c[k] == dd[k]);
        } else {
            assert(c[k] == l[k - dd.len()]);
        }
    }
    assert(is_ascii_chars(c));
    is_ascii_chars_encode_utf8(c);
    encode_utf8_valid_utf8(c);
    let b = encode_utf8(c);
    // the digits are exactly the leading decimal text
    assert forall|k: int| dd.len() <= k < c.len() implies !is_ascii_digit(#[trigger] c[k]) by {
        assert(c[k] == l[k - dd.len()]);
    }
    lemma_digit_end(c);
    if dd.len() > 0 {
        assert(c[0] == dd[0]);
        lemma_first_match_unique(c, |ch: char| is_ascii_digit(ch), 0);
        assert(c[dd.len() - 1] == dd[dd.len() - 1]);
        let de = digit_end(c);
        if de < dd.len() {
            assert(c[de] == dd[de]);
        }
        if de > dd.len() {
            assert(!is_ascii_digit(c[de - 1]));
        }
        assert(de == dd.len());
        assert(b.subrange(0, dd.len() as int) =~= ascii_bytes(dd)) by {
            assert forall|k: int| 0 <= k < dd.len() implies b[k] == dd[k] as u8 by {
                assert(c[k] == dd[k]);
            }
        }
        let db = ascii_bytes(dd);
        assert(db[0] != 43) by {
            assert(is_ascii_digit(dd[0]));
        }
        assert forall|i: int| 0 <= i < db.len() implies crate::text::is_digit_byte(#[trigger] db[i]) by {
            assert(is_ascii_digit(dd[i]));
        }
        // boundaries
        if dd.len() < c.len() {
            is_char_boundary_iff_not_is_continuation_byte(b, dd.len() as int);
            assert(b[dd.len() as int] == c[dd.len() as int] as u8);
        } else {
            is_char_boundary_start_end_of_seq(b);
        }
        is_char_boundary_start_end_of_seq(b);
    } else {
        assert forall|k: int| 0 <= k < c.len() implies !is_ascii_digit(#[trigger] c[k]) by {
            assert(c[k] == l[k]);
        }
        lemma_first_match_unique(c, |ch: char| is_ascii_digit(ch), c.len() as int);
    }
    lemma_concat_contains(dd, l, 's');
    lemma_concat_contains(dd, l, 'f');
    lemma_concat_contains(dd, l, 'c');
    lemma_concat_contains(dd, l, 'x');
    lemma_concat_contains(dd, l, 'e');
    assert(!dd.contains('s') && !dd.contains('f') && !dd.contains('c') && !dd.contains('x')
        && !dd.contains('e'));
    assert(modifiers_in(c) == m.mods);
}

impl Modification {
    pub open spec fn none() -> Modification {
        Modification { mods: ModifierSet::empty_set(), engine: EnginePriority(0) }
    }

    /// Default engine, no modifiers.
    pub fn new() -> (r: Modification)
        ensures
            r == Modification::none(),
    {
        Modification { mods: ModifierSet::new(), engine: EnginePriority(0) }
    }

    pub fn is_empty(&self) -> (r: bool)
        ensures
            r == (*self == Modification::none()),
    {
        self.engine.get() == 0 && self.mods.is_empty()
    }

    /// Locate the digits of a code: first digit and one past the last digit.
    pub fn digit_span(l: &str) -> (r: Option<(usize, usize)>)
        ensures
            first_digit(l@) == l@.len() <==> r is None,
            r matches Some(p) ==> p.0 == first_digit(l@) && p.1 == digit_end(l@),
    {
        let n = l.unicode_len();
        let ghost c = l@;
        let mut start: usize = 0;
        let mut end: usize = 0;
        let mut found = false;
        let mut i: usize = 0;
        while i < n
            invariant
                i <= n,
                n == c.len(),
                c == l@,
                first_digit(c.take(i as int)) <= i,
                found == (first_digit(c.take(i as int)) < i),
                found ==> start == first_digit(c.take(i as int)),
                end == digit_end(c.take(i as int)),
            decreases n - i,
        {
            let ch = l.get_char(i);
            proof {
                assert(c.take(i + 1).drop_last() =~= c.take(i as int));
                assert(c.take(i + 1).last() == ch);
            }
            if '0' <= ch && ch <= '9' {
                if !found {
                    start = i;
                    found = true;
                }
                end = i + 1;
            }
            i = i + 1;
        }
        assert(c.take(n as int) =~= c);
        if found {
            Some((start, end))
        } else {
            None
        }
    }

    /// Read a modification code that has already been lowercased.
    pub fn parse_lowercase(l: &str) -> (r: Result<Modification, AircraftError>)
        requires
            digit_span_on_boundaries(l@),
        ensures
            r == parse_code(l@),
    {
        let ghost c = l@;
        let mut engine = EnginePriority(0);
        match Modification::digit_span(l) {
            Some((start, end)) => {
                proof {
                    lemma_digit_span(c);
                    encode_utf8_valid_utf8(c);
                }
                let (head, _tail) = l.split_at(end);
                let ghost b = encode_utf8(c);
                let ghost hb = encode_utf8(head@);
                proof {
                    encode_utf8_valid_utf8(head@);
                    assert(hb =~= b.subrange(0, end as int));
                    assert(hb[start as int] == b[start as int]);
                    is_char_boundary_iff_not_is_continuation_byte(b, start as int);
                    is_char_boundary_iff_not_is_continuation_byte(hb, start as int);
                }
                let (_lead, digits) = head.split_at(start);
                proof {
                    assert(encode_utf8(digits@) =~= engine_digits(c));
                }
                engine = EnginePriority::from_str(digits)?;
            },
            None => {},
        }
        let n = l.unicode_len();
        let mut mods = ModifierSet::new();
        let mut i: usize = 0;
        while i < n
            invariant
                i <= n,
                n == c.len(),
                c == l@,
                mods == modifiers_in(c.take(i as int)),
            decreases n - i,
        {
            let ch = l.get_char(i);
            proof {
                lemma_take_push_contains(c, i as int, 's');
                lemma_take_push_contains(c, i as int, 'f');
                lemma_take_push_contains(c, i as int, 'c');
                lemma_take_push_contains(c, i as int, 'x');
                lemma_take_push_contains(c, i as int, 'e');
            }
            if ch == 's' {
                mods.insert(Modifier::Speed);
            } else if ch == 'f' {
                mods.insert(Modifier::Fuel);
            } else if ch == 'c' {
                mods.insert(Modifier::Co2);
            } else if ch == 'x' {
                mods.insert(Modifier::FourX);
            } else if ch == 'e' {
                mods.insert(Modifier::EasyBoost);
            }
            i = i + 1;
        }
        assert(c.take(n as int) =~= c);
        Ok(Modification { mods, engine })
    }

    /// Read the modification code written between square brackets: engine
    /// priority (digits) and modifier letters, in any case; e.g. `1`, `sfc`,
    /// `1sfc`, `10`, `2sfcx`. `None` when the digits of the lowercased code
    /// cannot be cut out of the text by character position.
    pub fn parse(s: &str) -> (r: Option<Result<Modification, AircraftError>>)
        ensures
            r is Some <==> digit_span_on_boundaries(lowercase(s@)),
            r matches Some(x) ==> x == parse_code(lowercase(s@)),
            is_ascii_chars(s@) ==> r == Some(parse_code(ascii_lowercase(s@))),
    {
        let lowered = to_lowercase(s);
        proof {
            if is_ascii_chars(s@) {
                lemma_ascii_digit_span(ascii_lowercase(s@));
            }
        }
        let l = lowered.as_str();
        match Modification::digit_span(l) {
            Some((start, end)) => {
                if !l.is_char_boundary(start) || !l.is_char_boundary(end) {
                    return None;
                }
            },
            None => {},
        }
        Some(Modification::parse_lowercase(l))
    }

    /// The code of this modification, e.g. `2sfc`.
    pub fn to_code(&self) -> (r: String)
        ensures
            r@ == display_code(*self),
    {
        let mut out = String::new();
        if self.engine.get() != 0 {
            push_decimal(&mut out, self.engine.get() as u64);
        }
        assert(out@ =~= if self.engine.0 != 0 {
            decimal(self.engine.0 as nat)
        } else {
            seq![]
        });
        push_flag(&mut out, self.mods.speed, 's');
        push_flag(&mut out, self.mods.fuel, 'f');
        push_flag(&mut out, self.mods.co2, 'c');
        push_flag(&mut out, self.mods.four_x, 'x');
        push_flag(&mut out, self.mods.easy_boost, 'e');
        out
    }

    /// The bracketed suffix shown on a selected aircraft, e.g. `[2sf]`.
    pub fn pill_suffix(&self) -> (r: String)
        ensures
            r@ == pill_code(*self),
            r@ == if display_code(without_easy_boost(*self)).len() > 0 {
                seq!['['] + display_code(without_easy_boost(*self)) + seq![']']
            } else {
                Seq::<char>::empty()
            },
    {
        proof {
            lemma_pill_code_meaning(*self);
        }
        let mut inner = String::new();
        if self.engine.get() != 0 {
            push_decimal(&mut inner, self.engine.get() as u64);
            proof {
                lemma_decimal_nonempty(self.engine.0 as nat);
            }
        }
        let ghost prio = inner@;
        push_flag(&mut inner, self.mods.speed, 's');
        push_flag(&mut inner, self.mods.fuel, 'f');
        push_flag(&mut inner, self.mods.co2, 'c');
        push_flag(&mut inner, self.mods.four_x, 'x');
        if self.engine.get() == 0 && !self.mods.speed && !self.mods.fuel && !self.mods.co2
            && !self.mods.four_x {
            return String::new();
        }
        let mut out = String::new();
        push_char(&mut out, '[');
        out.append(inner.as_str());
        push_char(&mut out, ']');
        assert(out@ =~= pill_code(*self));
        out
    }

    /// Switch on the modifiers that the user settings apply by default.
    pub fn apply_defaults(&mut self, four_x: bool, speed: bool, fuel: bool, co2: bool)
        ensures
            final(self).engine == old(self).engine,
            final(self).mods == (ModifierSet {
                four_x: old(self).mods.four_x || four_x,
                speed: old(self).mods.speed || speed,
                fuel: old(self).mods.fuel || fuel,
                co2: old(self).mods.co2 || co2,
                easy_boost: old(self).mods.easy_boost,
            }),
    {
        if four_x {
            self.mods.insert(Modifier::FourX);
        }
        if speed {
            self.mods.insert(Modifier::Speed);
        }
        if fuel {
            self.mods.insert(Modifier::Fuel);
        }
        if co2 {
            self.mods.insert(Modifier::Co2);
        }
    }
}

impl Default for Modification {
    fn default() -> (r: Modification)
        ensures
            r == Modification::none(),
    {
        Modification::new()
    }
}

/// A container holding a base aircraft and its [Modification]s.
#[derive(Debug, Clone, PartialEq)]
pub struct CustomAircraft<A> {
    pub aircraft: A,
    pub modifiers: Modification,
}

impl<A> CustomAircraft<A> {
    /// Create a new `CustomAircraft` from a base aircraft and modifiers.
    pub fn new(aircraft: A, modifiers: Modification) -> (r: Self)
        ensures
            r.aircraft == aircraft,
            r.modifiers == modifiers,
    {
        CustomAircraft { aircraft, modifiers }
    }

    /// The aircraft's short name followed by its modification code in
    /// brackets, unless it has no modification.
    pub fn label(&self, shortname: &str) -> (r: String)
        ensures
            r@ == if self.modifiers == Modification::none() {
                shortname@
            } else {
                shortname@ + seq!['['] + display_code(self.modifiers) + seq![']']
            },
    {
        let mut out = shortname.to_owned();
        if !self.modifiers.is_empty() {
            push_char(&mut out, '[');
            let code = self.modifiers.to_code();
            out.append(code.as_str());
            push_char(&mut out, ']');
        }
        out
    }
}

/// A row of the aircraft search results.
#[derive(Debug, Clone, PartialEq)]
pub enum ACSelection<A> {
    /// Single aircraft variant (used when only 1 engine exists)
    Single(A, Modification),
    /// Header for multiple variants
    Header(A),
    /// Engine variant row
    Variant(A, Modification),
}

impl<A> ACSelection<A> {
    pub fn aircraft(&self) -> (r: &A)
        ensures
            *r == match *self {
                ACSelection::Single(a, _) => a,
                ACSelection::Header(a) => a,
                ACSelection::Variant(a, _) => a,
            },
    {
        match self {
            ACSelection::Single(a, _) => a,
            ACSelection::Header(a) => a,
            ACSelection::Variant(a, _) => a,
        }
    }

    pub fn modification(&self) -> (r: Option<&Modification>)
        ensures
            r == match *self {
                ACSelection::Single(_, m) => Some(&m),
                ACSelection::Header(_) => None,
                ACSelection::Variant(_, m) => Some(&m),
            },
    {
        match self {
            ACSelection::Single(_, m) => Some(m),
            ACSelection::Variant(_, m) => Some(m),
            ACSelection::Header(_) => None,
        }
    }

    /// Switch a modifier on or off in a row that carries a modification;
    /// headers are left alone.
    pub fn toggle(self, m: Modifier, enable: bool) -> (r: ACSelection<A>)
        ensures
            match (self, r) {
                (ACSelection::Single(a, x), ACSelection::Single(b, y)) => a == b && y.engine
                    == x.engine && y.mods == x.mods.with(m, enable),
                (ACSelection::Variant(a, x), ACSelection::Variant(b, y)) => a == b && y.engine
                    == x.engine && y.mods == x.mods.with(m, enable),
                (ACSelection::Header(a), ACSelection::Header(b)) => a == b,
                _ => false,
            },
    {
        match self {
            ACSelection::Single(a, mut x) => {
                if enable {
                    x.mods.insert(m);
                } else {
                    x.mods.remove(&m);
                }
                ACSelection::Single(a, x)
            },
            ACSelection::Variant(a, mut x) => {
                if enable {
                    x.mods.insert(m);
                } else {
                    x.mods.remove(&m);
                }
                ACSelection::Variant(a, x)
            },
            ACSelection::Header(a) => ACSelection::Header(a),
        }
    }
}

/// `m` with the modifiers that the user settings apply by default switched on.
pub open spec fn with_defaults(m: Modification, four_x: bool, speed: bool, fuel: bool, co2: bool) -> Modification {
    Modification {
        mods: ModifierSet {
            four_x: m.mods.four_x || four_x,
            speed: m.mods.speed || speed,
            fuel: m.mods.fuel || fuel,
            co2: m.mods.co2 || co2,
            easy_boost: m.mods.easy_boost,
        },
        engine: m.engine,
    }
}

/// The rows one suggested aircraft shows: a single row when it has one
/// engine variant, else a header followed by one row per variant, each with
/// the variant's engine. Every row carries the suggested modifiers with the
/// defaults switched on.
pub open spec fn suggestion_rows_of<A>(
    variants: Seq<(A, EnginePriority)>,
    m: Modification,
    four_x: bool,
    speed: bool,
    fuel: bool,
    co2: bool,
) -> Seq<ACSelection<A>> {
    if variants.len() == 1 {
        seq![ACSelection::Single(variants[0].0, with_defaults(m, four_x, speed, fuel, co2))]
    } else {
        seq![ACSelection::Header(variants[0].0)] + Seq::new(
            variants.len(),
            |k: int|
                ACSelection::Variant(
                    variants[k].0,
                    with_defaults(
                        Modification { mods: m.mods, engine: variants[k].1 },
                        four_x,
                        speed,
                        fuel,
                        co2,
                    ),
                ),
        )
    }
}

/// The rows of one suggestion: a single row for one engine variant, else a
/// header and one row per variant in order. Every row names its variant's
/// aircraft and carries exactly the suggestion's modifiers plus the defaults
/// switched on; a variant row has its variant's engine, a single row keeps
/// the suggestion's engine.
pub proof fn lemma_suggestion_rows_of<A>(
    variants: Seq<(A, EnginePriority)>,
    m: Modification,
    four_x: bool,
    speed: bool,
    fuel: bool,
    co2: bool,
)
    requires
        variants.len() > 0,
    ensures
        ({
            let rows = suggestion_rows_of(variants, m, four_x, speed, fuel, co2);
            let mods = ModifierSet {
                speed: m.mods.speed || speed,
                fuel: m.mods.fuel || fuel,
                co2: m.mods.co2 || co2,
                four_x: m.mods.four_x || four_x,
                easy_boost: m.mods.easy_boost,
            };
            &&& variants.len() == 1 ==> rows == seq![
                ACSelection::Single(variants[0].0, Modification { mods, engine: m.engine }),
            ]
            &&& variants.len() > 1 ==> {
                &&& rows.len() == variants.len() + 1
                &&& rows[0] == ACSelection::Header(variants[0].0)
                &&& forall|k: int|
                    0 <= k < variants.len() ==> #[trigger] rows[k + 1] == ACSelection::Variant(
                        variants[k].0,
                        Modification { mods, engine: variants[k].1 },
                    )
            }
        }),
{
    let rows = suggestion_rows_of(variants, m, four_x, speed, fuel, co2);
    if variants.len() > 1 {
        assert forall|k: int| 0 <= k < variants.len() implies #[trigger] rows[k + 1]
            == ACSelection::Variant(
            variants[k].0,
            Modification {
                mods: ModifierSet {
                    speed: m.mods.speed || speed,
                    fuel: m.mods.fuel || fuel,
                    co2: m.mods.co2 || co2,
                    four_x: m.mods.four_x || four_x,
                    easy_boost: m.mods.easy_boost,
                },
                engine: variants[k].1,
            },
        ) by {
            assert(rows[k + 1] == (seq![ACSelection::Header(variants[0].0)] + Seq::new(
                variants.len(),
                |q: int|
                    ACSelection::Variant(
                        variants[q].0,
                        with_defaults(
                            Modification { mods: m.mods, engine: variants[q].1 },
                            four_x,
                            speed,
                            fuel,
                            co2,
                        ),
                    ),
            ))[k + 1]);
        }
    }
}

/// The rows of all suggestions, in order.
pub open spec fn suggestion_rows_spec<A>(
    s: Seq<(Vec<(A, EnginePriority)>, Modification)>,
    four_x: bool,
    speed: bool,
    fuel: bool,
    co2: bool,
) -> Seq<ACSelection<A>>
    decreases s.len(),
{
    if s.len() == 0 {
        Seq::empty()
    } else {
        suggestion_rows_spec(s.drop_last(), four_x, speed, fuel, co2) + suggestion_rows_of(
            s.last().0@,
            s.last().1,
            four_x,
            speed,
            fuel,
            co2,
        )
    }
}

/// Rows of the aircraft search box for the suggested aircraft: each
/// suggestion lists its engine variants (aircraft and engine priority) and
/// the modifiers it was found with; see [suggestion_rows_of].
pub fn suggestion_rows<A: Copy>(
    s: &Vec<(Vec<(A, EnginePriority)>, Modification)>,
    four_x: bool,
    speed: bool,
    fuel: bool,
    co2: bool,
) -> (r: Vec<ACSelection<A>>)
    requires
        forall|i: int| 0 <= i < s@.len() ==> (#[trigger] s@[i]).0@.len() > 0,
    ensures
        r@ == suggestion_rows_spec(s@, four_x, speed, fuel, co2),
{
    let mut rows: Vec<ACSelection<A>> = Vec::new();
    let mut i: usize = 0;
    while i < s.len()
        invariant
            i <= s@.len(),
            forall|k: int| 0 <= k < s@.len() ==> (#[trigger] s@[k]).0@.len() > 0,
            rows@ == suggestion_rows_spec(s@.take(i as int), four_x, speed, fuel, co2),
        decreases s@.len() - i,
    {
        let variants = &s[i].0;
        let m = s[i].1;
        let ghost before = rows@;
        let ghost vs = variants@;
        if variants.len() == 1 {
            let mut mods = m;
            mods.apply_defaults(four_x, speed, fuel, co2);
            rows.push(ACSelection::Single(variants[0].0, mods));
        } else {
            rows.push(ACSelection::Header(variants[0].0));
            let mut k: usize = 0;
            while k < variants.len()
                invariant
                    k <= vs.len(),
                    vs == variants@,
                    vs.len() > 1,
                    rows@ == before + seq![ACSelection::Header(vs[0].0)] + Seq::new(
                        k as nat,
                        |q: int|
                            ACSelection::Variant(
                                vs[q].0,
                                with_defaults(
                                    Modification { mods: m.mods, engine: vs[q].1 },
                                    four_x,
                                    speed,
                                    fuel,
                                    co2,
                                ),
                            ),
                    ),
                decreases vs.len() - k,
            {
                let mut mods = m;
                mods.engine = variants[k].1;
                mods.apply_defaults(four_x, speed, fuel, co2);
                rows.push(ACSelection::Variant(variants[k].0, mods));
                proof {
                    let f = |q: int|
                        ACSelection::Variant(
                            vs[q].0,
                            with_defaults(
                                Modification { mods: m.mods, engine: vs[q].1 },
                                four_x,
                                speed,
                                fuel,
                                co2,
                            ),
                        );
                    assert(Seq::new((k + 1) as nat, f) =~= Seq::new(k as nat, f).push(f(k as int)));
                }
                k = k + 1;
            }
        }
        proof {
            let t = s@.take(i + 1);
            assert(t.drop_last() =~= s@.take(i as int));
            assert(t.last() == s@[i as int]);
        }
        i = i + 1;
    }
    assert(s@.take(s@.len() as int) =~= s@);
    rows
}

/// Modification codes ignore case: an ASCII code written in capitals reads
/// as the same modification (by [Modification::parse], whose result on ASCII
/// text is that of its ASCII lowercase form).
pub proof fn lemma_code_ignores_case(s: Seq<char>)
    requires
        is_ascii_chars(s),
    ensures
        is_ascii_chars(ascii_uppercase(s)),
        parse_code(ascii_lowercase(ascii_uppercase(s))) == parse_code(ascii_lowercase(s)),
{
    lemma_ascii_case(s);
}

} // verus!

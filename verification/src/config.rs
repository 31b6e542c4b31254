//! Names of the greedy seat/cargo configuration algorithms, and the
//! configurations they produce.
use vstd::prelude::*;
use crate::text::{
    ascii_lowercase, ascii_uppercase, lemma_ascii_case, lowercase, same_text, to_lowercase,
};

verus! {

/// Percentage of large and heavy cargo.
#[derive(Debug, Clone, Copy, PartialEq, Eq, Structural)]
pub struct CargoConfig {
    pub l: u8,
    pub h: u8,
}

/// Economy, business and first class seats.
#[derive(Debug, Clone, Copy, PartialEq, Eq, Structural)]
pub struct PaxConfig {
    pub y: u16,
    pub j: u16,
    pub f: u16,
}

#[derive(Debug, Clone, Copy, PartialEq, Eq, Structural)]
pub enum ConfigVariant {
    Pax(PaxConfig),
    Cargo(CargoConfig),
}

#[derive(Debug, Clone, Copy, PartialEq, Eq, Structural)]
pub enum CargoConfigAlgorithm {
    Auto,
    L,
    H,
    LOnly,
    HOnly,
    Spread,
}

/// Fill order of the pax classes, or a single class only.
#[derive(Debug, Clone, Copy, PartialEq, Eq, Structural)]
pub enum PaxConfigAlgorithm {
    Auto,
    FJY,
    FYJ,
    JFY,
    JYF,
    YFJ,
    YJF,
    YOnly,
    JOnly,
    FOnly,
}

#[derive(Debug, Clone, Copy, PartialEq, Eq, Structural)]
pub enum ConfigAlgorithm {
    Auto,
    Pax(PaxConfigAlgorithm),
    Cargo(CargoConfigAlgorithm),
}

/// The algorithm a (lowercased) cargo algorithm name stands for.
pub open spec fn cargo_algorithm_named(c: Seq<char>) -> Result<CargoConfigAlgorithm, ()> {
    if c == "auto"@ {
        Ok(CargoConfigAlgorithm::Auto)
    } else if c == "lh"@ {
        Ok(CargoConfigAlgorithm::L)
    } else if c == "hl"@ {
        Ok(CargoConfigAlgorithm::H)
    } else if c == "l"@ {
        Ok(CargoConfigAlgorithm::LOnly)
    } else if c == "h"@ {
        Ok(CargoConfigAlgorithm::HOnly)
    } else if c == "spread"@ {
        Ok(CargoConfigAlgorithm::Spread)
    } else {
        Err(())
    }
}

/// The name under which a cargo algorithm is written.
pub open spec fn cargo_algorithm_name(a: CargoConfigAlgorithm) -> Seq<char> {
    match a {
        CargoConfigAlgorithm::Auto => "auto"@,
        CargoConfigAlgorithm::L => "lh"@,
        CargoConfigAlgorithm::H => "hl"@,
        CargoConfigAlgorithm::LOnly => "l"@,
        CargoConfigAlgorithm::HOnly => "h"@,
        CargoConfigAlgorithm::Spread => "spread"@,
    }
}

/// The algorithm a (lowercased) pax algorithm name stands for.
pub open spec fn pax_algorithm_named(c: Seq<char>) -> Result<PaxConfigAlgorithm, ()> {
    if c == "auto"@ {
        Ok(PaxConfigAlgorithm::Auto)
    } else if c == "fjy"@ {
        Ok(PaxConfigAlgorithm::FJY)
    } else if c == "fyj"@ {
        Ok(PaxConfigAlgorithm::FYJ)
    } else if c == "jfy"@ {
        Ok(PaxConfigAlgorithm::JFY)
    } else if c == "jyf"@ {
        Ok(PaxConfigAlgorithm::JYF)
    } else if c == "yfj"@ {
        Ok(PaxConfigAlgorithm::YFJ)
    } else if c == "yjf"@ {
        Ok(PaxConfigAlgorithm::YJF)
    } else if c == "y"@ {
        Ok(PaxConfigAlgorithm::YOnly)
    } else if c == "j"@ {
        Ok(PaxConfigAlgorithm::JOnly)
    } else if c == "f"@ {
        Ok(PaxConfigAlgorithm::FOnly)
    } else {
        Err(())
    }
}

/// The name under which a pax algorithm is written.
pub open spec fn pax_algorithm_name(a: PaxConfigAlgorithm) -> Seq<char> {
    match a {
        PaxConfigAlgorithm::Auto => "auto"@,
        PaxConfigAlgorithm::FJY => "fjy"@,
        PaxConfigAlgorithm::FYJ => "fyj"@,
        PaxConfigAlgorithm::JFY => "jfy"@,
        PaxConfigAlgorithm::JYF => "jyf"@,
        PaxConfigAlgorithm::YFJ => "yfj"@,
        PaxConfigAlgorithm::YJF => "yjf"@,
        PaxConfigAlgorithm::YOnly => "y"@,
        PaxConfigAlgorithm::JOnly => "j"@,
        PaxConfigAlgorithm::FOnly => "f"@,
    }
}

/// A (lowercased) algorithm name: `auto`, else a pax algorithm other than
/// its `auto`, else a cargo algorithm other than its `auto`.
pub open spec fn algorithm_named(c: Seq<char>) -> Result<ConfigAlgorithm, ()> {
    if c == "auto"@ {
        Ok(ConfigAlgorithm::Auto)
    } else if pax_algorithm_named(c) is Ok && pax_algorithm_named(c)->Ok_0
        != PaxConfigAlgorithm::Auto {
        Ok(ConfigAlgorithm::Pax(pax_algorithm_named(c)->Ok_0))
    } else if cargo_algorithm_named(c) is Ok && cargo_algorithm_named(c)->Ok_0
        != CargoConfigAlgorithm::Auto {
        Ok(ConfigAlgorithm::Cargo(cargo_algorithm_named(c)->Ok_0))
    } else {
        Err(())
    }
}

pub open spec fn algorithm_name(a: ConfigAlgorithm) -> Seq<char> {
    match a {
        ConfigAlgorithm::Auto => "auto"@,
        ConfigAlgorithm::Pax(p) => pax_algorithm_name(p),
        ConfigAlgorithm::Cargo(k) => cargo_algorithm_name(k),
    }
}

/// Algorithm names are pairwise different.
proof fn lemma_algorithm_names_distinct()
    ensures
        "auto"@ != "lh"@,
        "auto"@ != "hl"@,
        "auto"@ != "l"@,
        "auto"@ != "h"@,
        "auto"@ != "spread"@,
        "auto"@ != "fjy"@,
        "auto"@ != "fyj"@,
        "auto"@ != "jfy"@,
        "auto"@ != "jyf"@,
        "auto"@ != "yfj"@,
        "auto"@ != "yjf"@,
        "auto"@ != "y"@,
        "auto"@ != "j"@,
        "auto"@ != "f"@,
        "lh"@ != "hl"@,
        "lh"@ != "l"@,
        "lh"@ != "h"@,
        "lh"@ != "spread"@,
        "lh"@ != "fjy"@,
        "lh"@ != "fyj"@,
        "lh"@ != "jfy"@,
        "lh"@ != "jyf"@,
        "lh"@ != "yfj"@,
        "lh"@ != "yjf"@,
        "lh"@ != "y"@,
        "lh"@ != "j"@,
        "lh"@ != "f"@,
        "hl"@ != "l"@,
        "hl"@ != "h"@,
        "hl"@ != "spread"@,
        "hl"@ != "fjy"@,
        "hl"@ != "fyj"@,
        "hl"@ != "jfy"@,
        "hl"@ != "jyf"@,
        "hl"@ != "yfj"@,
        "hl"@ != "yjf"@,
        "hl"@ != "y"@,
        "hl"@ != "j"@,
        "hl"@ != "f"@,
        "l"@ != "h"@,
        "l"@ != "spread"@,
        "l"@ != "fjy"@,
        "l"@ != "fyj"@,
        "l"@ != "jfy"@,
        "l"@ != "jyf"@,
        "l"@ != "yfj"@,
        "l"@ != "yjf"@,
        "l"@ != "y"@,
        "l"@ != "j"@,
        "l"@ != "f"@,
        "h"@ != "spread"@,
        "h"@ != "fjy"@,
        "h"@ != "fyj"@,
        "h"@ != "jfy"@,
        "h"@ != "jyf"@,
        "h"@ != "yfj"@,
        "h"@ != "yjf"@,
        "h"@ != "y"@,
        "h"@ != "j"@,
        "h"@ != "f"@,
        "spread"@ != "fjy"@,
        "spread"@ != "fyj"@,
        "spread"@ != "jfy"@,
        "spread"@ != "jyf"@,
        "spread"@ != "yfj"@,
        "spread"@ != "yjf"@,
        "spread"@ != "y"@,
        "spread"@ != "j"@,
        "spread"@ != "f"@,
        "fjy"@ != "fyj"@,
        "fjy"@ != "jfy"@,
        "fjy"@ != "jyf"@,
        "fjy"@ != "yfj"@,
        "fjy"@ != "yjf"@,
        "fjy"@ != "y"@,
        "fjy"@ != "j"@,
        "fjy"@ != "f"@,
        "fyj"@ != "jfy"@,
        "fyj"@ != "jyf"@,
        "fyj"@ != "yfj"@,
        "fyj"@ != "yjf"@,
        "fyj"@ != "y"@,
        "fyj"@ != "j"@,
        "fyj"@ != "f"@,
        "jfy"@ != "jyf"@,
        "jfy"@ != "yfj"@,
        "jfy"@ != "yjf"@,
        "jfy"@ != "y"@,
        "jfy"@ != "j"@,
        "jfy"@ != "f"@,
        "jyf"@ != "yfj"@,
        "jyf"@ != "yjf"@,
        "jyf"@ != "y"@,
        "jyf"@ != "j"@,
        "jyf"@ != "f"@,
        "yfj"@ != "yjf"@,
        "yfj"@ != "y"@,
        "yfj"@ != "j"@,
        "yfj"@ != "f"@,
        "yjf"@ != "y"@,
        "yjf"@ != "j"@,
        "yjf"@ != "f"@,
        "y"@ != "j"@,
        "y"@ != "f"@,
        "j"@ != "f"@,
{
    reveal_strlit("auto");
    reveal_strlit("lh");
    reveal_strlit("hl");
    reveal_strlit("l");
    reveal_strlit("h");
    reveal_strlit("spread");
    reveal_strlit("fjy");
    reveal_strlit("fyj");
    reveal_strlit("jfy");
    reveal_strlit("jyf");
    reveal_strlit("yfj");
    reveal_strlit("yjf");
    reveal_strlit("y");
    reveal_strlit("j");
    reveal_strlit("f");
    assert("auto"@.len() != "lh"@.len());
    assert("auto"@.len() != "hl"@.len());
    assert("auto"@.len() != "l"@.len());
    assert("auto"@.len() != "h"@.len());
    assert("auto"@.len() != "spread"@.len());
    assert("auto"@.len() != "fjy"@.len());
    assert("auto"@.len() != "fyj"@.len());
    assert("auto"@.len() != "jfy"@.len());
    assert("auto"@.len() != "jyf"@.len());
    assert("auto"@.len() != "yfj"@.len());
    assert("auto"@.len() != "yjf"@.len());
    assert("auto"@.len() != "y"@.len());
    assert("auto"@.len() != "j"@.len());
    assert("auto"@.len() != "f"@.len());
    assert("lh"@[0] != "hl"@[0]);
    assert("lh"@.len() != "l"@.len());
    assert("lh"@.len() != "h"@.len());
    assert("lh"@.len() != "spread"@.len());
    assert("lh"@.len() != "fjy"@.len());
    assert("lh"@.len() != "fyj"@.len());
    assert("lh"@.len() != "jfy"@.len());
    assert("lh"@.len() != "jyf"@.len());
    assert("lh"@.len() != "yfj"@.len());
    assert("lh"@.len() != "yjf"@.len());
    assert("lh"@.len() != "y"@.len());
    assert("lh"@.len() != "j"@.len());
    assert("lh"@.len() != "f"@.len());
    assert("hl"@.len() != "l"@.len());
    assert("hl"@.len() != "h"@.len());
    assert("hl"@.len() != "spread"@.len());
    assert("hl"@.len() != "fjy"@.len());
    assert("hl"@.len() != "fyj"@.len());
    assert("hl"@.len() != "jfy"@.len());
    assert("hl"@.len() != "jyf"@.len());
    assert("hl"@.len() != "yfj"@.len());
    assert("hl"@.len() != "yjf"@.len());
    assert("hl"@.len() != "y"@.len());
    assert("hl"@.len() != "j"@.len());
    assert("hl"@.len() != "f"@.len());
    assert("l"@[0] != "h"@[0]);
    assert("l"@.len() != "spread"@.len());
    assert("l"@.len() != "fjy"@.len());
    assert("l"@.len() != "fyj"@.len());
    assert("l"@.len() != "jfy"@.len());
    assert("l"@.len() != "jyf"@.len());
    assert("l"@.len() != "yfj"@.len());
    assert("l"@.len() != "yjf"@.len());
    assert("l"@[0] != "y"@[0]);
    assert("l"@[0] != "j"@[0]);
    assert("l"@[0] != "f"@[0]);
    assert("h"@.len() != "spread"@.len());
    assert("h"@.len() != "fjy"@.len());
    assert("h"@.len() != "fyj"@.len());
    assert("h"@.len() != "jfy"@.len());
    assert("h"@.len() != "jyf"@.len());
    assert("h"@.len() != "yfj"@.len());
    assert("h"@.len() != "yjf"@.len());
    assert("h"@[0] != "y"@[0]);
    assert("h"@[0] != "j"@[0]);
    assert("h"@[0] != "f"@[0]);
    assert("spread"@.len() != "fjy"@.len());
    assert("spread"@.len() != "fyj"@.len());
    assert("spread"@.len() != "jfy"@.len());
    assert("spread"@.len() != "jyf"@.len());
    assert("spread"@.len() != "yfj"@.len());
    assert("spread"@.len() != "yjf"@.len());
    assert("spread"@.len() != "y"@.len());
    assert("spread"@.len() != "j"@.len());
    assert("spread"@.len() != "f"@.len());
    assert("fjy"@[1] != "fyj"@[1]);
    assert("fjy"@[0] != "jfy"@[0]);
    assert("fjy"@[0] != "jyf"@[0]);
    assert("fjy"@[0] != "yfj"@[0]);
    assert("fjy"@[0] != "yjf"@[0]);
    assert("fjy"@.len() != "y"@.len());
    assert("fjy"@.len() != "j"@.len());
    assert("fjy"@.len() != "f"@.len());
    assert("fyj"@[0] != "jfy"@[0]);
    assert("fyj"@[0] != "jyf"@[0]);
    assert("fyj"@[0] != "yfj"@[0]);
    assert("fyj"@[0] != "yjf"@[0]);
    assert("fyj"@.len() != "y"@.len());
    assert("fyj"@.len() != "j"@.len());
    assert("fyj"@.len() != "f"@.len());
    assert("jfy"@[1] != "jyf"@[1]);
    assert("jfy"@[0] != "yfj"@[0]);
    assert("jfy"@[0] != "yjf"@[0]);
    assert("jfy"@.len() != "y"@.len());
    assert("jfy"@.len() != "j"@.len());
    assert("jfy"@.len() != "f"@.len());
    assert("jyf"@[0] != "yfj"@[0]);
    assert("jyf"@[0] != "yjf"@[0]);
    assert("jyf"@.len() != "y"@.len());
    assert("jyf"@.len() != "j"@.len());
    assert("jyf"@.len() != "f"@.len());
    assert("yfj"@[1] != "yjf"@[1]);
    assert("yfj"@.len() != "y"@.len());
    assert("yfj"@.len() != "j"@.len());
    assert("yfj"@.len() != "f"@.len());
    assert("yjf"@.len() != "y"@.len());
    assert("yjf"@.len() != "j"@.len());
    assert("yjf"@.len() != "f"@.len());
    assert("y"@[0] != "j"@[0]);
    assert("y"@[0] != "f"@[0]);
    assert("j"@[0] != "f"@[0]);
}

/// Every pax algorithm reads back from its name.
pub proof fn lemma_pax_name_round_trip(a: PaxConfigAlgorithm)
    ensures
        pax_algorithm_named(pax_algorithm_name(a)) == Ok::<PaxConfigAlgorithm, ()>(a),
{
    lemma_algorithm_names_distinct();
}

/// Every configuration algorithm other than the pax and cargo `auto` reads
/// back from its name (those two are written `auto`, which reads as
/// [ConfigAlgorithm::Auto]).
pub proof fn lemma_algorithm_name_round_trip(a: ConfigAlgorithm)
    requires
        a != ConfigAlgorithm::Pax(PaxConfigAlgorithm::Auto),
        a != ConfigAlgorithm::Cargo(CargoConfigAlgorithm::Auto),
    ensures
        algorithm_named(algorithm_name(a)) == Ok::<ConfigAlgorithm, ()>(a),
{
    lemma_algorithm_names_distinct();
}

/// Every cargo algorithm reads back from its name.
pub proof fn lemma_cargo_name_round_trip(a: CargoConfigAlgorithm)
    ensures
        cargo_algorithm_named(cargo_algorithm_name(a)) == Ok::<CargoConfigAlgorithm, ()>(a),
{
    lemma_algorithm_names_distinct();
}

/// A pax class.
#[derive(Debug, Clone, Copy, PartialEq, Eq, Structural)]
pub enum SeatClass {
    Y,
    J,
    F,
}

/// The letter of a pax class in algorithm names.
pub open spec fn seat_letter(c: SeatClass) -> char {
    match c {
        SeatClass::Y => 'y',
        SeatClass::J => 'j',
        SeatClass::F => 'f',
    }
}

/// The classes a pax algorithm fills, in order (`None` for `Auto`).
pub open spec fn pax_fill_order(a: PaxConfigAlgorithm) -> Option<Seq<SeatClass>> {
    match a {
        PaxConfigAlgorithm::Auto => None,
        PaxConfigAlgorithm::FJY => Some(seq![SeatClass::F, SeatClass::J, SeatClass::Y]),
        PaxConfigAlgorithm::FYJ => Some(seq![SeatClass::F, SeatClass::Y, SeatClass::J]),
        PaxConfigAlgorithm::JFY => Some(seq![SeatClass::J, SeatClass::F, SeatClass::Y]),
        PaxConfigAlgorithm::JYF => Some(seq![SeatClass::J, SeatClass::Y, SeatClass::F]),
        PaxConfigAlgorithm::YFJ => Some(seq![SeatClass::Y, SeatClass::F, SeatClass::J]),
        PaxConfigAlgorithm::YJF => Some(seq![SeatClass::Y, SeatClass::J, SeatClass::F]),
        PaxConfigAlgorithm::YOnly => Some(seq![SeatClass::Y]),
        PaxConfigAlgorithm::JOnly => Some(seq![SeatClass::J]),
        PaxConfigAlgorithm::FOnly => Some(seq![SeatClass::F]),
    }
}

/// A cargo kind: large or heavy.
#[derive(Debug, Clone, Copy, PartialEq, Eq, Structural)]
pub enum CargoKind {
    L,
    H,
}

/// The letter of a cargo kind in algorithm names.
pub open spec fn cargo_letter(k: CargoKind) -> char {
    match k {
        CargoKind::L => 'l',
        CargoKind::H => 'h',
    }
}

/// The cargo kinds a greedy cargo algorithm fills, in order (`None` for
/// `Auto` and `Spread`).
pub open spec fn cargo_fill_order(a: CargoConfigAlgorithm) -> Option<Seq<CargoKind>> {
    match a {
        CargoConfigAlgorithm::L => Some(seq![CargoKind::L, CargoKind::H]),
        CargoConfigAlgorithm::H => Some(seq![CargoKind::H, CargoKind::L]),
        CargoConfigAlgorithm::LOnly => Some(seq![CargoKind::L]),
        CargoConfigAlgorithm::HOnly => Some(seq![CargoKind::H]),
        _ => None,
    }
}

/// The name of a pax algorithm spells the classes it fills, in order, and
/// reads back as that algorithm; `Auto` is named `auto`.
pub proof fn lemma_pax_name_spells_order(a: PaxConfigAlgorithm)
    ensures
        pax_fill_order(a) matches Some(o) ==> pax_algorithm_name(a) == o.map_values(
            |c: SeatClass| seat_letter(c),
        ) && pax_algorithm_named(o.map_values(|c: SeatClass| seat_letter(c))) == Ok::<
            PaxConfigAlgorithm,
            (),
        >(a),
        pax_fill_order(a) is None ==> a == PaxConfigAlgorithm::Auto && pax_algorithm_name(a)
            == "auto"@,
{
    lemma_algorithm_names_distinct();
    reveal_strlit("fjy");
    reveal_strlit("fyj");
    reveal_strlit("jfy");
    reveal_strlit("jyf");
    reveal_strlit("yfj");
    reveal_strlit("yjf");
    reveal_strlit("y");
    reveal_strlit("j");
    reveal_strlit("f");
    if let Some(o) = pax_fill_order(a) {
        assert(pax_algorithm_name(a) =~= o.map_values(|c: SeatClass| seat_letter(c)));
    }
}

/// The name of a greedy cargo algorithm spells the kinds it fills, in order,
/// and reads back as that algorithm; the others are `auto` and `spread`.
pub proof fn lemma_cargo_name_spells_order(a: CargoConfigAlgorithm)
    ensures
        cargo_fill_order(a) matches Some(o) ==> cargo_algorithm_name(a) == o.map_values(
            |k: CargoKind| cargo_letter(k),
        ) && cargo_algorithm_named(o.map_values(|k: CargoKind| cargo_letter(k))) == Ok::<
            CargoConfigAlgorithm,
            (),
        >(a),
        a == CargoConfigAlgorithm::Auto ==> cargo_algorithm_name(a) == "auto"@,
        a == CargoConfigAlgorithm::Spread ==> cargo_algorithm_name(a) == "spread"@,
{
    lemma_algorithm_names_distinct();
    reveal_strlit("lh");
    reveal_strlit("hl");
    reveal_strlit("l");
    reveal_strlit("h");
    if let Some(o) = cargo_fill_order(a) {
        assert(cargo_algorithm_name(a) =~= o.map_values(|k: CargoKind| cargo_letter(k)));
    }
}

impl CargoConfigAlgorithm {
    /// Read an algorithm from its lowercase name.
    pub fn from_lowercase(l: &str) -> (r: Result<CargoConfigAlgorithm, ()>)
        ensures
            r == cargo_algorithm_named(l@),
    {
        if same_text(l, "auto") {
            Ok(CargoConfigAlgorithm::Auto)
        } else if same_text(l, "lh") {
            Ok(CargoConfigAlgorithm::L)
        } else if same_text(l, "hl") {
            Ok(CargoConfigAlgorithm::H)
        } else if same_text(l, "l") {
            Ok(CargoConfigAlgorithm::LOnly)
        } else if same_text(l, "h") {
            Ok(CargoConfigAlgorithm::HOnly)
        } else if same_text(l, "spread") {
            Ok(CargoConfigAlgorithm::Spread)
        } else {
            Err(())
        }
    }

    /// Read an algorithm from its name, in any case.
    pub fn from_str(s: &str) -> (r: Result<CargoConfigAlgorithm, ()>)
        ensures
            r == cargo_algorithm_named(lowercase(s@)),
            vstd::utf8::is_ascii_chars(s@) ==> r == cargo_algorithm_named(ascii_lowercase(s@)),
    {
        let l = to_lowercase(s);
        CargoConfigAlgorithm::from_lowercase(l.as_str())
    }

    pub fn name(&self) -> (r: &'static str)
        ensures
            r@ == cargo_algorithm_name(*self),
    {
        match self {
            CargoConfigAlgorithm::Auto => "auto",
            CargoConfigAlgorithm::L => "lh",
            CargoConfigAlgorithm::H => "hl",
            CargoConfigAlgorithm::LOnly => "l",
            CargoConfigAlgorithm::HOnly => "h",
            CargoConfigAlgorithm::Spread => "spread",
        }
    }
}

impl PaxConfigAlgorithm {
    /// Read an algorithm from its lowercase name.
    pub fn from_lowercase(l: &str) -> (r: Result<PaxConfigAlgorithm, ()>)
        ensures
            r == pax_algorithm_named(l@),
    {
        if same_text(l, "auto") {
            Ok(PaxConfigAlgorithm::Auto)
        } else if same_text(l, "fjy") {
            Ok(PaxConfigAlgorithm::FJY)
        } else if same_text(l, "fyj") {
            Ok(PaxConfigAlgorithm::FYJ)
        } else if same_text(l, "jfy") {
            Ok(PaxConfigAlgorithm::JFY)
        } else if same_text(l, "jyf") {
            Ok(PaxConfigAlgorithm::JYF)
        } else if same_text(l, "yfj") {
            Ok(PaxConfigAlgorithm::YFJ)
        } else if same_text(l, "yjf") {
            Ok(PaxConfigAlgorithm::YJF)
        } else if same_text(l, "y") {
            Ok(PaxConfigAlgorithm::YOnly)
        } else if same_text(l, "j") {
            Ok(PaxConfigAlgorithm::JOnly)
        } else if same_text(l, "f") {
            Ok(PaxConfigAlgorithm::FOnly)
        } else {
            Err(())
        }
    }

    /// Read an algorithm from its name, in any case.
    pub fn from_str(s: &str) -> (r: Result<PaxConfigAlgorithm, ()>)
        ensures
            r == pax_algorithm_named(lowercase(s@)),
            vstd::utf8::is_ascii_chars(s@) ==> r == pax_algorithm_named(ascii_lowercase(s@)),
    {
        let l = to_lowercase(s);
        PaxConfigAlgorithm::from_lowercase(l.as_str())
    }

    pub fn name(&self) -> (r: &'static str)
        ensures
            r@ == pax_algorithm_name(*self),
    {
        match self {
            PaxConfigAlgorithm::Auto => "auto",
            PaxConfigAlgorithm::FJY => "fjy",
            PaxConfigAlgorithm::FYJ => "fyj",
            PaxConfigAlgorithm::JFY => "jfy",
            PaxConfigAlgorithm::JYF => "jyf",
            PaxConfigAlgorithm::YFJ => "yfj",
            PaxConfigAlgorithm::YJF => "yjf",
            PaxConfigAlgorithm::YOnly => "y",
            PaxConfigAlgorithm::JOnly => "j",
            PaxConfigAlgorithm::FOnly => "f",
        }
    }
}

impl ConfigAlgorithm {
    /// Read an algorithm from its lowercase name.
    pub fn from_lowercase(l: &str) -> (r: Result<ConfigAlgorithm, ()>)
        ensures
            r == algorithm_named(l@),
    {
        if same_text(l, "auto") {
            return Ok(ConfigAlgorithm::Auto);
        }
        if let Ok(p) = PaxConfigAlgorithm::from_lowercase(l) {
            if p != PaxConfigAlgorithm::Auto {
                return Ok(ConfigAlgorithm::Pax(p));
            }
        }
        if let Ok(c) = CargoConfigAlgorithm::from_lowercase(l) {
            if c != CargoConfigAlgorithm::Auto {
                return Ok(ConfigAlgorithm::Cargo(c));
            }
        }
        Err(())
    }

    /// Read an algorithm from its name, in any case.
    pub fn from_str(s: &str) -> (r: Result<ConfigAlgorithm, ()>)
        ensures
            r == algorithm_named(lowercase(s@)),
            vstd::utf8::is_ascii_chars(s@) ==> r == algorithm_named(ascii_lowercase(s@)),
    {
        let l = to_lowercase(s);
        ConfigAlgorithm::from_lowercase(l.as_str())
    }

    pub fn name(&self) -> (r: &'static str)
        ensures
            r@ == algorithm_name(*self),
    {
        match self {
            ConfigAlgorithm::Auto => "auto",
            ConfigAlgorithm::Pax(p) => p.name(),
            ConfigAlgorithm::Cargo(c) => c.name(),
        }
    }
}

impl Default for ConfigAlgorithm {
    fn default() -> (r: ConfigAlgorithm)
        ensures
            r == ConfigAlgorithm::Auto,
    {
        ConfigAlgorithm::Auto
    }
}

impl Default for CargoConfigAlgorithm {
    fn default() -> (r: CargoConfigAlgorithm)
        ensures
            r == CargoConfigAlgorithm::Auto,
    {
        CargoConfigAlgorithm::Auto
    }
}

impl Default for PaxConfigAlgorithm {
    fn default() -> (r: PaxConfigAlgorithm)
        ensures
            r == PaxConfigAlgorithm::Auto,
    {
        PaxConfigAlgorithm::Auto
    }
}

/// Algorithm names ignore case: an ASCII name written in capitals names the
/// same algorithm (by the `from_str` functions, whose result on ASCII text is
/// that of its ASCII lowercase form).
pub proof fn lemma_algorithm_name_ignores_case(s: Seq<char>)
    requires
        vstd::utf8::is_ascii_chars(s),
    ensures
        vstd::utf8::is_ascii_chars(ascii_uppercase(s)),
        algorithm_named(ascii_lowercase(ascii_uppercase(s))) == algorithm_named(ascii_lowercase(s)),
        pax_algorithm_named(ascii_lowercase(ascii_uppercase(s))) == pax_algorithm_named(
            ascii_lowercase(s),
        ),
        cargo_algorithm_named(ascii_lowercase(ascii_uppercase(s))) == cargo_algorithm_named(
            ascii_lowercase(s),
        ),
{
    lemma_ascii_case(s);
}

} // verus!

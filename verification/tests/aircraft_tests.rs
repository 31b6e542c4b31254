use am4::aircraft::{
    suggestion_rows, ACSelection, AircraftError, CustomAircraft, EnginePriority, Modification,
    Modifier, ModifierSet,
};

fn parsed(s: &str) -> Result<Modification, AircraftError> {
    Modification::parse(s).expect("digits on character boundaries")
}

#[test]
fn parse_engine_and_letters() {
    let m = parsed("1sfc").unwrap();
    assert_eq!(m.engine, EnginePriority(1));
    assert!(m.mods.speed && m.mods.fuel && m.mods.co2);
    assert!(!m.mods.four_x && !m.mods.easy_boost);

    let m = parsed("10").unwrap();
    assert_eq!(m.engine.get(), 10);
    assert!(m.mods.is_empty());

    let m = parsed("2sfcx").unwrap();
    assert_eq!(m.engine.get(), 2);
    assert!(m.mods.four_x);
}

#[test]
fn parse_is_case_insensitive_and_ignores_separators() {
    let m = parsed("S, F E").unwrap();
    assert_eq!(m.engine.get(), 0);
    assert!(m.mods.speed && m.mods.fuel && m.mods.easy_boost);
    assert!(!m.mods.co2);
}

#[test]
fn parse_takes_first_to_last_digit() {
    assert_eq!(parsed("1s2"), Err(AircraftError::InvalidEnginePriority));
    assert_eq!(parsed("300"), Err(AircraftError::InvalidEnginePriority));
    assert_eq!(parsed("s255").unwrap().engine.get(), 255);
}

#[test]
fn parse_refuses_digits_off_character_boundaries() {
    assert!(Modification::parse("\u{e9}1").is_none());
    assert!(Modification::parse("1\u{e9}").is_some());
}

#[test]
fn code_round_trip() {
    let m = parsed("xcfs2").unwrap();
    assert_eq!(m.to_code(), "2sfcx");
    let again = parsed(&m.to_code()).unwrap();
    assert_eq!(again, m);
    assert_eq!(Modification::new().to_code(), "");
}

#[test]
fn empty_modification() {
    assert!(Modification::new().is_empty());
    assert!(Modification::default().is_empty());
    assert!(!parsed("1").unwrap().is_empty());
    assert!(!parsed("e").unwrap().is_empty());
}

#[test]
fn pill_suffix_leaves_out_easy_boost() {
    assert_eq!(parsed("3sx").unwrap().pill_suffix(), "[3sx]");
    assert_eq!(parsed("e").unwrap().pill_suffix(), "");
    assert_eq!(Modification::new().pill_suffix(), "");
}

#[test]
fn defaults_are_switched_on() {
    let mut m = parsed("2c").unwrap();
    m.apply_defaults(true, true, false, false);
    assert!(m.mods.four_x && m.mods.speed && m.mods.co2 && !m.mods.fuel);
    assert_eq!(m.engine.get(), 2);
}

#[test]
fn modifier_set_insert_remove() {
    let mut s = ModifierSet::new();
    assert!(s.insert(Modifier::Fuel));
    assert!(!s.insert(Modifier::Fuel));
    assert!(s.contains(&Modifier::Fuel));
    assert!(s.remove(&Modifier::Fuel));
    assert!(!s.remove(&Modifier::Fuel));
    assert!(s.is_empty());
}

#[test]
fn custom_aircraft_label() {
    let ac = CustomAircraft::new("a388", parsed("1s").unwrap());
    assert_eq!(ac.label("a388"), "a388[1s]");
    let plain = CustomAircraft::new((), Modification::new());
    assert_eq!(plain.label("b744"), "b744");
}

#[test]
fn engine_priority_from_str() {
    assert_eq!(EnginePriority::from_str("7"), Ok(EnginePriority(7)));
    assert_eq!(EnginePriority::from_str("+7"), Ok(EnginePriority(7)));
    assert!(EnginePriority::from_str("").is_err());
    assert!(EnginePriority::from_str(" 7").is_err());
    assert!(EnginePriority::from_str("256").is_err());
}

#[test]
fn suggestion_rows_per_engine() {
    let found = Modification::parse("c").unwrap().unwrap();
    let s = vec![
        (vec![("a380", EnginePriority(0))], found),
        (vec![("b747", EnginePriority(0)), ("b747", EnginePriority(1))], Modification::new()),
    ];
    let rows = suggestion_rows(&s, false, true, false, false);
    let sc = Modification::parse("sc").unwrap().unwrap();
    let s0 = Modification::parse("s").unwrap().unwrap();
    let s1 = Modification::parse("1s").unwrap().unwrap();
    assert_eq!(
        rows,
        vec![
            ACSelection::Single("a380", sc),
            ACSelection::Header("b747"),
            ACSelection::Variant("b747", s0),
            ACSelection::Variant("b747", s1),
        ]
    );
    assert!(suggestion_rows::<&str>(&vec![], true, true, true, true).is_empty());
}

#[test]
fn codes_ignore_case() {
    assert_eq!(Modification::parse("1SFC"), Modification::parse("1sfc"));
    assert_eq!(Modification::parse("2sFcX"), Modification::parse("2sfcx"));
    assert_eq!(Modification::parse("E").unwrap().unwrap().to_code(), "e");
}

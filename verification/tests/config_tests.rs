use am4::ci::{Ci, ValidationError};
use am4::config::{CargoConfigAlgorithm, ConfigAlgorithm, PaxConfigAlgorithm};

#[test]
fn ci_range() {
    assert_eq!(Ci::new(0).unwrap().get(), 0);
    assert_eq!(Ci::new(200).unwrap().get(), 200);
    assert_eq!(Ci::new(201), Err(ValidationError::Gt200));
    assert_eq!(Ci::default().get(), 200);
    assert_eq!(Ci::max().get(), 200);
    assert_eq!(Ci::new(150).unwrap().to_text(), "150");
}

#[test]
fn cargo_algorithm_names() {
    assert_eq!(CargoConfigAlgorithm::from_str("LH"), Ok(CargoConfigAlgorithm::L));
    assert_eq!(CargoConfigAlgorithm::from_str("hl"), Ok(CargoConfigAlgorithm::H));
    assert_eq!(CargoConfigAlgorithm::from_str("Spread"), Ok(CargoConfigAlgorithm::Spread));
    assert_eq!(CargoConfigAlgorithm::from_str("x"), Err(()));
    assert_eq!(CargoConfigAlgorithm::HOnly.name(), "h");
    assert_eq!(CargoConfigAlgorithm::default(), CargoConfigAlgorithm::Auto);
}

#[test]
fn config_algorithm_names() {
    assert_eq!(ConfigAlgorithm::from_str("AUTO"), Ok(ConfigAlgorithm::Auto));
    assert_eq!(ConfigAlgorithm::from_str("fjy"), Ok(ConfigAlgorithm::Pax(PaxConfigAlgorithm::FJY)));
    assert_eq!(ConfigAlgorithm::from_str("l"), Ok(ConfigAlgorithm::Cargo(CargoConfigAlgorithm::LOnly)));
    assert_eq!(ConfigAlgorithm::from_str("spread"), Ok(ConfigAlgorithm::Cargo(CargoConfigAlgorithm::Spread)));
    assert_eq!(ConfigAlgorithm::from_str("nope"), Err(()));
    for a in [
        ConfigAlgorithm::Auto,
        ConfigAlgorithm::Pax(PaxConfigAlgorithm::YJF),
        ConfigAlgorithm::Pax(PaxConfigAlgorithm::FOnly),
        ConfigAlgorithm::Cargo(CargoConfigAlgorithm::H),
        ConfigAlgorithm::Cargo(CargoConfigAlgorithm::Spread),
    ] {
        assert_eq!(ConfigAlgorithm::from_str(a.name()), Ok(a));
    }
}

#[test]
fn ci_try_from_u8() {
    assert_eq!(Ci::try_from(150u8).map(|c| c.get()), Ok(150));
    assert_eq!(Ci::try_from(200u8).map(|c| c.get()), Ok(200));
    assert_eq!(Ci::try_from(201u8).map(|c| c.get()), Err(ValidationError::Gt200));
}

#[test]
fn algorithm_names_ignore_case() {
    assert_eq!(ConfigAlgorithm::from_str("FJY"), ConfigAlgorithm::from_str("fjy"));
    assert_eq!(CargoConfigAlgorithm::from_str("SPREAD"), Ok(CargoConfigAlgorithm::Spread));
    assert_eq!(PaxConfigAlgorithm::from_str("Auto"), Ok(PaxConfigAlgorithm::Auto));
}

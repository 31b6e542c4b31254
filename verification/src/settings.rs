//! Reading the numeric user settings typed into the settings panel.
use vstd::prelude::*;
use vstd::utf8::encode_utf8;
use crate::text::{parse_u16, parse_u16_spec, parse_u8, parse_u8_spec};

verus! {

/// The trainings a user can buy.
#[derive(Debug, Clone, Copy, PartialEq, Eq, Structural)]
pub enum Training {
    Fuel,
    Co2,
    Repair,
    Wear,
    Large,
    Heavy,
}

/// The highest level of each training: fuel 0-3, CO2, repair and wear 0-5,
/// large and heavy 0-6.
pub open spec fn training_max(t: Training) -> u8 {
    match t {
        Training::Fuel => 3,
        Training::Co2 => 5,
        Training::Repair => 5,
        Training::Wear => 5,
        Training::Large => 6,
        Training::Heavy => 6,
    }
}

/// Why a typed setting was refused.
#[derive(Debug, Clone, Copy, PartialEq, Eq, Structural)]
pub enum SettingsInputError {
    /// A price that is not an integer from 0 to 65535.
    InvalidInteger,
    /// A training level that is not a number within its range.
    InvalidTraining(Training),
}

impl Training {
    pub fn max_level(&self) -> (r: u8)
        ensures
            r == training_max(*self),
    {
        match self {
            Training::Fuel => 3,
            Training::Co2 => 5,
            Training::Repair => 5,
            Training::Wear => 5,
            Training::Large => 6,
            Training::Heavy => 6,
        }
    }

    /// Read a training level: a decimal number from 0 to the training's
    /// highest level.
    pub fn read_level(&self, text: &str) -> (r: Result<u8, SettingsInputError>)
        ensures
            r == match parse_u8_spec(encode_utf8(text@)) {
                Some(v) => if v <= training_max(*self) {
                    Ok(v)
                } else {
                    Err(SettingsInputError::InvalidTraining(*self))
                },
                None => Err(SettingsInputError::InvalidTraining(*self)),
            },
    {
        match parse_u8(text) {
            Some(v) => if v <= self.max_level() {
                Ok(v)
            } else {
                Err(SettingsInputError::InvalidTraining(*self))
            },
            None => Err(SettingsInputError::InvalidTraining(*self)),
        }
    }
}

/// Read a fuel or CO2 price: a decimal integer from 0 to 65535.
pub fn read_price(text: &str) -> (r: Result<u16, SettingsInputError>)
    ensures
        r == match parse_u16_spec(encode_utf8(text@)) {
            Some(v) => Ok(v),
            None => Err(SettingsInputError::InvalidInteger),
        },
{
    match parse_u16(text) {
        Some(v) => Ok(v),
        None => Err(SettingsInputError::InvalidInteger),
    }
}

} // verus!

//! Cost index.
use vstd::prelude::*;
use crate::text::{decimal, to_decimal};

verus! {

#[derive(Debug, Clone, Copy, PartialEq, Eq, Structural)]
pub enum ValidationError {
    /// ci must be less than or equal to 200
    Gt200,
}

/// Cost index, nondimensional, between 0 and 200.
#[derive(Debug, Clone, Copy, PartialEq, Eq, PartialOrd, Structural)]
pub struct Ci(u8);

impl Ci {
    #[verifier::type_invariant]
    spec fn wf(self) -> bool {
        self.0 <= 200
    }

    pub closed spec fn value(self) -> u8 {
        self.0
    }

    /// The largest cost index, 200.
    pub fn max() -> (r: Ci)
        ensures
            r.value() == 200,
    {
        Ci(200)
    }

    pub fn new(val: u8) -> (r: Result<Ci, ValidationError>)
        ensures
            r is Ok <==> val <= 200,
            r matches Ok(c) ==> c.value() == val,
            r matches Err(e) ==> e == ValidationError::Gt200,
    {
        if val > 200 {
            Err(ValidationError::Gt200)
        } else {
            Ok(Ci(val))
        }
    }

    pub fn get(self) -> (r: u8)
        ensures
            r == self.value(),
            r <= 200,
    {
        proof {
            use_type_invariant(&self);
        }
        self.0
    }

    /// The cost index written in decimal.
    pub fn to_text(self) -> (r: String)
        ensures
            r@ == decimal(self.value() as nat),
    {
        to_decimal(self.0 as u64)
    }
}

impl Default for Ci {
    fn default() -> (r: Ci)
        ensures
            r.value() == 200,
    {
        Ci::max()
    }
}

impl TryFrom<u8> for Ci {
    type Error = ValidationError;

    fn try_from(value: u8) -> (r: Result<Ci, ValidationError>)
        ensures
            r is Ok <==> value <= 200,
            r matches Ok(c) ==> c.value() == value,
            r matches Err(e) ==> e == ValidationError::Gt200,
    {
        Ci::new(value)
    }
}

impl vstd::std_specs::convert::TryFromSpecImpl<u8> for Ci {
    open spec fn obeys_try_from_spec() -> bool {
        true
    }

    closed spec fn try_from_spec(value: u8) -> Result<Ci, ValidationError> {
        if value > 200 {
            Err(ValidationError::Gt200)
        } else {
            Ok(Ci(value))
        }
    }
}

} // verus!

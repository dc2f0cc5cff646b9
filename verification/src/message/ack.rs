//! Acknowledgement levels of the first message format.

use vstd::prelude::*;
use vstd::std_specs::convert::{FromSpecImpl, TryFromSpecImpl};
use crate::message::header::InvalidEnumValue;

verus! {

#[derive(Debug, Clone, Copy, PartialEq, Eq, Structural)]
pub enum Ack {
    NoAcks,
    Leader,
    All,
}

/// The number that stands for a level on the wire.
pub open spec fn ack_code(a: Ack) -> u32 {
    match a {
        Ack::NoAcks => 0,
        Ack::Leader => 1,
        Ack::All => 2,
    }
}

/// The level that a number stands for, if any.
pub open spec fn ack_from_code(v: u32) -> Result<Ack, InvalidEnumValue> {
    if v == 0 {
        Ok(Ack::NoAcks)
    } else if v == 1 {
        Ok(Ack::Leader)
    } else if v == 2 {
        Ok(Ack::All)
    } else {
        Err(InvalidEnumValue(v))
    }
}

/// Every level survives the trip to its number and back; a number that is
/// read as a level is that level's number.
pub proof fn lemma_ack_code_roundtrip(a: Ack, v: u32)
    ensures
        ack_from_code(ack_code(a)) == Ok::<Ack, InvalidEnumValue>(a),
        ack_from_code(v) matches Ok(a2) ==> ack_code(a2) == v,
{
}

impl TryFrom<u32> for Ack {
    type Error = InvalidEnumValue;

    fn try_from(value: u32) -> (r: Result<Self, Self::Error>) {
        match value {
            0 => Ok(Ack::NoAcks),
            1 => Ok(Ack::Leader),
            2 => Ok(Ack::All),
            _ => Err(InvalidEnumValue(value)),
        }
    }
}

impl TryFromSpecImpl<u32> for Ack {
    open spec fn obeys_try_from_spec() -> bool {
        true
    }

    open spec fn try_from_spec(v: u32) -> Result<Self, InvalidEnumValue> {
        ack_from_code(v)
    }
}

impl From<Ack> for u32 {
    fn from(value: Ack) -> (r: Self) {
        match value {
            Ack::NoAcks => 0,
            Ack::Leader => 1,
            Ack::All => 2,
        }
    }
}

impl FromSpecImpl<Ack> for u32 {
    open spec fn obeys_from_spec() -> bool {
        true
    }

    open spec fn from_spec(v: Ack) -> u32 {
        ack_code(v)
    }
}

} // verus!

//! The 8-bit rebasing rules of WAVE: 8-bit samples are stored unsigned,
//! centred at 128, while every wider sample is signed.
use vstd::prelude::*;

verus! {

/// Rebases an unsigned 8-bit sample byte to a signed value.
pub fn u8_to_i8(value: u8) -> (r: i8)
    ensures
        r as int == value as int - 128,
{
    (value as i16 - 128) as i8
}

/// Rebases a signed 8-bit sample to the unsigned byte stored in a file.
pub fn i8_to_u8(value: i8) -> (r: u8)
    ensures
        r as int == value as int + 128,
{
    (value as i16 + 128) as u8
}

} // verus!

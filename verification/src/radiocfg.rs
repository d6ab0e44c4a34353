use vstd::prelude::*;

use crate::errors::RfCatError;

verus! {

/// The radio register image read back by peeking the whole register bank.
/// The image is accepted whole; the core does not decode it into named
/// fields, so the configuration carries none.
pub struct RadioConfig {}

impl RadioConfig {
    /// Accept a register image read off the device. Every byte image is
    /// accepted and maps to the one (empty) configuration.
    pub fn from_bytes(v: Vec<u8>) -> (r: Result<RadioConfig, RfCatError>)
        ensures
            r is Ok,
    {
        let _ = v;
        Ok(RadioConfig {  })
    }

    /// Serialize the configuration back to a byte image: a single zero
    /// byte, since the configuration carries no fields.
    pub fn to_bytes(&self) -> (r: Result<Vec<u8>, RfCatError>)
        ensures
            r matches Ok(v) && v@ == seq![0u8],
    {
        let bytes: Vec<u8> = vec![0];
        proof {
            assert(bytes@ =~= seq![0u8]);
        }
        Ok(bytes)
    }
}

} // verus!

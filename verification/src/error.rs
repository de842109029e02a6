//! Error taxonomy of the bootstrap: every failure is classified, and the
//! classification decides whether deployment may be attempted at all.

use vstd::prelude::*;

verus! {

/// The two networks a bridge contract is deployed on.
#[derive(Clone, Copy, Debug, PartialEq, Eq, Structural)]
pub enum Side {
    Home,
    Foreign,
}

/// A classified, fatal bootstrap failure.
#[derive(Clone, Copy, Debug, PartialEq, Eq, Structural)]
pub enum Error {
    /// The persisted record exists but cannot be decoded; deployment is
    /// deliberately not attempted, so that a possibly valid record is never
    /// overwritten by a costly re-deployment.
    RecordUnreadable,
    /// A network's confirmation wait failed on transport; the side names the
    /// failing network.
    Transport(Side),
    /// A confirmed contract-creation receipt carried no contract address:
    /// a defensive invariant violation, never tolerated silently.
    MissingContractAddress(Side),
    /// An account address in the configuration is not 20 bytes of hex.
    InvalidAddress,
    /// A compiled contract payload is not valid hex.
    InvalidHex,
    /// A policy value in the configuration is not a decimal number that fits
    /// in 256 bits.
    InvalidDecimal,
}

} // verus!

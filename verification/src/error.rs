//! Errors that the oracle's entry points return.

use vstd::prelude::*;

verus! {

/// Error types for the price oracle contract.
#[derive(Copy, Clone, Debug, PartialEq, Eq, PartialOrd, Ord)]
pub enum Error {
    /// Asset does not exist in the price oracle.
    AssetNotFound,
    /// Unauthorized caller - not a whitelisted provider or admin.
    Unauthorized,
    /// Asset symbol is not in the approved list (NGN, KES, GHS).
    InvalidAssetSymbol,
    /// Price must be greater than zero.
    InvalidPrice,
    /// Caller is not authorized to perform this action.
    NotAuthorized,
    /// Contract or admin has already been initialized.
    AlreadyInitialized,
    /// Price change exceeds the allowed delta limit in a single update.
    PriceDeltaExceeded,
    /// Price is outside the configured min/max bounds for the asset.
    PriceOutOfBounds,
}

/// The numeric code under which each error is reported on the ledger.
pub open spec fn error_code(e: Error) -> u32 {
    match e {
        Error::AssetNotFound => 1,
        Error::Unauthorized => 2,
        Error::InvalidAssetSymbol => 3,
        Error::InvalidPrice => 4,
        Error::NotAuthorized => 5,
        Error::AlreadyInitialized => 6,
        Error::PriceDeltaExceeded => 7,
        Error::PriceOutOfBounds => 8,
    }
}

impl Error {
    /// The numeric code of this error.
    pub fn code(&self) -> (r: u32)
        ensures
            r == error_code(*self),
    {
        match self {
            Error::AssetNotFound => 1,
            Error::Unauthorized => 2,
            Error::InvalidAssetSymbol => 3,
            Error::InvalidPrice => 4,
            Error::NotAuthorized => 5,
            Error::AlreadyInitialized => 6,
            Error::PriceDeltaExceeded => 7,
            Error::PriceOutOfBounds => 8,
        }
    }

    /// The error with the given numeric code, if there is one.
    pub fn from_code(code: u32) -> (r: Option<Error>)
        ensures
            match r {
                Some(e) => error_code(e) == code,
                None => !(1 <= code <= 8),
            },
    {
        match code {
            1 => Some(Error::AssetNotFound),
            2 => Some(Error::Unauthorized),
            3 => Some(Error::InvalidAssetSymbol),
            4 => Some(Error::InvalidPrice),
            5 => Some(Error::NotAuthorized),
            6 => Some(Error::AlreadyInitialized),
            7 => Some(Error::PriceDeltaExceeded),
            8 => Some(Error::PriceOutOfBounds),
            _ => None,
        }
    }
}

} // verus!

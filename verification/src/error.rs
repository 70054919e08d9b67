//! Error taxonomy of the contract. Every failing operation aborts the whole
//! request and reports exactly which check refused it; nothing partially
//! succeeds.

use vstd::prelude::*;

verus! {

/// Why an attached payment was refused: the mirror of the payment checks
/// that guard a deposit (no coin attached, several denominations attached,
/// or a single coin of the wrong denomination).
#[derive(Debug)]
pub enum PaymentError {
    /// No coin, or a zero amount, was attached to the request.
    NoFunds,
    /// More than one coin was attached.
    MultipleDenoms,
    /// One coin was attached, but not of the required denomination,
    /// which the payload names.
    MissingDenom(String),
}

/// A typed failure of a mutating or reading operation.
#[derive(Debug)]
pub enum ContractError {
    /// The token-verification collaborator refused the token.
    Unauthorized,
    /// A debit (or an underpayment check) found less than it needed.
    InsufficientFunds { got: u128, needed: u128 },
    /// A length-limited field was longer than the configured limit.
    ExceededCharLimit { field: String, length: u8, max: u8 },
    /// The attached payment was malformed.
    Payment(PaymentError),
    /// A balance would have left the representable range: the fatal,
    /// user-unrecoverable arithmetic fault.
    Overflow,
}

} // verus!

//! The errors of the client.

use vstd::prelude::*;
use vstd::string::*;

verus! {

/// What can go wrong while the client starts: the browser, the wallet key,
/// the sign-in.
#[derive(Debug, Clone, Copy, PartialEq, Eq, Structural)]
pub enum BlurInitError {
    General,
    BrowserFail,
    AllEthNodesOffline,
    AuthNotVerified,
    InvalidKey,
    InvalidSelector,
}

/// What the marketplace can answer wrong.
#[derive(Debug, Clone, Copy, PartialEq, Eq, Structural)]
pub enum BlurError {
    GeneralError,
    NotEnoughBalance,
    NoResponse,
    ParsingError,
    CollectionNotFound,
    BidNotExists,
}

/// The error of a step that reads an answer of the marketplace: one of its
/// own, or text that is no JSON at all.
#[derive(Debug, Clone, Copy, PartialEq, Eq, Structural)]
pub enum ApiError {
    Blur(BlurError),
    InvalidJson,
}

/// The message of a start-up error.
pub open spec fn init_error_text(e: BlurInitError) -> Seq<char> {
    match e {
        BlurInitError::General => "General Failure"@,
        BlurInitError::BrowserFail => "Browser Failure"@,
        BlurInitError::AllEthNodesOffline => "Can't connect to any of ethereum json rpc nodes"@,
        BlurInitError::AuthNotVerified => "Can't verify blur authenthication"@,
        BlurInitError::InvalidKey => "Can't parse key"@,
        BlurInitError::InvalidSelector => "Invalid page selector"@,
    }
}

/// The message of a marketplace error.
pub open spec fn blur_error_text(e: BlurError) -> Seq<char> {
    match e {
        BlurError::GeneralError => "General Failure"@,
        BlurError::NotEnoughBalance => "Not enough balance"@,
        BlurError::NoResponse => "No Response"@,
        BlurError::ParsingError => "Parsing error"@,
        BlurError::CollectionNotFound => "Can not find collection"@,
        BlurError::BidNotExists => "Bid does not exist"@,
    }
}

impl BlurInitError {
    /// The error's message.
    pub fn to_string(&self) -> (r: String)
        ensures
            r@ == init_error_text(*self),
    {
        match self {
            BlurInitError::General => String::from_str("General Failure"),
            BlurInitError::BrowserFail => String::from_str("Browser Failure"),
            BlurInitError::AllEthNodesOffline => String::from_str("Can't connect to any of ethereum json rpc nodes"),
            BlurInitError::AuthNotVerified => String::from_str("Can't verify blur authenthication"),
            BlurInitError::InvalidKey => String::from_str("Can't parse key"),
            BlurInitError::InvalidSelector => String::from_str("Invalid page selector"),
        }
    }
}

impl BlurError {
    /// The error's message.
    pub fn to_string(&self) -> (r: String)
        ensures
            r@ == blur_error_text(*self),
    {
        match self {
            BlurError::GeneralError => String::from_str("General Failure"),
            BlurError::NotEnoughBalance => String::from_str("Not enough balance"),
            BlurError::NoResponse => String::from_str("No Response"),
            BlurError::ParsingError => String::from_str("Parsing error"),
            BlurError::CollectionNotFound => String::from_str("Can not find collection"),
            BlurError::BidNotExists => String::from_str("Bid does not exist"),
        }
    }
}

} // verus!

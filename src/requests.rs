//! The four kinds of request, as their fields arrive: addresses and amounts as text.

use vstd::prelude::*;

verus! {

/// Send native coin from one sender to many recipients.
pub struct DisperseEthRequest {
    pub to: Vec<String>,
    pub amounts: Vec<String>,
    pub percents: Option<String>,
}

/// Send tokens from one sender to many recipients.
pub struct DisperseErc20Request {
    pub tokens: Vec<String>,
    pub to: Vec<String>,
    pub amounts: Vec<String>,
    pub percents: Option<String>,
}

/// Collect native coin from every configured sender.
pub struct CollectEthRequest {
    pub amount: String,
    pub percents: Option<String>,
}

/// Collect one token from every configured sender.
pub struct CollectErc20Request {
    pub token: String,
    pub amount: String,
    pub percents: Option<String>,
}

} // verus!

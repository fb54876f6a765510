//! What each request asks to be sent: validation, then the transactions in order.

use crate::abi::{calldata, AbiValue, MAX_LIST_LEN};
use crate::address::{address_bytes, is_address_text, parse_address, parse_addresses, Address};
use crate::amount::{
    amount_bound, amount_values, decimal_reading, parse_amount, parse_amounts, parse_optional_amount,
    sum_amounts, sum_values, Amount, AmountError,
};
use crate::calls::{
    encode_approve_function, encode_collect_erc20_function, encode_collect_eth_function,
    encode_disperse_erc20_function, encode_disperse_eth_function,
};
use crate::requests::{CollectErc20Request, CollectEthRequest, DisperseErc20Request, DisperseEthRequest};
use vstd::prelude::*;

verus! {

/// Why a request cannot be carried out.
#[derive(Clone, Copy, Debug, PartialEq, Eq, Structural)]
pub enum RequestError {
    /// The recipient and amount lists differ in length.
    LengthMismatch,
    /// An amount or the percentage is not a decimal number below 2^256.
    InvalidAmount(AmountError),
    /// An address is not forty hexadecimal digits.
    InvalidAddress,
    /// The amounts add up to 2^256 or more.
    Overflow,
}

impl RequestError {
    /// The text that describes the error.
    pub fn message(&self) -> (r: String)
        ensures
            *self is LengthMismatch ==> r@ == "Recipients and amounts length mismatch"@,
            *self is InvalidAmount ==> r@ == (if self->InvalidAmount_0 is InvalidCharacter {
                "a character is not in the range 0-9"@
            } else {
                "the number is too large for the type"@
            }),
            *self is InvalidAddress ==> r@ == "Invalid address"@,
            *self is Overflow ==> r@ == "Overflow occurred"@,
    {
        match self {
            RequestError::LengthMismatch => "Recipients and amounts length mismatch".to_string(),
            RequestError::InvalidAmount(e) => e.message(),
            RequestError::InvalidAddress => "Invalid address".to_string(),
            RequestError::Overflow => "Overflow occurred".to_string(),
        }
    }
}

/// One transaction to sign and send.
#[derive(Debug)]
pub struct TxPlan {
    /// The address the transaction goes to.
    pub to: Address,
    /// The call data.
    pub data: Vec<u8>,
    /// The native coin it carries, where it carries any.
    pub value: Option<Amount>,
}

/// Every text is a decimal amount.
pub open spec fn amounts_readable(texts: Seq<String>) -> bool {
    forall|i: int| 0 <= i < texts.len() ==> (#[trigger] decimal_reading(texts[i]@)) is Ok
}

/// `e` is the error of the first text that is no amount.
pub open spec fn first_amount_error(texts: Seq<String>, e: AmountError) -> bool {
    exists|k: int|
        0 <= k < texts.len() && (forall|i: int| 0 <= i < k ==> (#[trigger] decimal_reading(texts[i]@)) is Ok)
            && decimal_reading(texts[k]@) == Err::<nat, AmountError>(e)
}

pub open spec fn amount_readings(texts: Seq<String>) -> Seq<nat> {
    texts.map_values(|t: String| decimal_reading(t@)->Ok_0)
}

/// The percentage read from optional text; none is zero.
pub open spec fn percents_reading(p: Option<String>) -> Result<nat, AmountError> {
    match p {
        None => Ok(0),
        Some(s) => decimal_reading(s@),
    }
}

pub open spec fn addresses_readable(texts: Seq<String>) -> bool {
    forall|i: int| 0 <= i < texts.len() ==> #[trigger] is_address_text(texts[i]@)
}

pub open spec fn address_readings(texts: Seq<String>) -> Seq<Seq<u8>> {
    texts.map_values(|t: String| address_bytes(t@))
}

/// The error that the amount texts and percentage text give, read in that order.
pub open spec fn amounts_error(texts: Seq<String>, p: Option<String>, e: RequestError) -> bool {
    if !amounts_readable(texts) {
        e is InvalidAmount && first_amount_error(texts, e->InvalidAmount_0)
    } else {
        e == RequestError::InvalidAmount(percents_reading(p)->Err_0)
    }
}

/// The token approval that lets `spender` move any amount of the holder's tokens.
pub open spec fn is_approval(tx: TxPlan, token: Seq<u8>, spender: Address) -> bool {
    &&& tx.to.bytes@ == token
    &&& tx.data@ == calldata("approve"@, seq![AbiValue::Address(spender.bytes@), AbiValue::Uint((amount_bound() - 1) as nat)])
    &&& tx.value is None
}

proof fn lemma_readings_match(texts: Seq<String>, amounts: Seq<Amount>)
    requires
        amounts.len() == texts.len(),
        forall|i: int| 0 <= i < texts.len() ==> decimal_reading(texts[i]@) == Ok::<nat, AmountError>(#[trigger] amounts[i].value()),
    ensures
        amount_values(amounts) == amount_readings(texts),
{
    assert(amount_values(amounts) =~= amount_readings(texts));
}

proof fn lemma_addresses_match(texts: Seq<String>, addrs: Seq<Address>)
    requires
        addrs.len() == texts.len(),
        forall|i: int| 0 <= i < texts.len() ==> (#[trigger] addrs[i]).bytes@ == address_bytes(texts[i]@),
    ensures
        crate::abi::address_values(addrs) == address_readings(texts),
{
    assert(crate::abi::address_values(addrs) =~= address_readings(texts));
}

/// The approval transaction for `token`, with `spender` allowed the largest amount.
pub fn approval(token: Address, spender: Address) -> (r: TxPlan)
    ensures
        is_approval(r, token.bytes@, spender),
{
    TxPlan { to: token, data: encode_approve_function(spender, Amount::max_value()), value: None }
}

/// Validates a native disperse and gives the one call to `contract` that
/// carries the sum of the amounts.
pub fn plan_disperse_eth(req: &DisperseEthRequest, contract: Address) -> (r: Result<TxPlan, RequestError>)
    requires
        req.to@.len() < MAX_LIST_LEN,
    ensures
        req.to@.len() != req.amounts@.len() ==> r == Err::<TxPlan, RequestError>(RequestError::LengthMismatch),
        req.to@.len() == req.amounts@.len() && !(amounts_readable(req.amounts@) && percents_reading(req.percents) is Ok)
            ==> r is Err && amounts_error(req.amounts@, req.percents, r->Err_0),
        req.to@.len() == req.amounts@.len() && amounts_readable(req.amounts@) && percents_reading(req.percents) is Ok
            ==> {
            let total = sum_values(amount_readings(req.amounts@));
            &&& !addresses_readable(req.to@) ==> r == Err::<TxPlan, RequestError>(RequestError::InvalidAddress)
            &&& addresses_readable(req.to@) && total >= amount_bound() ==> r == Err::<TxPlan, RequestError>(RequestError::Overflow)
            &&& addresses_readable(req.to@) && total < amount_bound() ==> {
                &&& r is Ok
                &&& r->Ok_0.to.bytes@ == contract.bytes@
                &&& r->Ok_0.value is Some && r->Ok_0.value->Some_0.value() == total
                &&& r->Ok_0.data@ == calldata(
                    "disperseETH"@,
                    seq![
                        AbiValue::AddressArray(address_readings(req.to@)),
                        AbiValue::UintArray(amount_readings(req.amounts@)),
                        AbiValue::Uint(percents_reading(req.percents)->Ok_0),
                    ],
                )
            }
        },
{
    if req.to.len() != req.amounts.len() {
        return Err(RequestError::LengthMismatch);
    }
    let amounts = match parse_amounts(&req.amounts) {
        Ok(a) => a,
        Err(e) => {
            return Err(RequestError::InvalidAmount(e));
        },
    };
    proof {
        lemma_readings_match(req.amounts@, amounts@);
    }
    let percents = match parse_optional_amount(&req.percents) {
        Ok(p) => p,
        Err(e) => {
            return Err(RequestError::InvalidAmount(e));
        },
    };
    let to = match parse_addresses(&req.to) {
        Some(t) => t,
        None => {
            return Err(RequestError::InvalidAddress);
        },
    };
    proof {
        lemma_addresses_match(req.to@, to@);
    }
    let total = match sum_amounts(&amounts) {
        Some(t) => t,
        None => {
            return Err(RequestError::Overflow);
        },
    };
    let data = encode_disperse_eth_function(to, amounts, percents);
    Ok(TxPlan { to: contract, data, value: Some(total) })
}

/// Validates a token disperse and gives, in order, one approval per token that
/// lets `contract` move it, then the disperse call to `contract`.
pub fn plan_disperse_erc20(req: &DisperseErc20Request, contract: Address) -> (r: Result<
    Vec<TxPlan>,
    RequestError,
>)
    requires
        req.tokens@.len() < MAX_LIST_LEN,
        req.to@.len() < MAX_LIST_LEN,
    ensures
        req.to@.len() != req.amounts@.len() ==> r == Err::<Vec<TxPlan>, RequestError>(RequestError::LengthMismatch),
        req.to@.len() == req.amounts@.len() && !(amounts_readable(req.amounts@) && percents_reading(req.percents) is Ok)
            ==> r is Err && amounts_error(req.amounts@, req.percents, r->Err_0),
        req.to@.len() == req.amounts@.len() && amounts_readable(req.amounts@) && percents_reading(req.percents) is Ok
            ==> {
            &&& !(addresses_readable(req.tokens@) && addresses_readable(req.to@))
                ==> r == Err::<Vec<TxPlan>, RequestError>(RequestError::InvalidAddress)
            &&& addresses_readable(req.tokens@) && addresses_readable(req.to@) ==> {
                let n = req.tokens@.len();
                &&& r is Ok
                &&& r->Ok_0@.len() == n + 1
                &&& forall|i: int| 0 <= i < n ==> is_approval(#[trigger] r->Ok_0@[i], address_readings(req.tokens@)[i], contract)
                &&& r->Ok_0@[n as int].to.bytes@ == contract.bytes@
                &&& r->Ok_0@[n as int].value is None
                &&& r->Ok_0@[n as int].data@ == calldata(
                    "disperseERC20"@,
                    seq![
                        AbiValue::AddressArray(address_readings(req.tokens@)),
                        AbiValue::AddressArray(address_readings(req.to@)),
                        AbiValue::UintArray(amount_readings(req.amounts@)),
                        AbiValue::Uint(percents_reading(req.percents)->Ok_0),
                    ],
                )
            }
        },
{
    if req.to.len() != req.amounts.len() {
        return Err(RequestError::LengthMismatch);
    }
    let amounts = match parse_amounts(&req.amounts) {
        Ok(a) => a,
        Err(e) => {
            return Err(RequestError::InvalidAmount(e));
        },
    };
    proof {
        lemma_readings_match(req.amounts@, amounts@);
    }
    let percents = match parse_optional_amount(&req.percents) {
        Ok(p) => p,
        Err(e) => {
            return Err(RequestError::InvalidAmount(e));
        },
    };
    let tokens = match parse_addresses(&req.tokens) {
        Some(t) => t,
        None => {
            return Err(RequestError::InvalidAddress);
        },
    };
    let to = match parse_addresses(&req.to) {
        Some(t) => t,
        None => {
            return Err(RequestError::InvalidAddress);
        },
    };
    proof {
        lemma_addresses_match(req.tokens@, tokens@);
        lemma_addresses_match(req.to@, to@);
    }
    let mut txs: Vec<TxPlan> = Vec::new();
    let mut i: usize = 0;
    while i < tokens.len()
        invariant
            i <= tokens@.len(),
            tokens@.len() == req.tokens@.len(),
            txs@.len() == i,
            crate::abi::address_values(tokens@) == address_readings(req.tokens@),
            forall|j: int| 0 <= j < i ==> is_approval(#[trigger] txs@[j], address_readings(req.tokens@)[j], contract),
        decreases tokens@.len() - i,
    {
        assert(address_readings(req.tokens@)[i as int] == tokens@[i as int].bytes@);
        txs.push(approval(tokens[i], contract));
        i = i + 1;
    }
    let data = encode_disperse_erc20_function(tokens, to, amounts, percents);
    txs.push(TxPlan { to: contract, data, value: None });
    Ok(txs)
}

/// Validates a native collect and gives the call to `contract` that each
/// sender makes, carrying the amount.
pub fn plan_collect_eth(req: &CollectEthRequest, contract: Address) -> (r: Result<TxPlan, RequestError>)
    ensures
        decimal_reading(req.amount@) is Err ==> r == Err::<TxPlan, RequestError>(
            RequestError::InvalidAmount(decimal_reading(req.amount@)->Err_0),
        ),
        decimal_reading(req.amount@) is Ok && percents_reading(req.percents) is Err ==> r == Err::<TxPlan, RequestError>(
            RequestError::InvalidAmount(percents_reading(req.percents)->Err_0),
        ),
        decimal_reading(req.amount@) is Ok && percents_reading(req.percents) is Ok ==> {
            &&& r is Ok
            &&& r->Ok_0.to.bytes@ == contract.bytes@
            &&& r->Ok_0.value is Some && r->Ok_0.value->Some_0.value() == decimal_reading(req.amount@)->Ok_0
            &&& r->Ok_0.data@ == calldata(
                "collectETH"@,
                seq![
                    AbiValue::Uint(decimal_reading(req.amount@)->Ok_0),
                    AbiValue::Uint(percents_reading(req.percents)->Ok_0),
                ],
            )
        },
{
    let amount = match parse_amount(req.amount.as_str()) {
        Ok(a) => a,
        Err(e) => {
            return Err(RequestError::InvalidAmount(e));
        },
    };
    let percents = match parse_optional_amount(&req.percents) {
        Ok(p) => p,
        Err(e) => {
            return Err(RequestError::InvalidAmount(e));
        },
    };
    let data = encode_collect_eth_function(amount, percents);
    Ok(TxPlan { to: contract, data, value: Some(amount) })
}

/// Validates a token collect and gives the two transactions each sender makes:
/// the approval that lets `contract` move the token, then the collect call to
/// `contract`, carrying the amount.
pub fn plan_collect_erc20(req: &CollectErc20Request, contract: Address) -> (r: Result<
    Vec<TxPlan>,
    RequestError,
>)
    ensures
        decimal_reading(req.amount@) is Err ==> r == Err::<Vec<TxPlan>, RequestError>(
            RequestError::InvalidAmount(decimal_reading(req.amount@)->Err_0),
        ),
        decimal_reading(req.amount@) is Ok && percents_reading(req.percents) is Err ==> r == Err::<
            Vec<TxPlan>,
            RequestError,
        >(RequestError::InvalidAmount(percents_reading(req.percents)->Err_0)),
        decimal_reading(req.amount@) is Ok && percents_reading(req.percents) is Ok && !is_address_text(req.token@)
            ==> r == Err::<Vec<TxPlan>, RequestError>(RequestError::InvalidAddress),
        decimal_reading(req.amount@) is Ok && percents_reading(req.percents) is Ok && is_address_text(req.token@) ==> {
            &&& r is Ok
            &&& r->Ok_0@.len() == 2
            &&& is_approval(r->Ok_0@[0], address_bytes(req.token@), contract)
            &&& r->Ok_0@[1].to.bytes@ == contract.bytes@
            &&& r->Ok_0@[1].value is Some && r->Ok_0@[1].value->Some_0.value() == decimal_reading(req.amount@)->Ok_0
            &&& r->Ok_0@[1].data@ == calldata(
                "collectETH"@,
                seq![
                    AbiValue::Address(address_bytes(req.token@)),
                    AbiValue::Uint(decimal_reading(req.amount@)->Ok_0),
                    AbiValue::Uint(percents_reading(req.percents)->Ok_0),
                ],
            )
        },
{
    let amount = match parse_amount(req.amount.as_str()) {
        Ok(a) => a,
        Err(e) => {
            return Err(RequestError::InvalidAmount(e));
        },
    };
    let percents = match parse_optional_amount(&req.percents) {
        Ok(p) => p,
        Err(e) => {
            return Err(RequestError::InvalidAmount(e));
        },
    };
    let token = match parse_address(req.token.as_str()) {
        Some(t) => t,
        None => {
            return Err(RequestError::InvalidAddress);
        },
    };
    let data = encode_collect_erc20_function(token, amount, percents);
    let mut txs: Vec<TxPlan> = Vec::new();
    txs.push(approval(token, contract));
    txs.push(TxPlan { to: contract, data, value: Some(amount) });
    Ok(txs)
}

} // verus!

//! The call data of the disperse contract's functions and of a token approval.

use crate::abi::{
    abi_encoding, address_values, arg_values, calldata, encode_call, kind_of, lemma_encoding_len, lemma_tail_len,
    short_signature_of, tails_len, well_formed, AbiArg, AbiKind, AbiValue, MAX_LIST_LEN,
};
use crate::address::Address;
use crate::amount::{amount_values, Amount};
use vstd::prelude::*;

verus! {

/// The selector, argument bytes and length of the call data that `encode_call`
/// gives for well-formed arguments of the listed kinds.
proof fn lemma_call_layout(name: Seq<char>, vs: Seq<AbiValue>, kinds: Seq<AbiKind>, r: Seq<u8>)
    requires
        r == calldata(name, vs),
        r.subrange(0, 4) == short_signature_of(name, vs.map_values(|v: AbiValue| kind_of(v))),
        r.skip(4) == abi_encoding(vs),
        r.len() == 4 + abi_encoding(vs).len(),
        kinds.len() == vs.len(),
        forall|i: int| 0 <= i < vs.len() ==> kind_of(#[trigger] vs[i]) == kinds[i],
        forall|i: int| 0 <= i < vs.len() ==> well_formed(#[trigger] vs[i]),
    ensures
        r.subrange(0, 4) == short_signature_of(name, kinds),
        r.len() == 4 + 32 * vs.len() + tails_len(vs),
{
    assert(vs.map_values(|v: AbiValue| kind_of(v)) =~= kinds);
    lemma_encoding_len(vs);
}

/// `disperseETH(address[] to, uint256[] amounts, uint256 percents)`.
pub fn encode_disperse_eth_function(to: Vec<Address>, amounts: Vec<Amount>, percents: Amount) -> (r: Vec<u8>)
    requires
        to@.len() < MAX_LIST_LEN,
        amounts@.len() < MAX_LIST_LEN,
    ensures
        r@ == calldata(
            "disperseETH"@,
            seq![
                AbiValue::AddressArray(address_values(to@)),
                AbiValue::UintArray(amount_values(amounts@)),
                AbiValue::Uint(percents.value()),
            ],
        ),
        r@.subrange(0, 4) == short_signature_of(
            "disperseETH"@,
            seq![AbiKind::AddressArray, AbiKind::Uint256Array, AbiKind::Uint256],
        ),
        r@.skip(4) == abi_encoding(
            seq![
                AbiValue::AddressArray(address_values(to@)),
                AbiValue::UintArray(amount_values(amounts@)),
                AbiValue::Uint(percents.value()),
            ],
        ),
        r@.len() == 4 + 32 * (5 + to@.len() + amounts@.len()),
{
    let ghost vs = seq![
        AbiValue::AddressArray(address_values(to@)),
        AbiValue::UintArray(amount_values(amounts@)),
        AbiValue::Uint(percents.value()),
    ];
    let ghost kinds = seq![AbiKind::AddressArray, AbiKind::Uint256Array, AbiKind::Uint256];
    let mut args: Vec<AbiArg> = Vec::new();
    args.push(AbiArg::AddressArray(to));
    args.push(AbiArg::UintArray(amounts));
    args.push(AbiArg::Uint(percents));
    assert(arg_values(args@) =~= vs);
    let r = encode_call("disperseETH", args);
    proof {
        assert(forall|i: int| 0 <= i < vs.len() ==> kind_of(#[trigger] vs[i]) == kinds[i]);
        assert(forall|i: int| 0 <= i < vs.len() ==> well_formed(#[trigger] vs[i]));
        lemma_call_layout("disperseETH"@, vs, kinds, r@);
        lemma_tail_len(vs[0]);
        lemma_tail_len(vs[1]);
        lemma_tail_len(vs[2]);
        reveal_with_fuel(tails_len, 4);
        assert(vs.drop_last().drop_last().drop_last() =~= Seq::<AbiValue>::empty());
    }
    r
}

/// `disperseERC20(address[] tokens, address[] to, uint256[] amounts, uint256 percents)`.
pub fn encode_disperse_erc20_function(
    tokens: Vec<Address>,
    to: Vec<Address>,
    amounts: Vec<Amount>,
    percents: Amount,
) -> (r: Vec<u8>)
    requires
        tokens@.len() < MAX_LIST_LEN,
        to@.len() < MAX_LIST_LEN,
        amounts@.len() < MAX_LIST_LEN,
    ensures
        r@ == calldata(
            "disperseERC20"@,
            seq![
                AbiValue::AddressArray(address_values(tokens@)),
                AbiValue::AddressArray(address_values(to@)),
                AbiValue::UintArray(amount_values(amounts@)),
                AbiValue::Uint(percents.value()),
            ],
        ),
        r@.subrange(0, 4) == short_signature_of(
            "disperseERC20"@,
            seq![AbiKind::AddressArray, AbiKind::AddressArray, AbiKind::Uint256Array, AbiKind::Uint256],
        ),
        r@.skip(4) == abi_encoding(
            seq![
                AbiValue::AddressArray(address_values(tokens@)),
                AbiValue::AddressArray(address_values(to@)),
                AbiValue::UintArray(amount_values(amounts@)),
                AbiValue::Uint(percents.value()),
            ],
        ),
        r@.len() == 4 + 32 * (7 + tokens@.len() + to@.len() + amounts@.len()),
{
    let ghost vs = seq![
        AbiValue::AddressArray(address_values(tokens@)),
        AbiValue::AddressArray(address_values(to@)),
        AbiValue::UintArray(amount_values(amounts@)),
        AbiValue::Uint(percents.value()),
    ];
    let ghost kinds = seq![AbiKind::AddressArray, AbiKind::AddressArray, AbiKind::Uint256Array, AbiKind::Uint256];
    let mut args: Vec<AbiArg> = Vec::new();
    args.push(AbiArg::AddressArray(tokens));
    args.push(AbiArg::AddressArray(to));
    args.push(AbiArg::UintArray(amounts));
    args.push(AbiArg::Uint(percents));
    assert(arg_values(args@) =~= vs);
    let r = encode_call("disperseERC20", args);
    proof {
        assert(forall|i: int| 0 <= i < vs.len() ==> kind_of(#[trigger] vs[i]) == kinds[i]);
        assert(forall|i: int| 0 <= i < vs.len() ==> well_formed(#[trigger] vs[i]));
        lemma_call_layout("disperseERC20"@, vs, kinds, r@);
        lemma_tail_len(vs[0]);
        lemma_tail_len(vs[1]);
        lemma_tail_len(vs[2]);
        lemma_tail_len(vs[3]);
        reveal_with_fuel(tails_len, 5);
        assert(vs.drop_last().drop_last().drop_last().drop_last() =~= Seq::<AbiValue>::empty());
    }
    r
}

/// `collectETH(uint256 amount, uint256 percents)`.
pub fn encode_collect_eth_function(amount: Amount, percents: Amount) -> (r: Vec<u8>)
    ensures
        r@ == calldata("collectETH"@, seq![AbiValue::Uint(amount.value()), AbiValue::Uint(percents.value())]),
        r@.subrange(0, 4) == short_signature_of("collectETH"@, seq![AbiKind::Uint256, AbiKind::Uint256]),
        r@.skip(4) == abi_encoding(seq![AbiValue::Uint(amount.value()), AbiValue::Uint(percents.value())]),
        r@.len() == 68,
{
    let ghost vs = seq![AbiValue::Uint(amount.value()), AbiValue::Uint(percents.value())];
    let ghost kinds = seq![AbiKind::Uint256, AbiKind::Uint256];
    let mut args: Vec<AbiArg> = Vec::new();
    args.push(AbiArg::Uint(amount));
    args.push(AbiArg::Uint(percents));
    assert(arg_values(args@) =~= vs);
    let r = encode_call("collectETH", args);
    proof {
        assert(forall|i: int| 0 <= i < vs.len() ==> kind_of(#[trigger] vs[i]) == kinds[i]);
        assert(forall|i: int| 0 <= i < vs.len() ==> well_formed(#[trigger] vs[i]));
        lemma_call_layout("collectETH"@, vs, kinds, r@);
        reveal_with_fuel(tails_len, 3);
        assert(vs.drop_last().drop_last() =~= Seq::<AbiValue>::empty());
    }
    r
}

/// The token collection call, `collectETH(address token, uint256 amount, uint256 percents)`:
/// the contract names it as the native one, with the token in front.
pub fn encode_collect_erc20_function(token: Address, amount: Amount, percents: Amount) -> (r: Vec<u8>)
    ensures
        r@ == calldata(
            "collectETH"@,
            seq![AbiValue::Address(token.bytes@), AbiValue::Uint(amount.value()), AbiValue::Uint(percents.value())],
        ),
        r@.subrange(0, 4) == short_signature_of(
            "collectETH"@,
            seq![AbiKind::Address, AbiKind::Uint256, AbiKind::Uint256],
        ),
        r@.skip(4) == abi_encoding(
            seq![AbiValue::Address(token.bytes@), AbiValue::Uint(amount.value()), AbiValue::Uint(percents.value())],
        ),
        r@.len() == 100,
{
    let ghost vs = seq![
        AbiValue::Address(token.bytes@),
        AbiValue::Uint(amount.value()),
        AbiValue::Uint(percents.value()),
    ];
    let ghost kinds = seq![AbiKind::Address, AbiKind::Uint256, AbiKind::Uint256];
    let mut args: Vec<AbiArg> = Vec::new();
    args.push(AbiArg::Address(token));
    args.push(AbiArg::Uint(amount));
    args.push(AbiArg::Uint(percents));
    assert(arg_values(args@) =~= vs);
    let r = encode_call("collectETH", args);
    proof {
        assert(forall|i: int| 0 <= i < vs.len() ==> kind_of(#[trigger] vs[i]) == kinds[i]);
        assert(forall|i: int| 0 <= i < vs.len() ==> well_formed(#[trigger] vs[i]));
        lemma_call_layout("collectETH"@, vs, kinds, r@);
        reveal_with_fuel(tails_len, 4);
        assert(vs.drop_last().drop_last().drop_last() =~= Seq::<AbiValue>::empty());
    }
    r
}

/// `approve(address spender, uint256 value)` of a token contract.
pub fn encode_approve_function(spender: Address, amount: Amount) -> (r: Vec<u8>)
    ensures
        r@ == calldata("approve"@, seq![AbiValue::Address(spender.bytes@), AbiValue::Uint(amount.value())]),
        r@.subrange(0, 4) == short_signature_of("approve"@, seq![AbiKind::Address, AbiKind::Uint256]),
        r@.skip(4) == abi_encoding(seq![AbiValue::Address(spender.bytes@), AbiValue::Uint(amount.value())]),
        r@.len() == 68,
{
    let ghost vs = seq![AbiValue::Address(spender.bytes@), AbiValue::Uint(amount.value())];
    let ghost kinds = seq![AbiKind::Address, AbiKind::Uint256];
    let mut args: Vec<AbiArg> = Vec::new();
    args.push(AbiArg::Address(spender));
    args.push(AbiArg::Uint(amount));
    assert(arg_values(args@) =~= vs);
    let r = encode_call("approve", args);
    proof {
        assert(forall|i: int| 0 <= i < vs.len() ==> kind_of(#[trigger] vs[i]) == kinds[i]);
        assert(forall|i: int| 0 <= i < vs.len() ==> well_formed(#[trigger] vs[i]));
        lemma_call_layout("approve"@, vs, kinds, r@);
        reveal_with_fuel(tails_len, 3);
        assert(vs.drop_last().drop_last() =~= Seq::<AbiValue>::empty());
    }
    r
}

} // verus!

//! Contract call data: a four-byte function selector followed by the
//! arguments in the contract ABI's head and tail layout.

use crate::address::Address;
use crate::amount::{amount_values, Amount};
use ethers::abi::{ParamType, Token};
use ethers::types::{H160, U256};
use vstd::prelude::*;

verus! {

/// The longest list that one call argument may hold; it keeps every offset and
/// length of an encoding of up to four arguments within 32 bits.
pub const MAX_LIST_LEN: usize = 0x100_0000;

/// The ABI type of a call argument.
#[derive(Clone, Copy, Debug, PartialEq, Eq, Structural)]
pub enum AbiKind {
    Address,
    Uint256,
    AddressArray,
    Uint256Array,
}

/// A call argument.
#[derive(Debug)]
pub enum AbiArg {
    Address(Address),
    Uint(Amount),
    AddressArray(Vec<Address>),
    UintArray(Vec<Amount>),
}

/// What a call argument stands for: address bytes and numbers.
pub enum AbiValue {
    Address(Seq<u8>),
    Uint(nat),
    AddressArray(Seq<Seq<u8>>),
    UintArray(Seq<nat>),
}

pub open spec fn address_values(s: Seq<Address>) -> Seq<Seq<u8>> {
    s.map_values(|a: Address| a.bytes@)
}

pub open spec fn kind_of(v: AbiValue) -> AbiKind {
    match v {
        AbiValue::Address(_) => AbiKind::Address,
        AbiValue::Uint(_) => AbiKind::Uint256,
        AbiValue::AddressArray(_) => AbiKind::AddressArray,
        AbiValue::UintArray(_) => AbiKind::Uint256Array,
    }
}

impl AbiArg {
    pub open spec fn model(self) -> AbiValue {
        match self {
            AbiArg::Address(a) => AbiValue::Address(a.bytes@),
            AbiArg::Uint(u) => AbiValue::Uint(u.value()),
            AbiArg::AddressArray(v) => AbiValue::AddressArray(address_values(v@)),
            AbiArg::UintArray(v) => AbiValue::UintArray(amount_values(v@)),
        }
    }

    /// The number of items of a list argument; zero for the others.
    pub open spec fn list_len(self) -> nat {
        match self {
            AbiArg::AddressArray(v) => v@.len(),
            AbiArg::UintArray(v) => v@.len(),
            _ => 0,
        }
    }

    pub fn kind(&self) -> (r: AbiKind)
        ensures
            r == kind_of(self.model()),
    {
        match self {
            AbiArg::Address(_) => AbiKind::Address,
            AbiArg::Uint(_) => AbiKind::Uint256,
            AbiArg::AddressArray(_) => AbiKind::AddressArray,
            AbiArg::UintArray(_) => AbiKind::Uint256Array,
        }
    }
}

pub open spec fn arg_values(args: Seq<AbiArg>) -> Seq<AbiValue> {
    args.map_values(|a: AbiArg| a.model())
}

/// The last `len` bytes of `n` written big-endian.
pub open spec fn be_bytes(n: nat, len: nat) -> Seq<u8>
    decreases len,
{
    if len == 0 {
        Seq::empty()
    } else {
        be_bytes(n / 256, (len - 1) as nat).push((n % 256) as u8)
    }
}

/// A 32-byte word holding a number.
pub open spec fn uint_word(n: nat) -> Seq<u8> {
    be_bytes(n, 32)
}

/// A 32-byte word holding an address in its last twenty bytes.
pub open spec fn address_word(a: Seq<u8>) -> Seq<u8> {
    Seq::new(12, |i: int| 0u8) + a
}

/// The part of an argument stored after all heads: a list's length and items.
pub open spec fn tail(v: AbiValue) -> Seq<u8> {
    match v {
        AbiValue::AddressArray(s) => uint_word(s.len()) + s.map_values(|a: Seq<u8>| address_word(a)).flatten(),
        AbiValue::UintArray(s) => uint_word(s.len()) + s.map_values(|n: nat| uint_word(n)).flatten(),
        _ => Seq::empty(),
    }
}

pub open spec fn tails_len(vs: Seq<AbiValue>) -> nat
    decreases vs.len(),
{
    if vs.len() == 0 {
        0
    } else {
        tails_len(vs.drop_last()) + tail(vs.last()).len()
    }
}

/// The word in the head for argument `i`: the value itself, or for a list the
/// byte offset of its tail from the start of the arguments.
pub open spec fn head(vs: Seq<AbiValue>, i: int) -> Seq<u8> {
    match vs[i] {
        AbiValue::Address(a) => address_word(a),
        AbiValue::Uint(n) => uint_word(n),
        _ => uint_word(32 * vs.len() + tails_len(vs.take(i))),
    }
}

/// The arguments encoded: every head in order, then every tail in order.
pub open spec fn abi_encoding(vs: Seq<AbiValue>) -> Seq<u8> {
    Seq::new(vs.len(), |i: int| head(vs, i)).flatten() + vs.map_values(|v: AbiValue| tail(v)).flatten()
}

/// An argument whose addresses are twenty bytes each.
pub open spec fn well_formed(v: AbiValue) -> bool {
    match v {
        AbiValue::Address(a) => a.len() == 20,
        AbiValue::AddressArray(s) => forall|i: int| 0 <= i < s.len() ==> (#[trigger] s[i]).len() == 20,
        _ => true,
    }
}

/// The length of an argument's tail: a length word and one word per item for a list.
pub open spec fn tail_len(v: AbiValue) -> nat {
    match v {
        AbiValue::AddressArray(s) => 32 + 32 * s.len(),
        AbiValue::UintArray(s) => 32 + 32 * s.len(),
        _ => 0,
    }
}

pub proof fn lemma_be_bytes_len(n: nat, len: nat)
    ensures
        be_bytes(n, len).len() == len,
    decreases len,
{
    if len > 0 {
        lemma_be_bytes_len(n / 256, (len - 1) as nat);
    }
}

/// Joining pieces of equal length `w` gives `w` bytes per piece.
pub proof fn lemma_flatten_uniform(s: Seq<Seq<u8>>, w: nat)
    requires
        forall|i: int| 0 <= i < s.len() ==> (#[trigger] s[i]).len() == w,
    ensures
        s.flatten().len() == s.len() * w,
    decreases s.len(),
{
    if s.len() > 0 {
        assert forall|i: int| 0 <= i < s.drop_first().len() implies (#[trigger] s.drop_first()[i]).len() == w by {
            assert(s.drop_first()[i] == s[i + 1]);
        }
        lemma_flatten_uniform(s.drop_first(), w);
        assert(s.first().len() == w);
        assert(w + (s.len() - 1) * w == s.len() * w) by (nonlinear_arith);
    }
}

pub proof fn lemma_tail_len(v: AbiValue)
    requires
        well_formed(v),
    ensures
        tail(v).len() == tail_len(v),
{
    match v {
        AbiValue::AddressArray(s) => {
            let words = s.map_values(|a: Seq<u8>| address_word(a));
            lemma_be_bytes_len(s.len(), 32);
            lemma_flatten_uniform(words, 32);
        },
        AbiValue::UintArray(s) => {
            let words = s.map_values(|n: nat| uint_word(n));
            lemma_be_bytes_len(s.len(), 32);
            assert forall|i: int| 0 <= i < words.len() implies (#[trigger] words[i]).len() == 32 by {
                lemma_be_bytes_len(s[i], 32);
            }
            lemma_flatten_uniform(words, 32);
        },
        _ => {},
    }
}

proof fn lemma_tails_flatten_len(vs: Seq<AbiValue>)
    ensures
        vs.map_values(|v: AbiValue| tail(v)).flatten().len() == tails_len(vs),
    decreases vs.len(),
{
    if vs.len() > 0 {
        lemma_tails_flatten_len(vs.drop_last());
        let prev = vs.drop_last().map_values(|v: AbiValue| tail(v));
        assert(vs.map_values(|v: AbiValue| tail(v)) =~= prev.push(tail(vs.last())));
        prev.lemma_flatten_push(tail(vs.last()));
    }
}

/// An encoding holds one 32-byte head per argument, then every tail.
pub proof fn lemma_encoding_len(vs: Seq<AbiValue>)
    requires
        forall|i: int| 0 <= i < vs.len() ==> well_formed(#[trigger] vs[i]),
    ensures
        abi_encoding(vs).len() == 32 * vs.len() + tails_len(vs),
{
    let heads = Seq::new(vs.len(), |i: int| head(vs, i));
    assert forall|i: int| 0 <= i < heads.len() implies (#[trigger] heads[i]).len() == 32 by {
        match vs[i] {
            AbiValue::Address(a) => {},
            AbiValue::Uint(n) => lemma_be_bytes_len(n, 32),
            _ => lemma_be_bytes_len(32 * vs.len() + tails_len(vs.take(i)), 32),
        }
    }
    lemma_flatten_uniform(heads, 32);
    lemma_tails_flatten_len(vs);
}

/// The four-byte selector of function `name` with parameters of the given kinds.
pub uninterp spec fn short_signature_of(name: Seq<char>, kinds: Seq<AbiKind>) -> Seq<u8>;

/// The whole call data of calling `name` on the given arguments.
pub open spec fn calldata(name: Seq<char>, vs: Seq<AbiValue>) -> Seq<u8> {
    short_signature_of(name, vs.map_values(|v: AbiValue| kind_of(v))) + abi_encoding(vs)
}

/// Arguments small enough for the encoder's 32-bit offsets.
pub open spec fn args_fit(args: Seq<AbiArg>) -> bool {
    &&& args.len() <= 4
    &&& forall|i: int| 0 <= i < args.len() ==> (#[trigger] args[i]).list_len() < MAX_LIST_LEN
}

/// Relies on ethabi's `short_signature`: the first four bytes of the Keccak-256
/// hash of the canonical signature, a function of the name and kinds alone.
#[verifier::external_body]
fn short_signature(name: &str, kinds: &Vec<AbiKind>) -> (r: Vec<u8>)
    ensures
        r@ == short_signature_of(name@, kinds@),
        r@.len() == 4,
{
    let params: Vec<ParamType> = kinds.iter().map(|k| match k {
        AbiKind::Address => ParamType::Address,
        AbiKind::Uint256 => ParamType::Uint(256),
        AbiKind::AddressArray => ParamType::Array(Box::new(ParamType::Address)),
        AbiKind::Uint256Array => ParamType::Array(Box::new(ParamType::Uint(256))),
    }).collect();
    ethers::abi::short_signature(name, &params).to_vec()
}

/// Relies on ethabi's `encode`: heads then tails, with addresses padded on the
/// left to a word, numbers as big-endian words, and each list as a length word
/// followed by its items, its head holding the offset of that length word.
#[verifier::external_body]
fn abi_encode(args: &Vec<AbiArg>) -> (r: Vec<u8>)
    requires
        args_fit(args@),
    ensures
        r@ == abi_encoding(arg_values(args@)),
{
    let tokens: Vec<Token> = args.iter().map(|a| match a {
        AbiArg::Address(x) => Token::Address(H160(x.bytes)),
        AbiArg::Uint(x) => Token::Uint(U256(x.limbs)),
        AbiArg::AddressArray(v) => Token::Array(v.iter().map(|x| Token::Address(H160(x.bytes))).collect()),
        AbiArg::UintArray(v) => Token::Array(v.iter().map(|x| Token::Uint(U256(x.limbs))).collect()),
    }).collect();
    ethers::abi::encode(&tokens)
}

/// The call data for calling `name` with `args`: selector, then arguments.
pub fn encode_call(name: &str, args: Vec<AbiArg>) -> (r: Vec<u8>)
    requires
        args_fit(args@),
    ensures
        r@ == calldata(name@, arg_values(args@)),
        short_signature_of(name@, arg_values(args@).map_values(|v: AbiValue| kind_of(v))).len() == 4,
        r@.len() == 4 + abi_encoding(arg_values(args@)).len(),
        r@.subrange(0, 4) == short_signature_of(name@, arg_values(args@).map_values(|v: AbiValue| kind_of(v))),
        r@.skip(4) == abi_encoding(arg_values(args@)),
{
    let mut kinds: Vec<AbiKind> = Vec::new();
    let mut i: usize = 0;
    while i < args.len()
        invariant
            i <= args@.len(),
            kinds@.len() == i,
            forall|j: int| 0 <= j < i ==> kinds@[j] == kind_of(#[trigger] args@[j].model()),
        decreases args@.len() - i,
    {
        kinds.push(args[i].kind());
        i = i + 1;
    }
    assert(kinds@ =~= arg_values(args@).map_values(|v: AbiValue| kind_of(v)));
    let mut r = short_signature(name, &kinds);
    let mut encoded = abi_encode(&args);
    r.append(&mut encoded);
    assert(r@.subrange(0, 4) =~= short_signature_of(name@, kinds@));
    assert(r@.skip(4) =~= abi_encoding(arg_values(args@)));
    r
}

} // verus!

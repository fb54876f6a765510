//! 256-bit unsigned token amounts, parsed from decimal text.

use vstd::prelude::*;

verus! {

/// 2^64, the radix of one limb.
pub open spec fn limb_base() -> nat {
    0x1_0000_0000_0000_0000
}

/// 2^256, one past the largest amount.
pub open spec fn amount_bound() -> nat {
    limb_base() * limb_base() * limb_base() * limb_base()
}

/// An unsigned 256-bit amount, stored as four 64-bit limbs, least significant first.
#[derive(Clone, Copy, Debug)]
pub struct Amount {
    pub limbs: [u64; 4],
}

impl Amount {
    /// The number this amount stands for.
    pub open spec fn value(self) -> nat {
        self.limbs@[0] as nat + limb_base() * (self.limbs@[1] as nat + limb_base() * (
        self.limbs@[2] as nat + limb_base() * self.limbs@[3] as nat))
    }

    /// The amount zero.
    pub fn zero() -> (r: Amount)
        ensures
            r.value() == 0,
    {
        Amount { limbs: [0u64; 4] }
    }

    /// The largest amount, 2^256 - 1.
    pub fn max_value() -> (r: Amount)
        ensures
            r.value() == amount_bound() - 1,
    {
        let r = Amount { limbs: [u64::MAX; 4] };
        assert(r.value() == amount_bound() - 1) by (nonlinear_arith)
            requires
                r.limbs@[0] == u64::MAX,
                r.limbs@[1] == u64::MAX,
                r.limbs@[2] == u64::MAX,
                r.limbs@[3] == u64::MAX,
                r.value() == r.limbs@[0] as nat + limb_base() * (r.limbs@[1] as nat + limb_base() * (
                r.limbs@[2] as nat + limb_base() * r.limbs@[3] as nat)),
                amount_bound() == limb_base() * limb_base() * limb_base() * limb_base(),
                limb_base() == 0x1_0000_0000_0000_0000,
        ;
        r
    }
}

/// Why a decimal text is not an amount.
#[derive(Clone, Copy, Debug, PartialEq, Eq, Structural)]
pub enum AmountError {
    /// A character is not a decimal digit.
    InvalidCharacter,
    /// The number does not fit in 256 bits.
    InvalidLength,
}

impl AmountError {
    /// The text that describes the error.
    pub fn message(&self) -> (r: String)
        ensures
            *self is InvalidCharacter ==> r@ == "a character is not in the range 0-9"@,
            *self is InvalidLength ==> r@ == "the number is too large for the type"@,
    {
        match self {
            AmountError::InvalidCharacter => "a character is not in the range 0-9".to_string(),
            AmountError::InvalidLength => "the number is too large for the type".to_string(),
        }
    }
}

pub open spec fn is_digit(c: char) -> bool {
    '0' <= c && c <= '9'
}

pub open spec fn digit_value(c: char) -> nat {
    (c as u32 - '0' as u32) as nat
}

/// Reading decimal text from the left: the first character that is no digit,
/// or the first digit after which the number reaches 2^256, ends the reading
/// with an error; otherwise the text's value.
pub open spec fn decimal_reading(s: Seq<char>) -> Result<nat, AmountError>
    decreases s.len(),
{
    if s.len() == 0 {
        Ok(0)
    } else {
        match decimal_reading(s.drop_last()) {
            Err(e) => Err(e),
            Ok(v) => {
                let c = s.last();
                if !is_digit(c) {
                    Err(AmountError::InvalidCharacter)
                } else if v * 10 + digit_value(c) >= amount_bound() {
                    Err(AmountError::InvalidLength)
                } else {
                    Ok(v * 10 + digit_value(c))
                }
            }
        }
    }
}

/// What parsing `s` as a decimal amount gives.
pub open spec fn parse_outcome(s: Seq<char>, r: Result<Amount, AmountError>) -> bool {
    match decimal_reading(s) {
        Ok(v) => r is Ok && r->Ok_0.value() == v,
        Err(e) => r == Err::<Amount, AmountError>(e),
    }
}

/// Relies on uint's `U256::from_dec_str`: it reads the digits from the left,
/// failing with `InvalidCharacter` at the first byte that is no digit and with
/// `InvalidLength` at the first digit that takes the value to 2^256 or beyond.
#[verifier::external_body]
pub(crate) fn parse_amount(s: &str) -> (r: Result<Amount, AmountError>)
    ensures
        parse_outcome(s@, r),
{
    match ethers::types::U256::from_dec_str(s) {
        Ok(v) => Ok(Amount { limbs: v.0 }),
        Err(ethers::abi::ethereum_types::FromDecStrErr::InvalidCharacter) => Err(AmountError::InvalidCharacter),
        Err(ethers::abi::ethereum_types::FromDecStrErr::InvalidLength) => Err(AmountError::InvalidLength),
    }
}

/// Relies on uint's `U256::checked_add`: the sum, or `None` where it overflows.
#[verifier::external_body]
fn checked_add(a: Amount, b: Amount) -> (r: Option<Amount>)
    ensures
        r is Some <==> a.value() + b.value() < amount_bound(),
        r is Some ==> r->Some_0.value() == a.value() + b.value(),
{
    ethers::types::U256(a.limbs).checked_add(ethers::types::U256(b.limbs)).map(|c| Amount { limbs: c.0 })
}

/// The numbers that the amounts stand for.
pub open spec fn amount_values(s: Seq<Amount>) -> Seq<nat> {
    s.map_values(|a: Amount| a.value())
}

/// The sum of a sequence of numbers.
pub open spec fn sum_values(s: Seq<nat>) -> nat
    decreases s.len(),
{
    if s.len() == 0 {
        0
    } else {
        sum_values(s.drop_last()) + s.last()
    }
}

/// A prefix never sums to more than the whole.
pub proof fn lemma_sum_prefix(s: Seq<nat>, j: int)
    requires
        0 <= j <= s.len(),
    ensures
        sum_values(s.take(j)) <= sum_values(s),
    decreases s.len(),
{
    if j < s.len() {
        assert(s.drop_last().take(j) =~= s.take(j));
        lemma_sum_prefix(s.drop_last(), j);
    } else {
        assert(s.take(j) =~= s);
    }
}

/// Adds up the amounts, or gives `None` where the sum reaches 2^256.
pub fn sum_amounts(amounts: &Vec<Amount>) -> (r: Option<Amount>)
    ensures
        r is Some <==> sum_values(amount_values(amounts@)) < amount_bound(),
        r is Some ==> r->Some_0.value() == sum_values(amount_values(amounts@)),
{
    let mut acc = Amount::zero();
    let mut i: usize = 0;
    assert(amount_values(amounts@).take(0) =~= Seq::<nat>::empty());
    while i < amounts.len()
        invariant
            i <= amounts@.len(),
            acc.value() == sum_values(amount_values(amounts@).take(i as int)),
        decreases amounts@.len() - i,
    {
        assert(amount_values(amounts@).take(i + 1).drop_last() =~= amount_values(amounts@).take(i as int));
        match checked_add(acc, amounts[i]) {
            Some(next) => {
                acc = next;
            },
            None => {
                proof {
                    lemma_sum_prefix(amount_values(amounts@), i + 1);
                }
                return None;
            },
        }
        i = i + 1;
    }
    assert(amount_values(amounts@).take(i as int) =~= amount_values(amounts@));
    Some(acc)
}

/// Parses each text as a decimal amount, stopping at the first that fails.
pub fn parse_amounts(texts: &Vec<String>) -> (r: Result<Vec<Amount>, AmountError>)
    ensures
        r is Ok <==> forall|i: int| 0 <= i < texts@.len() ==> (#[trigger] decimal_reading(texts@[i]@)) is Ok,
        r is Ok ==> r->Ok_0@.len() == texts@.len() && forall|i: int| 0 <= i < texts@.len()
            ==> decimal_reading(texts@[i]@) == Ok::<nat, AmountError>(#[trigger] r->Ok_0@[i].value()),
        r is Err ==> exists|k: int|
            0 <= k < texts@.len() && (forall|i: int| 0 <= i < k ==> (#[trigger] decimal_reading(texts@[i]@)) is Ok)
                && decimal_reading(texts@[k]@) == Err::<nat, AmountError>(r->Err_0),
{
    let mut out: Vec<Amount> = Vec::new();
    let mut i: usize = 0;
    while i < texts.len()
        invariant
            i <= texts@.len(),
            out@.len() == i,
            forall|j: int| 0 <= j < i ==> decimal_reading(texts@[j]@) == Ok::<nat, AmountError>(#[trigger] out@[j].value()),
        decreases texts@.len() - i,
    {
        match parse_amount(texts[i].as_str()) {
            Ok(a) => {
                out.push(a);
            },
            Err(e) => {
                assert(forall|j: int| 0 <= j < i ==> (#[trigger] decimal_reading(texts@[j]@)) is Ok) by {
                    assert forall|j: int| 0 <= j < i implies (#[trigger] decimal_reading(texts@[j]@)) is Ok by {
                        assert(decimal_reading(texts@[j]@) == Ok::<nat, AmountError>(out@[j].value()));
                    }
                }
                return Err(e);
            },
        }
        i = i + 1;
    }
    assert forall|j: int| 0 <= j < texts@.len() implies (#[trigger] decimal_reading(texts@[j]@)) is Ok by {
        assert(decimal_reading(texts@[j]@) == Ok::<nat, AmountError>(out@[j].value()));
    }
    Ok(out)
}

/// Parses an optional decimal amount; an absent one is zero.
pub fn parse_optional_amount(text: &Option<String>) -> (r: Result<Amount, AmountError>)
    ensures
        text is None ==> r is Ok && r->Ok_0.value() == 0,
        text is Some ==> parse_outcome(text->Some_0@, r),
{
    match text {
        None => Ok(Amount::zero()),
        Some(s) => parse_amount(s.as_str()),
    }
}

} // verus!

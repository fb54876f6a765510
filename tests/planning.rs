use disperse_api::address::{parse_addresses, Address};
use disperse_api::amount::{Amount, AmountError};
use disperse_api::calls::{
    encode_approve_function, encode_collect_erc20_function, encode_collect_eth_function,
    encode_disperse_erc20_function, encode_disperse_eth_function,
};
use disperse_api::plan::{
    plan_collect_erc20, plan_collect_eth, plan_disperse_erc20, plan_disperse_eth, RequestError,
};
use disperse_api::requests::{CollectErc20Request, CollectEthRequest, DisperseErc20Request, DisperseEthRequest};

const CONTRACT_TEXT: &str = "0x760961dCCDE54efbA8a4399C7A202C96b6E8a693";
const A_TEXT: &str = "0x1111111111111111111111111111111111111111";
const B_TEXT: &str = "0x2222222222222222222222222222222222222222";
const MAX_TEXT: &str = "115792089237316195423570985008687907853269984665640564039457584007913129639935";

fn contract() -> Address {
    parse_address(CONTRACT_TEXT).unwrap()
}

fn parse_address(s: &str) -> Option<Address> {
    parse_addresses(&vec![s.to_string()]).map(|v| v[0])
}

fn addr(b: u8) -> Address {
    Address { bytes: [b; 20] }
}

fn amount(n: u64) -> Amount {
    Amount { limbs: [n, 0, 0, 0] }
}

fn strings(items: &[&str]) -> Vec<String> {
    items.iter().map(|s| s.to_string()).collect()
}

fn disperse_eth(to: &[&str], amounts: &[&str], percents: Option<&str>) -> DisperseEthRequest {
    DisperseEthRequest { to: strings(to), amounts: strings(amounts), percents: percents.map(|p| p.to_string()) }
}

fn disperse_erc20(tokens: &[&str], to: &[&str], amounts: &[&str]) -> DisperseErc20Request {
    DisperseErc20Request { tokens: strings(tokens), to: strings(to), amounts: strings(amounts), percents: None }
}

#[test]
fn disperse_eth_carries_sum() {
    let tx = plan_disperse_eth(&disperse_eth(&[A_TEXT, B_TEXT], &["1", "2"], Some("5")), contract()).unwrap();
    assert_eq!(tx.to.bytes, contract().bytes);
    assert_eq!(tx.value.unwrap().limbs, [3, 0, 0, 0]);
    assert_eq!(tx.data, encode_disperse_eth_function(vec![addr(0x11), addr(0x22)], vec![amount(1), amount(2)], amount(5)));
}

#[test]
fn disperse_eth_length_mismatch() {
    let r = plan_disperse_eth(&disperse_eth(&[A_TEXT, B_TEXT], &["1"], None), contract());
    assert_eq!(r.unwrap_err(), RequestError::LengthMismatch);
    assert_eq!(RequestError::LengthMismatch.message(), "Recipients and amounts length mismatch");
}

#[test]
fn length_mismatch_comes_before_bad_amounts() {
    let r = plan_disperse_eth(&disperse_eth(&["bad"], &["x", "y"], None), contract());
    assert_eq!(r.unwrap_err(), RequestError::LengthMismatch);
}

#[test]
fn disperse_eth_bad_amount() {
    let r = plan_disperse_eth(&disperse_eth(&[A_TEXT], &["1e3"], None), contract());
    let e = r.unwrap_err();
    assert_eq!(e, RequestError::InvalidAmount(AmountError::InvalidCharacter));
    assert_eq!(e.message(), "a character is not in the range 0-9");
}

#[test]
fn disperse_eth_bad_percentage() {
    let r = plan_disperse_eth(&disperse_eth(&[A_TEXT], &["1"], Some("abc")), contract());
    assert_eq!(r.unwrap_err(), RequestError::InvalidAmount(AmountError::InvalidCharacter));
}

#[test]
fn disperse_eth_bad_recipient() {
    let r = plan_disperse_eth(&disperse_eth(&[A_TEXT, "0x12"], &["1", "2"], None), contract());
    assert_eq!(r.unwrap_err(), RequestError::InvalidAddress);
}

#[test]
fn disperse_eth_overflowing_sum() {
    let r = plan_disperse_eth(&disperse_eth(&[A_TEXT, B_TEXT], &[MAX_TEXT, "1"], None), contract());
    let e = r.unwrap_err();
    assert_eq!(e, RequestError::Overflow);
    assert_eq!(e.message(), "Overflow occurred");
}

#[test]
fn disperse_eth_with_no_recipients() {
    let tx = plan_disperse_eth(&disperse_eth(&[], &[], None), contract()).unwrap();
    assert_eq!(tx.value.unwrap().limbs, [0, 0, 0, 0]);
}

#[test]
fn disperse_erc20_approves_each_token_first() {
    let tx = plan_disperse_erc20(&disperse_erc20(&[A_TEXT, B_TEXT], &[CONTRACT_TEXT], &["9"]), contract()).unwrap();
    assert_eq!(tx.len(), 3);
    let approve = encode_approve_function(contract(), Amount::max_value());
    assert_eq!(tx[0].to.bytes, [0x11; 20]);
    assert_eq!(tx[1].to.bytes, [0x22; 20]);
    for t in &tx[..2] {
        assert_eq!(t.data, approve);
        assert!(t.value.is_none());
    }
    assert_eq!(tx[2].to.bytes, contract().bytes);
    assert!(tx[2].value.is_none());
    let expected =
        encode_disperse_erc20_function(vec![addr(0x11), addr(0x22)], vec![contract()], vec![amount(9)], amount(0));
    assert_eq!(tx[2].data, expected);
}

#[test]
fn disperse_erc20_errors() {
    let r = plan_disperse_erc20(&disperse_erc20(&[A_TEXT], &[B_TEXT], &[]), contract());
    assert_eq!(r.unwrap_err(), RequestError::LengthMismatch);
    let r = plan_disperse_erc20(&disperse_erc20(&["token"], &[B_TEXT], &["1"]), contract());
    assert_eq!(r.unwrap_err(), RequestError::InvalidAddress);
    let too_large = format!("{}0", MAX_TEXT);
    let r = plan_disperse_erc20(&disperse_erc20(&[A_TEXT], &[B_TEXT], &[too_large.as_str()]), contract());
    let e = r.unwrap_err();
    assert_eq!(e, RequestError::InvalidAmount(AmountError::InvalidLength));
    assert_eq!(e.message(), "the number is too large for the type");
}

#[test]
fn collect_eth_carries_amount() {
    let req = CollectEthRequest { amount: "42".to_string(), percents: Some("3".to_string()) };
    let tx = plan_collect_eth(&req, contract()).unwrap();
    assert_eq!(tx.to.bytes, contract().bytes);
    assert_eq!(tx.value.unwrap().limbs, [42, 0, 0, 0]);
    assert_eq!(tx.data, encode_collect_eth_function(amount(42), amount(3)));
}

#[test]
fn collect_eth_errors() {
    let req = CollectEthRequest { amount: "4 2".to_string(), percents: None };
    assert_eq!(plan_collect_eth(&req, contract()).unwrap_err(), RequestError::InvalidAmount(AmountError::InvalidCharacter));
    let req = CollectEthRequest { amount: "42".to_string(), percents: Some("-3".to_string()) };
    assert_eq!(plan_collect_eth(&req, contract()).unwrap_err(), RequestError::InvalidAmount(AmountError::InvalidCharacter));
}

#[test]
fn collect_erc20_approves_then_collects() {
    let req = CollectErc20Request { token: A_TEXT.to_string(), amount: "7".to_string(), percents: None };
    let tx = plan_collect_erc20(&req, contract()).unwrap();
    assert_eq!(tx.len(), 2);
    assert_eq!(tx[0].to.bytes, [0x11; 20]);
    assert_eq!(tx[0].data, encode_approve_function(contract(), Amount::max_value()));
    assert!(tx[0].value.is_none());
    assert_eq!(tx[1].to.bytes, contract().bytes);
    assert_eq!(tx[1].value.unwrap().limbs, [7, 0, 0, 0]);
    assert_eq!(tx[1].data, encode_collect_erc20_function(addr(0x11), amount(7), amount(0)));
}

#[test]
fn collect_erc20_bad_token() {
    let req = CollectErc20Request { token: "0xnope".to_string(), amount: "7".to_string(), percents: None };
    let e = plan_collect_erc20(&req, contract()).unwrap_err();
    assert_eq!(e, RequestError::InvalidAddress);
    assert_eq!(e.message(), "Invalid address");
}

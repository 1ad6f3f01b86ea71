use astrpt::asset::Asset;
use astrpt::asset::AssetInfo;
use astrpt::asset::Precisions;
use astrpt::error::ContractError;
use astrpt::key::bytes_le;
use astrpt::key::generate_key_from_asset_info;
use astrpt::key::generate_key_from_assets;
use astrpt::key::pair_key;
use astrpt::state::decrease_asset_balance;
use astrpt::state::decrease_pair_balances;
use astrpt::state::find_asset_index;
use astrpt::state::increment_asset_balance;
use astrpt::state::increment_pair_balances;
use astrpt::state::update_pool_balances;

fn token(name: &str) -> AssetInfo {
    AssetInfo::Token { contract_addr: name.to_string() }
}

fn native(name: &str) -> AssetInfo {
    AssetInfo::NativeToken { denom: name.to_string() }
}

fn balances() -> Vec<Asset> {
    vec![Asset { info: native("aarch"), amount: 10 }, Asset { info: token("tox"), amount: 20 }]
}

fn amounts(b: &Vec<Asset>) -> Vec<u128> {
    vec![b[0].amount, b[1].amount]
}

#[test]
fn assets_are_compared_by_kind_and_name() {
    assert!(token("a").equal(&token("a")));
    assert!(!token("a").equal(&token("b")));
    assert!(!token("a").equal(&native("a")));
    assert!(native("a").equal(&native("a")));
    assert!(token("a").duplicate().equal(&token("a")));
    assert_eq!(token("addr").to_string(), "addr");
    assert_eq!(native("aarch").as_bytes(), b"aarch");
    assert!(native("aarch").is_native_token());
    assert!(!token("aarch").is_native_token());
}

#[test]
fn native_assets_are_checked_by_their_denomination() {
    assert!(native("aarch").check().is_ok());
    assert!(native("ibc/27394FB092D2ECCD56123C74F36E4C1F926001CEADA9CA97EA622B25F41E5EB2").check().is_ok());
    assert!(native("a.b:c_d-e/9").check().is_ok());
    assert!(matches!(native("ab").check(), Err(ContractError::InvalidDenom(s)) if s == "ab"));
    assert!(matches!(native("1abc").check(), Err(ContractError::InvalidDenom(_))));
    assert!(matches!(native("ab c").check(), Err(ContractError::InvalidDenom(_))));
    assert!(matches!(native("abé").check(), Err(ContractError::InvalidDenom(_))));
    assert!(matches!(native(&"a".repeat(129)).check(), Err(ContractError::InvalidDenom(_))));
    assert!(native(&"a".repeat(128)).check().is_ok());
    assert!(token("").check().is_ok());
}

#[test]
fn precision_is_that_of_the_first_entry() {
    let p = Precisions::new(vec![("aarch".to_string(), 18), ("tox".to_string(), 6), ("tox".to_string(), 8)]);
    assert_eq!(p.get_precision(&native("aarch")).unwrap(), 18);
    assert_eq!(p.get_precision(&token("tox")).unwrap(), 6);
    assert_eq!(p.get_precision(&native("tox")).unwrap(), 6);
    assert!(matches!(p.get_precision(&token("toy")), Err(ContractError::InvalidAsset(s)) if s == "toy"));
}

#[test]
fn precisions_are_recorded_once() {
    let mut p = Precisions::new(vec![("tox".to_string(), 6)]);
    p.store_precisions(&vec![native("aarch"), token("tox"), token("toy"), token("toy")], &vec![3, 9, 8, 7]);
    assert_eq!(p.get_precision(&native("aarch")).unwrap(), 18);
    assert_eq!(p.get_precision(&token("tox")).unwrap(), 6);
    assert_eq!(p.get_precision(&token("toy")).unwrap(), 8);
    assert_eq!(p.0.len(), 3);
}

#[test]
fn amounts_become_decimals() {
    let a = Asset { info: token("tox"), amount: 1_500_000 };
    let d = a.to_decimal_asset(6);
    assert!(d.info.equal(&token("tox")));
    assert_eq!(d.amount.to_u128(), Some(1_500_000_000_000_000_000));
    assert_eq!(a.duplicate().amount, 1_500_000);
}

#[test]
fn byte_strings_are_ordered() {
    assert!(bytes_le(b"", b""));
    assert!(bytes_le(b"", b"a"));
    assert!(!bytes_le(b"a", b""));
    assert!(bytes_le(b"abc", b"abd"));
    assert!(!bytes_le(b"abd", b"abc"));
    assert!(bytes_le(b"ab", b"abc"));
    assert!(!bytes_le(b"abc", b"ab"));
    assert!(bytes_le(b"abc", b"abc"));
    assert!(bytes_le(b"Z", b"a"));
    assert!(bytes_le(&[1, 255], &[2, 0]));
}

#[test]
fn key_does_not_depend_on_the_order() {
    let ab = vec![token("TOX"), token("TOY")];
    let ba = vec![token("TOY"), token("TOX")];
    assert_eq!(pair_key(&ab), b"TOXTOY".to_vec());
    assert_eq!(pair_key(&ba), b"TOXTOY".to_vec());
    assert_eq!(generate_key_from_asset_info(&ab), "TOXTOY");
    assert_eq!(generate_key_from_asset_info(&ba), "TOXTOY");
    let mixed = vec![native("aarch"), token("TOX")];
    assert_eq!(generate_key_from_asset_info(&mixed), "TOXaarch");
    let assets = vec![Asset { info: native("aarch"), amount: 1 }, Asset { info: token("TOX"), amount: 2 }];
    assert_eq!(generate_key_from_assets(&assets), "TOXaarch");
    let prefix = vec![token("ab"), token("a")];
    assert_eq!(generate_key_from_asset_info(&prefix), "aab");
    let same = vec![token("x"), native("x")];
    assert_eq!(generate_key_from_asset_info(&same), "xx");
}

#[test]
fn asset_is_found_among_the_balances() {
    let b = balances();
    assert_eq!(find_asset_index(&b, &native("aarch")), Some(0));
    assert_eq!(find_asset_index(&b, &token("tox")), Some(1));
    assert_eq!(find_asset_index(&b, &token("aarch")), None);
    assert_eq!(find_asset_index(&vec![], &token("tox")), None);
}

#[test]
fn one_balance_is_raised_and_lowered() {
    let mut b = balances();
    increment_asset_balance(&mut b, 1, 5).unwrap();
    assert_eq!(amounts(&b), vec![10, 25]);
    decrease_asset_balance(&mut b, 0, 10).unwrap();
    assert_eq!(amounts(&b), vec![0, 25]);
    assert!(matches!(decrease_asset_balance(&mut b, 0, 1), Err(ContractError::Overflow)));
    assert!(matches!(increment_asset_balance(&mut b, 1, u128::MAX), Err(ContractError::Overflow)));
    assert_eq!(amounts(&b), vec![0, 25]);
    assert!(b[1].info.equal(&token("tox")));
}

#[test]
fn both_balances_are_raised_and_lowered_together() {
    let mut b = balances();
    increment_pair_balances(&mut b, &vec![1, 2]).unwrap();
    assert_eq!(amounts(&b), vec![11, 22]);
    increment_pair_balances(&mut b, &vec![4]).unwrap();
    assert_eq!(amounts(&b), vec![15, 22]);
    assert!(matches!(increment_pair_balances(&mut b, &vec![1, u128::MAX]), Err(ContractError::Overflow)));
    assert_eq!(amounts(&b), vec![15, 22]);
    decrease_pair_balances(&mut b, &vec![5, 2]).unwrap();
    assert_eq!(amounts(&b), vec![10, 20]);
    assert!(matches!(decrease_pair_balances(&mut b, &vec![1, 21]), Err(ContractError::Overflow)));
    assert_eq!(amounts(&b), vec![10, 20]);
    update_pool_balances(&mut b, &vec![Asset { info: token("other"), amount: 7 }]);
    assert_eq!(amounts(&b), vec![7, 20]);
    assert!(b[0].info.equal(&native("aarch")));
}

use dob_liquidity::token::DobToken;
use dob_liquidity::token::Error;

const TOKEN_ID: u64 = 1;
const ADMIN: u64 = 2;
const HOOK: u64 = 3;
const USER: u64 = 4;
const USER2: u64 = 5;
const SPENDER: u64 = 6;

fn new_token(name: &str, symbol: &str) -> DobToken {
    DobToken::initialize(
        TOKEN_ID,
        ADMIN,
        HOOK,
        String::from(name),
        String::from(symbol),
        7,
    )
}

#[test]
fn test_initialize() {
    let token = new_token("Dob Solar Farm 2035", "DOB-35");
    assert_eq!(token.name(), String::from("Dob Solar Farm 2035"));
    assert_eq!(token.symbol(), String::from("DOB-35"));
    assert_eq!(token.decimals(), 7);
    assert_eq!(token.total_supply(), 0);
}

#[test]
fn test_mint_and_burn() {
    let mut token = new_token("DOB Token", "DOB");

    token.mint(HOOK, USER, 1000).unwrap();
    assert_eq!(token.balance(USER), 1000);
    assert_eq!(token.total_supply(), 1000);

    token.burn(HOOK, USER, 300).unwrap();
    assert_eq!(token.balance(USER), 700);
    assert_eq!(token.total_supply(), 700);
}

#[test]
fn test_transfer() {
    let mut token = new_token("DOB Token", "DOB");

    token.mint(HOOK, USER, 1000).unwrap();

    token.transfer(USER, USER2, 400).unwrap();

    assert_eq!(token.balance(USER), 600);
    assert_eq!(token.balance(USER2), 400);
}

#[test]
fn test_transfer_insufficient_balance() {
    let mut token = new_token("DOB Token", "DOB");
    token.mint(HOOK, USER, 100).unwrap();
    assert_eq!(token.transfer(USER, USER2, 200), Err(Error::InsufficientBalance));
    assert_eq!(token.transfer(USER, USER2, -1), Err(Error::InsufficientBalance));
    assert_eq!(token.balance(USER), 100);
    assert_eq!(token.balance(USER2), 0);
}

#[test]
fn test_self_transfer_changes_nothing() {
    let mut token = new_token("DOB Token", "DOB");
    token.mint(HOOK, USER, 500).unwrap();
    token.transfer(USER, USER, 200).unwrap();
    assert_eq!(token.balance(USER), 500);
    assert_eq!(token.total_supply(), 500);
}

#[test]
fn test_mint_and_burn_unauthorized() {
    let mut token = new_token("DOB Token", "DOB");
    assert_eq!(token.mint(USER, USER, 100), Err(Error::Unauthorized));
    token.mint(HOOK, USER, 100).unwrap();
    assert_eq!(token.burn(USER, USER, 50), Err(Error::Unauthorized));
    assert_eq!(token.burn(HOOK, USER, 200), Err(Error::InsufficientBalance));
    assert_eq!(token.balance(USER), 100);
}

#[test]
fn test_approve_and_transfer_from() {
    let mut token = new_token("DOB Token", "DOB");
    token.mint(HOOK, USER, 1000).unwrap();

    token.approve(USER, SPENDER, 300);
    assert_eq!(token.allowance(USER, SPENDER), 300);

    assert_eq!(
        token.transfer_from(SPENDER, USER, USER2, 400),
        Err(Error::InsufficientAllowance)
    );

    token.transfer_from(SPENDER, USER, USER2, 250).unwrap();
    assert_eq!(token.balance(USER), 750);
    assert_eq!(token.balance(USER2), 250);
    assert_eq!(token.allowance(USER, SPENDER), 50);
}

#[test]
fn test_assign_hook() {
    let mut token = new_token("DOB Token", "DOB");
    assert_eq!(token.hook(), HOOK);
    assert_eq!(token.admin(), ADMIN);
    assert_eq!(token.assign_hook(USER, USER), Err(Error::Unauthorized));
    token.assign_hook(ADMIN, USER2).unwrap();
    assert_eq!(token.hook(), USER2);
    token.mint(USER2, USER, 5).unwrap();
    assert_eq!(token.balance(USER), 5);
}

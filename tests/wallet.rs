use binance_wallet::wallet::{
    check_questionnaire, decimal_string, questionnaire_payload, Wallet, WalletError,
    TRADE_FEE_PATH, TRADE_FEE_PATH_US,
};

const SECRET: &str = "NhqPtmdSJYdKjVHjA7PZj4Mge3R5YNiP1e3UZjInClVN65XAbvqqM6A7H5fATj0j";

fn wallet(us: bool) -> Wallet {
    Wallet::new("key".to_string(), SECRET.to_string(), 5000, us)
}

#[test]
fn signed_query_appends_stamp_and_signature() {
    let q = wallet(false).signed_query("symbol=LTCBTC&side=BUY", 1499827319559);
    let payload = "symbol=LTCBTC&side=BUY&timestamp=1499827319559&recvWindow=5000";
    let expected = format!("{}&signature={}", payload, Wallet::generate_signature(payload, SECRET));
    assert_eq!(q, expected);
}

#[test]
fn signed_query_without_params() {
    let q = wallet(false).signed_query("", 7);
    let payload = "timestamp=7&recvWindow=5000";
    assert!(q.starts_with("timestamp=7&recvWindow=5000&signature="));
    assert_eq!(q.len(), payload.len() + "&signature=".len() + 64);
    assert!(q.ends_with(&Wallet::generate_signature(payload, SECRET)));
}

#[test]
fn decimal_text() {
    assert_eq!(decimal_string(0), "0");
    assert_eq!(decimal_string(10), "10");
    assert_eq!(decimal_string(1499827319559), "1499827319559");
    assert_eq!(decimal_string(u64::MAX), "18446744073709551615");
}

#[test]
fn trade_fee_path_follows_service() {
    assert_eq!(wallet(false).trade_fee_path(), TRADE_FEE_PATH);
    assert_eq!(wallet(true).trade_fee_path(), TRADE_FEE_PATH_US);
    assert_eq!(wallet(true).trade_fee_path(), "/sapi/v1/asset/query/trading-fee");
}

#[test]
fn questionnaire_needs_originator_and_source() {
    assert_eq!(check_questionnaire(1, 1), Ok(()));
    assert_eq!(check_questionnaire(0, 1), Err(WalletError::IncompleteQuestionnaire));
    assert_eq!(check_questionnaire(1, 0), Err(WalletError::IncompleteQuestionnaire));
    assert_eq!(
        WalletError::IncompleteQuestionnaire.message(),
        "Questionnaire must include depositOriginator and receiveFrom"
    );
}

#[test]
fn questionnaire_payload_order() {
    let p = questionnaire_payload("42".to_string(), "{\"a\":1}".to_string(), 99);
    assert_eq!(
        p,
        vec![
            ("tranId".to_string(), "42".to_string()),
            ("questionnaire".to_string(), "{\"a\":1}".to_string()),
            ("timestamp".to_string(), "99".to_string()),
        ]
    );
}

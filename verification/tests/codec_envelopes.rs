use tinkoff_bank::codec::decode_accounts;
use tinkoff_bank::codec::decode_nothing;
use tinkoff_bank::codec::decode_session;
use tinkoff_bank::codec::decode_user_info;
use tinkoff_bank::AccessLevel;
use tinkoff_bank::Account;
use tinkoff_bank::Currency;
use tinkoff_bank::Decimal;
use tinkoff_bank::MoneyAmount;
use tinkoff_bank::Nothing;
use tinkoff_bank::ResponsePayload;
use tinkoff_bank::ResultCode;
use tinkoff_bank::Session;
use tinkoff_bank::UserInfo;

const ANONYMOUS: &str = "{\"resultCode\": \"OK\", \"payload\": {\"accessLevel\": \"ANONYMOUS\", \"unreadMessagesCount\": 0, \"userId\": \"1111\"}, \"trackingId\": \"AZAZA11\"}";
const CANDIDATE: &str = "{\"resultCode\": \"OK\", \"payload\": {\"ssoId\": \"100-500-azaza-lolkek\", \"accessLevel\": \"CANDIDATE\", \"additionalAuth\": {\"needLogin\": false, \"needPassword\": true, \"needRegister\": false}, \"unreadMessagesCount\": 0, \"userId\": \"1234\"}, \"trackingId\": \"AZAZA11\"}";
const CLIENT: &str = "{\"resultCode\": \"OK\", \"payload\": {\"ssoId\": \"100-500-azaza-lolkek\", \"accessLevel\": \"CLIENT\", \"unreadMessagesCount\": 0, \"userId\": \"1234\"}, \"trackingId\": \"AZAZA11\"}";

fn ok_envelope<T>(payload: T) -> ResponsePayload<T> {
    ResponsePayload {
        result_code: ResultCode::Okay,
        payload: Some(payload),
        confirmations: None,
        initial_operation: None,
        operation_ticket: None,
    }
}

#[test]
fn returns_user_details() {
    let cases = [
        (
            ANONYMOUS,
            UserInfo { access_level: AccessLevel::Anonymous, user_id: "1111".to_owned() },
        ),
        (
            CANDIDATE,
            UserInfo { access_level: AccessLevel::Candidate, user_id: "1234".to_owned() },
        ),
        (
            CLIENT,
            UserInfo { access_level: AccessLevel::Client, user_id: "1234".to_owned() },
        ),
    ];
    for (resp, expected) in cases {
        assert_eq!(decode_user_info(resp), Ok(ok_envelope(expected)));
    }
}

#[test]
fn auth_by_password_returns_user_info() {
    let body = "{\"payload\": {\"accessLevel\": \"CLIENT\", \"ssoId\": \"sso-id-example\", \"userId\": \"user-id-example\"}, \"resultCode\": \"OK\", \"trackingId\": \"AZAZA11\"} ";

    let got = decode_user_info(body);

    assert_eq!(
        got,
        Ok(ok_envelope(UserInfo {
            access_level: AccessLevel::Client,
            user_id: "user-id-example".to_owned()
        }))
    );
}

#[test]
fn confirm_auth_by_phone_returns_user_info() {
    let body = "{\"payload\": {\"accessLevel\": \"CANDIDATE\", \"firstName\": \"Cool guy\", \"hasPassword\": true, \"key\": \"key-example\", \"noClient\": false, \"ssoId\": \"sso-id-example\", \"userId\": \"user-id-example\"}, \"resultCode\": \"OK\", \"trackingId\": \"AZAZA11\"}";

    let got = decode_user_info(body);

    assert_eq!(
        got,
        Ok(ok_envelope(UserInfo {
            access_level: AccessLevel::Candidate,
            user_id: "user-id-example".to_owned()
        }))
    );
}

#[test]
fn auth_by_pin_returns_user_info() {
    let body = "{\"resultCode\": \"OK\", \"payload\": {\"key\": \"key-example\", \"deviceId\": \"ultra-device-id\", \"accessLevel\": \"CLIENT\", \"noClient\": false, \"ssoId\": \"sso-id-example\"}, \"trackingId\": \"AZAZA11\"}";

    let got = decode_user_info(body);

    assert_eq!(
        got,
        Ok(ok_envelope(UserInfo {
            access_level: AccessLevel::Client,
            user_id: "".to_owned()
        }))
    );
}

#[test]
fn returns_confirmation_details() {
    let body = "{\"confirmationData\": {\"SMSBYID\": {\"codeLength\": 4, \"codeType\": \"Numeric\", \"confirmationType\": \"SMSBYID\"}}, \"confirmations\": [\"SMSBYID\"], \"initialOperation\": \"auth/by/phone\", \"operationTicket\": \"operation-ticket-example\", \"resultCode\": \"WAITING_CONFIRMATION\", \"trackingId\": \"AZAZA11\"}";

    let got = decode_nothing(body);

    assert_eq!(
        got,
        Ok(ResponsePayload {
            result_code: ResultCode::WaitingConfirmation,
            payload: None,
            confirmations: Some(vec!["SMSBYID".to_owned()]),
            initial_operation: Some("auth/by/phone".to_owned()),
            operation_ticket: Some("operation-ticket-example".to_owned()),
        })
    );
}

#[test]
fn returns_session_details() {
    let body = "{\"payload\": {\"sessionid\": \"session-id-example\", \"ttl\": 9994}, \"resultCode\": \"OK\", \"trackingId\": \"AZAZA11\"}";

    let got = decode_session(body);

    assert_eq!(
        got,
        Ok(ok_envelope(Session { id: "session-id-example".to_owned(), ttl: 9994 }))
    );
}

#[test]
fn returns_nothing() {
    let body = "{\"payload\": {\"key\": \"key-example\"}, \"resultCode\": \"OK\", \"trackingId\": \"AZAZA11\"}";

    let got = decode_nothing(body);

    assert_eq!(got, Ok(ok_envelope(Nothing {})));
}

#[test]
fn returns_accounts() {
    let body = "{\"payload\": [{\"externalAccountNumber\": \"100000\", \"accountGroup\": \"Дебетовые карты\", \"moneyAmount\": {\"currency\": {\"code\": 643, \"name\": \"RUB\", \"strCode\": \"643\"}, \"value\": 1111.11}, \"currency\": {\"code\": 643, \"name\": \"RUB\", \"strCode\": \"643\"}, \"name\": \"Счет Tinkoff Black BE\", \"id\": \"100\"}, {\"externalAccountNumber\": \"200000\", \"accountGroup\": \"Дебетовые карты\", \"moneyAmount\": {\"currency\": {\"code\": 840, \"name\": \"USD\", \"strCode\": \"840\"}, \"value\": 22222.2}, \"currency\": {\"code\": 840, \"name\": \"USD\", \"strCode\": \"840\"}, \"name\": \"Счет USD Tinkoff Black\", \"id\": \"200\"}, {\"externalAccountNumber\": \"300000\", \"accountGroup\": \"Накопительные счета\", \"moneyAmount\": {\"currency\": {\"code\": 643, \"name\": \"RUB\", \"strCode\": \"643\"}, \"value\": 333333}, \"currency\": {\"code\": 643, \"name\": \"RUB\", \"strCode\": \"643\"}, \"name\": \"Классный счет\", \"id\": \"300\"}], \"details\": {\"hasNext\": false}, \"resultCode\": \"OK\", \"trackingId\": \"AZAZA11\"}";

    let got = decode_accounts(body);

    assert_eq!(
        got,
        Ok(ok_envelope(vec![
            Account {
                external_number: "100000".to_owned(),
                group: "Дебетовые карты".to_owned(),
                money_amount: MoneyAmount {
                    currency: Currency::RUB,
                    value: Decimal { negative: false, mantissa: 111111, scale: 2 }
                },
                name: "Счет Tinkoff Black BE".to_owned(),
                id: "100".to_owned()
            },
            Account {
                external_number: "200000".to_owned(),
                group: "Дебетовые карты".to_owned(),
                money_amount: MoneyAmount {
                    currency: Currency::USD,
                    value: Decimal { negative: false, mantissa: 222222, scale: 1 }
                },
                name: "Счет USD Tinkoff Black".to_owned(),
                id: "200".to_owned()
            },
            Account {
                external_number: "300000".to_owned(),
                group: "Накопительные счета".to_owned(),
                money_amount: MoneyAmount {
                    currency: Currency::RUB,
                    value: Decimal { negative: false, mantissa: 333333, scale: 0 }
                },
                name: "Классный счет".to_owned(),
                id: "300".to_owned()
            }
        ]))
    );
}

use tinkoff_bank::codec::decode_account_entity;
use tinkoff_bank::codec::decode_operation;
use tinkoff_bank::codec::decode_operations;
use tinkoff_bank::codec::decode_session;
use tinkoff_bank::codec::decode_user_info;
use tinkoff_bank::codec::encode_account;
use tinkoff_bank::codec::encode_operation;
use tinkoff_bank::codec::encode_session;
use tinkoff_bank::codec::encode_user_info;
use tinkoff_bank::AccessLevel;
use tinkoff_bank::Account;
use tinkoff_bank::Currency;
use tinkoff_bank::Decimal;
use tinkoff_bank::MoneyAmount;
use tinkoff_bank::Operation;
use tinkoff_bank::OperationGroup;
use tinkoff_bank::OperationType;
use tinkoff_bank::UserInfo;

const OPERATION_BODY: &str = "{
    \"id\": \"1234567890\",
    \"type\": \"Credit\",
    \"description\": \"Яндекс.Еда\",
    \"amount\": {
        \"currency\": {\"code\": 643, \"name\": \"RUB\", \"strCode\": \"643\"},
        \"value\": 1234.50
    },
    \"accountAmount\": {
        \"currency\": {\"code\": 643, \"name\": \"RUB\", \"strCode\": \"643\"},
        \"value\": 1234.50
    },
    \"operationTime\": {\"milliseconds\": 1613639239000},
    \"spendingCategory\": {\"id\": \"24\", \"name\": \"Рестораны\"},
    \"mcc\": 5812,
    \"category\": {\"id\": \"32\", \"name\": \"Рестораны\"},
    \"account\": \"100\",
    \"merchant\": {\"name\": \"Яндекс.Еда\"},
    \"group\": \"PAY\"
}";

#[test]
fn decoded_operation_survives_reserialization() {
    let decoded = decode_operation(OPERATION_BODY).unwrap();

    let reserialized = encode_operation(&decoded);
    let again = decode_operation(&reserialized).unwrap();

    assert_eq!(again, decoded);
}

#[test]
fn operation_without_optional_fields_survives_reserialization() {
    let op = Operation {
        id: "9".to_owned(),
        operation_type: OperationType::Debit,
        description: "with \"quotes\", a \\ and a\nnewline".to_owned(),
        amount: MoneyAmount {
            currency: Currency::EUR,
            value: Decimal { negative: true, mantissa: 5, scale: 3 },
        },
        account_amount: MoneyAmount {
            currency: Currency::BYN,
            value: Decimal { negative: false, mantissa: 0, scale: 0 },
        },
        operation_time: -1,
        spending_category: "".to_owned(),
        mcc: 65535,
        category: "к".to_owned(),
        subcategory: None,
        account: "acc".to_owned(),
        merchant: None,
        group: OperationGroup::Internal,
        subgroup: None,
    };

    let text = encode_operation(&op);
    assert_eq!(decode_operation(&text), Ok(op));
}

#[test]
fn decoded_account_survives_reserialization() {
    let account = Account {
        external_number: "100000".to_owned(),
        group: "Дебетовые карты".to_owned(),
        money_amount: MoneyAmount {
            currency: Currency::USD,
            value: Decimal { negative: false, mantissa: 222222, scale: 1 },
        },
        name: "Счет USD Tinkoff Black".to_owned(),
        id: "200".to_owned(),
    };

    let text = encode_account(&account);
    let again = decode_account_entity(&text).unwrap();

    assert_eq!(again, account);
}

#[test]
fn decoded_user_info_survives_reserialization_inside_an_envelope() {
    let user = UserInfo { access_level: AccessLevel::Candidate, user_id: "1234".to_owned() };

    let body = format!(
        "{{\"resultCode\": \"OK\", \"payload\": {}}}",
        encode_user_info(&user)
    );
    let got = decode_user_info(&body).unwrap();

    assert_eq!(got.payload, Some(user));
}

#[test]
fn decoded_session_survives_reserialization_inside_an_envelope() {
    let session = tinkoff_bank::Session { id: "session-id-example".to_owned(), ttl: 9994 };

    let body = format!(
        "{{\"resultCode\": \"OK\", \"payload\": {}}}",
        encode_session(&session)
    );
    let got = decode_session(&body).unwrap();

    assert_eq!(got.payload, Some(session));
}

#[test]
fn unicode_escapes_decode_to_their_characters() {
    let body = "{
        \"id\": \"1\",
        \"type\": \"Credit\",
        \"description\": \"\\u0414\\u0430 \\ud83d\\ude00\",
        \"amount\": {\"currency\": {\"name\": \"RUB\"}, \"value\": 1},
        \"accountAmount\": {\"currency\": {\"name\": \"RUB\"}, \"value\": 1},
        \"operationTime\": {\"milliseconds\": 1},
        \"spendingCategory\": {\"name\": \"s\"},
        \"mcc\": 1,
        \"category\": {\"name\": \"c\"},
        \"account\": \"100\",
        \"group\": \"PAY\"
    }";

    let decoded = decode_operation(body).unwrap();
    assert_eq!(decoded.description, "Да 😀");

    let reserialized = encode_operation(&decoded);
    assert_eq!(decode_operation(&reserialized), Ok(decoded));
}

#[test]
fn extreme_operation_times_survive_reserialization() {
    for ms in [i64::MIN, -1, 0, i64::MAX] {
        let body = format!(
            "{{\"id\": \"1\", \"type\": \"Credit\", \"description\": \"d\", \"amount\": {{\"currency\": {{\"name\": \"RUB\"}}, \"value\": 1}}, \"accountAmount\": {{\"currency\": {{\"name\": \"RUB\"}}, \"value\": 1}}, \"operationTime\": {{\"milliseconds\": {}}}, \"spendingCategory\": {{\"name\": \"s\"}}, \"mcc\": 1, \"category\": {{\"name\": \"c\"}}, \"account\": \"100\", \"group\": \"PAY\"}}",
            ms
        );
        let decoded = decode_operation(&body).unwrap();
        assert_eq!(decoded.operation_time, ms);

        let text = encode_operation(&decoded);
        assert_eq!(decode_operation(&text), Ok(decoded));
    }
}

#[test]
fn exponent_numbers_fold_into_plain_decimals() {
    let body = "{\"resultCode\": \"OK\", \"payload\": [{\"externalAccountNumber\": \"1\", \"accountGroup\": \"g\", \"moneyAmount\": {\"currency\": {\"name\": \"RUB\"}, \"value\": 1.5e2}, \"name\": \"n\", \"id\": \"100\"}]}";

    let got = tinkoff_bank::codec::decode_accounts(body).unwrap();
    let amount = got.payload.unwrap()[0].money_amount;

    assert_eq!(amount.value, Decimal { negative: false, mantissa: 150, scale: 0 });
}

#[test]
fn list_payload_round_trips_element_by_element() {
    let body = "{\"resultCode\": \"OK\", \"payload\": [{\"id\": \"1\", \"type\": \"Credit\", \"description\": \"d\", \"amount\": {\"currency\": {\"name\": \"RUB\"}, \"value\": 0.07}, \"accountAmount\": {\"currency\": {\"name\": \"RUB\"}, \"value\": 7e-2}, \"operationTime\": {\"milliseconds\": -5}, \"spendingCategory\": {\"name\": \"s\"}, \"mcc\": 1, \"category\": {\"name\": \"c\"}, \"account\": \"100\", \"group\": \"CASH\", \"subgroup\": {\"name\": \"\"}}]}";

    let got = decode_operations(body).unwrap();
    for op in got.payload.unwrap() {
        let text = encode_operation(&op);
        assert_eq!(decode_operation(&text), Ok(op));
    }
}

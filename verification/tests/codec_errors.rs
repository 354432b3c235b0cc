use tinkoff_bank::codec::decode_accounts;
use tinkoff_bank::codec::decode_operations;
use tinkoff_bank::codec::decode_session;
use tinkoff_bank::codec::decode_user_info;
use tinkoff_bank::DecodeError;

#[test]
fn unrecognized_result_code_fails_decoding() {
    let body = "{\"resultCode\": \"WEIRD\", \"payload\": {\"accessLevel\": \"ANONYMOUS\", \"userId\": \"1111\"}}";

    assert_eq!(decode_user_info(body), Err(DecodeError::UnknownVariant));
}

#[test]
fn unrecognized_access_level_fails_decoding() {
    let body = "{\"resultCode\": \"OK\", \"payload\": {\"accessLevel\": \"SUPERUSER\", \"userId\": \"1111\"}}";

    assert_eq!(decode_user_info(body), Err(DecodeError::UnknownVariant));
}

#[test]
fn unrecognized_currency_fails_decoding() {
    let body = "{\"resultCode\": \"OK\", \"payload\": [{\"externalAccountNumber\": \"1\", \"accountGroup\": \"g\", \"moneyAmount\": {\"currency\": {\"name\": \"GBP\"}, \"value\": 1}, \"name\": \"n\", \"id\": \"100\"}]}";

    assert_eq!(decode_accounts(body), Err(DecodeError::UnknownVariant));
}

#[test]
fn unrecognized_operation_group_fails_decoding() {
    let body = "{\"resultCode\": \"OK\", \"payload\": [{\"id\": \"1\", \"type\": \"Credit\", \"description\": \"d\", \"amount\": {\"currency\": {\"name\": \"RUB\"}, \"value\": 1}, \"accountAmount\": {\"currency\": {\"name\": \"RUB\"}, \"value\": 1}, \"operationTime\": {\"milliseconds\": 1}, \"spendingCategory\": {\"name\": \"s\"}, \"mcc\": 1, \"category\": {\"name\": \"c\"}, \"account\": \"100\", \"group\": \"WEIRD\"}]}";

    assert_eq!(decode_operations(body), Err(DecodeError::UnknownVariant));
}

#[test]
fn malformed_json_fails_decoding() {
    assert_eq!(decode_user_info("{\"resultCode\": "), Err(DecodeError::Syntax));
    assert_eq!(decode_user_info(""), Err(DecodeError::Syntax));
    assert_eq!(decode_user_info("{} trailing"), Err(DecodeError::Syntax));
    assert_eq!(decode_user_info("{\"a\": 01}"), Err(DecodeError::Syntax));
}

#[test]
fn missing_result_code_fails_decoding() {
    assert_eq!(decode_user_info("{\"trackingId\": \"AZAZA11\"}"), Err(DecodeError::MissingField));
}

#[test]
fn missing_required_payload_field_fails_decoding() {
    let body = "{\"resultCode\": \"OK\", \"payload\": {\"userId\": \"1111\"}}";

    assert_eq!(decode_user_info(body), Err(DecodeError::MissingField));
}

#[test]
fn wrong_payload_shape_fails_decoding() {
    let body = "{\"resultCode\": \"OK\", \"payload\": 5}";

    assert_eq!(decode_user_info(body), Err(DecodeError::WrongType));
}

#[test]
fn fractional_ttl_fails_decoding() {
    let body = "{\"resultCode\": \"OK\", \"payload\": {\"sessionid\": \"s\", \"ttl\": 99.5}}";

    assert_eq!(decode_session(body), Err(DecodeError::WrongType));
}

#[test]
fn oversized_ttl_fails_decoding() {
    let body = "{\"resultCode\": \"OK\", \"payload\": {\"sessionid\": \"s\", \"ttl\": 5000000000}}";

    assert_eq!(decode_session(body), Err(DecodeError::NumberOverflow));
}

#[test]
fn oversized_number_literal_fails_decoding() {
    let body = "{\"resultCode\": \"OK\", \"payload\": {\"sessionid\": \"s\", \"ttl\": 99999999999999999999999}}";

    assert_eq!(decode_session(body), Err(DecodeError::NumberOverflow));
}

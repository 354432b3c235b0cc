use tinkoff_bank::codec::decode_operations;
use tinkoff_bank::Currency;
use tinkoff_bank::Decimal;
use tinkoff_bank::MoneyAmount;
use tinkoff_bank::Operation;
use tinkoff_bank::OperationGroup;
use tinkoff_bank::OperationType;
use tinkoff_bank::ResponsePayload;
use tinkoff_bank::ResultCode;

const RESPONSE_1: &str = "{
    \"payload\": [
        {
            \"id\": \"1234567890\",
            \"type\": \"Credit\",
            \"authMessage\": \"Операция утверждена.\",
            \"description\": \"Яндекс.Еда\",
            \"amount\": {
                \"currency\": {\"code\": 643, \"name\": \"RUB\", \"strCode\": \"643\"},
                \"value\": 1234.50
            },
            \"accountAmount\": {
                \"currency\": {\"code\": 643, \"name\": \"RUB\", \"strCode\": \"643\"},
                \"value\": 1234.50
            },
            \"operationTime\": {\"milliseconds\": 1613639239000},
            \"spendingCategory\": {
                \"id\": \"24\",
                \"name\": \"Рестораны\",
                \"icon\": \"32\",
                \"parentId\": \"3\"
            },
            \"mcc\": 5812,
            \"category\": {\"id\": \"32\", \"name\": \"Рестораны\"},
            \"account\": \"100\",
            \"merchant\": {
                \"name\": \"Яндекс.Еда\",
                \"region\": {\"country\": \"RUS\", \"city\": \"MOSKVA\"}
            },
            \"card\": \"123456789\",
            \"group\": \"PAY\",
            \"cardNumber\": \"553612******3456\"
        }
    ],
    \"details\": {\"hasNext\": false},
    \"resultCode\": \"OK\",
    \"trackingId\": \"AZAZA11\"
}";

const RESPONSE_2: &str = "{
    \"payload\": [
        {
            \"payment\": {
                \"bankAccountId\": \"100\",
                \"paymentId\": \"100500\",
                \"providerGroupId\": \"Интернет\",
                \"paymentType\": \"Payment\",
                \"feeAmount\": {
                    \"currency\": {
                        \"code\": 643,
                        \"name\": \"RUB\",
                        \"strCode\": \"643\"
                    },
                    \"value\": 0.0
                },
                \"providerId\": \"rostelekom-prosto\",
                \"fieldsValues\": {\"account\": \"123654\"},
                \"cardNumber\": \"553612******3456\"
            },
            \"id\": \"1234567891\",
            \"type\": \"Debit\",
            \"subgroup\": {\"id\": \"A1\", \"name\": \"\"},
            \"description\": \"Онлайм\",
            \"amount\": {
                \"currency\": {\"code\": 643, \"name\": \"RUB\", \"strCode\": \"643\"},
                \"value\": 100.0
            },
            \"accountAmount\": {
                \"currency\": {\"code\": 643, \"name\": \"RUB\", \"strCode\": \"643\"},
                \"value\": 100.0
            },
            \"operationTime\": {\"milliseconds\": 1613168606000},
            \"subcategory\": \"Онлайм\",
            \"spendingCategory\": {
                \"id\": \"37\",
                \"name\": \"Интернет\",
                \"icon\": \"40\",
                \"parentId\": \"5\"
            },
            \"mcc\": 2,
            \"category\": {\"id\": \"40\", \"name\": \"Интернет, voip/иб\"},
            \"account\": \"100\",
            \"card\": \"123456789\",
            \"group\": \"PAY\",
            \"cardNumber\": \"553612******3456\"
        }
    ],
    \"details\": {\"hasNext\": false},
    \"resultCode\": \"OK\",
    \"trackingId\": \"AZAZA11\"
}";

const RESPONSE_3: &str = "{
    \"payload\": [
        {
            \"id\": \"1234567892\",
            \"message\": \"Перевод денежных средств\",
            \"type\": \"Credit\",
            \"subgroup\": {
                \"id\": \"C10\",
                \"name\": \"Пополнение по номеру телефона\"
            },
            \"description\": \"Иванов И.\",
            \"senderDetails\": \"Иванов И.\",
            \"amount\": {
                \"currency\": {\"code\": 643, \"name\": \"RUB\", \"strCode\": \"643\"},
                \"value\": 9999.0
            },
            \"accountAmount\": {
                \"currency\": {\"code\": 643, \"name\": \"RUB\", \"strCode\": \"643\"},
                \"value\": 9999.0
            },
            \"operationTime\": {\"milliseconds\": 1612978599000},
            \"subcategory\": \"Иванов И.\",
            \"spendingCategory\": {
                \"id\": \"70\",
                \"name\": \"Пополнения\",
                \"icon\": \"33\"
            },
            \"mcc\": 0,
            \"category\": {\"id\": \"33\", \"name\": \"Другое\"},
            \"account\": \"100\",
            \"card\": \"123456789\",
            \"group\": \"INCOME\",
            \"cardNumber\": \"553612******3456\"
        }
    ],
    \"details\": {\"hasNext\": false},
    \"resultCode\": \"OK\",
    \"trackingId\": \"AZAZA11\"
}";

fn rub(mantissa: u64, scale: u32) -> MoneyAmount {
    MoneyAmount {
        currency: Currency::RUB,
        value: Decimal { negative: false, mantissa, scale },
    }
}

#[test]
fn returns_operations() {
    let cases = [
        (
            RESPONSE_1,
            Operation {
                id: "1234567890".to_owned(),
                operation_type: OperationType::Credit,
                description: "Яндекс.Еда".to_owned(),
                amount: rub(123450, 2),
                account_amount: rub(123450, 2),
                operation_time: 1613639239000,
                spending_category: "Рестораны".to_owned(),
                mcc: 5812,
                category: "Рестораны".to_owned(),
                subcategory: None,
                account: "100".to_owned(),
                merchant: Some("Яндекс.Еда".to_owned()),
                group: OperationGroup::Pay,
                subgroup: None,
            },
        ),
        (
            RESPONSE_2,
            Operation {
                id: "1234567891".to_owned(),
                operation_type: OperationType::Debit,
                description: "Онлайм".to_owned(),
                amount: rub(1000, 1),
                account_amount: rub(1000, 1),
                operation_time: 1613168606000,
                spending_category: "Интернет".to_owned(),
                mcc: 2,
                category: "Интернет, voip/иб".to_owned(),
                subcategory: Some("Онлайм".to_owned()),
                account: "100".to_owned(),
                merchant: None,
                group: OperationGroup::Pay,
                subgroup: Some("".to_owned()),
            },
        ),
        (
            RESPONSE_3,
            Operation {
                id: "1234567892".to_owned(),
                operation_type: OperationType::Credit,
                description: "Иванов И.".to_owned(),
                amount: rub(99990, 1),
                account_amount: rub(99990, 1),
                operation_time: 1612978599000,
                spending_category: "Пополнения".to_owned(),
                mcc: 0,
                category: "Другое".to_owned(),
                subcategory: Some("Иванов И.".to_owned()),
                account: "100".to_owned(),
                merchant: None,
                group: OperationGroup::Income,
                subgroup: Some("Пополнение по номеру телефона".to_owned()),
            },
        ),
    ];
    for (response, expected) in cases {
        let got = decode_operations(response);

        assert_eq!(
            got,
            Ok(ResponsePayload {
                result_code: ResultCode::Okay,
                payload: Some(vec![expected]),
                confirmations: None,
                initial_operation: None,
                operation_ticket: None,
            })
        );
    }
}

#[test]
fn absent_merchant_is_none_and_empty_subgroup_name_is_present() {
    let got = decode_operations(RESPONSE_2).unwrap();
    let operation = &got.payload.unwrap()[0];

    assert_eq!(operation.merchant, None);
    assert_eq!(operation.subgroup, Some("".to_owned()));
}

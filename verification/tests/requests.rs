use tinkoff_bank::Client;
use tinkoff_bank::ClientBuilder;
use tinkoff_bank::Request;

fn make_client() -> Client {
    ClientBuilder::default()
        .with_url("http://lol.kek")
        .with_device_id("ultra-device-id")
        .build()
}

fn query_value<'a>(r: &'a Request, key: &str) -> Option<&'a str> {
    for (k, v) in &r.query {
        if k == key {
            return Some(v);
        }
    }
    None
}

fn assert_default_params(r: &Request) {
    assert_eq!(query_value(r, "appVersion"), Some("5.5.1"));
    assert_eq!(query_value(r, "connectionSubtype"), Some("4G"));
    assert_eq!(query_value(r, "appName"), Some("mobile"));
    assert_eq!(query_value(r, "origin"), Some("mobile,ib5,loyalty,platform"));
    assert_eq!(query_value(r, "connectionType"), Some("Cellular"));
    assert_eq!(query_value(r, "platform"), Some("android"));
    assert_eq!(query_value(r, "deviceId"), Some("ultra-device-id"));
}

#[test]
fn request_passes_default_params() {
    let client = make_client();

    assert_default_params(&client.request_session());
    assert_default_params(&client.ping("ultra-session-id"));
    assert_default_params(&client.auth_by_phone("ultra-session-id", "+79991112233"));
    assert_default_params(&client.confirm_auth_by_phone(
        "ultra-session-id",
        "ultra-operation-ticket",
        "1234",
    ));
    assert_default_params(&client.auth_by_password("ultra-session-id", "ultra-password"));
    assert_default_params(&client.set_auth_pin("ultra-session-id", "ultra-hash"));
    assert_default_params(&client.auth_by_pin(
        "ultra-new-session-id",
        "ultra-hash",
        "ultra-old-session-id",
    ));
    assert_default_params(&client.list_accounts("ultra-session-id"));
    assert_default_params(&client.list_operations(
        "ultra-session-id",
        "100",
        1234567890000,
        1234567990000,
    ));
}

#[test]
fn request_passes_query_params_if_provided() {
    let got = make_client().ping("ultra-session-id");

    assert_default_params(&got);
    assert_eq!(query_value(&got, "sessionid"), Some("ultra-session-id"));
}

#[test]
fn request_passes_also_if_provided() {
    let got = make_client().auth_by_password("ultra-session-id", "ultra-password");

    assert_default_params(&got);
    assert_eq!(
        got.form,
        vec![("password".to_owned(), "ultra-password".to_owned())]
    );
}

#[test]
fn request_session_has_no_session_id() {
    let got = make_client().request_session();

    assert_eq!(got.url, "http://lol.kek/v1/auth/session");
    assert_eq!(query_value(&got, "sessionid"), None);
    assert!(got.form.is_empty());
}

#[test]
fn passes_session_id_as_query() {
    let got = make_client().ping("ultra-session-id");

    assert_eq!(got.url, "http://lol.kek/v1/ping");
    assert_eq!(query_value(&got, "sessionid"), Some("ultra-session-id"));
    assert!(got.form.is_empty());
}

#[test]
fn auth_by_phone_passes_params() {
    let got = make_client().auth_by_phone("ultra-session-id", "+79991112233");

    assert_eq!(got.url, "http://lol.kek/v1/auth/by/phone");
    assert_eq!(query_value(&got, "sessionid"), Some("ultra-session-id"));
    assert_eq!(query_value(&got, "deviceId"), Some("ultra-device-id"));
    assert_eq!(
        got.form,
        vec![("phone".to_owned(), "+79991112233".to_owned())]
    );
}

#[test]
fn confirm_auth_by_phone_passes_params() {
    let got = make_client().confirm_auth_by_phone(
        "ultra-session-id",
        "ultra-operation-ticket",
        "1234",
    );

    assert_eq!(got.url, "http://lol.kek/v1/confirm");
    assert_eq!(query_value(&got, "sessionid"), Some("ultra-session-id"));
    assert_eq!(query_value(&got, "deviceId"), Some("ultra-device-id"));
    assert_eq!(
        got.form,
        vec![
            (
                "initialOperationTicket".to_owned(),
                "ultra-operation-ticket".to_owned()
            ),
            ("initialOperation".to_owned(), "auth/by/phone".to_owned()),
            (
                "confirmationData".to_owned(),
                "{\"SMSBYID\":\"1234\"}".to_owned()
            ),
        ]
    );
}

#[test]
fn auth_by_password_passes_params() {
    let got = make_client().auth_by_password("ultra-session-id", "ultra-password");

    assert_eq!(got.url, "http://lol.kek/v1/auth/by/password");
    assert_eq!(query_value(&got, "sessionid"), Some("ultra-session-id"));
    assert_eq!(query_value(&got, "deviceId"), Some("ultra-device-id"));
    assert_eq!(
        got.form,
        vec![("password".to_owned(), "ultra-password".to_owned())]
    );
}

#[test]
fn set_auth_pin_passes_params() {
    let got = make_client().set_auth_pin("ultra-session-id", "ultra-hash");

    assert_eq!(got.url, "http://lol.kek/v1/auth/pin/set");
    assert_eq!(query_value(&got, "sessionid"), Some("ultra-session-id"));
    assert_eq!(query_value(&got, "deviceId"), Some("ultra-device-id"));
    assert_eq!(
        got.form,
        vec![("pinHash".to_owned(), "ultra-hash".to_owned())]
    );
}

#[test]
fn auth_by_pin_passes_params() {
    let got = make_client().auth_by_pin(
        "ultra-new-session-id",
        "ultra-hash",
        "ultra-old-session-id",
    );

    assert_eq!(got.url, "http://lol.kek/v1/auth/by/pin");
    assert_eq!(query_value(&got, "sessionid"), Some("ultra-new-session-id"));
    assert_eq!(query_value(&got, "deviceId"), Some("ultra-device-id"));
    assert_eq!(
        got.form,
        vec![
            ("pinHash".to_owned(), "ultra-hash".to_owned()),
            (
                "oldSessionId".to_owned(),
                "ultra-old-session-id".to_owned()
            ),
            ("auth_type".to_owned(), "pin".to_owned()),
        ]
    );
}

#[test]
fn passes_session_id() {
    let got = make_client().list_accounts("ultra-session-id");

    assert_eq!(got.url, "http://lol.kek/v1/accounts_flat");
    assert_eq!(query_value(&got, "sessionid"), Some("ultra-session-id"));
    assert!(got.form.is_empty());
}

#[test]
fn passes_session_id_and_params() {
    let got = make_client().list_operations("ultra-session-id", "100", 1234567890000, 1234567990000);

    assert_eq!(got.url, "http://lol.kek/v1/operations");
    assert_eq!(query_value(&got, "sessionid"), Some("ultra-session-id"));
    assert_eq!(
        got.form,
        vec![
            ("account".to_owned(), "100".to_owned()),
            ("start".to_owned(), "1234567890000".to_owned()),
            ("end".to_owned(), "1234567990000".to_owned()),
        ]
    );
}

#[test]
fn list_operations_keeps_form_insertion_order() {
    let got = make_client().list_operations("sid", "100", 1234567890123, 1234567990123);

    assert_eq!(
        got.form,
        vec![
            ("account".to_owned(), "100".to_owned()),
            ("start".to_owned(), "1234567890123".to_owned()),
            ("end".to_owned(), "1234567990123".to_owned()),
        ]
    );
    assert_eq!(query_value(&got, "sessionid"), Some("sid"));
}

#[test]
fn list_operations_passes_negative_times_verbatim() {
    let got = make_client().list_operations("sid", "100", -1, 0);

    assert_eq!(
        got.form,
        vec![
            ("account".to_owned(), "100".to_owned()),
            ("start".to_owned(), "-1".to_owned()),
            ("end".to_owned(), "0".to_owned()),
        ]
    );
}

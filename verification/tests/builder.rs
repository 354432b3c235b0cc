use tinkoff_bank::Client;
use tinkoff_bank::ClientBuilder;

#[test]
fn creates_client_with_production_url_by_default() {
    let client = ClientBuilder::default().build();

    assert_eq!(client.base_url, "https://api.tinkoff.ru");
}

#[test]
fn creates_client_with_random_device_id_by_default() {
    let client1 = ClientBuilder::default().build();
    let client2 = ClientBuilder::default().build();

    assert_ne!(client1.device_id, client2.device_id);
}

#[test]
fn default_device_id_has_uuid_length() {
    let client = ClientBuilder::default().build();

    assert_eq!(client.device_id.len(), 36);
}

#[test]
fn can_create_client_with_custom_url() {
    let client = ClientBuilder::default().with_url("http://lol.kek").build();

    assert_eq!(client.base_url, "http://lol.kek");
}

#[test]
fn can_create_client_with_custom_device_id() {
    let client = ClientBuilder::default().with_device_id("lol-kek").build();

    assert_eq!(client.device_id, "lol-kek");
}

#[test]
fn customize_everything() {
    let client = ClientBuilder::default()
        .with_url("http://lol.kek")
        .with_device_id("lol-kek")
        .build();

    assert_eq!(client.base_url, "http://lol.kek");
    assert_eq!(client.device_id, "lol-kek");
}

#[test]
fn creates_client_with_specified_params() {
    let client = Client::new("http://lol.kek".to_owned(), "lol-kek".to_owned());

    assert_eq!(client.base_url, "http://lol.kek");
}

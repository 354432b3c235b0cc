//! Builder-configured client construction: a base URL and a device id, each
//! with a documented default — the production endpoint, and a freshly
//! generated random unique device identifier.

use crate::client::Client;
use crate::client::ClientV;
use vstd::prelude::*;

verus! {

/// The production endpoint, used when no base URL is given.
pub open spec fn production_url() -> Seq<char> {
    "https://api.tinkoff.ru"@
}

/// Relies on `uuid::Uuid::new_v4` and its `Display` impl: a fresh random
/// version-4 UUID in the hyphenated form, which is always 36 characters.
/// Nothing more is assumed of it: the value is random.
#[verifier::external_body]
fn fresh_device_id() -> (r: String)
    ensures
        r@.len() == 36,
{
    uuid::Uuid::new_v4().to_string()
}

/// Builds a [`Client`], starting from the production URL and a freshly
/// generated device id and overriding either by name.
pub struct ClientBuilder {
    base_url: String,
    device_id: String,
}

/// The view of a [`ClientBuilder`].
pub ghost struct ClientBuilderV {
    pub base_url: Seq<char>,
    pub device_id: Seq<char>,
}

impl View for ClientBuilder {
    type V = ClientBuilderV;

    closed spec fn view(&self) -> ClientBuilderV {
        ClientBuilderV { base_url: self.base_url@, device_id: self.device_id@ }
    }
}

impl Default for ClientBuilder {
    /// The default configuration: the production URL and a fresh random
    /// device id.
    fn default() -> (r: ClientBuilder)
        ensures
            r@.base_url == production_url(),
            r@.device_id.len() == 36,
    {
        ClientBuilder {
            base_url: "https://api.tinkoff.ru".to_owned(),
            device_id: fresh_device_id(),
        }
    }
}

impl ClientBuilder {
    /// The same configuration with the base URL replaced.
    pub fn with_url(self, url: &str) -> (r: ClientBuilder)
        ensures
            r@.base_url == url@,
            r@.device_id == self@.device_id,
    {
        ClientBuilder { base_url: url.to_owned(), device_id: self.device_id }
    }

    /// The same configuration with the device id replaced.
    pub fn with_device_id(self, device_id: &str) -> (r: ClientBuilder)
        ensures
            r@.device_id == device_id@,
            r@.base_url == self@.base_url,
    {
        ClientBuilder { base_url: self.base_url, device_id: device_id.to_owned() }
    }

    /// The client with this configuration.
    pub fn build(self) -> (r: Client)
        ensures
            r@ == (ClientV { base_url: self@.base_url, device_id: self@.device_id }),
    {
        Client::new(self.base_url, self.device_id)
    }
}

} // verus!

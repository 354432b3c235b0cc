//! The protocol client: builds each of the ten protocol operations as a
//! [`Request`] value — the URL, the query parameters (the fixed
//! client-identity fingerprint, the device id and the session id) and the
//! URL-encoded form body — exactly as the backend expects them.
//!
//! The client holds no transport and no session state: the caller sends each
//! request over HTTP as a POST and hands the response body to the codec in
//! [`crate::codec`]. Sequencing (a session must be requested before any other
//! call) is the caller's contract with the backend, not enforced here.

use crate::json::Json;
use crate::json::JsonVal;
use vstd::prelude::*;
use vstd::string::StringExecFns;

verus! {

broadcast use vstd::std_specs::vec::group_vec_axioms;

/// One protocol request, ready to send: POST `url` with `query` in the query
/// string and `form` as the URL-encoded body, both in the given order.
#[derive(Debug, PartialEq)]
pub struct Request {
    pub url: String,
    pub query: Vec<(String, String)>,
    pub form: Vec<(String, String)>,
}

/// The view of a [`Request`].
pub ghost struct RequestV {
    pub url: Seq<char>,
    pub query: Seq<(Seq<char>, Seq<char>)>,
    pub form: Seq<(Seq<char>, Seq<char>)>,
}

/// The views of a sequence of parameter pairs.
pub open spec fn pair_views(s: Seq<(String, String)>) -> Seq<(Seq<char>, Seq<char>)> {
    Seq::new(s.len(), |i: int| (s[i].0@, s[i].1@))
}

impl View for Request {
    type V = RequestV;

    open spec fn view(&self) -> RequestV {
        RequestV { url: self.url@, query: pair_views(self.query@), form: pair_views(self.form@) }
    }
}

/// The bank-API client: the base URL of the backend and the device
/// identifier that stands for this installation on every call.
#[derive(Clone, Debug, PartialEq)]
pub struct Client {
    pub base_url: String,
    pub device_id: String,
}

/// The view of a [`Client`].
pub ghost struct ClientV {
    pub base_url: Seq<char>,
    pub device_id: Seq<char>,
}

impl View for Client {
    type V = ClientV;

    open spec fn view(&self) -> ClientV {
        ClientV { base_url: self.base_url@, device_id: self.device_id@ }
    }
}

/// The fixed client-identity parameters that emulate the vendor mobile app's
/// fingerprint; the backend expects them, verbatim, on every call.
pub open spec fn fixed_params() -> Seq<(Seq<char>, Seq<char>)> {
    seq![
        ("appVersion"@, "5.5.1"@),
        ("connectionSubtype"@, "4G"@),
        ("appName"@, "mobile"@),
        ("origin"@, "mobile,ib5,loyalty,platform"@),
        ("connectionType"@, "Cellular"@),
        ("platform"@, "android"@),
    ]
}

/// The query of the one call made before any session exists: the fixed
/// parameters and the device id.
pub open spec fn ident_query(device_id: Seq<char>) -> Seq<(Seq<char>, Seq<char>)> {
    fixed_params().push(("deviceId"@, device_id))
}

/// The query of every authenticated call: the fixed parameters, the device
/// id, and the session id.
pub open spec fn session_query(device_id: Seq<char>, session_id: Seq<char>) -> Seq<
    (Seq<char>, Seq<char>),
> {
    ident_query(device_id).push(("sessionid"@, session_id))
}

/// The request that asks for a new session.
pub open spec fn sp_request_session(c: ClientV) -> RequestV {
    RequestV {
        url: c.base_url + "/v1/auth/session"@,
        query: ident_query(c.device_id),
        form: Seq::empty(),
    }
}

/// The request that pings the API about a session.
pub open spec fn sp_ping(c: ClientV, session_id: Seq<char>) -> RequestV {
    RequestV {
        url: c.base_url + "/v1/ping"@,
        query: session_query(c.device_id, session_id),
        form: Seq::empty(),
    }
}

/// The request that starts auth by phone.
pub open spec fn sp_auth_by_phone(c: ClientV, session_id: Seq<char>, phone: Seq<char>) -> RequestV {
    RequestV {
        url: c.base_url + "/v1/auth/by/phone"@,
        query: session_query(c.device_id, session_id),
        form: seq![("phone"@, phone)],
    }
}

/// The JSON document carried in the confirmation form field: an object that
/// maps the SMS factor's name to the received code.
pub open spec fn sp_confirmation_data(sms_code: Seq<char>) -> Seq<char> {
    crate::json::sp_render(JsonVal::Obj(seq![("SMSBYID"@, JsonVal::Text(sms_code))]))
}

/// The request that completes auth by phone with the SMS code and the
/// operation ticket returned by the phone-auth call.
pub open spec fn sp_confirm_auth_by_phone(
    c: ClientV,
    session_id: Seq<char>,
    operation_ticket: Seq<char>,
    sms_code: Seq<char>,
) -> RequestV {
    RequestV {
        url: c.base_url + "/v1/confirm"@,
        query: session_query(c.device_id, session_id),
        form: seq![
            ("initialOperationTicket"@, operation_ticket),
            ("initialOperation"@, "auth/by/phone"@),
            ("confirmationData"@, sp_confirmation_data(sms_code)),
        ],
    }
}

/// The request that raises the access level with the password.
pub open spec fn sp_auth_by_password(
    c: ClientV,
    session_id: Seq<char>,
    password: Seq<char>,
) -> RequestV {
    RequestV {
        url: c.base_url + "/v1/auth/by/password"@,
        query: session_query(c.device_id, session_id),
        form: seq![("password"@, password)],
    }
}

/// The request that binds a pin hash to the current session.
pub open spec fn sp_set_auth_pin(
    c: ClientV,
    session_id: Seq<char>,
    pin_hash: Seq<char>,
) -> RequestV {
    RequestV {
        url: c.base_url + "/v1/auth/pin/set"@,
        query: session_query(c.device_id, session_id),
        form: seq![("pinHash"@, pin_hash)],
    }
}

/// The request that fast-tracks re-authentication of a fresh session with
/// the pin hash and the old, pin-enrolled session id.
pub open spec fn sp_auth_by_pin(
    c: ClientV,
    session_id: Seq<char>,
    pin_hash: Seq<char>,
    old_session_id: Seq<char>,
) -> RequestV {
    RequestV {
        url: c.base_url + "/v1/auth/by/pin"@,
        query: session_query(c.device_id, session_id),
        form: seq![
            ("pinHash"@, pin_hash),
            ("oldSessionId"@, old_session_id),
            ("auth_type"@, "pin"@),
        ],
    }
}

/// The request that lists all accounts as a flat list.
pub open spec fn sp_list_accounts(c: ClientV, session_id: Seq<char>) -> RequestV {
    RequestV {
        url: c.base_url + "/v1/accounts_flat"@,
        query: session_query(c.device_id, session_id),
        form: Seq::empty(),
    }
}

/// The decimal spelling of a signed number of epoch milliseconds.
pub open spec fn sp_i64_str(t: int) -> Seq<char> {
    if t < 0 {
        seq!['-'] + crate::json::sp_digits_of(-t)
    } else {
        crate::json::sp_digits_of(t)
    }
}

/// The request that lists the operations of one account between two points
/// in time, in epoch milliseconds, both bounds inclusive and passed through
/// verbatim: the form carries `account`, `start` and `end`, in that order.
pub open spec fn sp_list_operations(
    c: ClientV,
    session_id: Seq<char>,
    account_id: Seq<char>,
    start: i64,
    end: i64,
) -> RequestV {
    RequestV {
        url: c.base_url + "/v1/operations"@,
        query: session_query(c.device_id, session_id),
        form: seq![
            ("account"@, account_id),
            ("start"@, sp_i64_str(start as int)),
            ("end"@, sp_i64_str(end as int)),
        ],
    }
}

/// Whether a query carries the whole client-identity fingerprint: every
/// fixed parameter, and the device id.
pub open spec fn query_carries_identity(
    q: Seq<(Seq<char>, Seq<char>)>,
    device_id: Seq<char>,
) -> bool {
    &&& forall|i: int| 0 <= i < fixed_params().len() ==> q.contains(#[trigger] fixed_params()[i])
    &&& q.contains(("deviceId"@, device_id))
}

/// Whether a request carries the whole client-identity fingerprint.
pub open spec fn carries_identity(r: RequestV, device_id: Seq<char>) -> bool {
    query_carries_identity(r.query, device_id)
}

proof fn lemma_ident_query_carries(device_id: Seq<char>)
    ensures
        query_carries_identity(ident_query(device_id), device_id),
{
    let q = ident_query(device_id);
    assert forall|i: int| 0 <= i < fixed_params().len() implies q.contains(
        #[trigger] fixed_params()[i],
    ) by {
        assert(q[i] == fixed_params()[i]);
    }
    assert(q[fixed_params().len() as int] == ("deviceId"@, device_id));
}

proof fn lemma_session_query_carries(device_id: Seq<char>, session_id: Seq<char>)
    ensures
        query_carries_identity(session_query(device_id, session_id), device_id),
{
    lemma_ident_query_carries(device_id);
    let q0 = ident_query(device_id);
    let q = session_query(device_id, session_id);
    assert forall|i: int| 0 <= i < fixed_params().len() implies q.contains(
        #[trigger] fixed_params()[i],
    ) by {
        let k = choose|k: int| 0 <= k < q0.len() && q0[k] == fixed_params()[i];
        assert(q[k] == fixed_params()[i]);
    }
    let k0 = choose|k: int| 0 <= k < q0.len() && q0[k] == ("deviceId"@, device_id);
    assert(q[k0] == ("deviceId"@, device_id));
}

/// Law: whatever the call-specific parameters, every one of the ten
/// operations' requests carries the fixed client-identity parameters and the
/// device id.
pub proof fn lemma_every_request_carries_identity(
    c: ClientV,
    session_id: Seq<char>,
    phone: Seq<char>,
    operation_ticket: Seq<char>,
    sms_code: Seq<char>,
    password: Seq<char>,
    pin_hash: Seq<char>,
    old_session_id: Seq<char>,
    account_id: Seq<char>,
    start: i64,
    end: i64,
)
    ensures
        carries_identity(sp_request_session(c), c.device_id),
        carries_identity(sp_ping(c, session_id), c.device_id),
        carries_identity(sp_auth_by_phone(c, session_id, phone), c.device_id),
        carries_identity(
            sp_confirm_auth_by_phone(c, session_id, operation_ticket, sms_code),
            c.device_id,
        ),
        carries_identity(sp_auth_by_password(c, session_id, password), c.device_id),
        carries_identity(sp_set_auth_pin(c, session_id, pin_hash), c.device_id),
        carries_identity(sp_auth_by_pin(c, session_id, pin_hash, old_session_id), c.device_id),
        carries_identity(sp_list_accounts(c, session_id), c.device_id),
        carries_identity(
            sp_list_operations(c, session_id, account_id, start, end),
            c.device_id,
        ),
{
    lemma_ident_query_carries(c.device_id);
    lemma_session_query_carries(c.device_id, session_id);
}

impl Client {
    /// A client for the given backend with the given device identifier.
    /// Useful directly only for testing or for working through a proxy;
    /// normally built by [`crate::builder::ClientBuilder`].
    pub fn new(base_url: String, device_id: String) -> (r: Client)
        ensures
            r@ == (ClientV { base_url: base_url@, device_id: device_id@ }),
    {
        Client { base_url, device_id }
    }

    /// Asks the bank API for a new session. This is the first call in any
    /// interaction: its returned session id is required by every other call.
    pub fn request_session(&self) -> (r: Request)
        ensures
            r@ == sp_request_session(self@),
    {
        let url = self.base_url.clone().concat("/v1/auth/session");
        let query = self.ident_query_vec();
        let form: Vec<(String, String)> = Vec::new();
        proof {
            assert(pair_views(form@) =~= Seq::<(Seq<char>, Seq<char>)>::empty());
        }
        Request { url, query, form }
    }

    /// Pings the bank API for details about the given session.
    pub fn ping(&self, session_id: &str) -> (r: Request)
        ensures
            r@ == sp_ping(self@, session_id@),
    {
        let url = self.base_url.clone().concat("/v1/ping");
        let query = self.session_query_vec(session_id);
        let form: Vec<(String, String)> = Vec::new();
        proof {
            assert(pair_views(form@) =~= Seq::<(Seq<char>, Seq<char>)>::empty());
        }
        Request { url, query, form }
    }

    /// Starts auth by phone. On success the backend returns an operation
    /// ticket and sends an SMS code; both are needed to confirm.
    pub fn auth_by_phone(&self, session_id: &str, phone: &str) -> (r: Request)
        ensures
            r@ == sp_auth_by_phone(self@, session_id@, phone@),
    {
        let url = self.base_url.clone().concat("/v1/auth/by/phone");
        let query = self.session_query_vec(session_id);
        let mut form: Vec<(String, String)> = Vec::new();
        form.push(("phone".to_owned(), phone.to_owned()));
        proof {
            assert(pair_views(form@) =~= seq![("phone"@, phone@)]);
        }
        Request { url, query, form }
    }

    /// Completes auth by phone with the SMS code and the operation ticket
    /// from [`Client::auth_by_phone`].
    pub fn confirm_auth_by_phone(
        &self,
        session_id: &str,
        operation_ticket: &str,
        sms_code: &str,
    ) -> (r: Request)
        ensures
            r@ == sp_confirm_auth_by_phone(self@, session_id@, operation_ticket@, sms_code@),
    {
        let url = self.base_url.clone().concat("/v1/confirm");
        let query = self.session_query_vec(session_id);
        let mut ms: Vec<(String, Json)> = Vec::new();
        ms.push(("SMSBYID".to_owned(), Json::Text(sms_code.to_owned())));
        proof {
            crate::json::lemma_obj_view(ms);
            assert(crate::json::member_views(ms@) =~= seq![
                ("SMSBYID"@, JsonVal::Text(sms_code@)),
            ]);
        }
        let confirmation = crate::json::render_json(&Json::Obj(ms));
        let mut form: Vec<(String, String)> = Vec::new();
        form.push(("initialOperationTicket".to_owned(), operation_ticket.to_owned()));
        form.push(("initialOperation".to_owned(), "auth/by/phone".to_owned()));
        form.push(("confirmationData".to_owned(), confirmation));
        proof {
            assert(pair_views(form@) =~= seq![
                ("initialOperationTicket"@, operation_ticket@),
                ("initialOperation"@, "auth/by/phone"@),
                ("confirmationData"@, sp_confirmation_data(sms_code@)),
            ]);
        }
        Request { url, query, form }
    }

    /// Raises the access level with the password. The real backend requires
    /// phone auth to have been completed first.
    pub fn auth_by_password(&self, session_id: &str, password: &str) -> (r: Request)
        ensures
            r@ == sp_auth_by_password(self@, session_id@, password@),
    {
        let url = self.base_url.clone().concat("/v1/auth/by/password");
        let query = self.session_query_vec(session_id);
        let mut form: Vec<(String, String)> = Vec::new();
        form.push(("password".to_owned(), password.to_owned()));
        proof {
            assert(pair_views(form@) =~= seq![("password"@, password@)]);
        }
        Request { url, query, form }
    }

    /// Binds a caller-chosen pin hash to the current fully-authenticated
    /// session, for later fast re-authentication.
    pub fn set_auth_pin(&self, session_id: &str, pin_hash: &str) -> (r: Request)
        ensures
            r@ == sp_set_auth_pin(self@, session_id@, pin_hash@),
    {
        let url = self.base_url.clone().concat("/v1/auth/pin/set");
        let query = self.session_query_vec(session_id);
        let mut form: Vec<(String, String)> = Vec::new();
        form.push(("pinHash".to_owned(), pin_hash.to_owned()));
        proof {
            assert(pair_views(form@) =~= seq![("pinHash"@, pin_hash@)]);
        }
        Request { url, query, form }
    }

    /// Re-authenticates a freshly requested session with the pin hash and
    /// the old, pin-enrolled session id.
    pub fn auth_by_pin(
        &self,
        session_id: &str,
        pin_hash: &str,
        old_session_id: &str,
    ) -> (r: Request)
        ensures
            r@ == sp_auth_by_pin(self@, session_id@, pin_hash@, old_session_id@),
    {
        let url = self.base_url.clone().concat("/v1/auth/by/pin");
        let query = self.session_query_vec(session_id);
        let mut form: Vec<(String, String)> = Vec::new();
        form.push(("pinHash".to_owned(), pin_hash.to_owned()));
        form.push(("oldSessionId".to_owned(), old_session_id.to_owned()));
        form.push(("auth_type".to_owned(), "pin".to_owned()));
        proof {
            assert(pair_views(form@) =~= seq![
                ("pinHash"@, pin_hash@),
                ("oldSessionId"@, old_session_id@),
                ("auth_type"@, "pin"@),
            ]);
        }
        Request { url, query, form }
    }

    /// Lists all bank accounts as a flat list.
    pub fn list_accounts(&self, session_id: &str) -> (r: Request)
        ensures
            r@ == sp_list_accounts(self@, session_id@),
    {
        let url = self.base_url.clone().concat("/v1/accounts_flat");
        let query = self.session_query_vec(session_id);
        let form: Vec<(String, String)> = Vec::new();
        proof {
            assert(pair_views(form@) =~= Seq::<(Seq<char>, Seq<char>)>::empty());
        }
        Request { url, query, form }
    }

    /// Lists the operations of one account (by its internal id, not its
    /// number) between two points in time in epoch milliseconds. No date
    /// validation happens here: an inverted or nonsensical range is passed
    /// through verbatim.
    pub fn list_operations(
        &self,
        session_id: &str,
        account_id: &str,
        start: i64,
        end: i64,
    ) -> (r: Request)
        ensures
            r@ == sp_list_operations(self@, session_id@, account_id@, start, end),
    {
        let url = self.base_url.clone().concat("/v1/operations");
        let query = self.session_query_vec(session_id);
        let mut form: Vec<(String, String)> = Vec::new();
        form.push(("account".to_owned(), account_id.to_owned()));
        form.push(("start".to_owned(), i64_string(start)));
        form.push(("end".to_owned(), i64_string(end)));
        proof {
            assert(pair_views(form@) =~= seq![
                ("account"@, account_id@),
                ("start"@, sp_i64_str(start as int)),
                ("end"@, sp_i64_str(end as int)),
            ]);
        }
        Request { url, query, form }
    }

    /// The query of the one call made before any session exists.
    fn ident_query_vec(&self) -> (q: Vec<(String, String)>)
        ensures
            pair_views(q@) == ident_query(self.device_id@),
    {
        let mut q: Vec<(String, String)> = Vec::new();
        q.push(("appVersion".to_owned(), "5.5.1".to_owned()));
        q.push(("connectionSubtype".to_owned(), "4G".to_owned()));
        q.push(("appName".to_owned(), "mobile".to_owned()));
        q.push(("origin".to_owned(), "mobile,ib5,loyalty,platform".to_owned()));
        q.push(("connectionType".to_owned(), "Cellular".to_owned()));
        q.push(("platform".to_owned(), "android".to_owned()));
        q.push(("deviceId".to_owned(), self.device_id.clone()));
        proof {
            assert(pair_views(q@) =~= ident_query(self.device_id@));
        }
        q
    }

    /// The query of every authenticated call.
    fn session_query_vec(&self, session_id: &str) -> (q: Vec<(String, String)>)
        ensures
            pair_views(q@) == session_query(self.device_id@, session_id@),
    {
        let mut q = self.ident_query_vec();
        q.push(("sessionid".to_owned(), session_id.to_owned()));
        proof {
            assert(pair_views(q@) =~= session_query(self.device_id@, session_id@));
        }
        q
    }
}

/// The decimal spelling of a signed number, exactly as [`sp_i64_str`] says.
fn i64_string(t: i64) -> (r: String)
    ensures
        r@ == sp_i64_str(t as int),
{
    let mut out: Vec<char> = Vec::new();
    if t < 0 {
        out.push('-');
        let m: u64 = (-(t as i128)) as u64;
        crate::json::push_digits(m, &mut out);
        proof {
            assert(out@ =~= sp_i64_str(t as int));
        }
    } else {
        crate::json::push_digits(t as u64, &mut out);
        proof {
            assert(out@ =~= sp_i64_str(t as int));
        }
    }
    crate::text::string_of_chars(&out)
}

} // verus!

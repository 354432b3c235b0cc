//! The flat, strongly typed entities decoded from the backend's responses,
//! and their mathematical views.
//!
//! All entities are immutable, request-scoped values: they are built solely
//! by decoding a response body and never mutated. Money values are exact
//! decimals ([`Decimal`]); points in time are epoch milliseconds, as the wire
//! carries them.

use crate::json::Decimal;
use vstd::prelude::*;

verus! {

/// The backend's coarse authorization tier; it rises as auth factors are
/// satisfied.
#[derive(Clone, Copy, Debug, PartialEq, Eq, Structural)]
pub enum AccessLevel {
    Anonymous,
    Candidate,
    Client,
}

/// Who the session currently stands for.
#[derive(Clone, Debug, PartialEq)]
pub struct UserInfo {
    pub access_level: AccessLevel,
    /// Empty when the endpoint omits it.
    pub user_id: String,
}

/// The view of a [`UserInfo`].
pub ghost struct UserInfoV {
    pub access_level: AccessLevel,
    pub user_id: Seq<char>,
}

impl View for UserInfo {
    type V = UserInfoV;

    open spec fn view(&self) -> UserInfoV {
        UserInfoV { access_level: self.access_level, user_id: self.user_id@ }
    }
}

/// A freshly established session: its opaque token and its time to live in
/// seconds (informational only; the client never auto-refreshes).
#[derive(Clone, Debug, PartialEq)]
pub struct Session {
    pub id: String,
    pub ttl: u32,
}

/// The view of a [`Session`].
pub ghost struct SessionV {
    pub id: Seq<char>,
    pub ttl: u32,
}

impl View for Session {
    type V = SessionV;

    open spec fn view(&self) -> SessionV {
        SessionV { id: self.id@, ttl: self.ttl }
    }
}

/// The envelope's outcome: success, or a confirmation step is required.
#[derive(Clone, Copy, Debug, PartialEq, Eq, Structural)]
pub enum ResultCode {
    Okay,
    WaitingConfirmation,
}

/// The payload of operations that return no data.
#[derive(Clone, Debug, PartialEq, Eq, Structural)]
pub struct Nothing {}

impl View for Nothing {
    type V = Nothing;

    open spec fn view(&self) -> Nothing {
        Nothing {  }
    }
}

/// The closed set of currencies the backend emits.
#[derive(Clone, Copy, Debug, PartialEq, Eq, Structural)]
pub enum Currency {
    EUR,
    RUB,
    USD,
    BYN,
}

/// An exact amount of money in one currency.
#[derive(Clone, Copy, Debug, PartialEq, Eq, Structural)]
pub struct MoneyAmount {
    pub currency: Currency,
    pub value: Decimal,
}

/// One bank account, as `list_accounts` returns it. `id` is the internal
/// identifier that operation listing needs; `external_number` is the
/// human-facing account number.
#[derive(Clone, Debug, PartialEq)]
pub struct Account {
    pub external_number: String,
    pub group: String,
    pub money_amount: MoneyAmount,
    pub name: String,
    pub id: String,
}

/// The view of an [`Account`].
pub ghost struct AccountV {
    pub external_number: Seq<char>,
    pub group: Seq<char>,
    pub money_amount: MoneyAmount,
    pub name: Seq<char>,
    pub id: Seq<char>,
}

impl View for Account {
    type V = AccountV;

    open spec fn view(&self) -> AccountV {
        AccountV {
            external_number: self.external_number@,
            group: self.group@,
            money_amount: self.money_amount,
            name: self.name@,
            id: self.id@,
        }
    }
}

/// The uniform envelope around every response. `payload` is present only on
/// `Ok`; `confirmations` names the required follow-up factors and is present
/// only on `WaitingConfirmation`; branch on `result_code` before touching
/// either.
#[derive(Clone, Debug, PartialEq)]
pub struct ResponsePayload<T> {
    pub result_code: ResultCode,
    pub payload: Option<T>,
    pub confirmations: Option<Vec<String>>,
    pub initial_operation: Option<String>,
    pub operation_ticket: Option<String>,
}

/// The view of a [`ResponsePayload`], over the view `P` of its payload.
pub ghost struct ResponsePayloadV<P> {
    pub result_code: ResultCode,
    pub payload: Option<P>,
    pub confirmations: Option<Seq<Seq<char>>>,
    pub initial_operation: Option<Seq<char>>,
    pub operation_ticket: Option<Seq<char>>,
}

/// The direction of a ledger operation.
#[derive(Clone, Copy, Debug, PartialEq, Eq, Structural)]
pub enum OperationType {
    Credit,
    Debit,
}

/// The closed set of operation groups the backend emits.
#[derive(Clone, Copy, Debug, PartialEq, Eq, Structural)]
pub enum OperationGroup {
    Pay,
    Income,
    Transfer,
    Cash,
    Correction,
    Charge,
    Internal,
}

/// One ledger transaction, flattened from the wire's nested wrappers: the
/// `{milliseconds: N}` wrapper becomes epoch milliseconds in
/// `operation_time`, and the `{name: s}` wrappers become the plain strings in
/// `spending_category`, `category`, `merchant` and `subgroup`.
#[derive(Clone, Debug, PartialEq)]
pub struct Operation {
    pub id: String,
    pub operation_type: OperationType,
    pub description: String,
    pub amount: MoneyAmount,
    pub account_amount: MoneyAmount,
    /// Epoch milliseconds.
    pub operation_time: i64,
    pub spending_category: String,
    pub mcc: u16,
    pub category: String,
    pub subcategory: Option<String>,
    pub account: String,
    pub merchant: Option<String>,
    pub group: OperationGroup,
    pub subgroup: Option<String>,
}

/// The view of an [`Operation`].
pub ghost struct OperationV {
    pub id: Seq<char>,
    pub operation_type: OperationType,
    pub description: Seq<char>,
    pub amount: MoneyAmount,
    pub account_amount: MoneyAmount,
    pub operation_time: i64,
    pub spending_category: Seq<char>,
    pub mcc: u16,
    pub category: Seq<char>,
    pub subcategory: Option<Seq<char>>,
    pub account: Seq<char>,
    pub merchant: Option<Seq<char>>,
    pub group: OperationGroup,
    pub subgroup: Option<Seq<char>>,
}

/// The view of an optional string.
pub open spec fn opt_view(o: Option<String>) -> Option<Seq<char>> {
    match o {
        Some(s) => Some(s@),
        None => None,
    }
}

impl View for Operation {
    type V = OperationV;

    open spec fn view(&self) -> OperationV {
        OperationV {
            id: self.id@,
            operation_type: self.operation_type,
            description: self.description@,
            amount: self.amount,
            account_amount: self.account_amount,
            operation_time: self.operation_time,
            spending_category: self.spending_category@,
            mcc: self.mcc,
            category: self.category@,
            subcategory: opt_view(self.subcategory),
            account: self.account@,
            merchant: opt_view(self.merchant),
            group: self.group,
            subgroup: opt_view(self.subgroup),
        }
    }
}

} // verus!

//! The envelope and entity codec: deterministic structural decoding from the
//! vendor's irregular JSON into the entities of [`crate::data_structs`], and
//! the reverse serialization.
//!
//! The decoding rules, applied uniformly: nested `{name: s}` wrappers are
//! flattened to plain strings; `{milliseconds: n}` wrappers become epoch
//! milliseconds; unknown fields are ignored at every level; an absent
//! optional wrapper is an absent value; an enum literal outside its closed
//! set is a failure, never a silent default.

use crate::data_structs::AccessLevel;
use crate::data_structs::Account;
use crate::data_structs::AccountV;
use crate::data_structs::Currency;
use crate::data_structs::MoneyAmount;
use crate::data_structs::Nothing;
use crate::data_structs::Operation;
use crate::data_structs::OperationGroup;
use crate::data_structs::OperationType;
use crate::data_structs::OperationV;
use crate::data_structs::ResponsePayload;
use crate::data_structs::ResponsePayloadV;
use crate::data_structs::ResultCode;
use crate::data_structs::Session;
use crate::data_structs::SessionV;
use crate::data_structs::UserInfo;
use crate::data_structs::UserInfoV;
use crate::json::member_views;
use crate::json::DecodeError;
use crate::json::Decimal;
use crate::json::Json;
use crate::json::JsonVal;
use vstd::prelude::*;

verus! {

broadcast use vstd::std_specs::vec::group_vec_axioms;

/// The value of the first member named `name`, from index `k` on.
pub open spec fn sp_lookup(
    ms: Seq<(Seq<char>, JsonVal)>,
    k: int,
    name: Seq<char>,
) -> Option<JsonVal>
    decreases ms.len() - k,
{
    if 0 <= k < ms.len() {
        if ms[k].0 == name {
            Some(ms[k].1)
        } else {
            sp_lookup(ms, k + 1, name)
        }
    } else {
        None
    }
}

/// Finds a member by name, exactly as [`sp_lookup`] does.
fn lookup<'a>(ms: &'a Vec<(String, Json)>, k: usize, name: &String) -> (r: Option<&'a Json>)
    requires
        k <= ms@.len(),
    ensures
        match r {
            Some(j) => sp_lookup(member_views(ms@), k as int, name@) == Some(j@),
            None => sp_lookup(member_views(ms@), k as int, name@) is None,
        },
    decreases ms@.len() - k,
{
    if k < ms.len() {
        proof {
            assert(member_views(ms@)[k as int] == (ms@[k as int].0@, ms@[k as int].1@));
        }
        if ms[k].0 == *name {
            Some(&ms[k].1)
        } else {
            lookup(ms, k + 1, name)
        }
    } else {
        None
    }
}

/// The string a text value holds; anything else is the wrong shape.
pub open spec fn sp_text(j: JsonVal) -> Result<Seq<char>, DecodeError> {
    match j {
        JsonVal::Text(t) => Ok(t),
        _ => Err(DecodeError::WrongType),
    }
}

/// The result code, by exact match against its closed set.
pub open spec fn sp_result_code(j: JsonVal) -> Result<ResultCode, DecodeError> {
    match j {
        JsonVal::Text(t) => if t == "OK"@ {
            Ok(ResultCode::Okay)
        } else if t == "WAITING_CONFIRMATION"@ {
            Ok(ResultCode::WaitingConfirmation)
        } else {
            Err(DecodeError::UnknownVariant)
        },
        _ => Err(DecodeError::WrongType),
    }
}

/// The access level, by exact match against its closed set.
pub open spec fn sp_access_level(j: JsonVal) -> Result<AccessLevel, DecodeError> {
    match j {
        JsonVal::Text(t) => if t == "ANONYMOUS"@ {
            Ok(AccessLevel::Anonymous)
        } else if t == "CANDIDATE"@ {
            Ok(AccessLevel::Candidate)
        } else if t == "CLIENT"@ {
            Ok(AccessLevel::Client)
        } else {
            Err(DecodeError::UnknownVariant)
        },
        _ => Err(DecodeError::WrongType),
    }
}

/// The whole number a numeric value holds: no sign, no fraction.
pub open spec fn sp_whole(j: JsonVal) -> Result<u64, DecodeError> {
    match j {
        JsonVal::Num(d) => if d.scale != 0 {
            Err(DecodeError::WrongType)
        } else if d.negative && d.mantissa != 0 {
            Err(DecodeError::WrongType)
        } else {
            Ok(d.mantissa)
        },
        _ => Err(DecodeError::WrongType),
    }
}

/// A whole number that must fit `u32`.
pub open spec fn sp_u32_field(j: JsonVal) -> Result<u32, DecodeError> {
    match sp_whole(j) {
        Ok(n) => if n <= u32::MAX {
            Ok(n as u32)
        } else {
            Err(DecodeError::NumberOverflow)
        },
        Err(e) => Err(e),
    }
}

/// A whole number that must fit `u16`.
pub open spec fn sp_u16_field(j: JsonVal) -> Result<u16, DecodeError> {
    match sp_whole(j) {
        Ok(n) => if n <= u16::MAX {
            Ok(n as u16)
        } else {
            Err(DecodeError::NumberOverflow)
        },
        Err(e) => Err(e),
    }
}

/// A signed whole number of epoch milliseconds, fitting `i64`.
pub open spec fn sp_millis(j: JsonVal) -> Result<i64, DecodeError> {
    match j {
        JsonVal::Num(d) => if d.scale != 0 {
            Err(DecodeError::WrongType)
        } else if !d.negative {
            if d.mantissa <= i64::MAX as u64 {
                Ok(d.mantissa as i64)
            } else {
                Err(DecodeError::NumberOverflow)
            }
        } else {
            if d.mantissa <= i64::MAX as u64 {
                Ok((0 - d.mantissa as int) as i64)
            } else if d.mantissa == i64::MAX as u64 + 1 {
                Ok(i64::MIN)
            } else {
                Err(DecodeError::NumberOverflow)
            }
        },
        _ => Err(DecodeError::WrongType),
    }
}

/// The user-session details: a required access level and an optional user id
/// that defaults to the empty string.
pub open spec fn sp_user_info(j: JsonVal) -> Result<UserInfoV, DecodeError> {
    match j {
        JsonVal::Obj(ms) => match sp_lookup(ms, 0, "accessLevel"@) {
            None => Err(DecodeError::MissingField),
            Some(lv) => match sp_access_level(lv) {
                Err(e) => Err(e),
                Ok(level) => match sp_lookup(ms, 0, "userId"@) {
                    None => Ok(UserInfoV { access_level: level, user_id: Seq::empty() }),
                    Some(uv) => match sp_text(uv) {
                        Err(e) => Err(e),
                        Ok(uid) => Ok(UserInfoV { access_level: level, user_id: uid }),
                    },
                },
            },
        },
        _ => Err(DecodeError::WrongType),
    }
}

/// The session details: the token under `sessionid` and its `ttl`.
pub open spec fn sp_session(j: JsonVal) -> Result<SessionV, DecodeError> {
    match j {
        JsonVal::Obj(ms) => match sp_lookup(ms, 0, "sessionid"@) {
            None => Err(DecodeError::MissingField),
            Some(sv) => match sp_text(sv) {
                Err(e) => Err(e),
                Ok(sid) => match sp_lookup(ms, 0, "ttl"@) {
                    None => Err(DecodeError::MissingField),
                    Some(tv) => match sp_u32_field(tv) {
                        Err(e) => Err(e),
                        Ok(ttl) => Ok(SessionV { id: sid, ttl }),
                    },
                },
            },
        },
        _ => Err(DecodeError::WrongType),
    }
}

/// The empty payload: any object, all of whose fields are ignored.
pub open spec fn sp_nothing(j: JsonVal) -> Result<Nothing, DecodeError> {
    match j {
        JsonVal::Obj(ms) => Ok(Nothing {  }),
        _ => Err(DecodeError::WrongType),
    }
}

/// Decodes a text value, exactly as [`sp_text`] does.
fn decode_text(j: &Json) -> (r: Result<String, DecodeError>)
    ensures
        match r {
            Ok(t) => sp_text(j@) == Ok::<Seq<char>, DecodeError>(t@),
            Err(e) => sp_text(j@) == Err::<Seq<char>, DecodeError>(e),
        },
{
    match j {
        Json::Text(t) => Ok(t.clone()),
        _ => Err(DecodeError::WrongType),
    }
}

/// Decodes a result code, exactly as [`sp_result_code`] does.
fn decode_result_code(j: &Json) -> (r: Result<ResultCode, DecodeError>)
    ensures
        match r {
            Ok(c) => sp_result_code(j@) == Ok::<ResultCode, DecodeError>(c),
            Err(e) => sp_result_code(j@) == Err::<ResultCode, DecodeError>(e),
        },
{
    match j {
        Json::Text(t) => {
            if *t == "OK".to_owned() {
                Ok(ResultCode::Okay)
            } else if *t == "WAITING_CONFIRMATION".to_owned() {
                Ok(ResultCode::WaitingConfirmation)
            } else {
                Err(DecodeError::UnknownVariant)
            }
        },
        _ => Err(DecodeError::WrongType),
    }
}

/// Decodes an access level, exactly as [`sp_access_level`] does.
fn decode_access_level(j: &Json) -> (r: Result<AccessLevel, DecodeError>)
    ensures
        match r {
            Ok(c) => sp_access_level(j@) == Ok::<AccessLevel, DecodeError>(c),
            Err(e) => sp_access_level(j@) == Err::<AccessLevel, DecodeError>(e),
        },
{
    match j {
        Json::Text(t) => {
            if *t == "ANONYMOUS".to_owned() {
                Ok(AccessLevel::Anonymous)
            } else if *t == "CANDIDATE".to_owned() {
                Ok(AccessLevel::Candidate)
            } else if *t == "CLIENT".to_owned() {
                Ok(AccessLevel::Client)
            } else {
                Err(DecodeError::UnknownVariant)
            }
        },
        _ => Err(DecodeError::WrongType),
    }
}

/// Decodes a user-info payload, exactly as [`sp_user_info`] does.
fn decode_user_info_payload(j: &Json) -> (r: Result<UserInfo, DecodeError>)
    ensures
        match r {
            Ok(u) => sp_user_info(j@) == Ok::<UserInfoV, DecodeError>(u@),
            Err(e) => sp_user_info(j@) == Err::<UserInfoV, DecodeError>(e),
        },
{
    match j {
        Json::Obj(ms) => {
            proof {
                crate::json::lemma_obj_view(*ms);
            }
            match lookup(ms, 0, &"accessLevel".to_owned()) {
                None => Err(DecodeError::MissingField),
                Some(lv) => match decode_access_level(lv) {
                    Err(e) => Err(e),
                    Ok(level) => match lookup(ms, 0, &"userId".to_owned()) {
                        None => Ok(
                            UserInfo { access_level: level, user_id: String::new() },
                        ),
                        Some(uv) => match decode_text(uv) {
                            Err(e) => Err(e),
                            Ok(uid) => Ok(UserInfo { access_level: level, user_id: uid }),
                        },
                    },
                },
            }
        },
        _ => Err(DecodeError::WrongType),
    }
}

/// Decodes a session payload, exactly as [`sp_session`] does.
fn decode_session_payload(j: &Json) -> (r: Result<Session, DecodeError>)
    ensures
        match r {
            Ok(s) => sp_session(j@) == Ok::<SessionV, DecodeError>(s@),
            Err(e) => sp_session(j@) == Err::<SessionV, DecodeError>(e),
        },
{
    match j {
        Json::Obj(ms) => {
            proof {
                crate::json::lemma_obj_view(*ms);
            }
            match lookup(ms, 0, &"sessionid".to_owned()) {
                None => Err(DecodeError::MissingField),
                Some(sv) => match decode_text(sv) {
                    Err(e) => Err(e),
                    Ok(sid) => match lookup(ms, 0, &"ttl".to_owned()) {
                        None => Err(DecodeError::MissingField),
                        Some(tv) => match decode_u32(tv) {
                            Err(e) => Err(e),
                            Ok(ttl) => Ok(Session { id: sid, ttl }),
                        },
                    },
                },
            }
        },
        _ => Err(DecodeError::WrongType),
    }
}

/// Decodes a `u32` field, exactly as [`sp_u32_field`] does.
fn decode_u32(j: &Json) -> (r: Result<u32, DecodeError>)
    ensures
        match r {
            Ok(n) => sp_u32_field(j@) == Ok::<u32, DecodeError>(n),
            Err(e) => sp_u32_field(j@) == Err::<u32, DecodeError>(e),
        },
{
    match j {
        Json::Num(d) => {
            if d.scale != 0 {
                Err(DecodeError::WrongType)
            } else if d.negative && d.mantissa != 0 {
                Err(DecodeError::WrongType)
            } else if d.mantissa <= u32::MAX as u64 {
                Ok(d.mantissa as u32)
            } else {
                Err(DecodeError::NumberOverflow)
            }
        },
        _ => Err(DecodeError::WrongType),
    }
}

/// Decodes a `u16` field, exactly as [`sp_u16_field`] does.
fn decode_u16(j: &Json) -> (r: Result<u16, DecodeError>)
    ensures
        match r {
            Ok(n) => sp_u16_field(j@) == Ok::<u16, DecodeError>(n),
            Err(e) => sp_u16_field(j@) == Err::<u16, DecodeError>(e),
        },
{
    match j {
        Json::Num(d) => {
            if d.scale != 0 {
                Err(DecodeError::WrongType)
            } else if d.negative && d.mantissa != 0 {
                Err(DecodeError::WrongType)
            } else if d.mantissa <= u16::MAX as u64 {
                Ok(d.mantissa as u16)
            } else {
                Err(DecodeError::NumberOverflow)
            }
        },
        _ => Err(DecodeError::WrongType),
    }
}

/// Decodes epoch milliseconds, exactly as [`sp_millis`] does.
fn decode_millis(j: &Json) -> (r: Result<i64, DecodeError>)
    ensures
        match r {
            Ok(n) => sp_millis(j@) == Ok::<i64, DecodeError>(n),
            Err(e) => sp_millis(j@) == Err::<i64, DecodeError>(e),
        },
{
    match j {
        Json::Num(d) => {
            if d.scale != 0 {
                Err(DecodeError::WrongType)
            } else if !d.negative {
                if d.mantissa <= i64::MAX as u64 {
                    Ok(d.mantissa as i64)
                } else {
                    Err(DecodeError::NumberOverflow)
                }
            } else {
                if d.mantissa <= i64::MAX as u64 {
                    Ok(-(d.mantissa as i64))
                } else if d.mantissa == i64::MAX as u64 + 1 {
                    Ok(i64::MIN)
                } else {
                    Err(DecodeError::NumberOverflow)
                }
            }
        },
        _ => Err(DecodeError::WrongType),
    }
}

/// Decodes the empty payload, exactly as [`sp_nothing`] does.
fn decode_nothing_payload(j: &Json) -> (r: Result<Nothing, DecodeError>)
    ensures
        match r {
            Ok(n) => sp_nothing(j@) == Ok::<Nothing, DecodeError>(n),
            Err(e) => sp_nothing(j@) == Err::<Nothing, DecodeError>(e),
        },
{
    match j {
        Json::Obj(ms) => Ok(Nothing {  }),
        _ => Err(DecodeError::WrongType),
    }
}

/// The currency, decoded from its `{name: <code>}` wrapper; the wrapper's
/// other fields (numeric and string codes) are discarded.
pub open spec fn sp_currency(j: JsonVal) -> Result<Currency, DecodeError> {
    match j {
        JsonVal::Obj(ms) => match sp_lookup(ms, 0, "name"@) {
            None => Err(DecodeError::MissingField),
            Some(nv) => match nv {
                JsonVal::Text(t) => if t == "RUB"@ {
                    Ok(Currency::RUB)
                } else if t == "USD"@ {
                    Ok(Currency::USD)
                } else if t == "EUR"@ {
                    Ok(Currency::EUR)
                } else if t == "BYN"@ {
                    Ok(Currency::BYN)
                } else {
                    Err(DecodeError::UnknownVariant)
                },
                _ => Err(DecodeError::WrongType),
            },
        },
        _ => Err(DecodeError::WrongType),
    }
}

/// A money amount: its currency and its exact decimal value.
pub open spec fn sp_money(j: JsonVal) -> Result<MoneyAmount, DecodeError> {
    match j {
        JsonVal::Obj(ms) => match sp_lookup(ms, 0, "currency"@) {
            None => Err(DecodeError::MissingField),
            Some(cv) => match sp_currency(cv) {
                Err(e) => Err(e),
                Ok(currency) => match sp_lookup(ms, 0, "value"@) {
                    None => Err(DecodeError::MissingField),
                    Some(vv) => match vv {
                        JsonVal::Num(d) => Ok(MoneyAmount { currency, value: d }),
                        _ => Err(DecodeError::WrongType),
                    },
                },
            },
        },
        _ => Err(DecodeError::WrongType),
    }
}

/// The string inside a `{name: s}` wrapper object.
pub open spec fn sp_name_wrapper(j: JsonVal) -> Result<Seq<char>, DecodeError> {
    match j {
        JsonVal::Obj(ms) => match sp_lookup(ms, 0, "name"@) {
            None => Err(DecodeError::MissingField),
            Some(nv) => sp_text(nv),
        },
        _ => Err(DecodeError::WrongType),
    }
}

/// The epoch milliseconds inside a `{milliseconds: n}` wrapper object.
pub open spec fn sp_millis_wrapper(j: JsonVal) -> Result<i64, DecodeError> {
    match j {
        JsonVal::Obj(ms) => match sp_lookup(ms, 0, "milliseconds"@) {
            None => Err(DecodeError::MissingField),
            Some(nv) => sp_millis(nv),
        },
        _ => Err(DecodeError::WrongType),
    }
}

/// An optional plain string field: absent or null is `None`; an empty string
/// is a present value, distinct from absence.
pub open spec fn sp_opt_text(ms: Seq<(Seq<char>, JsonVal)>, name: Seq<char>) -> Result<
    Option<Seq<char>>,
    DecodeError,
> {
    match sp_lookup(ms, 0, name) {
        None => Ok(None),
        Some(v) => match v {
            JsonVal::Null => Ok(None),
            JsonVal::Text(t) => Ok(Some(t)),
            _ => Err(DecodeError::WrongType),
        },
    }
}

/// An optional `{name: s}`-wrapped field, flattened to an optional string.
pub open spec fn sp_opt_name(ms: Seq<(Seq<char>, JsonVal)>, name: Seq<char>) -> Result<
    Option<Seq<char>>,
    DecodeError,
> {
    match sp_lookup(ms, 0, name) {
        None => Ok(None),
        Some(v) => match v {
            JsonVal::Null => Ok(None),
            _ => match sp_name_wrapper(v) {
                Err(e) => Err(e),
                Ok(t) => Ok(Some(t)),
            },
        },
    }
}

/// The operation direction, by exact match against its closed set.
pub open spec fn sp_operation_type(j: JsonVal) -> Result<OperationType, DecodeError> {
    match j {
        JsonVal::Text(t) => if t == "Credit"@ {
            Ok(OperationType::Credit)
        } else if t == "Debit"@ {
            Ok(OperationType::Debit)
        } else {
            Err(DecodeError::UnknownVariant)
        },
        _ => Err(DecodeError::WrongType),
    }
}

/// The operation group, by exact match against its closed set.
pub open spec fn sp_operation_group(j: JsonVal) -> Result<OperationGroup, DecodeError> {
    match j {
        JsonVal::Text(t) => if t == "PAY"@ {
            Ok(OperationGroup::Pay)
        } else if t == "INCOME"@ {
            Ok(OperationGroup::Income)
        } else if t == "TRANSFER"@ {
            Ok(OperationGroup::Transfer)
        } else if t == "CASH"@ {
            Ok(OperationGroup::Cash)
        } else if t == "CORRECTION"@ {
            Ok(OperationGroup::Correction)
        } else if t == "CHARGE"@ {
            Ok(OperationGroup::Charge)
        } else if t == "INTERNAL"@ {
            Ok(OperationGroup::Internal)
        } else {
            Err(DecodeError::UnknownVariant)
        },
        _ => Err(DecodeError::WrongType),
    }
}

/// One account: all five fields are required.
pub open spec fn sp_account(j: JsonVal) -> Result<AccountV, DecodeError> {
    match j {
        JsonVal::Obj(ms) => match sp_lookup(ms, 0, "externalAccountNumber"@) {
            None => Err(DecodeError::MissingField),
            Some(v0) => match sp_text(v0) {
                Err(e) => Err(e),
                Ok(external_number) => match sp_lookup(ms, 0, "accountGroup"@) {
                    None => Err(DecodeError::MissingField),
                    Some(v1) => match sp_text(v1) {
                        Err(e) => Err(e),
                        Ok(group) => match sp_lookup(ms, 0, "moneyAmount"@) {
                            None => Err(DecodeError::MissingField),
                            Some(v2) => match sp_money(v2) {
                                Err(e) => Err(e),
                                Ok(money_amount) => match sp_lookup(ms, 0, "name"@) {
                                    None => Err(DecodeError::MissingField),
                                    Some(v3) => match sp_text(v3) {
                                        Err(e) => Err(e),
                                        Ok(name) => match sp_lookup(ms, 0, "id"@) {
                                            None => Err(DecodeError::MissingField),
                                            Some(v4) => match sp_text(v4) {
                                                Err(e) => Err(e),
                                                Ok(id) => Ok(
                                                    AccountV {
                                                        external_number,
                                                        group,
                                                        money_amount,
                                                        name,
                                                        id,
                                                    },
                                                ),
                                            },
                                        },
                                    },
                                },
                            },
                        },
                    },
                },
            },
        },
        _ => Err(DecodeError::WrongType),
    }
}

/// One ledger operation: the required fields, the flattened wrappers, and
/// the three optional fields.
pub open spec fn sp_operation(j: JsonVal) -> Result<OperationV, DecodeError> {
    match j {
        JsonVal::Obj(ms) => match (
            sp_lookup(ms, 0, "id"@),
            sp_lookup(ms, 0, "type"@),
            sp_lookup(ms, 0, "description"@),
            sp_lookup(ms, 0, "amount"@),
            sp_lookup(ms, 0, "accountAmount"@),
            sp_lookup(ms, 0, "operationTime"@),
            sp_lookup(ms, 0, "spendingCategory"@),
            sp_lookup(ms, 0, "mcc"@),
            sp_lookup(ms, 0, "category"@),
            sp_lookup(ms, 0, "account"@),
            sp_lookup(ms, 0, "group"@),
        ) {
            (
                Some(jid),
                Some(jty),
                Some(jde),
                Some(jam),
                Some(jaa),
                Some(jti),
                Some(jsc),
                Some(jmc),
                Some(jca),
                Some(jac),
                Some(jgr),
            ) => {
                let id = sp_text(jid);
                let ty = sp_operation_type(jty);
                let de = sp_text(jde);
                let am = sp_money(jam);
                let aa = sp_money(jaa);
                let ti = sp_millis_wrapper(jti);
                let sc = sp_name_wrapper(jsc);
                let mc = sp_u16_field(jmc);
                let ca = sp_name_wrapper(jca);
                let ac = sp_text(jac);
                let gr = sp_operation_group(jgr);
                let su = sp_opt_text(ms, "subcategory"@);
                let me = sp_opt_name(ms, "merchant"@);
                let sg = sp_opt_name(ms, "subgroup"@);
                if id is Err {
                    Err(id->Err_0)
                } else if ty is Err {
                    Err(ty->Err_0)
                } else if de is Err {
                    Err(de->Err_0)
                } else if am is Err {
                    Err(am->Err_0)
                } else if aa is Err {
                    Err(aa->Err_0)
                } else if ti is Err {
                    Err(ti->Err_0)
                } else if sc is Err {
                    Err(sc->Err_0)
                } else if mc is Err {
                    Err(mc->Err_0)
                } else if ca is Err {
                    Err(ca->Err_0)
                } else if ac is Err {
                    Err(ac->Err_0)
                } else if gr is Err {
                    Err(gr->Err_0)
                } else if su is Err {
                    Err(su->Err_0)
                } else if me is Err {
                    Err(me->Err_0)
                } else if sg is Err {
                    Err(sg->Err_0)
                } else {
                    Ok(
                        OperationV {
                            id: id->Ok_0,
                            operation_type: ty->Ok_0,
                            description: de->Ok_0,
                            amount: am->Ok_0,
                            account_amount: aa->Ok_0,
                            operation_time: ti->Ok_0,
                            spending_category: sc->Ok_0,
                            mcc: mc->Ok_0,
                            category: ca->Ok_0,
                            subcategory: su->Ok_0,
                            account: ac->Ok_0,
                            merchant: me->Ok_0,
                            group: gr->Ok_0,
                            subgroup: sg->Ok_0,
                        },
                    )
                }
            },
            _ => Err(DecodeError::MissingField),
        },
        _ => Err(DecodeError::WrongType),
    }
}

/// Decodes a currency wrapper, exactly as [`sp_currency`] does.
fn decode_currency(j: &Json) -> (r: Result<Currency, DecodeError>)
    ensures
        match r {
            Ok(c) => sp_currency(j@) == Ok::<Currency, DecodeError>(c),
            Err(e) => sp_currency(j@) == Err::<Currency, DecodeError>(e),
        },
{
    match j {
        Json::Obj(ms) => {
            proof {
                crate::json::lemma_obj_view(*ms);
            }
            match lookup(ms, 0, &"name".to_owned()) {
                None => Err(DecodeError::MissingField),
                Some(nv) => match nv {
                    Json::Text(t) => {
                        if *t == "RUB".to_owned() {
                            Ok(Currency::RUB)
                        } else if *t == "USD".to_owned() {
                            Ok(Currency::USD)
                        } else if *t == "EUR".to_owned() {
                            Ok(Currency::EUR)
                        } else if *t == "BYN".to_owned() {
                            Ok(Currency::BYN)
                        } else {
                            Err(DecodeError::UnknownVariant)
                        }
                    },
                    _ => Err(DecodeError::WrongType),
                },
            }
        },
        _ => Err(DecodeError::WrongType),
    }
}

/// Decodes a money amount, exactly as [`sp_money`] does.
fn decode_money(j: &Json) -> (r: Result<MoneyAmount, DecodeError>)
    ensures
        match r {
            Ok(m) => sp_money(j@) == Ok::<MoneyAmount, DecodeError>(m),
            Err(e) => sp_money(j@) == Err::<MoneyAmount, DecodeError>(e),
        },
{
    match j {
        Json::Obj(ms) => {
            proof {
                crate::json::lemma_obj_view(*ms);
            }
            match lookup(ms, 0, &"currency".to_owned()) {
                None => Err(DecodeError::MissingField),
                Some(cv) => match decode_currency(cv) {
                    Err(e) => Err(e),
                    Ok(currency) => match lookup(ms, 0, &"value".to_owned()) {
                        None => Err(DecodeError::MissingField),
                        Some(vv) => match vv {
                            Json::Num(d) => Ok(MoneyAmount { currency, value: *d }),
                            _ => Err(DecodeError::WrongType),
                        },
                    },
                },
            }
        },
        _ => Err(DecodeError::WrongType),
    }
}

/// Decodes a `{name: s}` wrapper, exactly as [`sp_name_wrapper`] does.
fn decode_name_wrapper(j: &Json) -> (r: Result<String, DecodeError>)
    ensures
        match r {
            Ok(t) => sp_name_wrapper(j@) == Ok::<Seq<char>, DecodeError>(t@),
            Err(e) => sp_name_wrapper(j@) == Err::<Seq<char>, DecodeError>(e),
        },
{
    match j {
        Json::Obj(ms) => {
            proof {
                crate::json::lemma_obj_view(*ms);
            }
            match lookup(ms, 0, &"name".to_owned()) {
                None => Err(DecodeError::MissingField),
                Some(nv) => decode_text(nv),
            }
        },
        _ => Err(DecodeError::WrongType),
    }
}

/// Decodes a `{milliseconds: n}` wrapper, exactly as [`sp_millis_wrapper`]
/// does.
fn decode_millis_wrapper(j: &Json) -> (r: Result<i64, DecodeError>)
    ensures
        match r {
            Ok(t) => sp_millis_wrapper(j@) == Ok::<i64, DecodeError>(t),
            Err(e) => sp_millis_wrapper(j@) == Err::<i64, DecodeError>(e),
        },
{
    match j {
        Json::Obj(ms) => {
            proof {
                crate::json::lemma_obj_view(*ms);
            }
            match lookup(ms, 0, &"milliseconds".to_owned()) {
                None => Err(DecodeError::MissingField),
                Some(nv) => decode_millis(nv),
            }
        },
        _ => Err(DecodeError::WrongType),
    }
}

/// Decodes an optional plain string member, exactly as [`sp_opt_text`] does.
fn decode_opt_text(ms: &Vec<(String, Json)>, name: &String) -> (r: Result<
    Option<String>,
    DecodeError,
>)
    ensures
        match r {
            Ok(t) => sp_opt_text(member_views(ms@), name@) == Ok::<
                Option<Seq<char>>,
                DecodeError,
            >(crate::data_structs::opt_view(t)),
            Err(e) => sp_opt_text(member_views(ms@), name@) == Err::<
                Option<Seq<char>>,
                DecodeError,
            >(e),
        },
{
    match lookup(ms, 0, name) {
        None => Ok(None),
        Some(v) => match v {
            Json::Null => Ok(None),
            Json::Text(t) => Ok(Some(t.clone())),
            _ => Err(DecodeError::WrongType),
        },
    }
}

/// Decodes an optional name-wrapped member, exactly as [`sp_opt_name`] does.
fn decode_opt_name(ms: &Vec<(String, Json)>, name: &String) -> (r: Result<
    Option<String>,
    DecodeError,
>)
    ensures
        match r {
            Ok(t) => sp_opt_name(member_views(ms@), name@) == Ok::<
                Option<Seq<char>>,
                DecodeError,
            >(crate::data_structs::opt_view(t)),
            Err(e) => sp_opt_name(member_views(ms@), name@) == Err::<
                Option<Seq<char>>,
                DecodeError,
            >(e),
        },
{
    match lookup(ms, 0, name) {
        None => Ok(None),
        Some(v) => match v {
            Json::Null => Ok(None),
            _ => match decode_name_wrapper(v) {
                Err(e) => Err(e),
                Ok(t) => Ok(Some(t)),
            },
        },
    }
}

/// Decodes an operation type, exactly as [`sp_operation_type`] does.
fn decode_operation_type(j: &Json) -> (r: Result<OperationType, DecodeError>)
    ensures
        match r {
            Ok(c) => sp_operation_type(j@) == Ok::<OperationType, DecodeError>(c),
            Err(e) => sp_operation_type(j@) == Err::<OperationType, DecodeError>(e),
        },
{
    match j {
        Json::Text(t) => {
            if *t == "Credit".to_owned() {
                Ok(OperationType::Credit)
            } else if *t == "Debit".to_owned() {
                Ok(OperationType::Debit)
            } else {
                Err(DecodeError::UnknownVariant)
            }
        },
        _ => Err(DecodeError::WrongType),
    }
}

/// Decodes an operation group, exactly as [`sp_operation_group`] does.
fn decode_operation_group(j: &Json) -> (r: Result<OperationGroup, DecodeError>)
    ensures
        match r {
            Ok(c) => sp_operation_group(j@) == Ok::<OperationGroup, DecodeError>(c),
            Err(e) => sp_operation_group(j@) == Err::<OperationGroup, DecodeError>(e),
        },
{
    match j {
        Json::Text(t) => {
            if *t == "PAY".to_owned() {
                Ok(OperationGroup::Pay)
            } else if *t == "INCOME".to_owned() {
                Ok(OperationGroup::Income)
            } else if *t == "TRANSFER".to_owned() {
                Ok(OperationGroup::Transfer)
            } else if *t == "CASH".to_owned() {
                Ok(OperationGroup::Cash)
            } else if *t == "CORRECTION".to_owned() {
                Ok(OperationGroup::Correction)
            } else if *t == "CHARGE".to_owned() {
                Ok(OperationGroup::Charge)
            } else if *t == "INTERNAL".to_owned() {
                Ok(OperationGroup::Internal)
            } else {
                Err(DecodeError::UnknownVariant)
            }
        },
        _ => Err(DecodeError::WrongType),
    }
}

/// Decodes one account, exactly as [`sp_account`] does.
fn decode_account(j: &Json) -> (r: Result<Account, DecodeError>)
    ensures
        match r {
            Ok(a) => sp_account(j@) == Ok::<AccountV, DecodeError>(a@),
            Err(e) => sp_account(j@) == Err::<AccountV, DecodeError>(e),
        },
{
    match j {
        Json::Obj(ms) => {
            proof {
                crate::json::lemma_obj_view(*ms);
            }
            match lookup(ms, 0, &"externalAccountNumber".to_owned()) {
                None => Err(DecodeError::MissingField),
                Some(v0) => match decode_text(v0) {
                    Err(e) => Err(e),
                    Ok(external_number) => match lookup(ms, 0, &"accountGroup".to_owned()) {
                        None => Err(DecodeError::MissingField),
                        Some(v1) => match decode_text(v1) {
                            Err(e) => Err(e),
                            Ok(group) => match lookup(ms, 0, &"moneyAmount".to_owned()) {
                                None => Err(DecodeError::MissingField),
                                Some(v2) => match decode_money(v2) {
                                    Err(e) => Err(e),
                                    Ok(money_amount) => match lookup(ms, 0, &"name".to_owned()) {
                                        None => Err(DecodeError::MissingField),
                                        Some(v3) => match decode_text(v3) {
                                            Err(e) => Err(e),
                                            Ok(name) => match lookup(ms, 0, &"id".to_owned()) {
                                                None => Err(DecodeError::MissingField),
                                                Some(v4) => match decode_text(v4) {
                                                    Err(e) => Err(e),
                                                    Ok(id) => Ok(
                                                        Account {
                                                            external_number,
                                                            group,
                                                            money_amount,
                                                            name,
                                                            id,
                                                        },
                                                    ),
                                                },
                                            },
                                        },
                                    },
                                },
                            },
                        },
                    },
                },
            }
        },
        _ => Err(DecodeError::WrongType),
    }
}

/// Decodes one operation, exactly as [`sp_operation`] does.
#[verifier::spinoff_prover]
#[verifier::rlimit(50)]
fn decode_operation_payload(j: &Json) -> (r: Result<Operation, DecodeError>)
    ensures
        match r {
            Ok(o) => sp_operation(j@) == Ok::<OperationV, DecodeError>(o@),
            Err(e) => sp_operation(j@) == Err::<OperationV, DecodeError>(e),
        },
{
    match j {
        Json::Obj(ms) => {
            proof {
                crate::json::lemma_obj_view(*ms);
            }
            let jid = lookup(ms, 0, &"id".to_owned());
            let jty = lookup(ms, 0, &"type".to_owned());
            let jde = lookup(ms, 0, &"description".to_owned());
            let jam = lookup(ms, 0, &"amount".to_owned());
            let jaa = lookup(ms, 0, &"accountAmount".to_owned());
            let jti = lookup(ms, 0, &"operationTime".to_owned());
            let jsc = lookup(ms, 0, &"spendingCategory".to_owned());
            let jmc = lookup(ms, 0, &"mcc".to_owned());
            let jca = lookup(ms, 0, &"category".to_owned());
            let jac = lookup(ms, 0, &"account".to_owned());
            let jgr = lookup(ms, 0, &"group".to_owned());
            match (jid, jty, jde, jam, jaa, jti, jsc, jmc, jca, jac, jgr) {
                (
                    Some(jid),
                    Some(jty),
                    Some(jde),
                    Some(jam),
                    Some(jaa),
                    Some(jti),
                    Some(jsc),
                    Some(jmc),
                    Some(jca),
                    Some(jac),
                    Some(jgr),
                ) => {
                    let id = decode_text(jid);
                    let ty = decode_operation_type(jty);
                    let de = decode_text(jde);
                    let am = decode_money(jam);
                    let aa = decode_money(jaa);
                    let ti = decode_millis_wrapper(jti);
                    let sc = decode_name_wrapper(jsc);
                    let mc = decode_u16(jmc);
                    let ca = decode_name_wrapper(jca);
                    let ac = decode_text(jac);
                    let gr = decode_operation_group(jgr);
                    let su = decode_opt_text(ms, &"subcategory".to_owned());
                    let me = decode_opt_name(ms, &"merchant".to_owned());
                    let sg = decode_opt_name(ms, &"subgroup".to_owned());
                    match (id, ty, de, am, aa, ti, sc, mc, ca, ac, gr, su, me, sg) {
                        (
                            Ok(id),
                            Ok(ty),
                            Ok(de),
                            Ok(am),
                            Ok(aa),
                            Ok(ti),
                            Ok(sc),
                            Ok(mc),
                            Ok(ca),
                            Ok(ac),
                            Ok(gr),
                            Ok(su),
                            Ok(me),
                            Ok(sg),
                        ) => Ok(
                            Operation {
                                id,
                                operation_type: ty,
                                description: de,
                                amount: am,
                                account_amount: aa,
                                operation_time: ti,
                                spending_category: sc,
                                mcc: mc,
                                category: ca,
                                subcategory: su,
                                account: ac,
                                merchant: me,
                                group: gr,
                                subgroup: sg,
                            },
                        ),
                        (Err(e), _, _, _, _, _, _, _, _, _, _, _, _, _) => Err(e),
                        (_, Err(e), _, _, _, _, _, _, _, _, _, _, _, _) => Err(e),
                        (_, _, Err(e), _, _, _, _, _, _, _, _, _, _, _) => Err(e),
                        (_, _, _, Err(e), _, _, _, _, _, _, _, _, _, _) => Err(e),
                        (_, _, _, _, Err(e), _, _, _, _, _, _, _, _, _) => Err(e),
                        (_, _, _, _, _, Err(e), _, _, _, _, _, _, _, _) => Err(e),
                        (_, _, _, _, _, _, Err(e), _, _, _, _, _, _, _) => Err(e),
                        (_, _, _, _, _, _, _, Err(e), _, _, _, _, _, _) => Err(e),
                        (_, _, _, _, _, _, _, _, Err(e), _, _, _, _, _) => Err(e),
                        (_, _, _, _, _, _, _, _, _, Err(e), _, _, _, _) => Err(e),
                        (_, _, _, _, _, _, _, _, _, _, Err(e), _, _, _) => Err(e),
                        (_, _, _, _, _, _, _, _, _, _, _, Err(e), _, _) => Err(e),
                        (_, _, _, _, _, _, _, _, _, _, _, _, Err(e), _) => Err(e),
                        (_, _, _, _, _, _, _, _, _, _, _, _, _, Err(e)) => Err(e),
                    }
                },
                _ => Err(DecodeError::MissingField),
            }
        },
        _ => Err(DecodeError::WrongType),
    }
}

/// The views of a sequence of values.
pub open spec fn seq_views<T: View>(s: Seq<T>) -> Seq<T::V> {
    Seq::new(s.len(), |i: int| s[i]@)
}

pub proof fn lemma_seq_views_push<T: View>(s: Seq<T>, x: T)
    ensures
        seq_views(s.push(x)) == seq_views(s).push(x@),
{
    assert(seq_views(s.push(x)) =~= seq_views(s).push(x@));
}

/// The view of an optional list of strings.
pub open spec fn opt_strings_view(o: Option<Vec<String>>) -> Option<Seq<Seq<char>>> {
    match o {
        Some(v) => Some(seq_views(v@)),
        None => None,
    }
}

/// The view of a whole envelope, over the views of its payload.
pub open spec fn env_view<T: View>(e: ResponsePayload<T>) -> ResponsePayloadV<T::V> {
    ResponsePayloadV {
        result_code: e.result_code,
        payload: match e.payload {
            Some(t) => Some(t@),
            None => None,
        },
        confirmations: opt_strings_view(e.confirmations),
        initial_operation: crate::data_structs::opt_view(e.initial_operation),
        operation_ticket: crate::data_structs::opt_view(e.operation_ticket),
    }
}

/// The view of a whole envelope around a list payload.
pub open spec fn env_views<T: View>(e: ResponsePayload<Vec<T>>) -> ResponsePayloadV<Seq<T::V>> {
    ResponsePayloadV {
        result_code: e.result_code,
        payload: match e.payload {
            Some(t) => Some(seq_views(t@)),
            None => None,
        },
        confirmations: opt_strings_view(e.confirmations),
        initial_operation: crate::data_structs::opt_view(e.initial_operation),
        operation_ticket: crate::data_structs::opt_view(e.operation_ticket),
    }
}

/// The accounts from index `k` on, onto the accumulator.
pub open spec fn sp_account_list(elems: Seq<JsonVal>, k: int, acc: Seq<AccountV>) -> Result<
    Seq<AccountV>,
    DecodeError,
>
    decreases elems.len() - k,
{
    if 0 <= k < elems.len() {
        match sp_account(elems[k]) {
            Err(e) => Err(e),
            Ok(a) => sp_account_list(elems, k + 1, acc.push(a)),
        }
    } else {
        Ok(acc)
    }
}

/// A payload that is a flat list of accounts.
pub open spec fn sp_accounts(j: JsonVal) -> Result<Seq<AccountV>, DecodeError> {
    match j {
        JsonVal::Arr(elems) => sp_account_list(elems, 0, Seq::empty()),
        _ => Err(DecodeError::WrongType),
    }
}

/// The operations from index `k` on, onto the accumulator.
pub open spec fn sp_operation_list(elems: Seq<JsonVal>, k: int, acc: Seq<OperationV>) -> Result<
    Seq<OperationV>,
    DecodeError,
>
    decreases elems.len() - k,
{
    if 0 <= k < elems.len() {
        match sp_operation(elems[k]) {
            Err(e) => Err(e),
            Ok(o) => sp_operation_list(elems, k + 1, acc.push(o)),
        }
    } else {
        Ok(acc)
    }
}

/// A payload that is a list of operations.
pub open spec fn sp_operations(j: JsonVal) -> Result<Seq<OperationV>, DecodeError> {
    match j {
        JsonVal::Arr(elems) => sp_operation_list(elems, 0, Seq::empty()),
        _ => Err(DecodeError::WrongType),
    }
}

/// The strings from index `k` on, onto the accumulator; every element must be
/// text.
pub open spec fn sp_text_list(elems: Seq<JsonVal>, k: int, acc: Seq<Seq<char>>) -> Result<
    Seq<Seq<char>>,
    DecodeError,
>
    decreases elems.len() - k,
{
    if 0 <= k < elems.len() {
        match sp_text(elems[k]) {
            Err(e) => Err(e),
            Ok(t) => sp_text_list(elems, k + 1, acc.push(t)),
        }
    } else {
        Ok(acc)
    }
}

/// The envelope fields shared by every response, with the payload still
/// undecoded.
pub ghost struct EnvParts {
    pub result_code: ResultCode,
    pub payload: Option<JsonVal>,
    pub confirmations: Option<Seq<Seq<char>>>,
    pub initial_operation: Option<Seq<char>>,
    pub operation_ticket: Option<Seq<char>>,
}

/// Decodes the uniform envelope: a required result code; an optional raw
/// payload (absent or null means none); optional confirmations, which must be
/// a list of strings; and the optional initial-operation and
/// operation-ticket strings.
pub open spec fn sp_envelope(j: JsonVal) -> Result<EnvParts, DecodeError> {
    match j {
        JsonVal::Obj(ms) => match sp_lookup(ms, 0, "resultCode"@) {
            None => Err(DecodeError::MissingField),
            Some(rv) => match sp_result_code(rv) {
                Err(e) => Err(e),
                Ok(rc) => {
                    let payload = match sp_lookup(ms, 0, "payload"@) {
                        None => None,
                        Some(JsonVal::Null) => None,
                        Some(p) => Some(p),
                    };
                    let confs = match sp_lookup(ms, 0, "confirmations"@) {
                        None => Ok(None),
                        Some(JsonVal::Null) => Ok(None),
                        Some(JsonVal::Arr(elems)) => match sp_text_list(elems, 0, Seq::empty()) {
                            Err(e) => Err(e),
                            Ok(ts) => Ok(Some(ts)),
                        },
                        Some(_) => Err(DecodeError::WrongType),
                    };
                    let io = sp_opt_text(ms, "initialOperation"@);
                    let ot = sp_opt_text(ms, "operationTicket"@);
                    if confs is Err {
                        Err(confs->Err_0)
                    } else if io is Err {
                        Err(io->Err_0)
                    } else if ot is Err {
                        Err(ot->Err_0)
                    } else {
                        Ok(
                            EnvParts {
                                result_code: rc,
                                payload,
                                confirmations: confs->Ok_0,
                                initial_operation: io->Ok_0,
                                operation_ticket: ot->Ok_0,
                            },
                        )
                    }
                },
            },
        },
        _ => Err(DecodeError::WrongType),
    }
}

/// An envelope view with the given decoded payload in place of the raw one.
pub open spec fn sp_env_with<P>(env: EnvParts, payload: Option<P>) -> ResponsePayloadV<P> {
    ResponsePayloadV {
        result_code: env.result_code,
        payload,
        confirmations: env.confirmations,
        initial_operation: env.initial_operation,
        operation_ticket: env.operation_ticket,
    }
}

/// Decodes a list of strings, exactly as [`sp_text_list`] does.
fn decode_text_list(elems: &Vec<Json>, k: usize, acc: Vec<String>) -> (r: Result<
    Vec<String>,
    DecodeError,
>)
    requires
        k <= elems@.len(),
    ensures
        match r {
            Ok(v) => sp_text_list(crate::json::vec_views(elems@), k as int, seq_views(acc@)) == Ok::<
                Seq<Seq<char>>,
                DecodeError,
            >(seq_views(v@)),
            Err(e) => sp_text_list(crate::json::vec_views(elems@), k as int, seq_views(acc@))
                == Err::<Seq<Seq<char>>, DecodeError>(e),
        },
    decreases elems@.len() - k,
{
    if k < elems.len() {
        proof {
            assert(crate::json::vec_views(elems@)[k as int] == elems@[k as int]@);
        }
        match decode_text(&elems[k]) {
            Err(e) => Err(e),
            Ok(t) => {
                proof {
                    lemma_seq_views_push(acc@, t);
                }
                let mut acc = acc;
                acc.push(t);
                decode_text_list(elems, k + 1, acc)
            },
        }
    } else {
        Ok(acc)
    }
}

/// Decodes a list of accounts, exactly as [`sp_account_list`] does.
fn decode_account_list(elems: &Vec<Json>, k: usize, acc: Vec<Account>) -> (r: Result<
    Vec<Account>,
    DecodeError,
>)
    requires
        k <= elems@.len(),
    ensures
        match r {
            Ok(v) => sp_account_list(crate::json::vec_views(elems@), k as int, seq_views(acc@))
                == Ok::<Seq<AccountV>, DecodeError>(seq_views(v@)),
            Err(e) => sp_account_list(crate::json::vec_views(elems@), k as int, seq_views(acc@))
                == Err::<Seq<AccountV>, DecodeError>(e),
        },
    decreases elems@.len() - k,
{
    if k < elems.len() {
        proof {
            assert(crate::json::vec_views(elems@)[k as int] == elems@[k as int]@);
        }
        match decode_account(&elems[k]) {
            Err(e) => Err(e),
            Ok(a) => {
                proof {
                    lemma_seq_views_push(acc@, a);
                }
                let mut acc = acc;
                acc.push(a);
                decode_account_list(elems, k + 1, acc)
            },
        }
    } else {
        Ok(acc)
    }
}

/// Decodes a list of operations, exactly as [`sp_operation_list`] does.
fn decode_operation_list(elems: &Vec<Json>, k: usize, acc: Vec<Operation>) -> (r: Result<
    Vec<Operation>,
    DecodeError,
>)
    requires
        k <= elems@.len(),
    ensures
        match r {
            Ok(v) => sp_operation_list(crate::json::vec_views(elems@), k as int, seq_views(acc@))
                == Ok::<Seq<OperationV>, DecodeError>(seq_views(v@)),
            Err(e) => sp_operation_list(crate::json::vec_views(elems@), k as int, seq_views(acc@))
                == Err::<Seq<OperationV>, DecodeError>(e),
        },
    decreases elems@.len() - k,
{
    if k < elems.len() {
        proof {
            assert(crate::json::vec_views(elems@)[k as int] == elems@[k as int]@);
        }
        match decode_operation_payload(&elems[k]) {
            Err(e) => Err(e),
            Ok(o) => {
                proof {
                    lemma_seq_views_push(acc@, o);
                }
                let mut acc = acc;
                acc.push(o);
                decode_operation_list(elems, k + 1, acc)
            },
        }
    } else {
        Ok(acc)
    }
}

/// Decodes the envelope frame, exactly as [`sp_envelope`] does; the payload
/// comes back raw, for the per-operation decoders to finish.
fn decode_envelope<'a>(j: &'a Json) -> (r: Result<
    (ResultCode, Option<&'a Json>, Option<Vec<String>>, Option<String>, Option<String>),
    DecodeError,
>)
    ensures
        match r {
            Ok((rc, p, c, io, ot)) => sp_envelope(j@) matches Ok(env) && env.result_code == rc
                && env.payload == (match p {
                Some(pj) => Some(pj@),
                None => None,
            }) && env.confirmations == opt_strings_view(c) && env.initial_operation
                == crate::data_structs::opt_view(io) && env.operation_ticket
                == crate::data_structs::opt_view(ot),
            Err(e) => sp_envelope(j@) == Err::<EnvParts, DecodeError>(e),
        },
{
    match j {
        Json::Obj(ms) => {
            proof {
                crate::json::lemma_obj_view(*ms);
            }
            match lookup(ms, 0, &"resultCode".to_owned()) {
                None => Err(DecodeError::MissingField),
                Some(rv) => match decode_result_code(rv) {
                    Err(e) => Err(e),
                    Ok(rc) => {
                        let payload = match lookup(ms, 0, &"payload".to_owned()) {
                            None => None,
                            Some(Json::Null) => None,
                            Some(p) => Some(p),
                        };
                        let confs = match lookup(ms, 0, &"confirmations".to_owned()) {
                            None => Ok(None),
                            Some(Json::Null) => Ok(None),
                            Some(Json::Arr(elems)) => {
                                proof {
                                    assert(seq_views(Seq::<String>::empty()) =~= Seq::<
                                        Seq<char>,
                                    >::empty());
                                    crate::json::lemma_arr_view(*elems);
                                }
                                match decode_text_list(elems, 0, Vec::new()) {
                                    Err(e) => Err(e),
                                    Ok(ts) => Ok(Some(ts)),
                                }
                            },
                            Some(_) => Err(DecodeError::WrongType),
                        };
                        let io = decode_opt_text(ms, &"initialOperation".to_owned());
                        let ot = decode_opt_text(ms, &"operationTicket".to_owned());
                        match (confs, io, ot) {
                            (Ok(c), Ok(i), Ok(o)) => Ok((rc, payload, c, i, o)),
                            (Err(e), _, _) => Err(e),
                            (_, Err(e), _) => Err(e),
                            (_, _, Err(e)) => Err(e),
                        }
                    },
                },
            }
        },
        _ => Err(DecodeError::WrongType),
    }
}

/// A user-info envelope, decoded from a whole response body.
pub open spec fn sp_decode_user_info(s: Seq<char>) -> Result<
    ResponsePayloadV<UserInfoV>,
    DecodeError,
> {
    match crate::json::sp_parse_json(s) {
        Err(e) => Err(e),
        Ok(j) => match sp_envelope(j) {
            Err(e) => Err(e),
            Ok(env) => match env.payload {
                None => Ok(sp_env_with(env, None)),
                Some(pj) => match sp_user_info(pj) {
                    Err(e) => Err(e),
                    Ok(u) => Ok(sp_env_with(env, Some(u))),
                },
            },
        },
    }
}

/// A session envelope, decoded from a whole response body.
pub open spec fn sp_decode_session(s: Seq<char>) -> Result<
    ResponsePayloadV<SessionV>,
    DecodeError,
> {
    match crate::json::sp_parse_json(s) {
        Err(e) => Err(e),
        Ok(j) => match sp_envelope(j) {
            Err(e) => Err(e),
            Ok(env) => match env.payload {
                None => Ok(sp_env_with(env, None)),
                Some(pj) => match sp_session(pj) {
                    Err(e) => Err(e),
                    Ok(u) => Ok(sp_env_with(env, Some(u))),
                },
            },
        },
    }
}

/// An empty-payload envelope, decoded from a whole response body.
pub open spec fn sp_decode_nothing(s: Seq<char>) -> Result<
    ResponsePayloadV<Nothing>,
    DecodeError,
> {
    match crate::json::sp_parse_json(s) {
        Err(e) => Err(e),
        Ok(j) => match sp_envelope(j) {
            Err(e) => Err(e),
            Ok(env) => match env.payload {
                None => Ok(sp_env_with(env, None)),
                Some(pj) => match sp_nothing(pj) {
                    Err(e) => Err(e),
                    Ok(u) => Ok(sp_env_with(env, Some(u))),
                },
            },
        },
    }
}

/// An account-list envelope, decoded from a whole response body.
pub open spec fn sp_decode_accounts(s: Seq<char>) -> Result<
    ResponsePayloadV<Seq<AccountV>>,
    DecodeError,
> {
    match crate::json::sp_parse_json(s) {
        Err(e) => Err(e),
        Ok(j) => match sp_envelope(j) {
            Err(e) => Err(e),
            Ok(env) => match env.payload {
                None => Ok(sp_env_with(env, None)),
                Some(pj) => match sp_accounts(pj) {
                    Err(e) => Err(e),
                    Ok(u) => Ok(sp_env_with(env, Some(u))),
                },
            },
        },
    }
}

/// An operation-list envelope, decoded from a whole response body.
pub open spec fn sp_decode_operations(s: Seq<char>) -> Result<
    ResponsePayloadV<Seq<OperationV>>,
    DecodeError,
> {
    match crate::json::sp_parse_json(s) {
        Err(e) => Err(e),
        Ok(j) => match sp_envelope(j) {
            Err(e) => Err(e),
            Ok(env) => match env.payload {
                None => Ok(sp_env_with(env, None)),
                Some(pj) => match sp_operations(pj) {
                    Err(e) => Err(e),
                    Ok(u) => Ok(sp_env_with(env, Some(u))),
                },
            },
        },
    }
}

/// Decodes a user-info envelope from a response body, exactly as
/// [`sp_decode_user_info`] says.
pub fn decode_user_info(body: &str) -> (r: Result<ResponsePayload<UserInfo>, DecodeError>)
    ensures
        match r {
            Ok(e) => sp_decode_user_info(body@) == Ok::<
                ResponsePayloadV<UserInfoV>,
                DecodeError,
            >(env_view(e)),
            Err(e) => sp_decode_user_info(body@) == Err::<
                ResponsePayloadV<UserInfoV>,
                DecodeError,
            >(e),
        },
{
    match crate::json::parse_json(body) {
        Err(e) => Err(e),
        Ok(j) => match decode_envelope(&j) {
            Err(e) => Err(e),
            Ok((rc, p, c, io, ot)) => match p {
                None => Ok(
                    ResponsePayload {
                        result_code: rc,
                        payload: None,
                        confirmations: c,
                        initial_operation: io,
                        operation_ticket: ot,
                    },
                ),
                Some(pj) => match decode_user_info_payload(pj) {
                    Err(e) => Err(e),
                    Ok(u) => Ok(
                        ResponsePayload {
                            result_code: rc,
                            payload: Some(u),
                            confirmations: c,
                            initial_operation: io,
                            operation_ticket: ot,
                        },
                    ),
                },
            },
        },
    }
}

/// Decodes a session envelope from a response body, exactly as
/// [`sp_decode_session`] says.
pub fn decode_session(body: &str) -> (r: Result<ResponsePayload<Session>, DecodeError>)
    ensures
        match r {
            Ok(e) => sp_decode_session(body@) == Ok::<
                ResponsePayloadV<SessionV>,
                DecodeError,
            >(env_view(e)),
            Err(e) => sp_decode_session(body@) == Err::<ResponsePayloadV<SessionV>, DecodeError>(
                e,
            ),
        },
{
    match crate::json::parse_json(body) {
        Err(e) => Err(e),
        Ok(j) => match decode_envelope(&j) {
            Err(e) => Err(e),
            Ok((rc, p, c, io, ot)) => match p {
                None => Ok(
                    ResponsePayload {
                        result_code: rc,
                        payload: None,
                        confirmations: c,
                        initial_operation: io,
                        operation_ticket: ot,
                    },
                ),
                Some(pj) => match decode_session_payload(pj) {
                    Err(e) => Err(e),
                    Ok(u) => Ok(
                        ResponsePayload {
                            result_code: rc,
                            payload: Some(u),
                            confirmations: c,
                            initial_operation: io,
                            operation_ticket: ot,
                        },
                    ),
                },
            },
        },
    }
}

/// Decodes an empty-payload envelope from a response body, exactly as
/// [`sp_decode_nothing`] says.
pub fn decode_nothing(body: &str) -> (r: Result<ResponsePayload<Nothing>, DecodeError>)
    ensures
        match r {
            Ok(e) => sp_decode_nothing(body@) == Ok::<
                ResponsePayloadV<Nothing>,
                DecodeError,
            >(env_view(e)),
            Err(e) => sp_decode_nothing(body@) == Err::<ResponsePayloadV<Nothing>, DecodeError>(
                e,
            ),
        },
{
    match crate::json::parse_json(body) {
        Err(e) => Err(e),
        Ok(j) => match decode_envelope(&j) {
            Err(e) => Err(e),
            Ok((rc, p, c, io, ot)) => match p {
                None => Ok(
                    ResponsePayload {
                        result_code: rc,
                        payload: None,
                        confirmations: c,
                        initial_operation: io,
                        operation_ticket: ot,
                    },
                ),
                Some(pj) => match decode_nothing_payload(pj) {
                    Err(e) => Err(e),
                    Ok(u) => Ok(
                        ResponsePayload {
                            result_code: rc,
                            payload: Some(u),
                            confirmations: c,
                            initial_operation: io,
                            operation_ticket: ot,
                        },
                    ),
                },
            },
        },
    }
}

/// Decodes an account-list envelope from a response body, exactly as
/// [`sp_decode_accounts`] says.
pub fn decode_accounts(body: &str) -> (r: Result<ResponsePayload<Vec<Account>>, DecodeError>)
    ensures
        match r {
            Ok(e) => sp_decode_accounts(body@) == Ok::<
                ResponsePayloadV<Seq<AccountV>>,
                DecodeError,
            >(env_views(e)),
            Err(e) => sp_decode_accounts(body@) == Err::<
                ResponsePayloadV<Seq<AccountV>>,
                DecodeError,
            >(e),
        },
{
    match crate::json::parse_json(body) {
        Err(e) => Err(e),
        Ok(j) => match decode_envelope(&j) {
            Err(e) => Err(e),
            Ok((rc, p, c, io, ot)) => match p {
                None => Ok(
                    ResponsePayload {
                        result_code: rc,
                        payload: None,
                        confirmations: c,
                        initial_operation: io,
                        operation_ticket: ot,
                    },
                ),
                Some(pj) => match pj {
                    Json::Arr(elems) => {
                        proof {
                            crate::json::lemma_arr_view(*elems);
                            assert(seq_views(Seq::<Account>::empty()) =~= Seq::<AccountV>::empty());
                        }
                        match decode_account_list(elems, 0, Vec::new()) {
                            Err(e) => Err(e),
                            Ok(v) => Ok(
                                ResponsePayload {
                                    result_code: rc,
                                    payload: Some(v),
                                    confirmations: c,
                                    initial_operation: io,
                                    operation_ticket: ot,
                                },
                            ),
                        }
                    },
                    _ => Err(DecodeError::WrongType),
                },
            },
        },
    }
}

/// Decodes an operation-list envelope from a response body, exactly as
/// [`sp_decode_operations`] says.
pub fn decode_operations(body: &str) -> (r: Result<ResponsePayload<Vec<Operation>>, DecodeError>)
    ensures
        match r {
            Ok(e) => sp_decode_operations(body@) == Ok::<
                ResponsePayloadV<Seq<OperationV>>,
                DecodeError,
            >(env_views(e)),
            Err(e) => sp_decode_operations(body@) == Err::<
                ResponsePayloadV<Seq<OperationV>>,
                DecodeError,
            >(e),
        },
{
    match crate::json::parse_json(body) {
        Err(e) => Err(e),
        Ok(j) => match decode_envelope(&j) {
            Err(e) => Err(e),
            Ok((rc, p, c, io, ot)) => match p {
                None => Ok(
                    ResponsePayload {
                        result_code: rc,
                        payload: None,
                        confirmations: c,
                        initial_operation: io,
                        operation_ticket: ot,
                    },
                ),
                Some(pj) => match pj {
                    Json::Arr(elems) => {
                        proof {
                            crate::json::lemma_arr_view(*elems);
                            assert(seq_views(Seq::<Operation>::empty()) =~= Seq::<
                                OperationV,
                            >::empty());
                        }
                        match decode_operation_list(elems, 0, Vec::new()) {
                            Err(e) => Err(e),
                            Ok(v) => Ok(
                                ResponsePayload {
                                    result_code: rc,
                                    payload: Some(v),
                                    confirmations: c,
                                    initial_operation: io,
                                    operation_ticket: ot,
                                },
                            ),
                        }
                    },
                    _ => Err(DecodeError::WrongType),
                },
            },
        },
    }
}

/// One operation decoded from a JSON document of its own, for round trips.
pub open spec fn sp_decode_operation(s: Seq<char>) -> Result<OperationV, DecodeError> {
    match crate::json::sp_parse_json(s) {
        Err(e) => Err(e),
        Ok(j) => sp_operation(j),
    }
}

/// Decodes one operation from a JSON document, exactly as
/// [`sp_decode_operation`] says.
pub fn decode_operation(body: &str) -> (r: Result<Operation, DecodeError>)
    ensures
        match r {
            Ok(o) => sp_decode_operation(body@) == Ok::<OperationV, DecodeError>(o@),
            Err(e) => sp_decode_operation(body@) == Err::<OperationV, DecodeError>(e),
        },
{
    match crate::json::parse_json(body) {
        Err(e) => Err(e),
        Ok(j) => decode_operation_payload(&j),
    }
}

/// One account decoded from a JSON document of its own, for round trips.
pub open spec fn sp_decode_account(s: Seq<char>) -> Result<AccountV, DecodeError> {
    match crate::json::sp_parse_json(s) {
        Err(e) => Err(e),
        Ok(j) => sp_account(j),
    }
}

/// Decodes one account from a JSON document, exactly as
/// [`sp_decode_account`] says.
pub fn decode_account_entity(body: &str) -> (r: Result<Account, DecodeError>)
    ensures
        match r {
            Ok(a) => sp_decode_account(body@) == Ok::<AccountV, DecodeError>(a@),
            Err(e) => sp_decode_account(body@) == Err::<AccountV, DecodeError>(e),
        },
{
    match crate::json::parse_json(body) {
        Err(e) => Err(e),
        Ok(j) => decode_account(&j),
    }
}

/// The wire literal of a currency.
pub open spec fn sp_currency_text(c: Currency) -> Seq<char> {
    match c {
        Currency::RUB => "RUB"@,
        Currency::USD => "USD"@,
        Currency::EUR => "EUR"@,
        Currency::BYN => "BYN"@,
    }
}

/// The wire literal of an access level.
pub open spec fn sp_access_text(l: AccessLevel) -> Seq<char> {
    match l {
        AccessLevel::Anonymous => "ANONYMOUS"@,
        AccessLevel::Candidate => "CANDIDATE"@,
        AccessLevel::Client => "CLIENT"@,
    }
}

/// The wire literal of an operation type.
pub open spec fn sp_type_text(t: OperationType) -> Seq<char> {
    match t {
        OperationType::Credit => "Credit"@,
        OperationType::Debit => "Debit"@,
    }
}

/// The wire literal of an operation group.
pub open spec fn sp_group_text(g: OperationGroup) -> Seq<char> {
    match g {
        OperationGroup::Pay => "PAY"@,
        OperationGroup::Income => "INCOME"@,
        OperationGroup::Transfer => "TRANSFER"@,
        OperationGroup::Cash => "CASH"@,
        OperationGroup::Correction => "CORRECTION"@,
        OperationGroup::Charge => "CHARGE"@,
        OperationGroup::Internal => "INTERNAL"@,
    }
}

/// A currency serialized back into its `{name: <code>}` wrapper.
pub open spec fn sp_json_of_currency(c: Currency) -> JsonVal {
    JsonVal::Obj(seq![("name"@, JsonVal::Text(sp_currency_text(c)))])
}

/// A money amount serialized back to the wire shape.
pub open spec fn sp_json_of_money(m: MoneyAmount) -> JsonVal {
    JsonVal::Obj(
        seq![
            ("currency"@, sp_json_of_currency(m.currency)),
            ("value"@, JsonVal::Num(m.value)),
        ],
    )
}

/// A `{name: s}` wrapper.
pub open spec fn sp_json_of_name(t: Seq<char>) -> JsonVal {
    JsonVal::Obj(seq![("name"@, JsonVal::Text(t))])
}

/// The decimal that denotes the given epoch milliseconds.
pub open spec fn sp_ms_decimal(t: i64) -> Decimal {
    Decimal {
        negative: t < 0,
        mantissa: (if t >= 0 {
            t as int
        } else {
            -(t as int)
        }) as u64,
        scale: 0,
    }
}

/// A user info serialized back to the wire shape.
pub open spec fn sp_json_of_user_info(u: UserInfoV) -> JsonVal {
    JsonVal::Obj(
        seq![
            ("accessLevel"@, JsonVal::Text(sp_access_text(u.access_level))),
            ("userId"@, JsonVal::Text(u.user_id)),
        ],
    )
}

/// A session serialized back to the wire shape.
pub open spec fn sp_json_of_session(s: SessionV) -> JsonVal {
    JsonVal::Obj(
        seq![
            ("sessionid"@, JsonVal::Text(s.id)),
            ("ttl"@, JsonVal::Num(Decimal { negative: false, mantissa: s.ttl as u64, scale: 0 })),
        ],
    )
}

/// An account serialized back to the wire shape.
pub open spec fn sp_json_of_account(a: AccountV) -> JsonVal {
    JsonVal::Obj(
        seq![
            ("externalAccountNumber"@, JsonVal::Text(a.external_number)),
            ("accountGroup"@, JsonVal::Text(a.group)),
            ("moneyAmount"@, sp_json_of_money(a.money_amount)),
            ("name"@, JsonVal::Text(a.name)),
            ("id"@, JsonVal::Text(a.id)),
        ],
    )
}

/// An operation serialized back to the wire shape: the required fields in
/// the vendor's order, the wrappers rebuilt, and each optional field emitted
/// only when present.
pub open spec fn sp_json_of_operation(o: OperationV) -> JsonVal {
    let base = seq![
        ("id"@, JsonVal::Text(o.id)),
        ("type"@, JsonVal::Text(sp_type_text(o.operation_type))),
        ("description"@, JsonVal::Text(o.description)),
        ("amount"@, sp_json_of_money(o.amount)),
        ("accountAmount"@, sp_json_of_money(o.account_amount)),
        (
            "operationTime"@,
            JsonVal::Obj(seq![("milliseconds"@, JsonVal::Num(sp_ms_decimal(o.operation_time)))]),
        ),
        ("spendingCategory"@, sp_json_of_name(o.spending_category)),
        ("mcc"@, JsonVal::Num(Decimal { negative: false, mantissa: o.mcc as u64, scale: 0 })),
        ("category"@, sp_json_of_name(o.category)),
        ("account"@, JsonVal::Text(o.account)),
        ("group"@, JsonVal::Text(sp_group_text(o.group))),
    ];
    let s1 = base.push(
        (
            "subcategory"@,
            match o.subcategory {
                Some(t) => JsonVal::Text(t),
                None => JsonVal::Null,
            },
        ),
    );
    let s2 = s1.push(
        (
            "merchant"@,
            match o.merchant {
                Some(t) => sp_json_of_name(t),
                None => JsonVal::Null,
            },
        ),
    );
    let s3 = s2.push(
        (
            "subgroup"@,
            match o.subgroup {
                Some(t) => sp_json_of_name(t),
                None => JsonVal::Null,
            },
        ),
    );
    JsonVal::Obj(s3)
}

/// Serializes a currency, exactly as [`sp_json_of_currency`] says.
fn currency_to_json(c: &Currency) -> (r: Json)
    ensures
        r@ == sp_json_of_currency(*c),
{
    let code: String = match c {
        Currency::RUB => "RUB".to_owned(),
        Currency::USD => "USD".to_owned(),
        Currency::EUR => "EUR".to_owned(),
        Currency::BYN => "BYN".to_owned(),
    };
    let mut ms: Vec<(String, Json)> = Vec::new();
    ms.push(("name".to_owned(), Json::Text(code)));
    proof {
        crate::json::lemma_obj_view(ms);
        assert(member_views(ms@) =~= seq![("name"@, JsonVal::Text(sp_currency_text(*c)))]);
    }
    Json::Obj(ms)
}

/// Serializes a money amount, exactly as [`sp_json_of_money`] says.
fn money_to_json(m: &MoneyAmount) -> (r: Json)
    ensures
        r@ == sp_json_of_money(*m),
{
    let mut ms: Vec<(String, Json)> = Vec::new();
    ms.push(("currency".to_owned(), currency_to_json(&m.currency)));
    ms.push(("value".to_owned(), Json::Num(m.value)));
    proof {
        crate::json::lemma_obj_view(ms);
        assert(member_views(ms@) =~= seq![
            ("currency"@, sp_json_of_currency(m.currency)),
            ("value"@, JsonVal::Num(m.value)),
        ]);
    }
    Json::Obj(ms)
}

/// Serializes a `{name: s}` wrapper, exactly as [`sp_json_of_name`] says.
fn name_to_json(t: &String) -> (r: Json)
    ensures
        r@ == sp_json_of_name(t@),
{
    let mut ms: Vec<(String, Json)> = Vec::new();
    ms.push(("name".to_owned(), Json::Text(t.clone())));
    proof {
        crate::json::lemma_obj_view(ms);
        assert(member_views(ms@) =~= seq![("name"@, JsonVal::Text(t@))]);
    }
    Json::Obj(ms)
}

/// The decimal of the given epoch milliseconds, exactly as
/// [`sp_ms_decimal`] says.
fn ms_decimal(t: i64) -> (r: Decimal)
    ensures
        r == sp_ms_decimal(t),
{
    if t >= 0 {
        Decimal { negative: false, mantissa: t as u64, scale: 0 }
    } else {
        let m: u64 = (-(t as i128)) as u64;
        Decimal { negative: true, mantissa: m, scale: 0 }
    }
}

/// Serializes a user info, exactly as [`sp_json_of_user_info`] says.
fn user_info_to_json(u: &UserInfo) -> (r: Json)
    ensures
        r@ == sp_json_of_user_info(u@),
{
    let level: String = match u.access_level {
        AccessLevel::Anonymous => "ANONYMOUS".to_owned(),
        AccessLevel::Candidate => "CANDIDATE".to_owned(),
        AccessLevel::Client => "CLIENT".to_owned(),
    };
    let mut ms: Vec<(String, Json)> = Vec::new();
    ms.push(("accessLevel".to_owned(), Json::Text(level)));
    ms.push(("userId".to_owned(), Json::Text(u.user_id.clone())));
    proof {
        crate::json::lemma_obj_view(ms);
        assert(member_views(ms@) =~= seq![
            ("accessLevel"@, JsonVal::Text(sp_access_text(u.access_level))),
            ("userId"@, JsonVal::Text(u.user_id@)),
        ]);
    }
    Json::Obj(ms)
}

/// Serializes a session, exactly as [`sp_json_of_session`] says.
fn session_to_json(s: &Session) -> (r: Json)
    ensures
        r@ == sp_json_of_session(s@),
{
    let mut ms: Vec<(String, Json)> = Vec::new();
    ms.push(("sessionid".to_owned(), Json::Text(s.id.clone())));
    ms.push(
        (
            "ttl".to_owned(),
            Json::Num(Decimal { negative: false, mantissa: s.ttl as u64, scale: 0 }),
        ),
    );
    proof {
        crate::json::lemma_obj_view(ms);
        assert(member_views(ms@) =~= seq![
            ("sessionid"@, JsonVal::Text(s.id@)),
            (
                "ttl"@,
                JsonVal::Num(Decimal { negative: false, mantissa: s.ttl as u64, scale: 0 }),
            ),
        ]);
    }
    Json::Obj(ms)
}

/// Serializes an account, exactly as [`sp_json_of_account`] says.
fn account_to_json(a: &Account) -> (r: Json)
    ensures
        r@ == sp_json_of_account(a@),
{
    let mut ms: Vec<(String, Json)> = Vec::new();
    ms.push(("externalAccountNumber".to_owned(), Json::Text(a.external_number.clone())));
    ms.push(("accountGroup".to_owned(), Json::Text(a.group.clone())));
    ms.push(("moneyAmount".to_owned(), money_to_json(&a.money_amount)));
    ms.push(("name".to_owned(), Json::Text(a.name.clone())));
    ms.push(("id".to_owned(), Json::Text(a.id.clone())));
    proof {
        crate::json::lemma_obj_view(ms);
        assert(member_views(ms@) =~= seq![
            ("externalAccountNumber"@, JsonVal::Text(a.external_number@)),
            ("accountGroup"@, JsonVal::Text(a.group@)),
            ("moneyAmount"@, sp_json_of_money(a.money_amount)),
            ("name"@, JsonVal::Text(a.name@)),
            ("id"@, JsonVal::Text(a.id@)),
        ]);
    }
    Json::Obj(ms)
}

/// Serializes an operation, exactly as [`sp_json_of_operation`] says.
#[verifier::spinoff_prover]
#[verifier::rlimit(50)]
fn operation_to_json(o: &Operation) -> (r: Json)
    ensures
        r@ == sp_json_of_operation(o@),
{
    let ty: String = match o.operation_type {
        OperationType::Credit => "Credit".to_owned(),
        OperationType::Debit => "Debit".to_owned(),
    };
    let gr: String = match o.group {
        OperationGroup::Pay => "PAY".to_owned(),
        OperationGroup::Income => "INCOME".to_owned(),
        OperationGroup::Transfer => "TRANSFER".to_owned(),
        OperationGroup::Cash => "CASH".to_owned(),
        OperationGroup::Correction => "CORRECTION".to_owned(),
        OperationGroup::Charge => "CHARGE".to_owned(),
        OperationGroup::Internal => "INTERNAL".to_owned(),
    };
    let mut tms: Vec<(String, Json)> = Vec::new();
    tms.push(("milliseconds".to_owned(), Json::Num(ms_decimal(o.operation_time))));
    proof {
        crate::json::lemma_obj_view(tms);
        assert(member_views(tms@) =~= seq![
            ("milliseconds"@, JsonVal::Num(sp_ms_decimal(o.operation_time))),
        ]);
    }
    let time = Json::Obj(tms);
    let mut ms: Vec<(String, Json)> = Vec::new();
    ms.push(("id".to_owned(), Json::Text(o.id.clone())));
    ms.push(("type".to_owned(), Json::Text(ty)));
    ms.push(("description".to_owned(), Json::Text(o.description.clone())));
    ms.push(("amount".to_owned(), money_to_json(&o.amount)));
    ms.push(("accountAmount".to_owned(), money_to_json(&o.account_amount)));
    ms.push(("operationTime".to_owned(), time));
    ms.push(("spendingCategory".to_owned(), name_to_json(&o.spending_category)));
    ms.push(
        (
            "mcc".to_owned(),
            Json::Num(Decimal { negative: false, mantissa: o.mcc as u64, scale: 0 }),
        ),
    );
    ms.push(("category".to_owned(), name_to_json(&o.category)));
    ms.push(("account".to_owned(), Json::Text(o.account.clone())));
    ms.push(("group".to_owned(), Json::Text(gr)));
    let subcategory = match &o.subcategory {
        Some(t) => Json::Text(t.clone()),
        None => Json::Null,
    };
    ms.push(("subcategory".to_owned(), subcategory));
    let merchant = match &o.merchant {
        Some(t) => name_to_json(t),
        None => Json::Null,
    };
    ms.push(("merchant".to_owned(), merchant));
    let subgroup = match &o.subgroup {
        Some(t) => name_to_json(t),
        None => Json::Null,
    };
    ms.push(("subgroup".to_owned(), subgroup));
    proof {
        crate::json::lemma_obj_view(ms);
        assert(member_views(ms@) =~= sp_json_of_operation(o@)->Obj_0);
    }
    Json::Obj(ms)
}

/// Serializes a user info compactly.
pub fn encode_user_info(u: &UserInfo) -> (r: String)
    ensures
        r@ == crate::json::sp_render(sp_json_of_user_info(u@)),
{
    crate::json::render_json(&user_info_to_json(u))
}

/// Serializes a session compactly.
pub fn encode_session(s: &Session) -> (r: String)
    ensures
        r@ == crate::json::sp_render(sp_json_of_session(s@)),
{
    crate::json::render_json(&session_to_json(s))
}

/// Serializes an account compactly.
pub fn encode_account(a: &Account) -> (r: String)
    ensures
        r@ == crate::json::sp_render(sp_json_of_account(a@)),
{
    crate::json::render_json(&account_to_json(a))
}

/// Serializes an operation compactly.
pub fn encode_operation(o: &Operation) -> (r: String)
    ensures
        r@ == crate::json::sp_render(sp_json_of_operation(o@)),
{
    crate::json::render_json(&operation_to_json(o))
}

/// Law: serializing any currency back to its wire document and decoding
/// that document gives the same currency back.
pub proof fn lemma_currency_round_trip(c: Currency)
    ensures
        sp_currency(sp_json_of_currency(c)) == Ok::<Currency, DecodeError>(c),
{
    reveal_strlit("name");
    reveal_strlit("RUB");
    reveal_strlit("USD");
    reveal_strlit("EUR");
    reveal_strlit("BYN");
    assert("RUB"@[0] == 'R');
    assert("USD"@[0] == 'U');
    assert("EUR"@[0] == 'E');
    assert("BYN"@[0] == 'B');
}

/// Law: serializing any money amount back to its wire document and
/// decoding that document gives the same amount back, to the exact decimal.
pub proof fn lemma_money_round_trip(m: MoneyAmount)
    ensures
        sp_money(sp_json_of_money(m)) == Ok::<MoneyAmount, DecodeError>(m),
{
    reveal_with_fuel(sp_lookup, 5);
    lemma_currency_round_trip(m.currency);
    reveal_strlit("currency");
    reveal_strlit("value");
    assert("currency"@.len() == 8);
    assert("value"@.len() == 5);
}

/// Law: serializing any user info back to its wire document and decoding
/// that document gives the same value back, the empty user id included.
pub proof fn lemma_user_info_round_trip(u: UserInfoV)
    ensures
        sp_user_info(sp_json_of_user_info(u)) == Ok::<UserInfoV, DecodeError>(u),
{
    reveal_with_fuel(sp_lookup, 5);
    reveal_strlit("accessLevel");
    reveal_strlit("userId");
    reveal_strlit("ANONYMOUS");
    reveal_strlit("CANDIDATE");
    reveal_strlit("CLIENT");
    assert("accessLevel"@.len() == 11);
    assert("userId"@.len() == 6);
    assert("ANONYMOUS"@[0] == 'A');
    assert("CANDIDATE"@[0] == 'C');
    assert("CLIENT"@.len() == 6);
}

/// Law: serializing any session back to its wire document and decoding
/// that document gives the same session back.
pub proof fn lemma_session_round_trip(s: SessionV)
    ensures
        sp_session(sp_json_of_session(s)) == Ok::<SessionV, DecodeError>(s),
{
    reveal_with_fuel(sp_lookup, 5);
    reveal_strlit("sessionid");
    reveal_strlit("ttl");
    assert("sessionid"@.len() == 9);
    assert("ttl"@.len() == 3);
}

/// Law: serializing any account back to its wire document and decoding
/// that document gives the same account back, every field included.
pub proof fn lemma_account_round_trip(a: AccountV)
    ensures
        sp_account(sp_json_of_account(a)) == Ok::<AccountV, DecodeError>(a),
{
    reveal_with_fuel(sp_lookup, 8);
    lemma_money_round_trip(a.money_amount);
    reveal_strlit("externalAccountNumber");
    reveal_strlit("accountGroup");
    reveal_strlit("moneyAmount");
    reveal_strlit("name");
    reveal_strlit("id");
    assert("externalAccountNumber"@.len() == 21);
    assert("accountGroup"@.len() == 12);
    assert("moneyAmount"@.len() == 11);
    assert("name"@.len() == 4);
    assert("id"@.len() == 2);
}

/// Law: any point in time survives its decimal wire form exactly, over
/// the whole signed range.
pub proof fn lemma_millis_round_trip(t: i64)
    ensures
        sp_millis(JsonVal::Num(sp_ms_decimal(t))) == Ok::<i64, DecodeError>(t),
{
}

/// Law: serializing any operation back to its wire document and decoding
/// that document yields an equal value for every field, the three optional
/// ones included, whether absent or present.
#[verifier::spinoff_prover]
#[verifier::rlimit(100)]
pub proof fn lemma_operation_round_trip(o: OperationV)
    ensures
        sp_operation(sp_json_of_operation(o)) == Ok::<OperationV, DecodeError>(o),
{
    reveal_with_fuel(sp_lookup, 17);
    lemma_money_round_trip(o.amount);
    lemma_money_round_trip(o.account_amount);
    lemma_millis_round_trip(o.operation_time);
    reveal_strlit("id");
    reveal_strlit("type");
    reveal_strlit("description");
    reveal_strlit("amount");
    reveal_strlit("accountAmount");
    reveal_strlit("operationTime");
    reveal_strlit("milliseconds");
    reveal_strlit("spendingCategory");
    reveal_strlit("mcc");
    reveal_strlit("category");
    reveal_strlit("account");
    reveal_strlit("group");
    reveal_strlit("subcategory");
    reveal_strlit("merchant");
    reveal_strlit("subgroup");
    reveal_strlit("name");
    reveal_strlit("Credit");
    reveal_strlit("Debit");
    reveal_strlit("PAY");
    reveal_strlit("INCOME");
    reveal_strlit("TRANSFER");
    reveal_strlit("CASH");
    reveal_strlit("CORRECTION");
    reveal_strlit("CHARGE");
    reveal_strlit("INTERNAL");
    assert("id"@.len() == 2);
    assert("type"@.len() == 4);
    assert("description"@.len() == 11);
    assert("amount"@.len() == 6);
    assert("accountAmount"@.len() == 13);
    assert("operationTime"@.len() == 13);
    assert("milliseconds"@.len() == 12);
    assert("spendingCategory"@.len() == 16);
    assert("mcc"@.len() == 3);
    assert("category"@.len() == 8);
    assert("account"@.len() == 7);
    assert("group"@.len() == 5);
    assert("subcategory"@.len() == 11);
    assert("merchant"@.len() == 8);
    assert("subgroup"@.len() == 8);
    assert("name"@.len() == 4);
    assert("accountAmount"@[0] == 'a');
    assert("operationTime"@[0] == 'o');
    assert("description"@[0] == 'd');
    assert("subcategory"@[0] == 's');
    assert("category"@[0] == 'c');
    assert("merchant"@[0] == 'm');
    assert("subgroup"@[0] == 's');
    assert("type"@[0] == 't');
    assert("name"@[0] == 'n');
    assert("Credit"@.len() == 6);
    assert("Debit"@.len() == 5);
    assert("PAY"@.len() == 3);
    assert("INCOME"@.len() == 6);
    assert("TRANSFER"@.len() == 8);
    assert("CASH"@.len() == 4);
    assert("CORRECTION"@.len() == 10);
    assert("CHARGE"@.len() == 6);
    assert("INTERNAL"@.len() == 8);
    assert("INCOME"@[0] == 'I');
    assert("CHARGE"@[0] == 'C');
    assert("TRANSFER"@[0] == 'T');
    assert("INTERNAL"@[0] == 'I');
}

/// Law: the whole wire round trip of an operation is lossless — serializing
/// any operation to text with [`encode_operation`] and decoding that text
/// with [`decode_operation`] yields an equal value for every field.
pub proof fn lemma_operation_text_round_trip(o: OperationV)
    ensures
        sp_decode_operation(crate::json::sp_render(sp_json_of_operation(o))) == Ok::<
            OperationV,
            DecodeError,
        >(o),
{
    crate::json::lemma_json_round_trip(sp_json_of_operation(o));
    lemma_operation_round_trip(o);
}

/// Law: the whole wire round trip of an account is lossless — serializing
/// any account to text with [`encode_account`] and decoding that text with
/// [`decode_account_entity`] yields an equal value for every field.
pub proof fn lemma_account_text_round_trip(a: AccountV)
    ensures
        sp_decode_account(crate::json::sp_render(sp_json_of_account(a))) == Ok::<
            AccountV,
            DecodeError,
        >(a),
{
    crate::json::lemma_json_round_trip(sp_json_of_account(a));
    lemma_account_round_trip(a);
}

} // verus!

//! The report protocol: validates an incoming status report, persists it,
//! and classifies the outcome; and registers agreement detail after
//! validating its required fields.
//!
//! Validation happens entirely before the store is touched: malformed input
//! never reaches a table. A missing detail row is not an error — the status
//! is durably recorded either way, and the outcome only tells the caller
//! whether detail metadata was already known.
use vstd::prelude::*;

use crate::amount::{canon_decimal, is_decimal_literal, Amount};
use crate::model::{AgreementInfo, ReportResult, Role, Status, Timestamp};
use crate::store::{keyv, KeyV, StatusDao};
use crate::time::{parse_rfc3339, rfc3339_ms_of};

verus! {

/// A status report as it arrives over the wire: amounts as decimal text,
/// timestamps as RFC 3339 text.
#[derive(Debug)]
pub struct RawStatus {
    pub requested: String,
    pub accepted: String,
    pub confirmed: String,
    pub ts: String,
    pub payment_due_ts: Option<String>,
}

/// Why a request was rejected before any store write.
#[derive(Clone, Copy, Debug, PartialEq, Eq, Structural)]
pub enum ValidationError {
    /// The requested amount does not decode as a decimal.
    BadRequested,
    /// The accepted amount does not decode as a decimal.
    BadAccepted,
    /// The confirmed amount does not decode as a decimal.
    BadConfirmed,
    /// The event timestamp does not decode, or lies outside the calendar
    /// range.
    BadTimestamp,
    /// The payment-due timestamp does not decode, or lies outside the
    /// calendar range.
    BadPaymentDueTimestamp,
    /// The detail's payment platform is empty.
    MissingPaymentPlatform,
    /// The detail's payment address is empty.
    MissingPaymentAddress,
}

/// A wire timestamp that decodes to an instant the library accepts.
pub open spec fn ts_text_valid(s: Seq<char>) -> bool {
    &&& rfc3339_ms_of(s) is Some
    &&& Timestamp { ms: rfc3339_ms_of(s)->0 as i64 }.wf()
    &&& rfc3339_ms_of(s)->0 == rfc3339_ms_of(s)->0 as i64 as int
}

/// A raw status whose every field decodes.
pub open spec fn raw_status_valid(raw: RawStatus) -> bool {
    &&& is_decimal_literal(raw.requested@)
    &&& is_decimal_literal(raw.accepted@)
    &&& is_decimal_literal(raw.confirmed@)
    &&& ts_text_valid(raw.ts@)
    &&& (raw.payment_due_ts is Some ==> ts_text_valid(raw.payment_due_ts->0@))
}

/// The rejection a raw status earns, checked in field order; meaningful only
/// when some field is malformed.
pub open spec fn raw_status_error(raw: RawStatus) -> ValidationError {
    if !is_decimal_literal(raw.requested@) {
        ValidationError::BadRequested
    } else if !is_decimal_literal(raw.accepted@) {
        ValidationError::BadAccepted
    } else if !is_decimal_literal(raw.confirmed@) {
        ValidationError::BadConfirmed
    } else if !ts_text_valid(raw.ts@) {
        ValidationError::BadTimestamp
    } else {
        ValidationError::BadPaymentDueTimestamp
    }
}

/// Decodes and validates a wire status; the store is never involved.
/// Succeeds exactly on a fully well-formed report, and then carries the
/// canonicalized amounts and the decoded timestamps.
pub fn decode_status(raw: &RawStatus) -> (r: Result<Status, ValidationError>)
    ensures
        r is Ok <==> raw_status_valid(*raw),
        r is Err ==> r->Err_0 == raw_status_error(*raw),
        r is Ok ==> {
            let st = r->Ok_0;
            &&& st.wf()
            &&& st.requested@ == canon_decimal(raw.requested@)
            &&& st.accepted@ == canon_decimal(raw.accepted@)
            &&& st.confirmed@ == canon_decimal(raw.confirmed@)
            &&& st.ts.ms as int == rfc3339_ms_of(raw.ts@)->0
            &&& (st.payment_due_ts is Some <==> raw.payment_due_ts is Some)
            &&& (raw.payment_due_ts is Some ==> st.payment_due_ts->0.ms as int == rfc3339_ms_of(
                raw.payment_due_ts->0@,
            )->0)
            &&& st.payment is None
        },
{
    let requested = match Amount::parse(raw.requested.as_str()) {
        Some(a) => a,
        None => {
            return Err(ValidationError::BadRequested);
        },
    };
    let accepted = match Amount::parse(raw.accepted.as_str()) {
        Some(a) => a,
        None => {
            return Err(ValidationError::BadAccepted);
        },
    };
    let confirmed = match Amount::parse(raw.confirmed.as_str()) {
        Some(a) => a,
        None => {
            return Err(ValidationError::BadConfirmed);
        },
    };
    let ts = match decode_ts(&raw.ts) {
        Some(t) => t,
        None => {
            return Err(ValidationError::BadTimestamp);
        },
    };
    let payment_due_ts = match &raw.payment_due_ts {
        Some(text) => match decode_ts(text) {
            Some(t) => Some(t),
            None => {
                return Err(ValidationError::BadPaymentDueTimestamp);
            },
        },
        None => None,
    };
    Ok(Status { requested, accepted, confirmed, ts, payment_due_ts, payment: None })
}

/// Decodes one wire timestamp; `None` exactly when the text does not parse
/// or the instant lies outside the calendar range.
fn decode_ts(text: &String) -> (r: Option<Timestamp>)
    ensures
        r is Some <==> ts_text_valid(text@),
        r is Some ==> r->0.wf() && r->0.ms as int == rfc3339_ms_of(text@)->0,
{
    match parse_rfc3339(text.as_str()) {
        Some(ms) => Timestamp::new(ms),
        None => None,
    }
}

/// The outcome a report earns against a given detail table: `Okay` exactly
/// when detail metadata is registered for the key.
pub open spec fn report_outcome(details: Map<KeyV, AgreementInfo>, k: KeyV) -> ReportResult {
    if details.contains_key(k) {
        ReportResult::Okay {}
    } else {
        ReportResult::UnknownAgreement {}
    }
}

/// Handles one status report: validates it, upserts the status row, and
/// classifies the outcome. On a validation error the store is untouched;
/// on success the status is recorded whether or not detail metadata exists,
/// and the outcome says which it was.
pub fn save_agreement_status(
    dao: &mut StatusDao,
    role: Role,
    node_id: &String,
    agreement_id: &String,
    raw: &RawStatus,
    now: Timestamp,
) -> (r: Result<ReportResult, ValidationError>)
    requires
        old(dao).wf(),
        now.wf(),
    ensures
        final(dao).wf(),
        final(dao).details() == old(dao).details(),
        r is Ok <==> raw_status_valid(*raw),
        r is Err ==> r->Err_0 == raw_status_error(*raw) && *final(dao) == *old(dao),
        r is Ok ==> r->Ok_0 == report_outcome(old(dao).details(), keyv(role, node_id@, agreement_id@)),
        r is Ok ==> {
            let k = keyv(role, node_id@, agreement_id@);
            let m0 = old(dao).statuses();
            let m1 = final(dao).statuses();
            &&& m1.contains_key(k)
            &&& m1 == m0.insert(k, m1[k])
            &&& m1[k].requested@ == canon_decimal(raw.requested@)
            &&& m1[k].accepted@ == canon_decimal(raw.accepted@)
            &&& m1[k].confirmed@ == canon_decimal(raw.confirmed@)
            &&& m1[k].reported_ts.ms as int == rfc3339_ms_of(raw.ts@)->0
            &&& m1[k].updated_ts == now
            &&& m1[k].created_ts == (if m0.contains_key(k) {
                m0[k].created_ts
            } else {
                now
            })
        },
{
    let status = match decode_status(raw) {
        Ok(st) => st,
        Err(e) => {
            return Err(e);
        },
    };
    let have_details = dao.insert_status(role, node_id, agreement_id, &status, now);
    if have_details {
        Ok(ReportResult::Okay {})
    } else {
        Ok(ReportResult::UnknownAgreement {})
    }
}

/// Registers agreement detail after validating its required fields: the
/// payment platform and the payment address must be non-empty. The status
/// table is never touched; a duplicate registration leaves the existing
/// row as it is and reports `Ok(false)`.
pub fn save_agreement_details(
    dao: &mut StatusDao,
    role: Role,
    node_id: &String,
    agreement_id: &String,
    info: AgreementInfo,
) -> (r: Result<bool, ValidationError>)
    requires
        old(dao).wf(),
        info.wf(),
    ensures
        final(dao).wf(),
        final(dao).statuses() == old(dao).statuses(),
        r is Ok <==> info.payment_platform@.len() > 0 && info.payment_address@.len() > 0,
        r is Err ==> *final(dao) == *old(dao) && r->Err_0 == (if info.payment_platform@.len() == 0 {
            ValidationError::MissingPaymentPlatform
        } else {
            ValidationError::MissingPaymentAddress
        }),
        r is Ok ==> {
            let k = keyv(role, node_id@, agreement_id@);
            &&& r->Ok_0 == !old(dao).details().contains_key(k)
            &&& (r->Ok_0 ==> final(dao).details() == old(dao).details().insert(k, info))
            &&& (!r->Ok_0 ==> final(dao).details() == old(dao).details())
        },
{
    if info.payment_platform.as_str().is_empty() {
        return Err(ValidationError::MissingPaymentPlatform);
    }
    if info.payment_address.as_str().is_empty() {
        return Err(ValidationError::MissingPaymentAddress);
    }
    Ok(dao.insert_agreement(role, node_id, agreement_id, info))
}

/// Reports and detail registration may arrive in either order, and the
/// outcome depends only on whether detail is registered at the moment of
/// the report: before registration every report of the key returns
/// `UnknownAgreement`; from registration on, every report returns `Okay`.
/// That the two arrivals leave the same stored state in either order is
/// part of the store's contracts: [`StatusDao::insert_status`] leaves the
/// detail table unchanged, and [`StatusDao::insert_agreement`] leaves the
/// status table unchanged.
pub proof fn lemma_report_order_independent(
    details: Map<KeyV, AgreementInfo>,
    k: KeyV,
    info: AgreementInfo,
)
    ensures
        !details.contains_key(k) ==> report_outcome(details, k) == (
        ReportResult::UnknownAgreement {}),
        report_outcome(details.insert(k, info), k) == (ReportResult::Okay {}),
        forall|k2: KeyV|
            #[trigger] details.contains_key(k2) ==> report_outcome(details, k2) == (
            ReportResult::Okay {}),
{
}

} // verus!

//! Core value types: roles, timestamps, status reports, agreement metadata
//! and the report outcome.
use vstd::prelude::*;

use crate::amount::Amount;

verus! {

/// Which side of an agreement a node reports as. Every stored row carries
/// exactly one role, always supplied by the caller.
#[derive(Clone, Copy, Debug, PartialEq, Eq, Structural)]
pub enum Role {
    Provider,
    Requestor,
}

impl Role {
    /// The single-character discriminant under which rows are persisted.
    pub open spec fn db_char(self) -> Seq<char> {
        match self {
            Role::Provider => seq!['P'],
            Role::Requestor => seq!['R'],
        }
    }

    /// The storage discriminant of this role.
    pub fn as_db(&self) -> (r: &'static str)
        ensures
            r@ == self.db_char(),
    {
        proof {
            reveal_strlit("P");
            reveal_strlit("R");
            assert("P"@ =~= seq!['P']);
            assert("R"@ =~= seq!['R']);
        }
        match self {
            Role::Provider => "P",
            Role::Requestor => "R",
        }
    }

    /// The storage discriminant of this role. Alias kept for callers of the
    /// score route, which historically used this name.
    pub fn as_db_role(&self) -> (r: &'static str)
        ensures
            r@ == self.db_char(),
    {
        self.as_db()
    }

    /// Decodes a storage discriminant; `None` exactly on an unrecognized
    /// code, never a fallback.
    pub fn from_db(code: &str) -> (r: Option<Role>)
        ensures
            r == Some(Role::Provider) <==> code@ == seq!['P'],
            r == Some(Role::Requestor) <==> code@ == seq!['R'],
            r is None <==> code@ != seq!['P'] && code@ != seq!['R'],
    {
        proof {
            reveal_strlit("P");
            reveal_strlit("R");
            assert("P"@ =~= seq!['P']);
            assert("R"@ =~= seq!['R']);
            assert(seq!['P'] != seq!['R']) by {
                assert(seq!['P'][0] == 'P');
                assert(seq!['R'][0] == 'R');
            }
        }
        let code_string = code.to_owned();
        if code_string == String::from_str("P") {
            Some(Role::Provider)
        } else if code_string == String::from_str("R") {
            Some(Role::Requestor)
        } else {
            None
        }
    }

    /// Decodes the lowercase wire name of a role (`provider` / `requestor`);
    /// `None` on anything else.
    pub fn from_wire(name: &str) -> (r: Option<Role>)
        ensures
            r == Some(Role::Provider) <==> name@ == "provider"@,
            r == Some(Role::Requestor) <==> name@ == "requestor"@,
            r is None <==> name@ != "provider"@ && name@ != "requestor"@,
    {
        proof {
            reveal_strlit("provider");
            reveal_strlit("requestor");
            assert("provider"@ != "requestor"@) by {
                assert("provider"@[0] == 'p');
                assert("requestor"@[0] == 'r');
            }
        }
        let name_string = name.to_owned();
        if name_string == String::from_str("provider") {
            Some(Role::Provider)
        } else if name_string == String::from_str("requestor") {
            Some(Role::Requestor)
        } else {
            None
        }
    }
}

/// Bound on timestamps the library works with, in milliseconds around the
/// epoch (roughly 250,000 years either way): every value in this range is
/// representable by the calendar library behind the clock wrappers.
pub const TS_RANGE: i64 = 8_000_000_000_000_000;

/// A point in time: milliseconds since the epoch.
#[derive(Clone, Copy, Debug, PartialEq, Eq, Structural)]
pub struct Timestamp {
    pub ms: i64,
}

impl Timestamp {
    /// Timestamps the library accepts: within the calendar range.
    pub open spec fn wf(self) -> bool {
        -TS_RANGE <= self.ms <= TS_RANGE
    }

    /// Wraps a millisecond count; `None` exactly when it lies outside the
    /// calendar range.
    pub fn new(ms: i64) -> (r: Option<Timestamp>)
        ensures
            r is Some <==> -TS_RANGE <= ms <= TS_RANGE,
            r is Some ==> r->0.ms == ms && r->0.wf(),
    {
        if -TS_RANGE <= ms && ms <= TS_RANGE {
            Some(Timestamp { ms })
        } else {
            None
        }
    }

    /// Wraps a millisecond count, clamping it into the calendar range.
    pub fn clamped(ms: i64) -> (r: Timestamp)
        ensures
            r.wf(),
            -TS_RANGE <= ms <= TS_RANGE ==> r.ms == ms,
    {
        if ms < -TS_RANGE {
            Timestamp { ms: -TS_RANGE }
        } else if ms > TS_RANGE {
            Timestamp { ms: TS_RANGE }
        } else {
            Timestamp { ms }
        }
    }
}

/// A point-in-time money-flow snapshot for one agreement: how much was
/// requested, accepted and confirmed paid, and when it was observed.
#[derive(Debug)]
pub struct Status {
    /// The amount the provider has requested.
    pub requested: Amount,
    /// The amount the requestor has accepted.
    pub accepted: Amount,
    /// The amount the provider has confirmed as paid.
    pub confirmed: Amount,
    /// Event timestamp.
    pub ts: Timestamp,
    /// Expected payment clearing time.
    pub payment_due_ts: Option<Timestamp>,
    /// Reserved free-form payload, carried verbatim.
    pub payment: Option<String>,
}

impl Status {
    /// Validity: canonical amounts, timestamps in range.
    pub open spec fn wf(self) -> bool {
        &&& self.requested.wf()
        &&& self.accepted.wf()
        &&& self.confirmed.wf()
        &&& self.ts.wf()
        &&& (self.payment_due_ts is Some ==> self.payment_due_ts->0.wf())
    }
}

impl Clone for Status {
    fn clone(&self) -> (r: Self)
        ensures
            r == *self,
    {
        Status {
            requested: self.requested.clone(),
            accepted: self.accepted.clone(),
            confirmed: self.confirmed.clone(),
            ts: self.ts,
            payment_due_ts: self.payment_due_ts,
            payment: match &self.payment {
                Some(p) => Some(p.clone()),
                None => None,
            },
        }
    }
}

/// Builds a [`Status`], filling defaults: amounts left out default to zero,
/// a timestamp left out defaults to the current time.
pub struct StatusBuilder {
    requested: Option<Amount>,
    accepted: Option<Amount>,
    confirmed: Option<Amount>,
    ts: Option<Timestamp>,
    payment_due_ts: Option<Timestamp>,
}

impl Default for StatusBuilder {
    /// A builder with nothing set: building from it yields all-zero amounts.
    fn default() -> (r: Self)
        ensures
            r.spec_requested() is None,
            r.spec_accepted() is None,
            r.spec_confirmed() is None,
            r.spec_ts() is None,
            r.spec_payment_due_ts() is None,
    {
        StatusBuilder {
            requested: None,
            accepted: None,
            confirmed: None,
            ts: None,
            payment_due_ts: None,
        }
    }
}

impl StatusBuilder {
    pub closed spec fn spec_requested(self) -> Option<Amount> {
        self.requested
    }

    pub closed spec fn spec_accepted(self) -> Option<Amount> {
        self.accepted
    }

    pub closed spec fn spec_confirmed(self) -> Option<Amount> {
        self.confirmed
    }

    pub closed spec fn spec_ts(self) -> Option<Timestamp> {
        self.ts
    }

    pub closed spec fn spec_payment_due_ts(self) -> Option<Timestamp> {
        self.payment_due_ts
    }

    /// What the builder's set fields require of themselves.
    pub open spec fn wf(self) -> bool {
        &&& (self.spec_requested() is Some ==> self.spec_requested()->0.wf())
        &&& (self.spec_accepted() is Some ==> self.spec_accepted()->0.wf())
        &&& (self.spec_confirmed() is Some ==> self.spec_confirmed()->0.wf())
        &&& (self.spec_ts() is Some ==> self.spec_ts()->0.wf())
        &&& (self.spec_payment_due_ts() is Some ==> self.spec_payment_due_ts()->0.wf())
    }

    pub fn requested(self, a: Amount) -> (r: Self)
        ensures
            r.spec_requested() == Some(a),
            r.spec_accepted() == self.spec_accepted(),
            r.spec_confirmed() == self.spec_confirmed(),
            r.spec_ts() == self.spec_ts(),
            r.spec_payment_due_ts() == self.spec_payment_due_ts(),
    {
        StatusBuilder { requested: Some(a), ..self }
    }

    pub fn accepted(self, a: Amount) -> (r: Self)
        ensures
            r.spec_accepted() == Some(a),
            r.spec_requested() == self.spec_requested(),
            r.spec_confirmed() == self.spec_confirmed(),
            r.spec_ts() == self.spec_ts(),
            r.spec_payment_due_ts() == self.spec_payment_due_ts(),
    {
        StatusBuilder { accepted: Some(a), ..self }
    }

    pub fn confirmed(self, a: Amount) -> (r: Self)
        ensures
            r.spec_confirmed() == Some(a),
            r.spec_requested() == self.spec_requested(),
            r.spec_accepted() == self.spec_accepted(),
            r.spec_ts() == self.spec_ts(),
            r.spec_payment_due_ts() == self.spec_payment_due_ts(),
    {
        StatusBuilder { confirmed: Some(a), ..self }
    }

    pub fn ts(self, t: Timestamp) -> (r: Self)
        ensures
            r.spec_ts() == Some(t),
            r.spec_requested() == self.spec_requested(),
            r.spec_accepted() == self.spec_accepted(),
            r.spec_confirmed() == self.spec_confirmed(),
            r.spec_payment_due_ts() == self.spec_payment_due_ts(),
    {
        StatusBuilder { ts: Some(t), ..self }
    }

    pub fn payment_due_ts(self, t: Timestamp) -> (r: Self)
        ensures
            r.spec_payment_due_ts() == Some(t),
            r.spec_requested() == self.spec_requested(),
            r.spec_accepted() == self.spec_accepted(),
            r.spec_confirmed() == self.spec_confirmed(),
            r.spec_ts() == self.spec_ts(),
    {
        StatusBuilder { payment_due_ts: Some(t), ..self }
    }

    /// Builds the status: unset amounts become zero, an unset timestamp
    /// becomes the current time, the reserved payload stays empty.
    pub fn build(self) -> (r: Status)
        requires
            self.wf(),
        ensures
            r.wf(),
            self.spec_requested() is Some ==> r.requested == self.spec_requested()->0,
            self.spec_requested() is None ==> r.requested@ == seq!['0'],
            self.spec_accepted() is Some ==> r.accepted == self.spec_accepted()->0,
            self.spec_accepted() is None ==> r.accepted@ == seq!['0'],
            self.spec_confirmed() is Some ==> r.confirmed == self.spec_confirmed()->0,
            self.spec_confirmed() is None ==> r.confirmed@ == seq!['0'],
            self.spec_ts() is Some ==> r.ts == self.spec_ts()->0,
            r.payment_due_ts == self.spec_payment_due_ts(),
            r.payment is None,
    {
        let requested = match self.requested {
            Some(a) => a,
            None => Amount::zero(),
        };
        let accepted = match self.accepted {
            Some(a) => a,
            None => Amount::zero(),
        };
        let confirmed = match self.confirmed {
            Some(a) => a,
            None => Amount::zero(),
        };
        let ts = match self.ts {
            Some(t) => t,
            None => crate::time::now_timestamp(),
        };
        Status { requested, accepted, confirmed, ts, payment_due_ts: self.payment_due_ts, payment: None }
    }
}

/// One-time registration metadata for an agreement: the counterparty and how
/// payment reaches it.
#[derive(Debug)]
pub struct AgreementInfo {
    /// The other party to the contract.
    pub peer_id: String,
    /// When the contract took effect.
    pub created_ts: Timestamp,
    /// End of the validity window, if bounded.
    pub valid_to: Option<Timestamp>,
    /// Runtime descriptor offered.
    pub runtime: Option<String>,
    /// Name of the payment platform.
    pub payment_platform: String,
    /// Payment receiving address.
    pub payment_address: String,
    /// Subnet tag, if any.
    pub subnet: Option<String>,
    /// Task package descriptor, if any.
    pub task_package: Option<String>,
}

impl AgreementInfo {
    /// Validity: timestamps in range.
    pub open spec fn wf(self) -> bool {
        &&& self.created_ts.wf()
        &&& (self.valid_to is Some ==> self.valid_to->0.wf())
    }
}

fn clone_opt_string(s: &Option<String>) -> (r: Option<String>)
    ensures
        r == *s,
{
    match s {
        Some(v) => Some(v.clone()),
        None => None,
    }
}

impl Clone for AgreementInfo {
    fn clone(&self) -> (r: Self)
        ensures
            r == *self,
    {
        AgreementInfo {
            peer_id: self.peer_id.clone(),
            created_ts: self.created_ts,
            valid_to: self.valid_to,
            runtime: clone_opt_string(&self.runtime),
            payment_platform: self.payment_platform.clone(),
            payment_address: self.payment_address.clone(),
            subnet: clone_opt_string(&self.subnet),
            task_package: clone_opt_string(&self.task_package),
        }
    }
}

/// How a status report ended: the status is durably recorded either way;
/// the outcome only says whether agreement detail metadata was known.
#[derive(Clone, Copy, Debug, PartialEq, Eq, Structural)]
pub enum ReportResult {
    Okay {},
    /// The report is incomplete: no agreement detail is registered yet.
    UnknownAgreement {},
}

impl ReportResult {
    pub fn is_unknown_agreement(&self) -> (r: bool)
        ensures
            r == (*self is UnknownAgreement),
    {
        matches!(self, ReportResult::UnknownAgreement {})
    }
}

/// One row of the per-node agreement listing: the agreement, its
/// counterparty (empty when no detail row exists) and the latest status.
#[derive(Debug)]
pub struct Agreement {
    pub agreement_id: String,
    pub peer_id: String,
    pub created_ts: Timestamp,
    pub status: Status,
}

/// The aggregate trust score of a node; absence means insufficient data,
/// not an error.
#[derive(Debug)]
pub struct StandardScore {
    pub score: Option<Amount>,
}

} // verus!

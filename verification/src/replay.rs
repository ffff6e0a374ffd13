//! The replay pipeline's decision core: mapping legacy ledger rows to
//! reports, and the driver that hands them out under a fixed concurrency
//! cap with one independently recorded outcome per row.
//!
//! The loop that performs the submissions lives outside the library: it
//! asks the driver what to start (`launch`), performs the transport, and
//! hands the result back (`complete`). The driver guarantees that at most
//! four reports are ever in flight, that every row is submitted exactly
//! once per run, and that a row that fails — to parse or in transport —
//! never blocks the others.
use vstd::prelude::*;

use crate::amount::{canon_decimal, is_decimal_literal, Amount};
use crate::client::AgreementRole;
use crate::model::{ReportResult, Status, Timestamp};

verus! {

/// The concurrency cap of the replay pipeline: how many report calls may be
/// in flight at once.
pub const REPLAY_CONCURRENCY: usize = 4;

/// One row of the legacy payment ledger, as handed in by the reader.
#[derive(Debug)]
pub struct LegacyRow {
    /// The agreement identifier.
    pub id: String,
    /// The storage role discriminant (`P` / `R`).
    pub role: String,
    /// The node the row belongs to.
    pub owner_id: String,
    /// The counterparty; carried along, not reported.
    pub peer_id: String,
    /// Total amount due, as decimal text.
    pub total_amount_due: String,
    /// Total amount accepted, as decimal text.
    pub total_amount_accepted: String,
    /// Total amount paid, as decimal text.
    pub total_amount_paid: String,
    /// The row's update time, when the ledger has one.
    pub updated_ts: Option<Timestamp>,
}

impl LegacyRow {
    /// Validity of what the reader hands in: the timestamp, when present,
    /// lies in the calendar range.
    pub open spec fn wf(self) -> bool {
        self.updated_ts is Some ==> self.updated_ts->0.wf()
    }
}

/// Why one legacy row cannot be reported.
#[derive(Clone, Copy, Debug, PartialEq, Eq, Structural)]
pub enum RowError {
    /// The amount due does not decode as a decimal.
    BadAmountDue,
    /// The amount accepted does not decode as a decimal.
    BadAmountAccepted,
    /// The amount paid does not decode as a decimal.
    BadAmountPaid,
    /// The role discriminant is unrecognized.
    UnknownRole,
}

/// Decodes the legacy role discriminant; `None` exactly on an unrecognized
/// code, never a fallback.
pub fn role_from_db(db_role_id: &str) -> (r: Option<AgreementRole>)
    ensures
        r == Some(AgreementRole::Provider) <==> db_role_id@ == seq!['P'],
        r == Some(AgreementRole::Requestor) <==> db_role_id@ == seq!['R'],
        r is None <==> db_role_id@ != seq!['P'] && db_role_id@ != seq!['R'],
{
    proof {
        reveal_strlit("P");
        reveal_strlit("R");
        assert("P"@ =~= seq!['P']);
        assert("R"@ =~= seq!['R']);
        assert(seq!['P'] != seq!['R']) by {
            assert(seq!['P'][0] == 'P');
            assert(seq!['R'][0] == 'R');
        }
    }
    let code = db_role_id.to_owned();
    if code == String::from_str("R") {
        Some(AgreementRole::Requestor)
    } else if code == String::from_str("P") {
        Some(AgreementRole::Provider)
    } else {
        None
    }
}

/// A report ready to submit: where it goes and what it says.
#[derive(Debug)]
pub struct ReportRequest {
    pub role: AgreementRole,
    pub node_id: String,
    pub agreement_id: String,
    pub status: Status,
}

/// A legacy row that decodes: three decimal amounts and a known role.
pub open spec fn row_parses(row: LegacyRow) -> bool {
    &&& is_decimal_literal(row.total_amount_due@)
    &&& is_decimal_literal(row.total_amount_accepted@)
    &&& is_decimal_literal(row.total_amount_paid@)
    &&& (row.role@ == seq!['P'] || row.role@ == seq!['R'])
}

/// The rejection a legacy row earns, checked in field order; meaningful
/// only when the row does not parse.
pub open spec fn row_error(row: LegacyRow) -> RowError {
    if !is_decimal_literal(row.total_amount_due@) {
        RowError::BadAmountDue
    } else if !is_decimal_literal(row.total_amount_accepted@) {
        RowError::BadAmountAccepted
    } else if !is_decimal_literal(row.total_amount_paid@) {
        RowError::BadAmountPaid
    } else {
        RowError::UnknownRole
    }
}

/// The report a legacy row maps to: due, accepted and paid become the
/// requested, accepted and confirmed amounts; the report timestamp is the
/// row's update time, or the given clock reading where the ledger has none.
pub open spec fn report_request_of(q: ReportRequest, row: LegacyRow, now: Timestamp) -> bool {
    &&& q.role == (if row.role@ == seq!['P'] {
        AgreementRole::Provider
    } else {
        AgreementRole::Requestor
    })
    &&& q.node_id@ == row.owner_id@
    &&& q.agreement_id@ == row.id@
    &&& q.status.requested@ == canon_decimal(row.total_amount_due@)
    &&& q.status.accepted@ == canon_decimal(row.total_amount_accepted@)
    &&& q.status.confirmed@ == canon_decimal(row.total_amount_paid@)
    &&& q.status.ts == (if row.updated_ts is Some {
        row.updated_ts->0
    } else {
        now
    })
    &&& q.status.payment_due_ts is None
    &&& q.status.payment is None
    &&& q.status.wf()
}

/// Maps one legacy row to a report; fails exactly on a row that does not
/// parse, naming the first bad field.
pub fn map_legacy_row(row: &LegacyRow, now: Timestamp) -> (r: Result<ReportRequest, RowError>)
    requires
        row.wf(),
        now.wf(),
    ensures
        r is Ok <==> row_parses(*row),
        r is Err ==> r->Err_0 == row_error(*row),
        r is Ok ==> report_request_of(r->Ok_0, *row, now),
{
    let requested = match Amount::parse(row.total_amount_due.as_str()) {
        Some(a) => a,
        None => {
            return Err(RowError::BadAmountDue);
        },
    };
    let accepted = match Amount::parse(row.total_amount_accepted.as_str()) {
        Some(a) => a,
        None => {
            return Err(RowError::BadAmountAccepted);
        },
    };
    let confirmed = match Amount::parse(row.total_amount_paid.as_str()) {
        Some(a) => a,
        None => {
            return Err(RowError::BadAmountPaid);
        },
    };
    let role = match role_from_db(row.role.as_str()) {
        Some(r) => r,
        None => {
            return Err(RowError::UnknownRole);
        },
    };
    let ts = match row.updated_ts {
        Some(t) => t,
        None => now,
    };
    Ok(
        ReportRequest {
            role,
            node_id: row.owner_id.clone(),
            agreement_id: row.id.clone(),
            status: Status {
                requested,
                accepted,
                confirmed,
                ts,
                payment_due_ts: None,
                payment: None,
            },
        },
    )
}

/// What became of one legacy row.
#[derive(Clone, Copy, Debug, PartialEq, Eq, Structural)]
pub enum RowOutcome {
    /// The report reached the destination; the enclosed outcome says
    /// whether detail metadata was known there. `UnknownAgreement` is a
    /// warning, not a failure.
    Reported(ReportResult),
    /// The row did not parse; nothing was sent for it.
    ParseFailed(RowError),
    /// The report was sent and failed in transport.
    TransportFailed,
}

/// A row-level failure: a parse failure or a transport failure.
pub open spec fn outcome_is_failure(o: RowOutcome) -> bool {
    o is ParseFailed || o is TransportFailed
}

/// How many of the first `n` recorded outcomes are still open.
pub open spec fn count_open(s: Seq<Option<RowOutcome>>, n: int) -> int
    decreases n,
{
    if n <= 0 {
        0
    } else {
        count_open(s, n - 1) + if s[n - 1] is None {
            1int
        } else {
            0int
        }
    }
}

/// How many of the first `n` recorded outcomes are failures.
pub open spec fn count_failures(s: Seq<Option<RowOutcome>>, n: int) -> int
    decreases n,
{
    if n <= 0 {
        0
    } else {
        count_failures(s, n - 1) + if s[n - 1] is Some && outcome_is_failure(s[n - 1]->0) {
            1int
        } else {
            0int
        }
    }
}

/// What may stand recorded for a row that the driver has taken up.
pub open spec fn launched_ok(row: LegacyRow, o: Option<RowOutcome>) -> bool {
    match o {
        Option::None => row_parses(row),
        Option::Some(RowOutcome::ParseFailed(e)) => !row_parses(row) && e == row_error(row),
        Option::Some(_) => row_parses(row),
    }
}

proof fn lemma_count_open_nonneg(s: Seq<Option<RowOutcome>>, n: int)
    ensures
        count_open(s, n) >= 0,
    decreases n,
{
    if n > 0 {
        lemma_count_open_nonneg(s, n - 1);
    }
}

proof fn lemma_count_open_prefix(s1: Seq<Option<RowOutcome>>, s2: Seq<Option<RowOutcome>>, n: int)
    requires
        0 <= n <= s1.len(),
        n <= s2.len(),
        forall|i: int| 0 <= i < n ==> s1[i] == s2[i],
    ensures
        count_open(s1, n) == count_open(s2, n),
    decreases n,
{
    if n > 0 {
        lemma_count_open_prefix(s1, s2, n - 1);
    }
}

proof fn lemma_count_open_update(s: Seq<Option<RowOutcome>>, n: int, i: int, v: Option<RowOutcome>)
    requires
        0 <= i < n <= s.len(),
        s[i] is None,
        v is Some,
    ensures
        count_open(s.update(i, v), n) == count_open(s, n) - 1,
    decreases n,
{
    let u = s.update(i, v);
    if i == n - 1 {
        lemma_count_open_prefix(u, s, n - 1);
    } else {
        lemma_count_open_update(s, n - 1, i, v);
    }
}

/// Drives the replay of a legacy ledger: hands out at most four reports at
/// a time, records one outcome per row, and skips — but records — rows
/// that do not parse, without ever blocking the rest.
pub struct ReplayDriver {
    rows: Vec<LegacyRow>,
    now: Timestamp,
    next: usize,
    in_flight: usize,
    outcomes: Vec<Option<RowOutcome>>,
}

impl ReplayDriver {
    /// The rows the run was started with.
    pub closed spec fn rows_seq(self) -> Seq<LegacyRow> {
        self.rows@
    }

    /// The clock reading the run was started with.
    pub closed spec fn spec_now(self) -> Timestamp {
        self.now
    }

    /// How many rows the driver has taken up so far.
    pub closed spec fn next_row(self) -> int {
        self.next as int
    }

    /// How many reports are in flight right now.
    pub closed spec fn spec_in_flight(self) -> int {
        self.in_flight as int
    }

    /// The recorded outcome of each row; `None` while the row is pending
    /// or in flight.
    pub closed spec fn outcomes_seq(self) -> Seq<Option<RowOutcome>> {
        self.outcomes@
    }

    /// The driver's invariant. In particular: never more than four reports
    /// in flight, one outcome slot per row, nothing recorded for rows not
    /// yet taken up, and every recorded parse failure is the row's true
    /// parse error.
    pub open spec fn wf(self) -> bool {
        &&& self.outcomes_seq().len() == self.rows_seq().len()
        &&& 0 <= self.next_row() <= self.rows_seq().len()
        &&& self.spec_in_flight() == count_open(self.outcomes_seq(), self.next_row())
        &&& self.spec_in_flight() <= REPLAY_CONCURRENCY as int
        &&& self.spec_now().wf()
        &&& (forall|i: int|
            self.next_row() <= i < self.outcomes_seq().len() ==> self.outcomes_seq()[i] is None)
        &&& (forall|i: int|
            0 <= i < self.next_row() ==> launched_ok(
                self.rows_seq()[i],
                #[trigger] self.outcomes_seq()[i],
            ))
        &&& (forall|i: int| 0 <= i < self.rows_seq().len() ==> (#[trigger] self.rows_seq()[i]).wf())
    }

    /// However many rows the source holds, the driver never has more than
    /// four reports in flight: the cap is part of the invariant, and every
    /// operation preserves it.
    pub proof fn lemma_in_flight_bounded(self)
        requires
            self.wf(),
        ensures
            self.spec_in_flight() <= REPLAY_CONCURRENCY as int,
    {
    }

    /// Starts a run over the given rows; nothing is taken up yet.
    pub fn new(rows: Vec<LegacyRow>, now: Timestamp) -> (r: ReplayDriver)
        requires
            now.wf(),
            forall|i: int| 0 <= i < rows@.len() ==> (#[trigger] rows@[i]).wf(),
        ensures
            r.wf(),
            r.rows_seq() == rows@,
            r.spec_now() == now,
            r.next_row() == 0,
            r.spec_in_flight() == 0,
            forall|i: int| 0 <= i < r.outcomes_seq().len() ==> r.outcomes_seq()[i] is None,
    {
        let n = rows.len();
        let mut outcomes: Vec<Option<RowOutcome>> = Vec::new();
        let mut i: usize = 0;
        while i < n
            invariant
                0 <= i <= n,
                outcomes@.len() == i,
                forall|j: int| 0 <= j < i ==> outcomes@[j] is None,
            decreases n - i,
        {
            outcomes.push(None);
            i = i + 1;
        }
        ReplayDriver { rows, now, next: 0, in_flight: 0, outcomes }
    }

    /// How many reports are in flight right now.
    pub fn in_flight(&self) -> (r: usize)
        ensures
            r as int == self.spec_in_flight(),
    {
        self.in_flight
    }

    /// How many rows the run holds.
    pub fn row_count(&self) -> (r: usize)
        ensures
            r as int == self.rows_seq().len(),
    {
        self.rows.len()
    }

    /// The recorded outcome of one row.
    pub fn outcome(&self, i: usize) -> (r: Option<RowOutcome>)
        requires
            i < self.outcomes_seq().len(),
        ensures
            r == self.outcomes_seq()[i as int],
    {
        self.outcomes[i]
    }

    /// The run is over: every row was taken up and every report came back.
    pub fn is_done(&self) -> (r: bool)
        ensures
            r == (self.next_row() == self.rows_seq().len() && self.spec_in_flight() == 0),
    {
        self.next == self.rows.len() && self.in_flight == 0
    }

    /// Hands out the next report to submit, if a concurrency slot is free
    /// and a parseable row remains. Rows that do not parse are recorded as
    /// parse failures on the way — they cost no slot and block nothing.
    /// `None` means: every slot is taken, or no row is left to start.
    pub fn launch(&mut self) -> (r: Option<(usize, ReportRequest)>)
        requires
            old(self).wf(),
        ensures
            final(self).wf(),
            final(self).rows_seq() == old(self).rows_seq(),
            final(self).spec_now() == old(self).spec_now(),
            old(self).next_row() <= final(self).next_row(),
            forall|i: int|
                0 <= i < old(self).next_row() ==> final(self).outcomes_seq()[i] == old(self).outcomes_seq()[i],
            match r {
                Option::None => {
                    &&& final(self).spec_in_flight() == old(self).spec_in_flight()
                    &&& (old(self).spec_in_flight() == REPLAY_CONCURRENCY as int || final(self).next_row() == final(self).rows_seq().len())
                    &&& (forall|i: int|
                        old(self).next_row() <= i < final(self).next_row()
                            ==> final(self).outcomes_seq()[i] == Some(
                            RowOutcome::ParseFailed(row_error(final(self).rows_seq()[i])),
                        ))
                },
                Option::Some((i, q)) => {
                    &&& old(self).next_row() <= i < final(self).next_row()
                    &&& final(self).next_row() == i + 1
                    &&& row_parses(final(self).rows_seq()[i as int])
                    &&& report_request_of(q, final(self).rows_seq()[i as int], old(self).spec_now())
                    &&& final(self).outcomes_seq()[i as int] is None
                    &&& (forall|j: int|
                        old(self).next_row() <= j < i ==> final(self).outcomes_seq()[j] == Some(
                            RowOutcome::ParseFailed(row_error(final(self).rows_seq()[j])),
                        ))
                    &&& final(self).spec_in_flight() == old(self).spec_in_flight() + 1
                },
            },
    {
        if self.in_flight >= REPLAY_CONCURRENCY {
            return None;
        }
        while self.next < self.rows.len()
            invariant
                self.rows@ == old(self).rows@,
                self.now == old(self).now,
                self.in_flight == old(self).in_flight,
                old(self).in_flight < REPLAY_CONCURRENCY,
                self.outcomes@.len() == self.rows@.len(),
                old(self).next <= self.next <= self.rows@.len(),
                self.in_flight as int == count_open(self.outcomes@, self.next as int),
                self.now.wf(),
                forall|i: int|
                    0 <= i < old(self).next ==> self.outcomes@[i] == old(self).outcomes@[i],
                forall|i: int|
                    old(self).next <= i < self.next ==> self.outcomes@[i] == Some(
                        RowOutcome::ParseFailed(row_error(self.rows@[i])),
                    ),
                forall|i: int|
                    self.next <= i < self.outcomes@.len() ==> self.outcomes@[i] is None,
                forall|i: int|
                    0 <= i < self.next ==> launched_ok(self.rows@[i], #[trigger] self.outcomes@[i]),
                forall|i: int| 0 <= i < self.rows@.len() ==> (#[trigger] self.rows@[i]).wf(),
            decreases self.rows@.len() - self.next,
        {
            let i = self.next;
            let ghost outs_before = self.outcomes@;
            match map_legacy_row(&self.rows[i], self.now) {
                Ok(q) => {
                    self.next = i + 1;
                    self.in_flight = self.in_flight + 1;
                    proof {
                        assert(count_open(self.outcomes@, i + 1) == count_open(
                            self.outcomes@,
                            i as int,
                        ) + 1);
                    }
                    return Some((i, q));
                },
                Err(e) => {
                    self.outcomes[i] = Some(RowOutcome::ParseFailed(e));
                    self.next = i + 1;
                    proof {
                        lemma_count_open_prefix(self.outcomes@, outs_before, i as int);
                        assert(count_open(self.outcomes@, i + 1) == count_open(
                            self.outcomes@,
                            i as int,
                        ));
                    }
                },
            }
        }
        None
    }

    /// Records the transport outcome of one in-flight report, freeing its
    /// slot. A failure here concerns this row alone.
    pub fn complete(&mut self, i: usize, outcome: RowOutcome)
        requires
            old(self).wf(),
            i < old(self).next_row(),
            old(self).outcomes_seq()[i as int] is None,
            !(outcome is ParseFailed),
        ensures
            final(self).wf(),
            final(self).rows_seq() == old(self).rows_seq(),
            final(self).spec_now() == old(self).spec_now(),
            final(self).next_row() == old(self).next_row(),
            final(self).outcomes_seq() == old(self).outcomes_seq().update(i as int, Some(outcome)),
            final(self).spec_in_flight() == old(self).spec_in_flight() - 1,
    {
        proof {
            lemma_count_open_update(
                self.outcomes@,
                self.next as int,
                i as int,
                Some(outcome),
            );
            lemma_count_open_nonneg(
                self.outcomes@.update(i as int, Some(outcome)),
                self.next as int,
            );
        }
        self.outcomes[i] = Some(outcome);
        self.in_flight = self.in_flight - 1;
    }

    /// How many rows of the run failed — by parse or in transport — so
    /// far.
    pub fn failure_count(&self) -> (r: usize)
        ensures
            r as int == count_failures(self.outcomes_seq(), self.outcomes_seq().len() as int),
    {
        let mut count: usize = 0;
        let mut i: usize = 0;
        let n = self.outcomes.len();
        while i < n
            invariant
                0 <= i <= n,
                n == self.outcomes@.len(),
                count <= i,
                count as int == count_failures(self.outcomes@, i as int),
            decreases n - i,
        {
            match &self.outcomes[i] {
                Some(o) => {
                    let failed = match o {
                        RowOutcome::ParseFailed(_) => true,
                        RowOutcome::TransportFailed => true,
                        RowOutcome::Reported(_) => false,
                    };
                    if failed {
                        count = count + 1;
                    }
                },
                None => {},
            }
            i = i + 1;
        }
        count
    }
}

} // verus!

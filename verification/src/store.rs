//! The reconciliation store: two tables keyed by (role, node, agreement) —
//! the latest status per agreement, and the one-time agreement detail.
//!
//! The tables are held as vectors of rows with pairwise distinct keys and
//! are modelled as maps from the key triple to the row contents. All
//! mutation of either table goes through the methods here; the existence
//! check of `insert_status` and the status write are one operation on one
//! exclusively borrowed store, so no detail registration can fall between
//! them.
use vstd::prelude::*;
use vstd::map::*;

use crate::amount::Amount;
use crate::model::{Agreement, AgreementInfo, Role, Status, Timestamp};

verus! {

/// Spec-level identity of a row: the key triple.
pub ghost struct KeyV {
    pub role: Role,
    pub node: Seq<char>,
    pub agreement: Seq<char>,
}

/// The key triple of a row, at the spec level.
pub open spec fn keyv(role: Role, node: Seq<char>, agreement: Seq<char>) -> KeyV {
    KeyV { role, node, agreement }
}

/// One stored status row: the three reported amounts and the row's three
/// timestamps.
pub struct StatusRecord {
    /// Latest reported requested amount.
    pub requested: Amount,
    /// Latest reported accepted amount.
    pub accepted: Amount,
    /// Latest reported confirmed amount.
    pub confirmed: Amount,
    /// When the row was first created.
    pub created_ts: Timestamp,
    /// When the row was last written.
    pub updated_ts: Timestamp,
    /// The event timestamp of the latest report.
    pub reported_ts: Timestamp,
}

impl StatusRecord {
    /// Validity: canonical amounts, timestamps in range.
    pub open spec fn wf(self) -> bool {
        &&& self.requested.wf()
        &&& self.accepted.wf()
        &&& self.confirmed.wf()
        &&& self.created_ts.wf()
        &&& self.updated_ts.wf()
        &&& self.reported_ts.wf()
    }
}

/// The row a status upsert leaves behind: the reported amounts, the report's
/// event timestamp, the write time as update time, and the creation time
/// kept from the row it replaces, if any.
pub open spec fn upserted_record(
    prev: Option<StatusRecord>,
    st: Status,
    now: Timestamp,
) -> StatusRecord {
    StatusRecord {
        requested: st.requested,
        accepted: st.accepted,
        confirmed: st.confirmed,
        created_ts: if prev is Some {
            prev->0.created_ts
        } else {
            now
        },
        updated_ts: now,
        reported_ts: st.ts,
    }
}

/// What a status upsert does to the status table.
pub open spec fn upsert_status_map(
    m: Map<KeyV, StatusRecord>,
    k: KeyV,
    st: Status,
    now: Timestamp,
) -> Map<KeyV, StatusRecord> {
    m.insert(
        k,
        upserted_record(
            if m.contains_key(k) {
                Some(m[k])
            } else {
                None
            },
            st,
            now,
        ),
    )
}

struct RowKey {
    role: Role,
    node_id: String,
    agreement_id: String,
}

impl RowKey {
    spec fn keyv(self) -> KeyV {
        keyv(self.role, self.node_id@, self.agreement_id@)
    }
}

struct Entry<V> {
    key: RowKey,
    val: V,
}

spec fn distinct_keys<V>(rows: Seq<Entry<V>>) -> bool {
    forall|i: int, j: int|
        0 <= i < j < rows.len() ==> (#[trigger] rows[i]).key.keyv() != (#[trigger] rows[j]).key.keyv()
}

spec fn seq_has_key<V>(rows: Seq<Entry<V>>, k: KeyV) -> bool {
    exists|i: int| 0 <= i < rows.len() && (#[trigger] rows[i]).key.keyv() == k
}

spec fn row_index_of<V>(rows: Seq<Entry<V>>, k: KeyV) -> int {
    choose|i: int| 0 <= i < rows.len() && (#[trigger] rows[i]).key.keyv() == k
}

spec fn table_map<V>(rows: Seq<Entry<V>>) -> Map<KeyV, V> {
    Map::new(|k: KeyV| seq_has_key(rows, k), |k: KeyV| rows[row_index_of(rows, k)].val)
}

/// Every row of a table with distinct keys is the one its key maps to.
proof fn lemma_row_in_map<V>(rows: Seq<Entry<V>>, i: int)
    requires
        distinct_keys(rows),
        0 <= i < rows.len(),
    ensures
        table_map(rows).contains_key(rows[i].key.keyv()),
        table_map(rows)[rows[i].key.keyv()] == rows[i].val,
{
    let k = rows[i].key.keyv();
    assert(seq_has_key(rows, k));
    let j = row_index_of(rows, k);
    assert(0 <= j < rows.len() && rows[j].key.keyv() == k);
    if i != j {
        assert(false);
    }
}

/// Replacing the value of the row that holds `k` updates the map at `k`.
proof fn lemma_table_update<V>(rows: Seq<Entry<V>>, i: int, e: Entry<V>)
    requires
        distinct_keys(rows),
        0 <= i < rows.len(),
        e.key.keyv() == rows[i].key.keyv(),
    ensures
        distinct_keys(rows.update(i, e)),
        table_map(rows.update(i, e)) == table_map(rows).insert(rows[i].key.keyv(), e.val),
{
    let k = rows[i].key.keyv();
    let u = rows.update(i, e);
    assert forall|a: int, b: int| 0 <= a < b < u.len() implies (#[trigger] u[a]).key.keyv() != (
    #[trigger] u[b]).key.keyv() by {
        assert(u[a].key.keyv() == rows[a].key.keyv());
        assert(u[b].key.keyv() == rows[b].key.keyv());
    }
    assert_maps_equal!(table_map(u), table_map(rows).insert(k, e.val), kk => {
        if seq_has_key(u, kk) {
            let a = choose|a: int| 0 <= a < u.len() && (#[trigger] u[a]).key.keyv() == kk;
            assert(rows[a].key.keyv() == kk);
            assert(seq_has_key(rows, kk));
        }
        if seq_has_key(rows, kk) {
            let a = choose|a: int| 0 <= a < rows.len() && (#[trigger] rows[a]).key.keyv() == kk;
            assert(u[a].key.keyv() == kk);
            assert(seq_has_key(u, kk));
        }
        if seq_has_key(u, kk) {
            let a = row_index_of(u, kk);
            assert(0 <= a < u.len() && u[a].key.keyv() == kk);
            if kk == k {
                if a != i {
                    assert(u[i].key.keyv() == k);
                    assert(false);
                }
                assert(table_map(u)[kk] == e.val);
            } else {
                assert(a != i);
                assert(u[a] == rows[a]);
                lemma_row_in_map(rows, a);
                let b = row_index_of(rows, kk);
                assert(0 <= b < rows.len() && rows[b].key.keyv() == kk);
                if a != b {
                    assert(false);
                }
            }
        }
    });
}

/// Appending a row with a fresh key inserts it into the map.
proof fn lemma_table_push<V>(rows: Seq<Entry<V>>, e: Entry<V>)
    requires
        distinct_keys(rows),
        !seq_has_key(rows, e.key.keyv()),
    ensures
        distinct_keys(rows.push(e)),
        table_map(rows.push(e)) == table_map(rows).insert(e.key.keyv(), e.val),
{
    let k = e.key.keyv();
    let u = rows.push(e);
    assert forall|a: int, b: int| 0 <= a < b < u.len() implies (#[trigger] u[a]).key.keyv() != (
    #[trigger] u[b]).key.keyv() by {
        if b == rows.len() {
            assert(u[a] == rows[a]);
            if rows[a].key.keyv() == k {
                assert(seq_has_key(rows, k));
                assert(false);
            }
        } else {
            assert(u[a] == rows[a]);
            assert(u[b] == rows[b]);
        }
    }
    assert_maps_equal!(table_map(u), table_map(rows).insert(k, e.val), kk => {
        if seq_has_key(u, kk) {
            let a = choose|a: int| 0 <= a < u.len() && (#[trigger] u[a]).key.keyv() == kk;
            if a < rows.len() {
                assert(rows[a].key.keyv() == kk);
                assert(seq_has_key(rows, kk));
            }
        }
        if seq_has_key(rows, kk) {
            let a = choose|a: int| 0 <= a < rows.len() && (#[trigger] rows[a]).key.keyv() == kk;
            assert(u[a].key.keyv() == kk);
            assert(seq_has_key(u, kk));
        }
        if kk == k {
            assert(u[rows.len() as int].key.keyv() == k);
            assert(seq_has_key(u, kk));
            let a = row_index_of(u, kk);
            assert(0 <= a < u.len() && u[a].key.keyv() == kk);
            if a != rows.len() {
                assert(u[a] == rows[a]);
                assert(seq_has_key(rows, k));
                assert(false);
            }
            assert(table_map(u)[kk] == e.val);
        } else {
            if seq_has_key(u, kk) {
                let a = row_index_of(u, kk);
                assert(0 <= a < u.len() && u[a].key.keyv() == kk);
                assert(a != rows.len());
                assert(u[a] == rows[a]);
                lemma_row_in_map(rows, a);
                let b = row_index_of(rows, kk);
                assert(0 <= b < rows.len() && rows[b].key.keyv() == kk);
                if a != b {
                    assert(false);
                }
            }
        }
    });
}

struct Table<V> {
    rows: Vec<Entry<V>>,
}

impl<V> Table<V> {
    spec fn wf(self) -> bool {
        distinct_keys(self.rows@)
    }

    spec fn map(self) -> Map<KeyV, V> {
        table_map(self.rows@)
    }

    fn new() -> (r: Self)
        ensures
            r.wf(),
            r.map() =~= Map::<KeyV, V>::empty(),
            r.rows@.len() == 0,
    {
        let r = Table { rows: Vec::new() };
        proof {
            assert(r.map() =~= Map::<KeyV, V>::empty());
        }
        r
    }

    fn find(&self, role: Role, node_id: &String, agreement_id: &String) -> (r: Option<usize>)
        ensures
            match r {
                Some(i) => 0 <= i < self.rows@.len() && self.rows@[i as int].key.keyv() == keyv(
                    role,
                    node_id@,
                    agreement_id@,
                ),
                None => !seq_has_key(self.rows@, keyv(role, node_id@, agreement_id@)),
            },
    {
        let ghost kv = keyv(role, node_id@, agreement_id@);
        let mut i: usize = 0;
        while i < self.rows.len()
            invariant
                0 <= i <= self.rows@.len(),
                kv == keyv(role, node_id@, agreement_id@),
                forall|j: int| 0 <= j < i ==> (#[trigger] self.rows@[j]).key.keyv() != kv,
            decreases self.rows@.len() - i,
        {
            let e = &self.rows[i];
            if e.key.role == role && e.key.node_id == *node_id && e.key.agreement_id
                == *agreement_id {
                return Some(i);
            }
            assert(self.rows@[i as int].key.keyv() != kv);
            i = i + 1;
        }
        None
    }

    fn get(&self, role: Role, node_id: &String, agreement_id: &String) -> (r: Option<&V>)
        requires
            self.wf(),
        ensures
            r is Some <==> self.map().contains_key(keyv(role, node_id@, agreement_id@)),
            r is Some ==> *(r->0) == self.map()[keyv(role, node_id@, agreement_id@)],
    {
        match self.find(role, node_id, agreement_id) {
            Some(i) => {
                proof {
                    lemma_row_in_map(self.rows@, i as int);
                }
                Some(&self.rows[i].val)
            },
            None => None,
        }
    }

    /// Inserts or replaces the value under the key triple.
    fn set(&mut self, role: Role, node_id: &String, agreement_id: &String, v: V)
        requires
            old(self).wf(),
        ensures
            final(self).wf(),
            final(self).map() == old(self).map().insert(keyv(role, node_id@, agreement_id@), v),
    {
        let key = RowKey { role, node_id: node_id.clone(), agreement_id: agreement_id.clone() };
        match self.find(role, node_id, agreement_id) {
            Some(i) => {
                proof {
                    lemma_table_update(self.rows@, i as int, Entry { key, val: v });
                }
                self.rows[i] = Entry { key, val: v };
            },
            None => {
                proof {
                    lemma_table_push(self.rows@, Entry { key, val: v });
                }
                self.rows.push(Entry { key, val: v });
            },
        }
    }

    /// Inserts only if the key triple is free; an existing row is left
    /// untouched.
    fn insert_new(&mut self, role: Role, node_id: &String, agreement_id: &String, v: V) -> (r:
        bool)
        requires
            old(self).wf(),
        ensures
            final(self).wf(),
            r == !old(self).map().contains_key(keyv(role, node_id@, agreement_id@)),
            r ==> final(self).map() == old(self).map().insert(keyv(role, node_id@, agreement_id@), v),
            !r ==> final(self).map() == old(self).map(),
    {
        match self.find(role, node_id, agreement_id) {
            Some(i) => {
                proof {
                    lemma_row_in_map(self.rows@, i as int);
                }
                false
            },
            None => {
                let key = RowKey {
                    role,
                    node_id: node_id.clone(),
                    agreement_id: agreement_id.clone(),
                };
                proof {
                    lemma_table_push(self.rows@, Entry { key, val: v });
                }
                self.rows.push(Entry { key, val: v });
                true
            },
        }
    }
}

/// The reconciliation store: the status table and the detail table.
pub struct StatusDao {
    status_table: Table<StatusRecord>,
    detail_table: Table<AgreementInfo>,
}

impl StatusDao {
    /// The status table: key triple to latest status row.
    pub closed spec fn statuses(self) -> Map<KeyV, StatusRecord> {
        self.status_table.map()
    }

    /// The detail table: key triple to registered agreement detail.
    pub closed spec fn details(self) -> Map<KeyV, AgreementInfo> {
        self.detail_table.map()
    }

    /// The store's invariant: one row per key triple, every stored value
    /// valid.
    pub closed spec fn wf(self) -> bool {
        &&& self.status_table.wf()
        &&& self.detail_table.wf()
        &&& forall|k: KeyV| #[trigger] self.statuses().contains_key(k) ==> self.statuses()[k].wf()
        &&& forall|k: KeyV| #[trigger] self.details().contains_key(k) ==> self.details()[k].wf()
    }

    /// Every stored status row is valid; so is every stored detail row.
    pub proof fn lemma_stored_rows_wf(self)
        requires
            self.wf(),
        ensures
            forall|k: KeyV| #[trigger] self.statuses().contains_key(k) ==> self.statuses()[k].wf(),
            forall|k: KeyV| #[trigger] self.details().contains_key(k) ==> self.details()[k].wf(),
    {
    }

    /// An empty store: no status rows, no detail rows.
    pub fn new() -> (r: StatusDao)
        ensures
            r.wf(),
            r.statuses() == Map::<KeyV, StatusRecord>::empty(),
            r.details() == Map::<KeyV, AgreementInfo>::empty(),
    {
        StatusDao { status_table: Table::new(), detail_table: Table::new() }
    }

    /// Inserts or replaces the status row under the key, and reports whether
    /// a detail row exists for the key at the moment of the write. The
    /// existence check and the write happen under one exclusive borrow of
    /// the store: nothing can come between them.
    pub fn insert_status(
        &mut self,
        role: Role,
        node_id: &String,
        agreement_id: &String,
        status: &Status,
        now: Timestamp,
    ) -> (r: bool)
        requires
            old(self).wf(),
            status.wf(),
            now.wf(),
        ensures
            final(self).wf(),
            final(self).statuses() == upsert_status_map(
                old(self).statuses(),
                keyv(role, node_id@, agreement_id@),
                *status,
                now,
            ),
            final(self).details() == old(self).details(),
            r == final(self).details().contains_key(keyv(role, node_id@, agreement_id@)),
    {
        let ghost k = keyv(role, node_id@, agreement_id@);
        let prev_created: Option<Timestamp> = match self.status_table.get(
            role,
            node_id,
            agreement_id,
        ) {
            Some(rec) => Some(rec.created_ts),
            None => None,
        };
        let created_ts = match prev_created {
            Some(t) => t,
            None => now,
        };
        let rec = StatusRecord {
            requested: status.requested.clone(),
            accepted: status.accepted.clone(),
            confirmed: status.confirmed.clone(),
            created_ts,
            updated_ts: now,
            reported_ts: status.ts,
        };
        proof {
            assert(rec == upserted_record(
                if old(self).statuses().contains_key(k) {
                    Some(old(self).statuses()[k])
                } else {
                    None
                },
                *status,
                now,
            ));
        }
        self.status_table.set(role, node_id, agreement_id, rec);
        proof {
            assert(rec.wf());
            assert forall|kk: KeyV| #[trigger] self.statuses().contains_key(kk) implies self.statuses()[kk].wf() by {
                if kk != k {
                    assert(old(self).statuses().contains_key(kk));
                    assert(self.statuses()[kk] == old(self).statuses()[kk]);
                }
            }
            assert forall|kk: KeyV| #[trigger] self.details().contains_key(kk) implies self.details()[kk].wf() by {
                assert(old(self).details().contains_key(kk));
            }
        }
        self.detail_table.get(role, node_id, agreement_id).is_some()
    }

    /// Registers agreement detail under the key, once: a duplicate insert
    /// leaves the existing row untouched and reports `false`. The status
    /// table is never touched.
    pub fn insert_agreement(
        &mut self,
        role: Role,
        node_id: &String,
        agreement_id: &String,
        info: AgreementInfo,
    ) -> (r: bool)
        requires
            old(self).wf(),
            info.wf(),
        ensures
            final(self).wf(),
            final(self).statuses() == old(self).statuses(),
            r == !old(self).details().contains_key(keyv(role, node_id@, agreement_id@)),
            r ==> final(self).details() == old(self).details().insert(
                keyv(role, node_id@, agreement_id@),
                info,
            ),
            !r ==> final(self).details() == old(self).details(),
    {
        let ghost k = keyv(role, node_id@, agreement_id@);
        let inserted = self.detail_table.insert_new(role, node_id, agreement_id, info);
        proof {
            assert forall|kk: KeyV| #[trigger] self.details().contains_key(kk) implies self.details()[kk].wf() by {
                if kk != k || !inserted {
                    assert(old(self).details().contains_key(kk));
                    assert(self.details()[kk] == old(self).details()[kk]);
                }
            }
            assert forall|kk: KeyV| #[trigger] self.statuses().contains_key(kk) implies self.statuses()[kk].wf() by {
                assert(old(self).statuses().contains_key(kk));
            }
        }
        inserted
    }

    /// Point lookup of agreement detail; absence is not an error.
    pub fn get_agreement_details(
        &self,
        role: Role,
        node_id: &String,
        agreement_id: &String,
    ) -> (r: Option<AgreementInfo>)
        requires
            self.wf(),
        ensures
            r is Some <==> self.details().contains_key(keyv(role, node_id@, agreement_id@)),
            r is Some ==> r->0 == self.details()[keyv(role, node_id@, agreement_id@)],
    {
        match self.detail_table.get(role, node_id, agreement_id) {
            Some(info) => Some(info.clone()),
            None => None,
        }
    }

    /// The node identifiers that have ever reported a status under `role`,
    /// each once.
    pub fn list(&self, role: Role) -> (r: Vec<String>)
        requires
            self.wf(),
        ensures
            forall|j: int|
                0 <= j < r@.len() ==> node_reported(self.statuses(), role, (#[trigger] r@[j])@),
            forall|k: KeyV|
                #[trigger] self.statuses().contains_key(k) && k.role == role ==> node_listed(
                    r@,
                    k.node,
                ),
            forall|j1: int, j2: int|
                0 <= j1 < j2 < r@.len() ==> (#[trigger] r@[j1])@ != (#[trigger] r@[j2])@,
    {
        let rows = &self.status_table.rows;
        let mut out: Vec<String> = Vec::new();
        let mut i: usize = 0;
        while i < rows.len()
            invariant
                self.wf(),
                rows == self.status_table.rows,
                0 <= i <= rows@.len(),
                forall|j: int|
                    0 <= j < out@.len() ==> node_reported(
                        self.statuses(),
                        role,
                        (#[trigger] out@[j])@,
                    ),
                forall|a: int|
                    0 <= a < i && (#[trigger] rows@[a]).key.role == role ==> node_listed(
                        out@,
                        rows@[a].key.node_id@,
                    ),
                forall|j1: int, j2: int|
                    0 <= j1 < j2 < out@.len() ==> (#[trigger] out@[j1])@ != (#[trigger] out@[j2])@,
            decreases rows@.len() - i,
        {
            let e = &rows[i];
            if e.key.role == role {
                if !contains_string(&out, &e.key.node_id) {
                    proof {
                        lemma_row_in_map(self.status_table.rows@, i as int);
                    }
                    let ghost prev = out@;
                    out.push(e.key.node_id.clone());
                    proof {
                        assert forall|j: int|
                            0 <= j < out@.len() implies node_reported(
                            self.statuses(),
                            role,
                            (#[trigger] out@[j])@,
                        ) by {
                            if j < prev.len() {
                                assert(out@[j] == prev[j]);
                            } else {
                                let k = rows@[i as int].key.keyv();
                                assert(self.statuses().contains_key(k) && k.role == role && k.node
                                    == out@[j]@);
                            }
                        }
                        assert forall|a: int|
                            0 <= a < i + 1 && (#[trigger] rows@[a]).key.role == role implies node_listed(
                            out@,
                            rows@[a].key.node_id@,
                        ) by {
                            if a < i {
                                let x = choose|x: int|
                                    0 <= x < prev.len() && (#[trigger] prev[x])@
                                        == rows@[a].key.node_id@;
                                assert((out@[x])@ == rows@[a].key.node_id@);
                            } else {
                                assert((out@[prev.len() as int])@ == rows@[a].key.node_id@);
                            }
                        }
                    }
                } else {
                    proof {
                        assert(node_listed(out@, rows@[i as int].key.node_id@));
                    }
                }
            }
            i = i + 1;
        }
        proof {
            assert forall|k: KeyV|
                #[trigger] self.statuses().contains_key(k) && k.role == role implies node_listed(
                out@,
                k.node,
            ) by {
                let a = choose|a: int|
                    0 <= a < self.status_table.rows@.len() && (
                    #[trigger] self.status_table.rows@[a]).key.keyv() == k;
                assert(rows@[a].key.role == role);
            }
        }
        out
    }

    /// Every agreement of `node_id` under `role` that has a status row,
    /// each once, left-joined with its detail row: the counterparty defaults
    /// to empty where no detail was registered.
    pub fn list_agreements(&self, role: Role, node_id: &String) -> (r: Vec<Agreement>)
        requires
            self.wf(),
        ensures
            forall|j: int|
                0 <= j < r@.len() ==> listed_agreement_ok(
                    #[trigger] r@[j],
                    self.statuses(),
                    self.details(),
                    role,
                    node_id@,
                ),
            forall|k: KeyV|
                #[trigger] self.statuses().contains_key(k) && k.role == role && k.node == node_id@
                    ==> agreement_listed(r@, k.agreement),
            forall|j1: int, j2: int|
                0 <= j1 < j2 < r@.len() ==> (#[trigger] r@[j1]).agreement_id@ != (
                #[trigger] r@[j2]).agreement_id@,
    {
        let rows = &self.status_table.rows;
        let mut out: Vec<Agreement> = Vec::new();
        let mut i: usize = 0;
        while i < rows.len()
            invariant
                self.wf(),
                rows == self.status_table.rows,
                0 <= i <= rows@.len(),
                forall|j: int|
                    0 <= j < out@.len() ==> listed_agreement_ok(
                        #[trigger] out@[j],
                        self.statuses(),
                        self.details(),
                        role,
                        node_id@,
                    ),
                forall|j: int|
                    0 <= j < out@.len() ==> key_in_prefix(
                        rows@,
                        i as int,
                        keyv(role, node_id@, (#[trigger] out@[j]).agreement_id@),
                    ),
                forall|a: int|
                    0 <= a < i && (#[trigger] rows@[a]).key.role == role && rows@[a].key.node_id@
                        == node_id@ ==> agreement_listed(out@, rows@[a].key.agreement_id@),
                forall|j1: int, j2: int|
                    0 <= j1 < j2 < out@.len() ==> (#[trigger] out@[j1]).agreement_id@ != (
                    #[trigger] out@[j2]).agreement_id@,
            decreases rows@.len() - i,
        {
            let e = &rows[i];
            if e.key.role == role && e.key.node_id == *node_id {
                proof {
                    lemma_row_in_map(self.status_table.rows@, i as int);
                }
                let ghost k = keyv(role, node_id@, e.key.agreement_id@);
                proof {
                    assert(rows@[i as int].key.keyv() == k);
                    assert(self.statuses().contains_key(k));
                    assert(self.statuses()[k] == rows@[i as int].val);
                }
                let peer_id = match self.detail_table.get(role, node_id, &e.key.agreement_id) {
                    Some(info) => info.peer_id.clone(),
                    None => String::new(),
                };
                let ag = Agreement {
                    agreement_id: e.key.agreement_id.clone(),
                    peer_id,
                    created_ts: e.val.created_ts,
                    status: Status {
                        requested: e.val.requested.clone(),
                        accepted: e.val.accepted.clone(),
                        confirmed: e.val.confirmed.clone(),
                        ts: e.val.reported_ts,
                        payment_due_ts: None,
                        payment: None,
                    },
                };
                let ghost prev = out@;
                proof {
                    // The new agreement id cannot already be listed: its
                    // source row would have to stand twice in the table.
                    assert forall|j: int|
                        0 <= j < prev.len() implies (#[trigger] prev[j]).agreement_id@
                        != e.key.agreement_id@ by {
                        if prev[j].agreement_id@ == e.key.agreement_id@ {
                            let a = choose|a: int|
                                0 <= a < i && (#[trigger] rows@[a]).key.keyv() == keyv(
                                    role,
                                    node_id@,
                                    prev[j].agreement_id@,
                                );
                            assert(rows@[a].key.keyv() == rows@[i as int].key.keyv());
                            assert(false);
                        }
                    }
                }
                out.push(ag);
                proof {
                    assert(listed_agreement_ok(
                        out@[prev.len() as int],
                        self.statuses(),
                        self.details(),
                        role,
                        node_id@,
                    ));
                    assert forall|j: int|
                        0 <= j < out@.len() implies key_in_prefix(
                        rows@,
                        i + 1,
                        keyv(role, node_id@, (#[trigger] out@[j]).agreement_id@),
                    ) by {
                        if j < prev.len() {
                            assert(out@[j] == prev[j]);
                            let a = choose|a: int|
                                0 <= a < i && (#[trigger] rows@[a]).key.keyv() == keyv(
                                    role,
                                    node_id@,
                                    prev[j].agreement_id@,
                                );
                            assert(0 <= a < i + 1 && rows@[a].key.keyv() == keyv(
                                role,
                                node_id@,
                                out@[j].agreement_id@,
                            ));
                        } else {
                            assert(rows@[i as int].key.keyv() == keyv(
                                role,
                                node_id@,
                                out@[j].agreement_id@,
                            ));
                        }
                    }
                    assert forall|a: int|
                        0 <= a < i + 1 && (#[trigger] rows@[a]).key.role == role
                            && rows@[a].key.node_id@ == node_id@ implies agreement_listed(
                        out@,
                        rows@[a].key.agreement_id@,
                    ) by {
                        if a < i {
                            let x = choose|x: int|
                                0 <= x < prev.len() && (#[trigger] prev[x]).agreement_id@
                                    == rows@[a].key.agreement_id@;
                            assert(out@[x].agreement_id@ == rows@[a].key.agreement_id@);
                        } else {
                            assert(out@[prev.len() as int].agreement_id@
                                == rows@[a].key.agreement_id@);
                        }
                    }
                }
            }
            i = i + 1;
        }
        proof {
            assert forall|k: KeyV|
                #[trigger] self.statuses().contains_key(k) && k.role == role && k.node == node_id@ implies agreement_listed(
                out@,
                k.agreement,
            ) by {
                let a = choose|a: int|
                    0 <= a < self.status_table.rows@.len() && (
                    #[trigger] self.status_table.rows@[a]).key.keyv() == k;
                assert(rows@[a].key.role == role && rows@[a].key.node_id@ == k.node);
            }
        }
        out
    }
}

/// Reporting the same `(key, status)` twice with the same clock reading
/// leaves exactly the state of the first write: the upsert overwrites in
/// place, it never appends or duplicates, and the row's creation time is
/// kept from the first write.
pub proof fn lemma_upsert_idempotent(
    m: Map<KeyV, StatusRecord>,
    k: KeyV,
    st: Status,
    now: Timestamp,
)
    ensures
        upsert_status_map(upsert_status_map(m, k, st, now), k, st, now) == upsert_status_map(
            m,
            k,
            st,
            now,
        ),
{
    let m1 = upsert_status_map(m, k, st, now);
    let m2 = upsert_status_map(m1, k, st, now);
    assert(m1.contains_key(k));
    assert(m2 =~= m1);
}

/// A status submitted for a key and then read back through the agreement
/// listing comes back exactly: the three amounts character for character —
/// no rounding, no reformatting — and the status timestamp is the reported
/// event time. Together with the round trip of [`crate::amount`], the
/// decimal text a caller submits is the decimal text it reads back.
pub proof fn lemma_report_read_back(
    m: Map<KeyV, StatusRecord>,
    k: KeyV,
    st: Status,
    now: Timestamp,
    details: Map<KeyV, AgreementInfo>,
    a: Agreement,
)
    requires
        a.agreement_id@ == k.agreement,
        listed_agreement_ok(a, upsert_status_map(m, k, st, now), details, k.role, k.node),
    ensures
        a.status.requested == st.requested,
        a.status.accepted == st.accepted,
        a.status.confirmed == st.confirmed,
        a.status.ts == st.ts,
{
    assert(keyv(k.role, k.node, a.agreement_id@) == k);
}

/// Some agreement of `node` under `role` has a status row.
pub open spec fn node_reported(m: Map<KeyV, StatusRecord>, role: Role, node: Seq<char>) -> bool {
    exists|k: KeyV| #[trigger] m.contains_key(k) && k.role == role && k.node == node
}

/// `node` occurs among the listed identifiers.
pub open spec fn node_listed(nodes: Seq<String>, node: Seq<char>) -> bool {
    exists|j: int| 0 <= j < nodes.len() && (#[trigger] nodes[j])@ == node
}

/// `agreement` occurs among the listed rows.
pub open spec fn agreement_listed(rows: Seq<Agreement>, agreement: Seq<char>) -> bool {
    exists|j: int| 0 <= j < rows.len() && (#[trigger] rows[j]).agreement_id@ == agreement
}

/// The listed row for one agreement is exactly the stored one: the latest
/// amounts, the report's event timestamp, the row's creation time, and the
/// counterparty joined from the detail table (empty without detail).
pub open spec fn listed_agreement_ok(
    a: Agreement,
    statuses: Map<KeyV, StatusRecord>,
    details: Map<KeyV, AgreementInfo>,
    role: Role,
    node: Seq<char>,
) -> bool {
    let k = keyv(role, node, a.agreement_id@);
    &&& statuses.contains_key(k)
    &&& a.status.requested == statuses[k].requested
    &&& a.status.accepted == statuses[k].accepted
    &&& a.status.confirmed == statuses[k].confirmed
    &&& a.status.ts == statuses[k].reported_ts
    &&& a.created_ts == statuses[k].created_ts
    &&& a.status.payment_due_ts is None
    &&& a.status.payment is None
    &&& (details.contains_key(k) ==> a.peer_id@ == details[k].peer_id@)
    &&& (!details.contains_key(k) ==> a.peer_id@ == Seq::<char>::empty())
    &&& a.status.wf()
}

spec fn key_in_prefix(rows: Seq<Entry<StatusRecord>>, n: int, k: KeyV) -> bool {
    exists|a: int| 0 <= a < n && (#[trigger] rows[a]).key.keyv() == k
}

fn contains_string(v: &Vec<String>, s: &String) -> (r: bool)
    ensures
        r == node_listed(v@, s@),
{
    let mut i: usize = 0;
    while i < v.len()
        invariant
            0 <= i <= v@.len(),
            forall|j: int| 0 <= j < i ==> (#[trigger] v@[j])@ != s@,
        decreases v@.len() - i,
    {
        if v[i] == *s {
            proof {
                assert((v@[i as int])@ == s@);
            }
            return true;
        }
        i = i + 1;
    }
    false
}

} // verus!

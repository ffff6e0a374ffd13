use reputation_aggregator::client::{agreement_url, report_url};
use reputation_aggregator::codec::{
    encode_agreements, encode_nodes, encode_report_result, encode_score, encode_status,
};
use reputation_aggregator::replay::{map_legacy_row, role_from_db, REPLAY_CONCURRENCY};
use reputation_aggregator::report::{decode_status, save_agreement_details, save_agreement_status};
use reputation_aggregator::{
    Agreement, AgreementInfo, AgreementRole, Amount, LegacyRow, RawStatus, ReplayDriver,
    ReportResult, Role, RowError, RowOutcome, StandardScore, StatusBuilder, StatusDao, Timestamp,
    ValidationError,
};

fn s(text: &str) -> String {
    text.to_string()
}

fn info(peer: &str) -> AgreementInfo {
    AgreementInfo {
        peer_id: s(peer),
        created_ts: Timestamp { ms: 500 },
        valid_to: None,
        runtime: None,
        payment_platform: s("erc20-polygon-glm"),
        payment_address: s("0xabc"),
        subnet: None,
        task_package: None,
    }
}

fn raw(requested: &str, accepted: &str, confirmed: &str, ts: &str) -> RawStatus {
    RawStatus {
        requested: s(requested),
        accepted: s(accepted),
        confirmed: s(confirmed),
        ts: s(ts),
        payment_due_ts: None,
    }
}

#[test]
fn test_build() {
    let now = Timestamp { ms: 0 };
    let status0 = StatusBuilder::default()
        .requested(Amount::parse("10").unwrap())
        .accepted(Amount::parse("10").unwrap())
        .ts(now)
        .build();
    assert_eq!(
        encode_status(&status0),
        "{\"requested\":\"10\",\"accepted\":\"10\",\"confirmed\":\"0\",\"ts\":\"1970-01-01T00:00:00+00:00\"}"
    );
}

#[test]
fn builder_defaults_fill_zero_amounts() {
    let status = StatusBuilder::default().ts(Timestamp { ms: 0 }).build();
    assert_eq!(status.requested.as_str(), "0");
    assert_eq!(status.accepted.as_str(), "0");
    assert_eq!(status.confirmed.as_str(), "0");
    let json = encode_status(&status);
    assert!(json.contains("\"requested\":\"0\""));
    assert!(json.contains("\"accepted\":\"0\""));
    assert!(json.contains("\"confirmed\":\"0\""));
}

#[test]
fn amount_parse_canonicalizes() {
    assert_eq!(Amount::parse("10").unwrap().as_str(), "10");
    assert_eq!(Amount::parse("007.50").unwrap().as_str(), "7.50");
    assert_eq!(Amount::parse("-0.5").unwrap().as_str(), "-0.5");
    assert_eq!(Amount::parse("000").unwrap().as_str(), "0");
    assert_eq!(Amount::parse("0.000").unwrap().as_str(), "0.000");
    assert_eq!(Amount::zero().as_str(), "0");
}

#[test]
fn amount_parse_rejects_malformed() {
    assert!(Amount::parse("").is_none());
    assert!(Amount::parse("-").is_none());
    assert!(Amount::parse("1.").is_none());
    assert!(Amount::parse(".5").is_none());
    assert!(Amount::parse("12x").is_none());
    assert!(Amount::parse("1.2.3").is_none());
    assert!(Amount::parse("1e5").is_none());
    assert!(Amount::parse("+5").is_none());
}

#[test]
fn amount_round_trip_exact() {
    for text in ["10", "0", "7.50", "-3.1415926535897932384626433", "123456789012345678901234567890"] {
        let a = Amount::parse(text).unwrap();
        assert_eq!(a.as_str(), text);
        let b = Amount::parse(a.as_str()).unwrap();
        assert_eq!(b.as_str(), text);
    }
}

#[test]
fn role_codes() {
    assert_eq!(Role::Provider.as_db(), "P");
    assert_eq!(Role::Requestor.as_db(), "R");
    assert_eq!(Role::Provider.as_db_role(), "P");
    assert_eq!(Role::from_db("P"), Some(Role::Provider));
    assert_eq!(Role::from_db("R"), Some(Role::Requestor));
    assert_eq!(Role::from_db("X"), None);
    assert_eq!(Role::from_wire("provider"), Some(Role::Provider));
    assert_eq!(Role::from_wire("requestor"), Some(Role::Requestor));
    assert_eq!(Role::from_wire("Provider"), None);
}

#[test]
fn list_nodes_on_empty_store_is_empty() {
    let dao = StatusDao::new();
    let nodes = dao.list(Role::Provider);
    assert!(nodes.is_empty());
    assert_eq!(encode_nodes(&nodes), "[]");
}

#[test]
fn report_without_detail_is_recorded_as_unknown_agreement() {
    let mut dao = StatusDao::new();
    let body = raw("100", "0", "0", "2022-01-01T00:00:00Z");
    let outcome = save_agreement_status(
        &mut dao,
        Role::Provider,
        &s("node-1"),
        &s("agr-1"),
        &body,
        Timestamp { ms: 7_000 },
    )
    .unwrap();
    assert_eq!(outcome, ReportResult::UnknownAgreement {});
    assert_eq!(encode_report_result(&outcome), "{\"unknownAgreement\":{}}");
    assert!(outcome.is_unknown_agreement());

    let listed = dao.list_agreements(Role::Provider, &s("node-1"));
    assert_eq!(listed.len(), 1);
    assert_eq!(listed[0].agreement_id, "agr-1");
    assert_eq!(listed[0].peer_id, "");
    assert_eq!(listed[0].status.requested.as_str(), "100");
    assert_eq!(listed[0].status.accepted.as_str(), "0");
    assert_eq!(listed[0].status.confirmed.as_str(), "0");
    let nodes = dao.list(Role::Provider);
    assert_eq!(nodes, vec![s("node-1")]);
    assert!(dao.list(Role::Requestor).is_empty());
}

#[test]
fn status_round_trips_through_the_listing() {
    let mut dao = StatusDao::new();
    let body = raw("10", "10", "0", "1970-01-01T00:00:00Z");
    save_agreement_status(
        &mut dao,
        Role::Requestor,
        &s("node-2"),
        &s("agr-7"),
        &body,
        Timestamp { ms: 99_999 },
    )
    .unwrap();
    let listed = dao.list_agreements(Role::Requestor, &s("node-2"));
    assert_eq!(listed.len(), 1);
    assert_eq!(listed[0].status.requested.as_str(), "10");
    assert_eq!(listed[0].status.accepted.as_str(), "10");
    assert_eq!(listed[0].status.confirmed.as_str(), "0");
    // The listing reports the event time the caller submitted, exactly.
    assert_eq!(listed[0].status.ts, Timestamp { ms: 0 });
}

#[test]
fn reporting_twice_overwrites_in_place() {
    let mut dao = StatusDao::new();
    let body = raw("5.5", "1", "0", "2021-06-01T10:00:00Z");
    let now = Timestamp { ms: 1234 };
    save_agreement_status(&mut dao, Role::Provider, &s("n"), &s("a"), &body, now).unwrap();
    let first = encode_agreements(&dao.list_agreements(Role::Provider, &s("n")));
    save_agreement_status(&mut dao, Role::Provider, &s("n"), &s("a"), &body, now).unwrap();
    let second = encode_agreements(&dao.list_agreements(Role::Provider, &s("n")));
    assert_eq!(first, second);
    assert_eq!(dao.list_agreements(Role::Provider, &s("n")).len(), 1);
}

#[test]
fn detail_before_or_after_first_report_decides_the_outcome() {
    // Report first, register detail after: first outcome UnknownAgreement,
    // every later one Okay.
    let mut dao = StatusDao::new();
    let body = raw("1", "0", "0", "2021-01-01T00:00:00Z");
    let now = Timestamp { ms: 10 };
    let first =
        save_agreement_status(&mut dao, Role::Provider, &s("n"), &s("a"), &body, now).unwrap();
    assert_eq!(first, ReportResult::UnknownAgreement {});
    save_agreement_details(&mut dao, Role::Provider, &s("n"), &s("a"), info("peer-9")).unwrap();
    let second =
        save_agreement_status(&mut dao, Role::Provider, &s("n"), &s("a"), &body, now).unwrap();
    assert_eq!(second, ReportResult::Okay {});

    // Detail first: already the first report returns Okay.
    let mut dao2 = StatusDao::new();
    save_agreement_details(&mut dao2, Role::Provider, &s("n"), &s("a"), info("peer-9")).unwrap();
    let outcome =
        save_agreement_status(&mut dao2, Role::Provider, &s("n"), &s("a"), &body, now).unwrap();
    assert_eq!(outcome, ReportResult::Okay {});

    // And the stored rows agree in both orders.
    assert_eq!(
        encode_agreements(&dao.list_agreements(Role::Provider, &s("n"))),
        encode_agreements(&dao2.list_agreements(Role::Provider, &s("n"))),
    );
}

#[test]
fn detail_lookup_and_duplicate_registration() {
    let mut dao = StatusDao::new();
    assert!(dao
        .get_agreement_details(Role::Provider, &s("n"), &s("a"))
        .is_none());
    assert_eq!(
        save_agreement_details(&mut dao, Role::Provider, &s("n"), &s("a"), info("first")).unwrap(),
        true
    );
    // A duplicate insert leaves the existing row untouched.
    assert_eq!(
        save_agreement_details(&mut dao, Role::Provider, &s("n"), &s("a"), info("second")).unwrap(),
        false
    );
    let stored = dao
        .get_agreement_details(Role::Provider, &s("n"), &s("a"))
        .unwrap();
    assert_eq!(stored.peer_id, "first");
    assert_eq!(stored.payment_platform, "erc20-polygon-glm");
}

#[test]
fn detail_validation_rejects_empty_required_fields() {
    let mut dao = StatusDao::new();
    let mut no_platform = info("p");
    no_platform.payment_platform = s("");
    assert_eq!(
        save_agreement_details(&mut dao, Role::Provider, &s("n"), &s("a"), no_platform),
        Err(ValidationError::MissingPaymentPlatform)
    );
    let mut no_address = info("p");
    no_address.payment_address = s("");
    assert_eq!(
        save_agreement_details(&mut dao, Role::Provider, &s("n"), &s("a"), no_address),
        Err(ValidationError::MissingPaymentAddress)
    );
    // Nothing was stored.
    assert!(dao
        .get_agreement_details(Role::Provider, &s("n"), &s("a"))
        .is_none());
}

#[test]
fn status_validation_names_the_first_bad_field() {
    assert_eq!(
        decode_status(&raw("x", "0", "0", "2021-01-01T00:00:00Z")).unwrap_err(),
        ValidationError::BadRequested
    );
    assert_eq!(
        decode_status(&raw("1", "y", "0", "2021-01-01T00:00:00Z")).unwrap_err(),
        ValidationError::BadAccepted
    );
    assert_eq!(
        decode_status(&raw("1", "0", "z", "2021-01-01T00:00:00Z")).unwrap_err(),
        ValidationError::BadConfirmed
    );
    assert_eq!(
        decode_status(&raw("1", "0", "0", "not-a-time")).unwrap_err(),
        ValidationError::BadTimestamp
    );
    let mut bad_due = raw("1", "0", "0", "2021-01-01T00:00:00Z");
    bad_due.payment_due_ts = Some(s("later"));
    assert_eq!(
        decode_status(&bad_due).unwrap_err(),
        ValidationError::BadPaymentDueTimestamp
    );
}

#[test]
fn status_decode_parses_fields() {
    let mut body = raw("07", "0.50", "0", "1970-01-01T00:01:00Z");
    body.payment_due_ts = Some(s("1970-01-01T00:02:00Z"));
    let status = decode_status(&body).unwrap();
    assert_eq!(status.requested.as_str(), "7");
    assert_eq!(status.accepted.as_str(), "0.50");
    assert_eq!(status.confirmed.as_str(), "0");
    assert_eq!(status.ts, Timestamp { ms: 60_000 });
    assert_eq!(status.payment_due_ts, Some(Timestamp { ms: 120_000 }));
    assert!(status.payment.is_none());
}

#[test]
fn malformed_report_leaves_the_store_unchanged() {
    let mut dao = StatusDao::new();
    let result = save_agreement_status(
        &mut dao,
        Role::Provider,
        &s("n"),
        &s("a"),
        &raw("oops", "0", "0", "2021-01-01T00:00:00Z"),
        Timestamp { ms: 0 },
    );
    assert_eq!(result.unwrap_err(), ValidationError::BadRequested);
    assert!(dao.list(Role::Provider).is_empty());
    assert!(dao.list_agreements(Role::Provider, &s("n")).is_empty());
}

#[test]
fn encode_agreement_listing_and_escaping() {
    let mut dao = StatusDao::new();
    let body = raw("1", "0", "0", "1970-01-01T00:00:00Z");
    save_agreement_status(
        &mut dao,
        Role::Provider,
        &s("node \"x\""),
        &s("agr\\1"),
        &body,
        Timestamp { ms: 0 },
    )
    .unwrap();
    let listed = dao.list_agreements(Role::Provider, &s("node \"x\""));
    let json = encode_agreements(&listed);
    assert_eq!(
        json,
        "[{\"agreementId\":\"agr\\\\1\",\"peerId\":\"\",\"createdTs\":\"1970-01-01T00:00:00+00:00\",\"status\":{\"requested\":\"1\",\"accepted\":\"0\",\"confirmed\":\"0\",\"ts\":\"1970-01-01T00:00:00+00:00\"}}]"
    );
    let nodes = encode_nodes(&dao.list(Role::Provider));
    assert_eq!(nodes, "[\"node \\\"x\\\"\"]");
}

#[test]
fn encode_report_results() {
    assert_eq!(encode_report_result(&ReportResult::Okay {}), "{\"ok\":{}}");
    assert_eq!(
        encode_report_result(&ReportResult::UnknownAgreement {}),
        "{\"unknownAgreement\":{}}"
    );
}

#[test]
fn encode_score_answers() {
    let some = StandardScore { score: Amount::parse("99.5") };
    assert_eq!(encode_score(&some), "{\"score\":\"99.5\"}");
    let none = StandardScore { score: None };
    assert_eq!(encode_score(&none), "{\"score\":null}");
}

#[test]
fn client_routes() {
    assert_eq!(AgreementRole::Provider.as_path(), "/provider");
    assert_eq!(AgreementRole::Requestor.as_path(), "/requestor");
    assert_eq!(AgreementRole::Provider.role(), Role::Provider);
    assert_eq!(
        agreement_url("http://host", AgreementRole::Provider, "n1", "a1"),
        "http://host/provider/n1/agreement/a1"
    );
    assert_eq!(
        report_url("http://host", AgreementRole::Requestor, "n1", "a1"),
        "http://host/requestor/n1/agreement/a1/status"
    );
}

fn legacy_row(id: &str, role: &str, due: &str) -> LegacyRow {
    LegacyRow {
        id: s(id),
        role: s(role),
        owner_id: s("owner-1"),
        peer_id: s("peer-1"),
        total_amount_due: s(due),
        total_amount_accepted: s("1"),
        total_amount_paid: s("0"),
        updated_ts: Some(Timestamp { ms: 42 }),
    }
}

#[test]
fn legacy_role_decoding() {
    assert_eq!(role_from_db("R"), Some(AgreementRole::Requestor));
    assert_eq!(role_from_db("P"), Some(AgreementRole::Provider));
    assert_eq!(role_from_db("Q"), None);
    assert_eq!(role_from_db(""), None);
}

#[test]
fn legacy_row_mapping() {
    let now = Timestamp { ms: 1_000 };
    let q = map_legacy_row(&legacy_row("a1", "R", "003.50"), now).unwrap();
    assert_eq!(q.role, AgreementRole::Requestor);
    assert_eq!(q.node_id, "owner-1");
    assert_eq!(q.agreement_id, "a1");
    assert_eq!(q.status.requested.as_str(), "3.50");
    assert_eq!(q.status.accepted.as_str(), "1");
    assert_eq!(q.status.confirmed.as_str(), "0");
    assert_eq!(q.status.ts, Timestamp { ms: 42 });

    let mut no_ts = legacy_row("a2", "P", "1");
    no_ts.updated_ts = None;
    let q2 = map_legacy_row(&no_ts, now).unwrap();
    assert_eq!(q2.status.ts, now);

    assert_eq!(
        map_legacy_row(&legacy_row("a3", "P", "nope"), now).unwrap_err(),
        RowError::BadAmountDue
    );
    assert_eq!(
        map_legacy_row(&legacy_row("a4", "X", "1"), now).unwrap_err(),
        RowError::UnknownRole
    );
}

#[test]
fn replay_isolates_the_bad_row() {
    let now = Timestamp { ms: 0 };
    let rows = vec![
        legacy_row("a1", "P", "1"),
        legacy_row("a2", "P", "2"),
        legacy_row("a3", "P", "not-a-number"),
        legacy_row("a4", "R", "4"),
        legacy_row("a5", "R", "5"),
    ];
    let mut driver = ReplayDriver::new(rows, now);
    let mut pending: Vec<usize> = Vec::new();
    loop {
        while let Some((i, _request)) = driver.launch() {
            pending.push(i);
        }
        match pending.pop() {
            Some(i) => driver.complete(i, RowOutcome::Reported(ReportResult::Okay {})),
            None => break,
        }
    }
    assert!(driver.is_done());
    assert_eq!(driver.failure_count(), 1);
    assert_eq!(
        driver.outcome(2),
        Some(RowOutcome::ParseFailed(RowError::BadAmountDue))
    );
    for i in [0usize, 1, 3, 4] {
        assert_eq!(
            driver.outcome(i),
            Some(RowOutcome::Reported(ReportResult::Okay {}))
        );
    }
}

#[test]
fn replay_never_exceeds_four_in_flight() {
    let now = Timestamp { ms: 0 };
    let mut rows = Vec::new();
    for i in 0..25 {
        rows.push(legacy_row(&format!("agr-{}", i), "P", "1"));
    }
    let mut driver = ReplayDriver::new(rows, now);
    let mut pending: Vec<usize> = Vec::new();
    let mut max_in_flight: usize = 0;
    loop {
        while let Some((i, _request)) = driver.launch() {
            pending.push(i);
            if driver.in_flight() > max_in_flight {
                max_in_flight = driver.in_flight();
            }
        }
        assert!(driver.in_flight() <= REPLAY_CONCURRENCY);
        match pending.pop() {
            Some(i) => driver.complete(i, RowOutcome::Reported(ReportResult::Okay {})),
            None => break,
        }
    }
    assert!(driver.is_done());
    assert_eq!(max_in_flight, REPLAY_CONCURRENCY);
    assert_eq!(driver.failure_count(), 0);
}

#[test]
fn replay_records_transport_failures_per_row() {
    let now = Timestamp { ms: 0 };
    let rows = vec![legacy_row("a1", "P", "1"), legacy_row("a2", "P", "2")];
    let mut driver = ReplayDriver::new(rows, now);
    let (first, _q1) = driver.launch().unwrap();
    let (second, _q2) = driver.launch().unwrap();
    driver.complete(first, RowOutcome::TransportFailed);
    driver.complete(
        second,
        RowOutcome::Reported(ReportResult::UnknownAgreement {}),
    );
    assert!(driver.is_done());
    // The transport failure is one row's outcome; an UnknownAgreement
    // answer is a warning, not a failure.
    assert_eq!(driver.failure_count(), 1);
    assert_eq!(driver.outcome(0), Some(RowOutcome::TransportFailed));
    assert_eq!(
        driver.outcome(1),
        Some(RowOutcome::Reported(ReportResult::UnknownAgreement {}))
    );
}

#[test]
fn timestamps_are_range_checked() {
    assert_eq!(Timestamp::new(0), Some(Timestamp { ms: 0 }));
    assert!(Timestamp::new(i64::MAX).is_none());
    assert!(Timestamp::new(i64::MIN).is_none());
    let clamped = Timestamp::clamped(i64::MAX);
    assert!(Timestamp::new(clamped.ms).is_some());
    // An RFC 3339 time parses to the instant it denotes.
    let status = decode_status(&raw("0", "0", "0", "2001-09-09T01:46:40Z")).unwrap();
    assert_eq!(status.ts, Timestamp { ms: 1_000_000_000_000 });
}

#[test]
fn agreement_struct_lists_fields() {
    let a = Agreement {
        agreement_id: s("id"),
        peer_id: s("peer"),
        created_ts: Timestamp { ms: 0 },
        status: StatusBuilder::default().ts(Timestamp { ms: 0 }).build(),
    };
    let json = reputation_aggregator::codec::encode_agreement(&a);
    assert!(json.starts_with("{\"agreementId\":\"id\",\"peerId\":\"peer\""));
}

#[test]
fn encode_status_with_payment_due() {
    let status = StatusBuilder::default()
        .requested(Amount::parse("1").unwrap())
        .ts(Timestamp { ms: 0 })
        .payment_due_ts(Timestamp { ms: 60_000 })
        .build();
    assert_eq!(
        encode_status(&status),
        "{\"requested\":\"1\",\"accepted\":\"0\",\"confirmed\":\"0\",\"ts\":\"1970-01-01T00:00:00+00:00\",\"paymentDueTs\":\"1970-01-01T00:01:00+00:00\"}"
    );
}

#[test]
fn upsert_keeps_the_creation_time() {
    let mut dao = StatusDao::new();
    let body = raw("1", "0", "0", "2021-01-01T00:00:00Z");
    save_agreement_status(&mut dao, Role::Provider, &s("n"), &s("a"), &body, Timestamp { ms: 1_000 })
        .unwrap();
    let body2 = raw("2", "1", "0", "2021-02-01T00:00:00Z");
    save_agreement_status(&mut dao, Role::Provider, &s("n"), &s("a"), &body2, Timestamp { ms: 2_000 })
        .unwrap();
    let listed = dao.list_agreements(Role::Provider, &s("n"));
    assert_eq!(listed.len(), 1);
    // The row was created by the first write and only updated by the second.
    assert_eq!(listed[0].created_ts, Timestamp { ms: 1_000 });
    assert_eq!(listed[0].status.requested.as_str(), "2");
}

#[test]
fn distinct_agreements_listed_separately() {
    let mut dao = StatusDao::new();
    let body = raw("1", "0", "0", "2021-01-01T00:00:00Z");
    let now = Timestamp { ms: 5 };
    save_agreement_status(&mut dao, Role::Provider, &s("n"), &s("a1"), &body, now).unwrap();
    save_agreement_status(&mut dao, Role::Provider, &s("n"), &s("a2"), &body, now).unwrap();
    save_agreement_status(&mut dao, Role::Requestor, &s("n"), &s("a1"), &body, now).unwrap();
    save_agreement_status(&mut dao, Role::Provider, &s("m"), &s("a1"), &body, now).unwrap();
    let listed = dao.list_agreements(Role::Provider, &s("n"));
    assert_eq!(listed.len(), 2);
    let mut ids: Vec<&str> = listed.iter().map(|a| a.agreement_id.as_str()).collect();
    ids.sort();
    assert_eq!(ids, vec!["a1", "a2"]);
    let mut nodes = dao.list(Role::Provider);
    nodes.sort();
    assert_eq!(nodes, vec![s("m"), s("n")]);
}

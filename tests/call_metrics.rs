use std::collections::HashMap;

use tonic_metrics::call::{CallContext, FinishRecord, Outcome, Phase, StartRecord};
use tonic_metrics::status::{status_from_header, StatusCode};
use tonic_metrics::target::{split_target, TargetError};

fn responded(header: Option<&str>) -> Outcome {
    Outcome::Responded { status_header: header.map(|h| h.as_bytes().to_vec()) }
}

fn finish_of(path: &str, start: u64, end: u64, outcome: &Outcome) -> FinishRecord {
    let mut call = CallContext::for_target(path).unwrap();
    assert!(call.begin(start).is_some());
    call.finish(end, outcome).unwrap()
}

#[test]
fn status_header_numeric_forms() {
    assert_eq!(status_from_header(b"0"), StatusCode::Okay);
    assert_eq!(status_from_header(b"2"), StatusCode::Unknown);
    assert_eq!(status_from_header(b"5"), StatusCode::NotFound);
    assert_eq!(status_from_header(b"10"), StatusCode::Aborted);
    assert_eq!(status_from_header(b"16"), StatusCode::Unauthenticated);
}

#[test]
fn status_header_canonical_names() {
    assert_eq!(status_from_header(b"NOT_FOUND"), StatusCode::NotFound);
    assert_eq!(status_from_header(b"OK"), StatusCode::Okay);
    assert_eq!(status_from_header(b"DATA_LOSS"), StatusCode::DataLoss);
    assert_eq!(status_from_header(b"UNAUTHENTICATED"), StatusCode::Unauthenticated);
}

#[test]
fn status_header_unrecognised_is_unknown() {
    assert_eq!(status_from_header(b"17"), StatusCode::Unknown);
    assert_eq!(status_from_header(b""), StatusCode::Unknown);
    assert_eq!(status_from_header(b"not_found"), StatusCode::Unknown);
    assert_eq!(status_from_header(b"NOT_FOUNDX"), StatusCode::Unknown);
    assert_eq!(status_from_header(b"05"), StatusCode::Unknown);
}

#[test]
fn status_names_and_numbers() {
    assert_eq!(StatusCode::Okay.name(), "OK");
    assert_eq!(StatusCode::NotFound.name(), "NOT_FOUND");
    assert_eq!(StatusCode::Unknown.name(), "UNKNOWN");
    assert_eq!(StatusCode::FailedPrecondition.name(), "FAILED_PRECONDITION");
    assert_eq!(StatusCode::from_number(5), StatusCode::NotFound);
    assert_eq!(StatusCode::from_number(16), StatusCode::Unauthenticated);
    assert_eq!(StatusCode::from_number(17), StatusCode::Unknown);
    assert_eq!(StatusCode::from_number(-1), StatusCode::Unknown);
}

#[test]
fn every_code_round_trips_through_its_name_and_number() {
    for n in 0..17 {
        let c = StatusCode::from_number(n);
        assert_eq!(status_from_header(c.name().as_bytes()), c);
        assert_eq!(status_from_header(n.to_string().as_bytes()), c);
    }
}

#[test]
fn split_target_at_last_separator() {
    assert_eq!(
        split_target("/helloworld.Greeter/SayHello"),
        Ok(("/helloworld.Greeter".to_string(), "SayHello".to_string()))
    );
    assert_eq!(split_target("a/b/c"), Ok(("a/b".to_string(), "c".to_string())));
    assert_eq!(split_target("/"), Ok((String::new(), String::new())));
    assert_eq!(split_target("/svc/"), Ok(("/svc".to_string(), String::new())));
    assert_eq!(split_target("/dienst/größe"), Ok(("/dienst".to_string(), "größe".to_string())));
}

#[test]
fn split_target_without_separator_fails() {
    assert_eq!(split_target("no-separator"), Err(TargetError::MissingSeparator));
    assert_eq!(split_target(""), Err(TargetError::MissingSeparator));
}

#[test]
fn malformed_path_fails_before_any_record() {
    assert!(matches!(
        CallContext::for_target("no-separator"),
        Err(TargetError::MissingSeparator)
    ));
}

#[test]
fn new_context_is_created_with_labels() {
    let call = CallContext::for_target("/pkg.Svc/Get").unwrap();
    assert_eq!(call.service(), "/pkg.Svc");
    assert_eq!(call.method(), "Get");
    assert_eq!(call.phase(), Phase::Created);
}

#[test]
fn first_poll_starts_exactly_once() {
    let mut call = CallContext::for_target("/pkg.Svc/Get").unwrap();
    let start: StartRecord = call.begin(100).unwrap();
    assert_eq!(start.service, "/pkg.Svc");
    assert_eq!(start.method, "Get");
    assert_eq!(call.phase(), Phase::Started { start: 100 });
    assert!(call.begin(200).is_none());
    assert!(call.begin(300).is_none());
    assert_eq!(call.phase(), Phase::Started { start: 100 });
}

#[test]
fn completion_recorded_exactly_once() {
    let mut call = CallContext::for_target("/pkg.Svc/Get").unwrap();
    call.begin(10);
    let done = call.finish(25, &responded(None)).unwrap();
    assert_eq!(done.elapsed_nanos, 15);
    assert_eq!(call.phase(), Phase::Completed);
    assert!(call.finish(40, &responded(None)).is_none());
    assert!(call.begin(50).is_none());
    assert_eq!(call.phase(), Phase::Completed);
}

#[test]
fn result_before_first_poll_records_nothing() {
    let mut call = CallContext::for_target("/pkg.Svc/Get").unwrap();
    assert!(call.finish(5, &Outcome::Failed).is_none());
    assert_eq!(call.phase(), Phase::Created);
}

#[test]
fn not_found_header_is_recorded_as_not_found() {
    let done = finish_of("/pkg.Svc/Get", 0, 1, &responded(Some("NOT_FOUND")));
    assert_eq!(done.status, StatusCode::NotFound);
    assert_eq!(done.status.name(), "NOT_FOUND");
    assert_eq!(done.service, "/pkg.Svc");
    assert_eq!(done.method, "Get");
    let numeric = finish_of("/pkg.Svc/Get", 0, 1, &responded(Some("5")));
    assert_eq!(numeric.status.name(), "NOT_FOUND");
}

#[test]
fn missing_header_is_recorded_as_ok() {
    let done = finish_of("/pkg.Svc/Get", 0, 1, &responded(None));
    assert_eq!(done.status, StatusCode::Okay);
    assert_eq!(done.status.name(), "OK");
}

#[test]
fn handler_failure_is_recorded_as_unknown() {
    let done = finish_of("/pkg.Svc/Get", 0, 1, &Outcome::Failed);
    assert_eq!(done.status, StatusCode::Unknown);
    assert_eq!(done.status.name(), "UNKNOWN");
}

#[test]
fn elapsed_is_the_injected_clock_delta() {
    let done = finish_of("/pkg.Svc/Get", 1_000_000_000, 1_123_000_000, &responded(None));
    assert_eq!(done.elapsed_nanos, 123_000_000);
    assert_eq!(done.elapsed_nanos as f64 / 1e9, 0.123);
}

#[test]
fn elapsed_never_negative() {
    let done = finish_of("/pkg.Svc/Get", 500, 400, &responded(None));
    assert_eq!(done.elapsed_nanos, 0);
    let same = finish_of("/pkg.Svc/Get", 500, 500, &responded(None));
    assert_eq!(same.elapsed_nanos, 0);
}

#[derive(Default)]
struct Totals {
    started: HashMap<(String, String), u64>,
    handled: HashMap<(String, String), u64>,
    active: HashMap<(String, String), i64>,
}

impl Totals {
    fn start(&mut self, r: StartRecord) {
        let key = (r.service, r.method);
        *self.started.entry(key.clone()).or_insert(0) += 1;
        *self.active.entry(key).or_insert(0) += 1;
    }

    fn finish(&mut self, r: FinishRecord) {
        let key = (r.service, r.method);
        *self.handled.entry(key.clone()).or_insert(0) += 1;
        *self.active.entry(key).or_insert(0) -= 1;
    }
}

#[test]
fn interleaved_calls_balance_when_all_complete() {
    let n: usize = 6;
    let mut calls: Vec<CallContext> = (0..n)
        .map(|i| CallContext::for_target(&format!("/svc{}/m{}", i, i)).unwrap())
        .collect();
    let mut totals = Totals::default();
    for (i, call) in calls.iter_mut().enumerate() {
        if let Some(r) = call.begin(i as u64) {
            totals.start(r);
        }
    }
    for (i, call) in calls.iter_mut().enumerate().rev() {
        if let Some(r) = call.begin(100 + i as u64) {
            totals.start(r);
        }
        if let Some(r) = call.finish(200 + i as u64, &responded(None)) {
            totals.finish(r);
        }
    }
    assert_eq!(totals.started.len(), n);
    for i in 0..n {
        let key = (format!("/svc{}", i), format!("m{}", i));
        assert_eq!(totals.started[&key], 1);
        assert_eq!(totals.handled[&key], 1);
        assert_eq!(totals.active[&key], 0);
    }
    assert_eq!(totals.started.values().sum::<u64>(), n as u64);
    assert_eq!(totals.handled.values().sum::<u64>(), n as u64);
}

#[test]
fn active_requests_never_negative_in_an_interleaving() {
    let mut a = CallContext::for_target("/svc/m").unwrap();
    let mut b = CallContext::for_target("/svc/m").unwrap();
    let key = ("/svc".to_string(), "m".to_string());
    let mut totals = Totals::default();
    let mut check = |t: &Totals| assert!(t.active.get(&key).copied().unwrap_or(0) >= 0);
    if let Some(r) = a.finish(1, &responded(None)) {
        totals.finish(r);
    }
    check(&totals);
    totals.start(a.begin(2).unwrap());
    check(&totals);
    totals.start(b.begin(3).unwrap());
    check(&totals);
    totals.finish(b.finish(4, &Outcome::Failed).unwrap());
    check(&totals);
    assert!(b.finish(5, &Outcome::Failed).is_none());
    totals.finish(a.finish(6, &responded(Some("0"))).unwrap());
    check(&totals);
    assert_eq!(totals.active[&key], 0);
    assert_eq!(totals.started[&key], 2);
    assert_eq!(totals.handled[&key], 2);
}

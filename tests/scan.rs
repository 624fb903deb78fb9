use subscan::classify::IpAddress;
use subscan::engine::Dispatcher;
use subscan::record::{header_line, record_to_string, ResolvedRecord};
use subscan::scan::{Scan, ScanError, Step};
use subscan::sink::Report;

fn words(ws: &[&str]) -> Vec<String> {
    ws.iter().map(|w| w.to_string()).collect()
}

fn a_record(name: &str, a: u8, b: u8, c: u8, d: u8) -> ResolvedRecord {
    ResolvedRecord {
        name: name.to_string(),
        record_type: "A".to_string(),
        address: Some(IpAddress::V4(a, b, c, d)),
    }
}

fn dispatch(scan: &mut Scan) -> (usize, String, String, usize) {
    match scan.next_step() {
        Step::Dispatch { index, query, label, position } => (index, query, label, position),
        other => panic!("expected a dispatch, got {:?}", other),
    }
}

#[test]
fn three_words_one_resolves() {
    let mut scan = Scan::new(words(&["www", "mail", "vpn"]), "example.com".to_string(), 3, false).unwrap();
    assert_eq!(scan.print_headers(), None);
    let mut queries = Vec::new();
    for k in 0..3 {
        let (index, query, _, position) = dispatch(&mut scan);
        assert_eq!(index, k);
        assert_eq!(position, k + 1);
        queries.push(query);
    }
    assert_eq!(queries, vec!["www.example.com", "mail.example.com", "vpn.example.com"]);
    assert!(matches!(scan.next_step(), Step::Wait));
    let mut out = Vec::new();
    out.extend(scan.complete(1, None).unwrap());
    out.extend(scan.complete(0, Some(vec![a_record("www.example.com", 93, 184, 216, 34)])).unwrap());
    out.extend(scan.complete(2, None).unwrap());
    assert_eq!(out, vec![format!("{0: <40} | {1: <10} | {2: <10}", "www.example.com", "A", "false")]);
    assert!(matches!(scan.next_step(), Step::Finished));
    assert_eq!(scan.progress(), 3);
    assert!(scan.is_finished());
}

#[test]
fn budget_two_never_three_outstanding() {
    let mut scan = Scan::new(words(&["a", "b", "c", "d", "e"]), "x.org".to_string(), 2, false).unwrap();
    let mut outstanding: Vec<usize> = Vec::new();
    let mut max_seen = 0;
    let mut dispatched = Vec::new();
    // Completion order picked so that lookups finish out of order.
    let mut pick = 1usize;
    loop {
        match scan.next_step() {
            Step::Dispatch { index, .. } => {
                outstanding.push(index);
                dispatched.push(index);
                max_seen = max_seen.max(outstanding.len());
                assert!(outstanding.len() <= 2);
            }
            Step::Wait => {
                assert!(outstanding.len() == 2 || dispatched.len() == 5);
                let k = pick % outstanding.len();
                pick += 1;
                let done = outstanding.remove(k);
                assert_eq!(scan.complete(done, None), Ok(vec![]));
            }
            Step::Finished => break,
        }
        if dispatched.len() == 5 && !outstanding.is_empty() {
            let done = outstanding.pop().unwrap();
            scan.complete(done, None).unwrap();
        }
    }
    assert_eq!(dispatched, vec![0, 1, 2, 3, 4]);
    assert_eq!(max_seen, 2);
    assert_eq!(scan.progress(), 5);
}

#[test]
fn single_slot_is_sequential() {
    let mut scan = Scan::new(words(&["one", "two", "three"]), "d.net".to_string(), 1, false).unwrap();
    let mut order = Vec::new();
    for k in 0..3 {
        let (index, query, label, position) = dispatch(&mut scan);
        assert_eq!(index, k);
        assert_eq!(position, k + 1);
        assert_eq!(query, format!("{}.d.net", label));
        assert!(matches!(scan.next_step(), Step::Wait));
        assert_eq!(scan.complete(index, None), Ok(vec![]));
        order.push(label);
    }
    assert_eq!(order, vec!["one", "two", "three"]);
    assert!(matches!(scan.next_step(), Step::Finished));
}

#[test]
fn progress_equals_word_count_for_each_budget() {
    for j in 1..6 {
        let mut scan = Scan::new(words(&["a", "b", "c", "d"]), "e.com".to_string(), j, false).unwrap();
        let mut pending = Vec::new();
        loop {
            match scan.next_step() {
                Step::Dispatch { index, .. } => pending.push(index),
                Step::Wait => {
                    let i = pending.remove(0);
                    scan.complete(i, None).unwrap();
                }
                Step::Finished => break,
            }
        }
        assert_eq!(scan.progress(), 4);
        assert_eq!(scan.total(), 4);
    }
}

#[test]
fn empty_word_source_finishes_at_once() {
    let mut scan = Scan::new(Vec::new(), "e.com".to_string(), 1, true).unwrap();
    assert!(scan.is_finished());
    assert_eq!(scan.print_headers(), Some(header_line()));
    assert!(matches!(scan.next_step(), Step::Finished));
    assert_eq!(scan.progress(), 0);
}

#[test]
fn failed_lookup_writes_nothing_and_run_goes_on() {
    let mut scan = Scan::new(words(&["a", "b"]), "e.com".to_string(), 1, true).unwrap();
    let header = scan.print_headers();
    assert_eq!(header, Some(header_line()));
    let (i, ..) = dispatch(&mut scan);
    assert_eq!(scan.complete(i, None), Ok(vec![]));
    let (j, ..) = dispatch(&mut scan);
    let r = a_record("b.e.com", 192, 168, 0, 7);
    assert_eq!(scan.complete(j, Some(vec![r.clone()])), Ok(vec![record_to_string(&r, false)]));
    assert!(matches!(scan.next_step(), Step::Finished));
}

#[test]
fn zero_budget_is_refused() {
    assert!(matches!(Scan::new(words(&["a"]), "e.com".to_string(), 0, false), Err(ScanError::ZeroBudget)));
}

#[test]
fn completing_a_lookup_not_outstanding_is_refused() {
    let mut scan = Scan::new(words(&["a", "b"]), "e.com".to_string(), 2, false).unwrap();
    assert_eq!(scan.complete(0, None), Err(ScanError::NotInFlight));
    let (i, ..) = dispatch(&mut scan);
    assert_eq!(scan.complete(i, None), Ok(vec![]));
    assert_eq!(scan.complete(i, None), Err(ScanError::NotInFlight));
    assert_eq!(scan.complete(7, None), Err(ScanError::NotInFlight));
}

#[test]
fn header_once_and_before_results() {
    let mut report = Report::new(true, 2);
    assert_eq!(report.print_headers(), Some(header_line()));
    assert_eq!(report.print_headers(), None);
    let r = a_record("w.e.com", 10, 1, 2, 3);
    assert_eq!(report.add_result(&vec![r.clone()]), vec![record_to_string(&r, false)]);
    assert_eq!(report.print_headers(), None);
}

#[test]
fn header_comes_first_even_without_print_headers() {
    let mut report = Report::new(true, 1);
    assert_eq!(report.add_result(&vec![]), Vec::<String>::new());
    let r1 = a_record("a.e.com", 1, 2, 3, 4);
    let r2 = a_record("b.e.com", 10, 2, 3, 4);
    assert_eq!(
        report.add_result(&vec![r1.clone(), r2.clone()]),
        vec![header_line(), record_to_string(&r1, false), record_to_string(&r2, false)]
    );
    assert_eq!(report.print_headers(), None);
}

#[test]
fn no_header_when_not_asked() {
    let mut report = Report::new(false, 1);
    assert!(!report.has_headers());
    assert_eq!(report.print_headers(), None);
    let r = a_record("a.e.com", 1, 2, 3, 4);
    assert_eq!(report.add_result(&vec![r.clone()]), vec![record_to_string(&r, false)]);
    assert_eq!(report.report_progress(), 1);
    assert_eq!(report.position(), 1);
    assert_eq!(report.total_tries(), 1);
}

#[test]
fn dispatcher_caps_outstanding() {
    let mut d = Dispatcher::new(3, 2);
    assert!(d.can_dispatch());
    assert_eq!(d.dispatch(), 0);
    assert_eq!(d.dispatch(), 1);
    assert!(!d.can_dispatch());
    assert!(!d.complete(2));
    assert!(d.complete(1));
    assert!(d.can_dispatch());
    assert_eq!(d.dispatch(), 2);
    assert!(!d.is_finished());
    assert!(d.complete(0));
    assert!(d.complete(2));
    assert!(d.is_finished());
    assert!(!d.can_dispatch());
}

use proc_io_profiler::event::{sentinel, Event, EventKind};
use proc_io_profiler::report::{
    decimal_bytes, event_row, render_report, report_path, signed_decimal_bytes,
};
use proc_io_profiler::store::EventStore;
use proc_io_profiler::timing::{benchmark, forward_timed, full_nanos, Timed};
use std::time::{Duration, Instant};

fn timed(ret: i32, nanos: u64) -> Option<Timed> {
    Some(Timed { ret, secs: nanos / 1_000_000_000, subsec: (nanos % 1_000_000_000) as u32, nanos })
}

fn text(b: &[u8]) -> String {
    String::from_utf8(b.to_vec()).unwrap()
}

#[test]
fn open_then_close_timeline() {
    let mut store = EventStore::new(5);
    let fd = store.record_open(b"/tmp/a".to_vec(), timed(3, 100));
    assert_eq!(fd, 3);
    let status = store.record_close(fd, timed(0, 50));
    assert_eq!(status, 0);
    let events = store.finish(9);
    assert_eq!(events.len(), 4);
    assert_eq!(events[0].event_type, EventKind::Init);
    assert_eq!(events[1].event_type, EventKind::Open);
    assert_eq!(events[1].path, b"/tmp/a".to_vec());
    assert_eq!(events[1].fd, 3);
    assert_eq!(events[2].event_type, EventKind::Close);
    assert_eq!(events[2].fd, 3);
    assert!(events[2].path.is_empty());
    assert_eq!(events[3].event_type, EventKind::Fini);
    let report = render_report(&events);
    assert_eq!(
        text(&report),
        "path,event_type,duration,fd\n__PROCESS__,init,5,0\n/tmp/a,open,100,3\n,close,50,3\n__PROCESS__,fini,9,0\n"
    );
}

#[test]
fn n_calls_give_n_plus_two_rows() {
    let mut store = EventStore::new(1);
    for k in 0..7 {
        store.record_open(format!("/f{k}").into_bytes(), timed(k + 3, 10));
    }
    store.record_close(3, timed(0, 1));
    assert_eq!(store.len(), 9);
    let events = store.finish(2);
    assert_eq!(events.len(), 10);
    assert_eq!(events[0].event_type, EventKind::Init);
    assert_eq!(events[9].event_type, EventKind::Fini);
    let report = text(&render_report(&events));
    let lines: Vec<&str> = report.lines().collect();
    assert_eq!(lines.len(), 11);
    assert_eq!(lines[0], "path,event_type,duration,fd");
    assert!(lines[1].contains(",init,"));
    assert!(lines[10].contains(",fini,"));
}

#[test]
fn unresolved_call_returns_failure_and_records_nothing() {
    let mut store = EventStore::new(0);
    let none: Option<fn() -> i32> = None;
    let outcome = forward_timed(none);
    assert!(outcome.is_none());
    assert_eq!(store.record_open(b"/tmp/a".to_vec(), outcome), -1);
    assert_eq!(store.record_close(4, None), -1);
    assert_eq!(store.len(), 1);
    assert_eq!(store.finish(0).len(), 2);
}

#[test]
fn forwarded_call_result_is_unchanged() {
    let outcome = forward_timed(Some(|| -> i32 { 42 }));
    assert_eq!(outcome.map(|o| o.ret), Some(42));
    let mut store = EventStore::new(0);
    assert_eq!(store.record_open(b"x".to_vec(), timed(-1, 7)), -1);
    assert_eq!(store.len(), 2);
    let events = store.finish(0);
    assert_eq!(events[1].fd, -1);
    assert_eq!(events[1].duration, 7);
}

#[test]
fn report_path_defaults_to_working_directory() {
    assert_eq!(text(&report_path(None, 1234)), "./result_1234.csv");
    assert_eq!(text(&report_path(Some(Vec::new()), 1234)), "./result_1234.csv");
}

#[test]
fn report_path_joins_configured_directory() {
    assert_eq!(text(&report_path(Some(b"/tmp/logs".to_vec()), 7)), "/tmp/logs/result_7.csv");
    assert_eq!(text(&report_path(Some(b"/tmp/".to_vec()), 0)), "/tmp/result_0.csv");
}

#[test]
fn full_nanos_keeps_whole_seconds() {
    assert_eq!(full_nanos(0, 17), 17);
    assert_eq!(full_nanos(2, 5), 2_000_000_005);
    assert_eq!(full_nanos(u64::MAX, 0), u64::MAX);
    assert_eq!(full_nanos(18_446_744_073, 999_999_999), u64::MAX);
}

#[test]
fn benchmark_reports_more_than_one_second() {
    let t = benchmark(|| -> i32 {
        let start = Instant::now();
        while start.elapsed() < Duration::from_millis(1100) {}
        9
    });
    assert_eq!(t.ret, 9);
    assert!(t.secs >= 1);
    assert!(t.nanos >= 1_100_000_000);
    assert_eq!(t.nanos, t.secs * 1_000_000_000 + t.subsec as u64);
}

#[test]
fn decimal_text_of_integers() {
    assert_eq!(decimal_bytes(0), b"0".to_vec());
    assert_eq!(decimal_bytes(1_000_000_007), b"1000000007".to_vec());
    assert_eq!(decimal_bytes(u64::MAX), b"18446744073709551615".to_vec());
    assert_eq!(signed_decimal_bytes(-1), b"-1".to_vec());
    assert_eq!(signed_decimal_bytes(i32::MIN), b"-2147483648".to_vec());
    assert_eq!(signed_decimal_bytes(i32::MAX), b"2147483647".to_vec());
}

#[test]
fn paths_with_special_bytes_are_quoted() {
    let mut store = EventStore::new(0);
    store.record_open(b"/tmp/a,b".to_vec(), timed(3, 1));
    store.record_open(b"/tmp/say \"hi\"".to_vec(), timed(4, 2));
    store.record_open(b"/tmp/two\nlines".to_vec(), timed(5, 3));
    let events = store.finish(0);
    let report = text(&render_report(&events));
    assert_eq!(
        report,
        "path,event_type,duration,fd\n__PROCESS__,init,0,0\n\"/tmp/a,b\",open,1,3\n\"/tmp/say \"\"hi\"\"\",open,2,4\n\"/tmp/two\nlines\",open,3,5\n__PROCESS__,fini,0,0\n"
    );
}

#[test]
fn report_parses_back_to_the_timeline() {
    let mut store = EventStore::new(11);
    store.record_open(b"/tmp/a,\"b\"".to_vec(), timed(3, 1_500_000_000));
    store.record_close(3, timed(0, 20));
    store.record_open(b"/missing".to_vec(), timed(-1, 30));
    let events = store.finish(12);
    let bytes = render_report(&events);
    let mut rdr = csv::Reader::from_reader(bytes.as_slice());
    let header: Vec<String> = rdr.headers().unwrap().iter().map(|f| f.to_string()).collect();
    assert_eq!(header, vec!["path", "event_type", "duration", "fd"]);
    let rows: Vec<csv::StringRecord> = rdr.records().map(|r| r.unwrap()).collect();
    assert_eq!(rows.len(), events.len());
    for (row, ev) in rows.iter().zip(events.iter()) {
        assert_eq!(row[0].as_bytes(), ev.path.as_slice());
        assert_eq!(row[1].as_bytes(), ev.event_type.name().as_slice());
        assert_eq!(row[2].parse::<u64>().unwrap(), ev.duration);
        assert_eq!(row[3].parse::<i32>().unwrap(), ev.fd);
    }
}

#[test]
fn sentinel_and_row_fields() {
    let e = sentinel(EventKind::Fini, 77);
    assert_eq!(e.path, b"__PROCESS__".to_vec());
    assert_eq!(e.fd, 0);
    let row = event_row(&e);
    assert_eq!(row, vec![b"__PROCESS__".to_vec(), b"fini".to_vec(), b"77".to_vec(), b"0".to_vec()]);
    assert_eq!(EventKind::Close.name(), b"close".to_vec());
}

#[test]
fn empty_timeline_gives_header_only() {
    assert_eq!(text(&render_report(&Vec::new())), "path,event_type,duration,fd\n");
}

#[test]
fn delimiter_in_path_is_quoted() {
    let events = vec![
        Event { path: b"/tmp/x,y".to_vec(), event_type: EventKind::Open, duration: 80, fd: -1 },
        Event { path: Vec::new(), event_type: EventKind::Close, duration: 40, fd: 3 },
    ];
    assert_eq!(
        text(&render_report(&events)),
        "path,event_type,duration,fd\n\"/tmp/x,y\",open,80,-1\n,close,40,3\n"
    );
}

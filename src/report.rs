use vstd::prelude::*;
use crate::event::{is_call_kind, kind_name, Event, EventKind};
use crate::readback::{lemma_report_round_trip, read_records};
use crate::store::is_finished_timeline;

verus! {

pub const COMMA: u8 = 44;
pub const QUOTE: u8 = 34;
pub const NEWLINE: u8 = 10;
pub const CARRIAGE_RETURN: u8 = 13;
pub const MINUS: u8 = 45;
pub const DIGIT_ZERO: u8 = 48;
pub const SLASH: u8 = 47;

/// Base-10 digits of `n`, most significant first, in ASCII.
pub open spec fn decimal(n: nat) -> Seq<u8>
    decreases n,
{
    if n < 10 {
        seq![(DIGIT_ZERO + n) as u8]
    } else {
        decimal(n / 10).push((DIGIT_ZERO + n % 10) as u8)
    }
}

/// Base-10 text of a signed integer: a leading `-` for a negative value.
pub open spec fn signed_decimal(i: int) -> Seq<u8> {
    if i < 0 {
        seq![MINUS] + decimal((-i) as nat)
    } else {
        decimal(i as nat)
    }
}

/// Bytes that force a field to be quoted: the delimiter, the quote and the
/// two line-ending bytes.
pub open spec fn is_special(b: u8) -> bool {
    b == COMMA || b == QUOTE || b == NEWLINE || b == CARRIAGE_RETURN
}

pub open spec fn needs_quotes(f: Seq<u8>) -> bool {
    exists|i: int| 0 <= i < f.len() && is_special(#[trigger] f[i])
}

/// `f` with every quote byte doubled.
pub open spec fn double_quotes(f: Seq<u8>) -> Seq<u8>
    decreases f.len(),
{
    if f.len() == 0 {
        Seq::empty()
    } else {
        let rest = double_quotes(f.drop_first());
        if f[0] == QUOTE {
            seq![QUOTE, QUOTE] + rest
        } else {
            seq![f[0]] + rest
        }
    }
}

/// One field as it is written in a row: as it is, or quoted with inner
/// quotes doubled where it holds a special byte.
pub open spec fn csv_field(f: Seq<u8>) -> Seq<u8> {
    if needs_quotes(f) {
        seq![QUOTE] + double_quotes(f) + seq![QUOTE]
    } else {
        f
    }
}

/// Fields written one after another, separated by commas.
pub open spec fn csv_fields(fs: Seq<Seq<u8>>) -> Seq<u8>
    decreases fs.len(),
{
    if fs.len() == 0 {
        Seq::empty()
    } else if fs.len() == 1 {
        csv_field(fs[0])
    } else {
        csv_fields(fs.drop_last()) + seq![COMMA] + csv_field(fs.last())
    }
}

/// One row of the report, ended by a newline.
pub open spec fn csv_record(fs: Seq<Seq<u8>>) -> Seq<u8> {
    csv_fields(fs) + seq![NEWLINE]
}

/// The header row's fields: `path`, `event_type`, `duration`, `fd`.
pub open spec fn header_fields() -> Seq<Seq<u8>> {
    seq![
        seq![112u8, 97u8, 116u8, 104u8],
        seq![101u8, 118u8, 101u8, 110u8, 116u8, 95u8, 116u8, 121u8, 112u8, 101u8],
        seq![100u8, 117u8, 114u8, 97u8, 116u8, 105u8, 111u8, 110u8],
        seq![102u8, 100u8],
    ]
}

/// The fields of an event's row, in header order.
pub open spec fn event_fields(e: Event) -> Seq<Seq<u8>> {
    seq![e.path@, kind_name(e.event_type), decimal(e.duration as nat), signed_decimal(e.fd as int)]
}

/// The rows of a timeline, in order, as field lists: the header first.
pub open spec fn report_records(events: Seq<Event>) -> Seq<Seq<Seq<u8>>> {
    seq![header_fields()] + events.map_values(|e: Event| event_fields(e))
}

/// Rows written one after another.
pub open spec fn records_bytes(rs: Seq<Seq<Seq<u8>>>) -> Seq<u8>
    decreases rs.len(),
{
    if rs.len() == 0 {
        Seq::empty()
    } else {
        records_bytes(rs.drop_last()) + csv_record(rs.last())
    }
}

/// The whole report of a timeline.
pub open spec fn report_bytes(events: Seq<Event>) -> Seq<u8> {
    records_bytes(report_records(events))
}

/// File name of a process's report: `result_<pid>.csv` in ASCII.
pub open spec fn report_file_name(pid: u32) -> Seq<u8> {
    seq![114u8, 101u8, 115u8, 117u8, 108u8, 116u8, 95u8] + decimal(pid as nat) + seq![46u8, 99u8, 115u8, 118u8]
}

/// The directory the report goes to: the configured one, or `.` (the
/// current working directory) where none or an empty one is set.
pub open spec fn report_dir(dir: Option<Seq<u8>>) -> Seq<u8> {
    if dir is Some && dir.unwrap().len() > 0 {
        dir.unwrap()
    } else {
        seq![46u8]
    }
}

/// The bytes of an optional buffer.
pub open spec fn bytes_view(d: Option<Vec<u8>>) -> Option<Seq<u8>> {
    match d {
        Some(v) => Some(v@),
        None => None,
    }
}

/// Where a process's report is written: its file name joined to the
/// directory, with one `/` between them.
pub open spec fn report_location(dir: Option<Seq<u8>>, pid: u32) -> Seq<u8> {
    let d = report_dir(dir);
    if d.last() == SLASH {
        d + report_file_name(pid)
    } else {
        d + seq![SLASH] + report_file_name(pid)
    }
}

/// Relies on csv::Writer in its default configuration (comma delimiter,
/// quotes only where needed, doubled inner quotes, newline terminator),
/// writing into a Vec<u8>: `write_record` of the fields, then `into_inner`.
/// A record of two or more fields is never written as a lone quoted empty
/// field. Writing into a Vec<u8> cannot fail: the only other error, a
/// field-count mismatch, needs an earlier record on the same writer.
#[verifier::external_body]
fn encode_record(fields: &Vec<Vec<u8>>) -> (r: Option<Vec<u8>>)
    requires
        fields@.len() >= 2,
    ensures
        r is Some,
        r matches Some(b) ==> b@ == csv_record(fields@.map_values(|f: Vec<u8>| f@)),
{
    let mut w = csv::Writer::from_writer(Vec::new());
    match w.write_record(fields) {
        Ok(()) => w.into_inner().ok(),
        Err(_) => None,
    }
}

/// The report of a finished timeline holding `n` intercepted calls is the
/// header row followed by exactly `n + 2` data rows: the `init` row first,
/// the `fini` row last, and a row naming `open` or `close` for each call in
/// between, in timeline order.
pub proof fn lemma_report_rows(events: Seq<Event>)
    requires
        is_finished_timeline(events),
    ensures
        ({
            let rows = report_records(events);
            let n = events.len() - 2;
            &&& rows.len() == n + 3
            &&& rows[0] == header_fields()
            &&& rows[1][1] == kind_name(EventKind::Init)
            &&& rows.last()[1] == kind_name(EventKind::Fini)
            &&& forall|i: int|
                2 <= i < rows.len() - 1 ==> (#[trigger] rows[i])[1] == kind_name(EventKind::Open)
                    || rows[i][1] == kind_name(EventKind::Close)
            &&& forall|i: int| 1 <= i < rows.len() ==> #[trigger] rows[i] == event_fields(events[i - 1])
        }),
{
    let rows = report_records(events);
    assert forall|i: int| 2 <= i < rows.len() - 1 implies (#[trigger] rows[i])[1] == kind_name(
        EventKind::Open,
    ) || rows[i][1] == kind_name(EventKind::Close) by {
        assert(is_call_kind(events[i - 1].event_type));
    }
}

/// ASCII digits of `n` in base 10.
pub fn decimal_bytes(n: u64) -> (r: Vec<u8>)
    ensures
        r@ == decimal(n as nat),
    decreases n,
{
    if n < 10 {
        vec![DIGIT_ZERO + n as u8]
    } else {
        let mut v = decimal_bytes(n / 10);
        v.push(DIGIT_ZERO + (n % 10) as u8);
        v
    }
}

/// ASCII text of `i` in base 10, with a leading `-` when negative.
pub fn signed_decimal_bytes(i: i32) -> (r: Vec<u8>)
    ensures
        r@ == signed_decimal(i as int),
{
    if i < 0 {
        let mut v: Vec<u8> = vec![MINUS];
        let mut digits = decimal_bytes((0 - (i as i64)) as u64);
        v.append(&mut digits);
        v
    } else {
        decimal_bytes(i as u64)
    }
}

fn header_row() -> (r: Vec<Vec<u8>>)
    ensures
        r@.len() == 4,
        r@.map_values(|f: Vec<u8>| f@) == header_fields(),
{
    let r = vec![
        vec![112u8, 97u8, 116u8, 104u8],
        vec![101u8, 118u8, 101u8, 110u8, 116u8, 95u8, 116u8, 121u8, 112u8, 101u8],
        vec![100u8, 117u8, 114u8, 97u8, 116u8, 105u8, 111u8, 110u8],
        vec![102u8, 100u8],
    ];
    assert(r@.map_values(|f: Vec<u8>| f@) =~= header_fields());
    r
}

/// The fields of `e`'s row, in header order.
pub fn event_row(e: &Event) -> (r: Vec<Vec<u8>>)
    ensures
        r@.len() == 4,
        r@.map_values(|f: Vec<u8>| f@) == event_fields(*e),
{
    let path = e.path.clone();
    assert(path@ =~= e.path@);
    let r = vec![
        path,
        e.event_type.name(),
        decimal_bytes(e.duration),
        signed_decimal_bytes(e.fd),
    ];
    assert(r@.map_values(|f: Vec<u8>| f@) =~= event_fields(*e));
    r
}

/// The report of `events`: the header row, then one row per event in
/// order.
pub fn render_report(events: &Vec<Event>) -> (r: Vec<u8>)
    ensures
        r@ == report_bytes(events@),
        read_records(r@) == report_records(events@),
{
    let header = header_row();
    let mut out = encode_record(&header).unwrap();
    let ghost recs = report_records(events@);
    assert(recs.take(1) =~= seq![header_fields()]);
    assert(seq![header_fields()].drop_last() =~= Seq::<Seq<Seq<u8>>>::empty());
    assert(records_bytes(seq![header_fields()]) =~= csv_record(header_fields())) by {
        reveal_with_fuel(records_bytes, 2);
    }
    let mut i: usize = 0;
    while i < events.len()
        invariant
            0 <= i <= events@.len(),
            recs == report_records(events@),
            recs.len() == events@.len() + 1,
            out@ == records_bytes(recs.take(i + 1)),
        decreases events@.len() - i,
    {
        let row = event_row(&events[i]);
        let mut line = encode_record(&row).unwrap();
        out.append(&mut line);
        assert(recs.take(i + 2).drop_last() =~= recs.take(i + 1));
        assert(recs[i + 1] == event_fields(events@[i as int]));
        i = i + 1;
    }
    assert(recs.take(i + 1) =~= recs);
    proof {
        lemma_report_round_trip(events@);
    }
    out
}

/// The destination of the report of process `pid`, given the configured
/// output directory if any.
pub fn report_path(dir: Option<Vec<u8>>, pid: u32) -> (r: Vec<u8>)
    ensures
        r@ == report_location(bytes_view(dir), pid),
{
    let mut path: Vec<u8> = match dir {
        Some(d) if d.len() > 0 => d,
        _ => vec![46u8],
    };
    assert(path@ == report_dir(bytes_view(dir)));
    if path[path.len() - 1] != SLASH {
        path.push(SLASH);
    }
    let mut name: Vec<u8> = vec![114u8, 101u8, 115u8, 117u8, 108u8, 116u8, 95u8];
    let mut digits = decimal_bytes(pid as u64);
    name.append(&mut digits);
    let mut suffix: Vec<u8> = vec![46u8, 99u8, 115u8, 118u8];
    name.append(&mut suffix);
    assert(name@ =~= report_file_name(pid));
    path.append(&mut name);
    assert(path@ =~= report_location(bytes_view(dir), pid));
    path
}

} // verus!

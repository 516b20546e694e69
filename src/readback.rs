use vstd::prelude::*;
use crate::event::Event;
use crate::report::{
    csv_field, csv_fields, csv_record, double_quotes, event_fields, header_fields, is_special,
    needs_quotes, records_bytes, report_bytes, report_records, COMMA, NEWLINE, QUOTE,
};

verus! {

/// Where a reader stands inside a field.
pub enum ReadMode {
    /// Outside quotes.
    Plain,
    /// Inside a quoted field.
    Quoted,
    /// Just after a quote inside a quoted field: a second quote stands for
    /// one quote in the value, anything else closes the field.
    QuoteSeen,
}

/// A row reader part way through its input: the rows completed so far, the
/// fields of the current row, and the bytes of the current field.
pub struct ReadState {
    pub records: Seq<Seq<Seq<u8>>>,
    pub record: Seq<Seq<u8>>,
    pub field: Seq<u8>,
    pub mode: ReadMode,
}

pub open spec fn read_start() -> ReadState {
    settled(Seq::empty())
}

/// A reader between rows, having read `records`.
pub open spec fn settled(records: Seq<Seq<Seq<u8>>>) -> ReadState {
    ReadState { records, record: Seq::empty(), field: Seq::empty(), mode: ReadMode::Plain }
}

/// The current field is complete; a new one starts.
pub open spec fn end_field(s: ReadState) -> ReadState {
    ReadState { records: s.records, record: s.record.push(s.field), field: Seq::empty(), mode: ReadMode::Plain }
}

/// The current row is complete; a new one starts.
pub open spec fn end_record(s: ReadState) -> ReadState {
    ReadState {
        records: s.records.push(s.record.push(s.field)),
        record: Seq::empty(),
        field: Seq::empty(),
        mode: ReadMode::Plain,
    }
}

pub open spec fn with_field(s: ReadState, field: Seq<u8>, mode: ReadMode) -> ReadState {
    ReadState { records: s.records, record: s.record, field, mode }
}

/// The reader after one more input byte, by the usual rules: commas split
/// fields, newlines end rows, and a quote at the start of a field opens a
/// quoted field, in which a doubled quote stands for one. A quote elsewhere
/// in an unquoted field is an ordinary byte.
pub open spec fn read_step(s: ReadState, c: u8) -> ReadState {
    match s.mode {
        ReadMode::Quoted => if c == QUOTE {
            with_field(s, s.field, ReadMode::QuoteSeen)
        } else {
            with_field(s, s.field.push(c), ReadMode::Quoted)
        },
        ReadMode::QuoteSeen => if c == QUOTE {
            with_field(s, s.field.push(QUOTE), ReadMode::Quoted)
        } else if c == COMMA {
            end_field(s)
        } else if c == NEWLINE {
            end_record(s)
        } else {
            with_field(s, s.field.push(c), ReadMode::Plain)
        },
        ReadMode::Plain => if c == COMMA {
            end_field(s)
        } else if c == NEWLINE {
            end_record(s)
        } else if c == QUOTE && s.field.len() == 0 {
            with_field(s, s.field, ReadMode::Quoted)
        } else {
            with_field(s, s.field.push(c), ReadMode::Plain)
        },
    }
}

/// The reader after all of `b`.
pub open spec fn read_run(s: ReadState, b: Seq<u8>) -> ReadState
    decreases b.len(),
{
    if b.len() == 0 {
        s
    } else {
        read_step(read_run(s, b.drop_last()), b.last())
    }
}

/// The complete rows of `b`, each as its list of field values.
pub open spec fn read_records(b: Seq<u8>) -> Seq<Seq<Seq<u8>>> {
    read_run(read_start(), b).records
}

proof fn lemma_run_concat(s: ReadState, x: Seq<u8>, y: Seq<u8>)
    ensures
        read_run(s, x + y) == read_run(read_run(s, x), y),
    decreases y.len(),
{
    if y.len() == 0 {
        assert(x + y =~= x);
    } else {
        assert((x + y).drop_last() =~= x + y.drop_last());
        assert((x + y).last() == y.last());
        lemma_run_concat(s, x, y.drop_last());
    }
}

proof fn lemma_plain_bytes(s: ReadState, f: Seq<u8>)
    requires
        s.mode == ReadMode::Plain,
        forall|i: int| 0 <= i < f.len() ==> !is_special(#[trigger] f[i]),
    ensures
        read_run(s, f) == with_field(s, s.field + f, ReadMode::Plain),
    decreases f.len(),
{
    if f.len() == 0 {
        assert(s.field + f =~= s.field);
    } else {
        lemma_plain_bytes(s, f.drop_last());
        assert(!is_special(f[f.len() - 1]));
        assert((s.field + f.drop_last()).push(f.last()) =~= s.field + f);
    }
}

proof fn lemma_quoted_body(s: ReadState, f: Seq<u8>)
    requires
        s.mode == ReadMode::Quoted,
    ensures
        read_run(s, double_quotes(f)) == with_field(s, s.field + f, ReadMode::Quoted),
    decreases f.len(),
{
    if f.len() == 0 {
        assert(s.field + f =~= s.field);
    } else {
        let rest = double_quotes(f.drop_first());
        let piece = if f[0] == QUOTE {
            seq![QUOTE, QUOTE]
        } else {
            seq![f[0]]
        };
        assert(double_quotes(f) == piece + rest);
        lemma_run_concat(s, piece, rest);
        let s1 = with_field(s, s.field.push(f[0]), ReadMode::Quoted);
        assert(read_run(s, piece) == s1) by {
            reveal_with_fuel(read_run, 3);
            if f[0] == QUOTE {
                assert(piece.drop_last() =~= seq![QUOTE]);
                assert(piece.drop_last().drop_last() =~= Seq::<u8>::empty());
            } else {
                assert(piece.drop_last() =~= Seq::<u8>::empty());
            }
        }
        lemma_quoted_body(s1, f.drop_first());
        assert(s.field.push(f[0]) + f.drop_first() =~= s.field + f);
    }
}

/// `t` is `s` after reading the field `f`, up to its end.
pub open spec fn field_read(s: ReadState, t: ReadState, f: Seq<u8>) -> bool {
    &&& t.records == s.records
    &&& t.record == s.record
    &&& t.field == f
    &&& (t.mode == ReadMode::Plain || t.mode == ReadMode::QuoteSeen)
}

proof fn lemma_field(s: ReadState, f: Seq<u8>)
    requires
        s.mode == ReadMode::Plain,
        s.field.len() == 0,
    ensures
        field_read(s, read_run(s, csv_field(f)), f),
{
    if needs_quotes(f) {
        let open_q = seq![QUOTE];
        lemma_run_concat(s, open_q + double_quotes(f), seq![QUOTE]);
        lemma_run_concat(s, open_q, double_quotes(f));
        let s1 = with_field(s, s.field, ReadMode::Quoted);
        assert(read_run(s, open_q) == s1) by {
            reveal_with_fuel(read_run, 2);
            assert(open_q.drop_last() =~= Seq::<u8>::empty());
        }
        lemma_quoted_body(s1, f);
        let s2 = with_field(s, s.field + f, ReadMode::Quoted);
        assert(read_run(s2, seq![QUOTE]) == with_field(s, s.field + f, ReadMode::QuoteSeen)) by {
            reveal_with_fuel(read_run, 2);
            assert(seq![QUOTE].drop_last() =~= Seq::<u8>::empty());
        }
        assert(s.field + f =~= f);
    } else {
        assert forall|i: int| 0 <= i < f.len() implies !is_special(#[trigger] f[i]) by {
            if is_special(f[i]) {
                assert(needs_quotes(f));
            }
        }
        lemma_plain_bytes(s, f);
        assert(s.field + f =~= f);
    }
}

proof fn lemma_fields(s: ReadState, fs: Seq<Seq<u8>>)
    requires
        s.mode == ReadMode::Plain,
        s.field.len() == 0,
        s.record.len() == 0,
        fs.len() >= 1,
    ensures
        ({
            let t = read_run(s, csv_fields(fs));
            &&& t.records == s.records
            &&& t.record == fs.drop_last()
            &&& t.field == fs.last()
            &&& (t.mode == ReadMode::Plain || t.mode == ReadMode::QuoteSeen)
        }),
    decreases fs.len(),
{
    if fs.len() == 1 {
        lemma_field(s, fs[0]);
        assert(fs.drop_last() =~= s.record);
    } else {
        let init = fs.drop_last();
        lemma_fields(s, init);
        let t1 = read_run(s, csv_fields(init));
        lemma_run_concat(s, csv_fields(init) + seq![COMMA], csv_field(fs.last()));
        lemma_run_concat(s, csv_fields(init), seq![COMMA]);
        let t2 = end_field(t1);
        assert(read_run(t1, seq![COMMA]) == t2) by {
            reveal_with_fuel(read_run, 2);
            assert(seq![COMMA].drop_last() =~= Seq::<u8>::empty());
        }
        assert(t2.record =~= fs.drop_last()) by {
            assert(init.drop_last().push(init.last()) =~= init);
        }
        lemma_field(t2, fs.last());
    }
}

proof fn lemma_record(s: ReadState, fs: Seq<Seq<u8>>)
    requires
        s.mode == ReadMode::Plain,
        s.field.len() == 0,
        s.record.len() == 0,
        fs.len() >= 1,
    ensures
        read_run(s, csv_record(fs)) == settled(s.records.push(fs)),
{
    lemma_fields(s, fs);
    let t = read_run(s, csv_fields(fs));
    lemma_run_concat(s, csv_fields(fs), seq![NEWLINE]);
    assert(read_run(t, seq![NEWLINE]) == end_record(t)) by {
        reveal_with_fuel(read_run, 2);
        assert(seq![NEWLINE].drop_last() =~= Seq::<u8>::empty());
    }
    assert(fs.drop_last().push(fs.last()) =~= fs);
}

proof fn lemma_records(rs: Seq<Seq<Seq<u8>>>)
    requires
        forall|i: int| 0 <= i < rs.len() ==> (#[trigger] rs[i]).len() >= 1,
    ensures
        read_run(read_start(), records_bytes(rs)) == settled(rs),
    decreases rs.len(),
{
    if rs.len() == 0 {
        assert(read_start().records =~= rs);
    } else {
        let init = rs.drop_last();
        lemma_records(init);
        lemma_run_concat(read_start(), records_bytes(init), csv_record(rs.last()));
        let s = settled(init);
        assert(rs[rs.len() - 1].len() >= 1);
        lemma_record(s, rs.last());
        assert(init.push(rs.last()) =~= rs);
    }
}

/// Reading a report back by the usual row rules gives exactly the rows that
/// were written: the header, then the fields of each event of the timeline,
/// as many rows as events, in timeline order.
pub proof fn lemma_report_round_trip(events: Seq<Event>)
    ensures
        read_records(report_bytes(events)) == report_records(events),
        read_records(report_bytes(events)).len() == events.len() + 1,
        read_records(report_bytes(events))[0] == header_fields(),
        forall|i: int|
            0 <= i < events.len() ==> #[trigger] read_records(report_bytes(events))[i + 1]
                == event_fields(events[i]),
{
    let rs = report_records(events);
    assert forall|i: int| 0 <= i < rs.len() implies (#[trigger] rs[i]).len() >= 1 by {
        if i > 0 {
            assert(rs[i] == event_fields(events[i - 1]));
        }
    }
    lemma_records(rs);
}

} // verus!

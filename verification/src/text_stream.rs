//! The text encoding: one rendered line per record.

use crate::escape::{decimal, escape, push_decimal, push_escaped};
use crate::join_iter::concat;
use crate::record::{level_name, Entries, LogRecord, RecordView};
use vstd::prelude::*;

verus! {

/// One field of a rendered line: a space, the key, an equals sign, the
/// value. Key and value are escaped, so that no control character of
/// theirs reaches the line.
pub open spec fn text_field(entry: (Seq<char>, Seq<char>)) -> Seq<char> {
    " "@ + escape(entry.0) + "="@ + escape(entry.1)
}

/// The rendered fields of a record, in insertion order.
pub open spec fn text_fields(fields: Entries) -> Seq<Seq<char>> {
    fields.map_values(|e: (Seq<char>, Seq<char>)| text_field(e))
}

/// A record as one line for a human reader: timestamp, level and the
/// escaped line, then the fields; without a line break at the end.
pub open spec fn render_line(record: RecordView) -> Seq<char> {
    decimal(record.timestamp) + " "@ + level_name(record.level) + " "@ + escape(record.line)
        + concat(text_fields(record.fields))
}

/// Renders a record as one line, without a line break at the end. Every
/// record can be rendered.
pub fn render(record: &LogRecord) -> (out: String)
    ensures
        out@ == render_line(record@),
{
    let mut out = String::new();
    push_decimal(&mut out, record.timestamp);
    out.append(" ");
    out.append(record.level.name());
    out.append(" ");
    push_escaped(&mut out, record.line.as_str());
    let ghost head = out@;
    let ghost parts = text_fields(record@.fields);
    let n: usize = record.fields.len();
    let mut i: usize = 0;
    assert(parts.take(0) =~= Seq::<Seq<char>>::empty());
    while i < n
        invariant
            i <= n,
            n == record.fields@.len(),
            parts == text_fields(record@.fields),
            out@ == head + concat(parts.take(i as int)),
        decreases n - i,
    {
        let ghost before = out@;
        out.append(" ");
        push_escaped(&mut out, record.fields[i].0.as_str());
        out.append("=");
        push_escaped(&mut out, record.fields[i].1.as_str());
        proof {
            assert(out@ =~= before + parts[i as int]);
            assert(parts.take(i + 1).drop_last() =~= parts.take(i as int));
            assert(parts.take(i + 1).last() == parts[i as int]);
            assert(out@ =~= head + concat(parts.take(i + 1)));
        }
        i += 1;
    }
    assert(parts.take(n as int) =~= parts);
    out
}

} // verus!

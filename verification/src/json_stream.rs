//! The JSON encoding: one object per record, the objects framed as one
//! array that is written piece by piece.

use crate::escape::{decimal, escape, push_decimal, push_escaped};
use crate::join_iter::{join, lemma_join_push, JoinIter};
use crate::record::{level_name, Entries, LogRecord, RecordView};
use vstd::prelude::*;

verus! {

/// One field as a member of a JSON object: the quoted key, a colon, the
/// quoted value.
pub open spec fn json_entry(entry: (Seq<char>, Seq<char>)) -> Seq<char> {
    "\""@ + escape(entry.0) + "\":\""@ + escape(entry.1) + "\""@
}

/// The members for a list of fields, in the order of the list.
pub open spec fn json_entries(fields: Entries) -> Seq<Seq<char>> {
    fields.map_values(|e: (Seq<char>, Seq<char>)| json_entry(e))
}

/// A record as a JSON object. The keys come in a fixed order: timestamp,
/// level, line, fields; the fields come in their insertion order.
pub open spec fn json_object(record: RecordView) -> Seq<char> {
    "{\"timestamp\":"@ + decimal(record.timestamp) + ",\"level\":\""@ + level_name(record.level)
        + "\",\"line\":\""@ + escape(record.line) + "\",\"fields\":{"@ + join(
        json_entries(record.fields),
        ","@,
    ) + "}}"@
}

/// The objects for a list of records.
pub open spec fn json_objects(records: Seq<RecordView>) -> Seq<Seq<char>> {
    records.map_values(|r: RecordView| json_object(r))
}

/// A whole list of records serialised at once: a JSON array of their
/// objects.
pub open spec fn json_document(records: Seq<RecordView>) -> Seq<char> {
    "["@ + join(json_objects(records), ","@) + "]"@
}

/// An array that was cut off after the given records: the opening
/// bracket and the objects, and no closing bracket.
pub open spec fn json_truncated(records: Seq<RecordView>) -> Seq<char> {
    "["@ + join(json_objects(records), ","@)
}

/// Serialises one field as a member of a JSON object.
pub fn serialize_entry(key: &str, value: &str) -> (out: String)
    ensures
        out@ == json_entry((key@, value@)),
{
    let mut out = String::new();
    out.append("\"");
    push_escaped(&mut out, key);
    out.append("\":\"");
    push_escaped(&mut out, value);
    out.append("\"");
    assert(out@ =~= json_entry((key@, value@)));
    out
}

/// Serialises one record as a JSON object.
pub fn serialize_record(record: &LogRecord) -> (out: String)
    ensures
        out@ == json_object(record@),
{
    let mut out = String::new();
    out.append("{\"timestamp\":");
    push_decimal(&mut out, record.timestamp);
    out.append(",\"level\":\"");
    out.append(record.level.name());
    out.append("\",\"line\":\"");
    push_escaped(&mut out, record.line.as_str());
    out.append("\",\"fields\":{");
    let ghost head = out@;
    let ghost members = json_entries(record@.fields);
    let mut joiner = JoinIter::new(String::from_str(","));
    let n: usize = record.fields.len();
    let mut i: usize = 0;
    assert(members.take(0) =~= Seq::<Seq<char>>::empty());
    while i < n
        invariant
            i <= n,
            n == record.fields@.len(),
            members == json_entries(record@.fields),
            joiner.separator@ == ","@,
            joiner.started == (i > 0),
            out@ == head + join(members.take(i as int), ","@),
        decreases n - i,
    {
        let member = serialize_entry(record.fields[i].0.as_str(), record.fields[i].1.as_str());
        let piece = joiner.next(member.as_str());
        out.append(piece.as_str());
        proof {
            assert(member@ == members[i as int]);
            assert(members.take(i + 1) =~= members.take(i as int).push(members[i as int]));
            lemma_join_push(members.take(i as int), ","@, members[i as int]);
            assert(out@ =~= head + join(members.take(i + 1), ","@));
        }
        i += 1;
    }
    assert(members.take(n as int) =~= members);
    out.append("}}");
    assert(out@ =~= json_object(record@));
    out
}

} // verus!

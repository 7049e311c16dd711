//! What holds of every body, whatever the records are.

use crate::escape::{
    decimal, escape, is_control, lemma_decimal_no_control, lemma_escape_no_control,
};
use crate::join_iter::{concat, join};
use crate::json_stream::{json_document, json_object, json_objects, json_truncated};
use crate::raw_stream::{raw_body, raw_line};
use crate::record::{level_name, Level, LogRecord, RecordView, UpstreamError};
use crate::response::{
    body, cancelled, completes, encoded_body, final_state, first_failure, is_terminal,
    item_chunk, lemma_body_push, lemma_first_failure_found, line_chunks,
    records_before_failure, step, step_chunk, LogsResponseType, Pulled, ResponseView,
};
use crate::text_stream::{render_line, text_field, text_fields};
use vstd::prelude::*;

verus! {

/// A text is made of whole lines: it is empty, or a line break ends it.
pub open spec fn well_terminated(text: Seq<char>) -> bool {
    text.len() == 0 || text.last() == '\n'
}

/// No line break stands in the text.
pub open spec fn no_line_break(text: Seq<char>) -> bool {
    forall|i: int| 0 <= i < text.len() ==> #[trigger] text[i] != '\n'
}

/// Chunks that each end in a line break give, one after the other, a
/// text made of whole lines.
pub proof fn lemma_concat_well_terminated(chunks: Seq<Seq<char>>)
    requires
        forall|i: int|
            0 <= i < chunks.len() ==> (#[trigger] chunks[i]).len() > 0 && chunks[i].last() == '\n',
    ensures
        well_terminated(concat(chunks)),
{
    if chunks.len() > 0 {
        let last = chunks.last();
        assert(last.len() > 0 && last.last() == '\n');
        assert(concat(chunks).last() == last.last());
    }
}

/// The chunk of a line encoding for a record ends in a line break.
pub proof fn lemma_line_chunk_terminated(
    response_type: LogsResponseType,
    joined: bool,
    record: RecordView,
)
    requires
        !(response_type is Json),
    ensures
        item_chunk(response_type, joined, record).len() > 0,
        item_chunk(response_type, joined, record).last() == '\n',
{
    reveal_strlit("\n");
}

/// For the raw and the text encoding, no chunk ends in the middle of a
/// line, in whatever state the response is and whatever was pulled.
pub proof fn lemma_line_step_well_terminated(response: ResponseView, pulled: Pulled)
    requires
        !(response.response_type is Json),
    ensures
        well_terminated(step_chunk(response, pulled)),
{
    if let Pulled::Item(record) = pulled {
        lemma_line_chunk_terminated(response.response_type, response.joined, record@);
    }
}

/// For the raw and the text encoding, whatever was sent is made of
/// whole lines, after every record.
pub proof fn lemma_line_body_well_terminated(
    response_type: LogsResponseType,
    records: Seq<RecordView>,
    completed: bool,
)
    requires
        !(response_type is Json),
    ensures
        well_terminated(body(response_type, records, completed)),
{
    let chunks = line_chunks(response_type, records);
    assert forall|i: int| 0 <= i < chunks.len() implies (#[trigger] chunks[i]).len() > 0
        && chunks[i].last() == '\n' by {
        lemma_line_chunk_terminated(response_type, false, records[i]);
    }
    lemma_concat_well_terminated(chunks);
}

/// For the raw and the text encoding, the body for any sequence of
/// pulled elements is made of whole lines, whether the sequence ends, is
/// cut short or fails. A prefix of the input is such a sequence.
pub proof fn lemma_line_encoding_whole_lines(
    response_type: LogsResponseType,
    elements: Seq<Result<LogRecord, UpstreamError>>,
)
    requires
        !(response_type is Json),
    ensures
        well_terminated(encoded_body(response_type, elements)),
{
    lemma_line_body_well_terminated(
        response_type,
        records_before_failure(elements),
        completes(elements),
    );
}

/// What was sent stays as it is: the body after the first `k` records
/// is the beginning of the body after all of them.
pub proof fn lemma_body_grows(
    response_type: LogsResponseType,
    records: Seq<RecordView>,
    k: int,
)
    requires
        0 <= k <= records.len(),
    ensures
        body(response_type, records.take(k), false).is_prefix_of(
            body(response_type, records, false),
        ),
    decreases records.len() - k,
{
    let whole = body(response_type, records, false);
    let sent = body(response_type, records.take(k), false);
    if k < records.len() {
        let more = body(response_type, records.take(k + 1), false);
        lemma_body_grows(response_type, records, k + 1);
        lemma_body_push(response_type, records.take(k), records[k]);
        assert(records.take(k).push(records[k]) =~= records.take(k + 1));
        assert(sent =~= more.subrange(0, sent.len() as int));
        assert(more =~= whole.subrange(0, more.len() as int));
        assert(sent =~= whole.subrange(0, sent.len() as int));
    } else {
        assert(records.take(k) =~= records);
        assert(sent =~= whole.subrange(0, sent.len() as int));
    }
}

/// A body of raw lines is made of whole lines.
pub proof fn lemma_raw_body_well_terminated(lines: Seq<Seq<char>>)
    ensures
        well_terminated(raw_body(lines)),
{
    reveal_strlit("\n");
    let chunks = lines.map_values(|line: Seq<char>| raw_line(line));
    assert forall|i: int| 0 <= i < chunks.len() implies (#[trigger] chunks[i]).len() > 0
        && chunks[i].last() == '\n' by {
        assert(chunks[i] == raw_line(lines[i]));
    }
    lemma_concat_well_terminated(chunks);
}

/// Parts without a line break give a text without one.
pub proof fn lemma_concat_no_line_break(parts: Seq<Seq<char>>)
    requires
        forall|i: int| 0 <= i < parts.len() ==> no_line_break(#[trigger] parts[i]),
    ensures
        no_line_break(concat(parts)),
    decreases parts.len(),
{
    if parts.len() > 0 {
        let front = parts.drop_last();
        assert forall|i: int| 0 <= i < front.len() implies no_line_break(#[trigger] front[i]) by {
            assert(front[i] == parts[i]);
        }
        lemma_concat_no_line_break(front);
        assert(no_line_break(parts.last()));
        let whole = concat(parts);
        assert forall|i: int| 0 <= i < whole.len() implies #[trigger] whole[i] != '\n' by {
            if i < concat(front).len() {
                assert(whole[i] == concat(front)[i]);
            } else {
                assert(whole[i] == parts.last()[i - concat(front).len()]);
            }
        }
    }
}

/// The name of a level holds no line break.
pub proof fn lemma_level_name_no_line_break(level: Level)
    ensures
        no_line_break(level_name(level)),
{
    reveal_strlit("TRACE");
    reveal_strlit("DEBUG");
    reveal_strlit("INFO");
    reveal_strlit("WARN");
    reveal_strlit("ERROR");
}

/// A rendered field holds no line break.
pub proof fn lemma_text_field_no_line_break(entry: (Seq<char>, Seq<char>))
    ensures
        no_line_break(text_field(entry)),
{
    reveal_strlit(" ");
    reveal_strlit("=");
    lemma_escape_no_control(entry.0);
    lemma_escape_no_control(entry.1);
    let key = escape(entry.0);
    let value = escape(entry.1);
    let field = text_field(entry);
    assert forall|i: int| 0 <= i < field.len() implies #[trigger] field[i] != '\n' by {
        if i < 1 {
        } else if i < 1 + key.len() {
            assert(field[i] == key[i - 1]);
            assert(!is_control(key[i - 1]));
        } else if i < 2 + key.len() {
        } else {
            assert(field[i] == value[i - 2 - key.len()]);
            assert(!is_control(value[i - 2 - key.len()]));
        }
    }
}

/// A rendered record is one line: no line break stands in it, whatever
/// the record holds. So each chunk of the text encoding is exactly one
/// line, with its one line break at the end.
pub proof fn lemma_render_line_no_line_break(record: RecordView)
    ensures
        no_line_break(render_line(record)),
{
    reveal_strlit(" ");
    lemma_decimal_no_control(record.timestamp);
    lemma_level_name_no_line_break(record.level);
    lemma_escape_no_control(record.line);
    let fields = text_fields(record.fields);
    assert forall|i: int| 0 <= i < fields.len() implies no_line_break(#[trigger] fields[i]) by {
        lemma_text_field_no_line_break(record.fields[i]);
    }
    lemma_concat_no_line_break(fields);
    let stamp = decimal(record.timestamp);
    let name = level_name(record.level);
    let text = escape(record.line);
    let tail = concat(fields);
    let line = render_line(record);
    assert forall|i: int| 0 <= i < line.len() implies #[trigger] line[i] != '\n' by {
        let a = stamp.len();
        let b = a + 1 + name.len();
        let c = b + 1 + text.len();
        if i < a {
            assert(line[i] == stamp[i]);
            assert(!is_control(stamp[i]));
        } else if i < a + 1 {
        } else if i < b {
            assert(line[i] == name[i - a - 1]);
        } else if i < b + 1 {
        } else if i < c {
            assert(line[i] == text[i - b - 1]);
            assert(!is_control(text[i - b - 1]));
        } else {
            assert(line[i] == tail[i - c]);
        }
    }
}

/// The array of no records is `[]`, and the array of one record is its
/// object between the brackets, with no comma.
pub proof fn lemma_json_document_small(record: RecordView)
    ensures
        json_document(Seq::empty()) == "[]"@,
        json_document(seq![record]) == "["@ + json_object(record) + "]"@,
{
    reveal_strlit("[");
    reveal_strlit("]");
    reveal_strlit("[]");
    assert(json_objects(Seq::empty()) =~= Seq::<Seq<char>>::empty());
    assert(json_document(Seq::empty()) =~= "[]"@);
    assert(json_objects(seq![record])[0] == json_object(record));
}

/// A sequence of N records that ends without an error gives, as JSON,
/// what serialising the list of all N records at once gives.
pub proof fn lemma_json_complete_is_document(elements: Seq<Result<LogRecord, UpstreamError>>)
    requires
        completes(elements),
    ensures
        records_before_failure(elements).len() == elements.len(),
        forall|i: int|
            0 <= i < elements.len() ==> (#[trigger] elements[i]) is Ok
                && records_before_failure(elements)[i] == elements[i]->Ok_0@,
        encoded_body(LogsResponseType::Json, elements) == json_document(
            records_before_failure(elements),
        ),
        final_state(elements) is Completed,
{
    lemma_first_failure_found(elements);
}

/// A sequence that fails after k records gives, as JSON, the opening
/// bracket and the k objects with commas between them, and nothing
/// more: the array is not closed, and the response ends as aborted.
pub proof fn lemma_json_failed_is_truncated(elements: Seq<Result<LogRecord, UpstreamError>>)
    requires
        !completes(elements),
    ensures
        0 <= first_failure(elements) < elements.len(),
        elements[first_failure(elements)] is Err,
        records_before_failure(elements).len() == first_failure(elements),
        encoded_body(LogsResponseType::Json, elements) == "["@ + join(
            json_objects(records_before_failure(elements)),
            ","@,
        ),
        encoded_body(LogsResponseType::Json, elements).last() != ']',
        final_state(elements) is Aborted,
{
    lemma_first_failure_found(elements);
    lemma_json_truncated_not_closed(records_before_failure(elements));
}

/// An array that was cut off is not closed: its last character is the
/// opening bracket or the end of an object, never the closing bracket.
pub proof fn lemma_json_truncated_not_closed(records: Seq<RecordView>)
    ensures
        json_truncated(records).len() > 0,
        json_truncated(records).last() != ']',
        records.len() == 0 ==> json_truncated(records) == "["@,
{
    reveal_strlit("[");
    reveal_strlit("}}");
    let objects = json_objects(records);
    if records.len() == 0 {
        assert(objects =~= Seq::<Seq<char>>::empty());
        assert(json_truncated(records) =~= "["@);
    } else {
        let last = json_object(records.last());
        assert(objects.last() == last);
        assert(last.last() == '}');
        if objects.len() == 1 {
            assert(join(objects, ","@) == last);
        } else {
            assert(join(objects, ","@) == join(objects.drop_last(), ","@) + ","@ + last);
        }
        assert(json_truncated(records).last() == last.last());
    }
}

/// A response that has ended stays as it is and adds nothing to the
/// body, whatever is handed to it.
pub proof fn lemma_ended_response_is_inert(response: ResponseView, pulled: Pulled)
    requires
        is_terminal(response.state),
    ensures
        step(response, pulled) == response,
        step_chunk(response, pulled) == Seq::<char>::empty(),
        cancelled(response) == response,
{
}

/// When the consumer goes away the response ends, whatever its state
/// was. Only a response that had not ended changes by it, so the upstream
/// sequence is released once: going away a second time changes nothing,
/// and nothing is pulled or sent afterwards.
pub proof fn lemma_cancel_ends_response(response: ResponseView, pulled: Pulled)
    ensures
        is_terminal(cancelled(response).state),
        cancelled(response) != response <==> !is_terminal(response.state),
        cancelled(cancelled(response)) == cancelled(response),
        step(cancelled(response), pulled) == cancelled(response),
        step_chunk(cancelled(response), pulled) == Seq::<char>::empty(),
{
}

} // verus!

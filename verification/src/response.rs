//! The response: which encoding is applied, and the state machine that
//! turns pulled elements into chunks of the body.

use crate::join_iter::{concat, join, joined_chunk, lemma_join_push, JoinIter};
use crate::json_stream::{json_document, json_object, json_objects, json_truncated, serialize_record};
use crate::record::{LogRecord, RecordView, UpstreamError};
use crate::text_stream::{render, render_line};
use vstd::prelude::*;

verus! {

/// The encoding of a response. It is chosen once, before the first byte
/// is sent.
#[derive(Clone, Copy, Debug, PartialEq, Eq, Structural)]
pub enum LogsResponseType {
    /// Each line as the backend wrote it.
    Raw,
    /// Each record rendered as one line.
    Text,
    /// All records as one JSON array.
    Json,
}

/// A selector that names no encoding.
#[derive(Debug)]
pub struct InvalidSelector {
    /// The selector as it was given.
    pub selector: String,
}

/// The encoding that a selector names: `raw`, `text` or `json`, in lower
/// case. Any other selector names none.
pub open spec fn selected(selector: Seq<char>) -> Option<LogsResponseType> {
    if selector == "raw"@ {
        Some(LogsResponseType::Raw)
    } else if selector == "text"@ {
        Some(LogsResponseType::Text)
    } else if selector == "json"@ {
        Some(LogsResponseType::Json)
    } else {
        None
    }
}

impl LogsResponseType {
    /// Reads the selector of a request. This happens before anything is
    /// pulled or sent, so a selector that names no encoding is refused
    /// while the response can still say so.
    pub fn from_selector(selector: &str) -> (parsed: Result<LogsResponseType, InvalidSelector>)
        ensures
            match selected(selector@) {
                Some(response_type) => parsed == Ok::<LogsResponseType, InvalidSelector>(
                    response_type,
                ),
                None => parsed is Err && parsed->Err_0.selector@ == selector@,
            },
    {
        let given = String::from_str(selector);
        if given == String::from_str("raw") {
            Ok(LogsResponseType::Raw)
        } else if given == String::from_str("text") {
            Ok(LogsResponseType::Text)
        } else if given == String::from_str("json") {
            Ok(LogsResponseType::Json)
        } else {
            Err(InvalidSelector { selector: given })
        }
    }
}

/// How far a response has come.
#[derive(Clone, Copy, Debug, PartialEq, Eq, Structural)]
pub enum StreamState {
    /// Nothing was pulled or sent yet.
    NotStarted,
    /// Elements are being pulled and sent.
    Streaming,
    /// The upstream sequence ended without an error.
    Completed,
    /// The upstream sequence failed, or the consumer went away.
    Aborted,
}

/// What a pull from the upstream sequence gave.
pub enum Pulled<'a> {
    /// The next record.
    Item(&'a LogRecord),
    /// The sequence reported an error in place of a record.
    Failed,
    /// The sequence has ended.
    Exhausted,
}

/// A response in progress. The caller pulls from the upstream sequence
/// and hands each outcome to `poll_next`, which answers with the next
/// chunk of the body; `state` then says whether to go on, to finish the
/// body, or to tell the transport that the body is broken.
#[derive(Debug)]
pub struct LogsResponse {
    pub response_type: LogsResponseType,
    pub state: StreamState,
    pub joiner: JoinIter,
}

/// No element will be pulled any more.
pub open spec fn is_terminal(state: StreamState) -> bool {
    state is Completed || state is Aborted
}

/// What stands in front of the first element.
pub open spec fn opening(response_type: LogsResponseType) -> Seq<char> {
    if response_type is Json {
        "["@
    } else {
        Seq::empty()
    }
}

/// What stands behind the last element of a sequence that ended without
/// an error.
pub open spec fn closing(response_type: LogsResponseType) -> Seq<char> {
    if response_type is Json {
        "]"@
    } else {
        Seq::empty()
    }
}

/// The chunk for one record. `joined` says whether a record went before
/// it; only the JSON encoding asks.
pub open spec fn item_chunk(
    response_type: LogsResponseType,
    joined: bool,
    record: RecordView,
) -> Seq<char> {
    match response_type {
        LogsResponseType::Raw => record.line + "\n"@,
        LogsResponseType::Text => render_line(record) + "\n"@,
        LogsResponseType::Json => joined_chunk(joined, ","@, json_object(record)),
    }
}

/// A response in progress as a mathematical value.
pub struct ResponseView {
    pub response_type: LogsResponseType,
    pub state: StreamState,
    /// Whether a record was sent already.
    pub joined: bool,
}

/// What starting adds to the body: the opening of a response that was
/// not started, nothing else.
pub open spec fn start_chunk(response: ResponseView) -> Seq<char> {
    if response.state is NotStarted {
        opening(response.response_type)
    } else {
        Seq::empty()
    }
}

/// The response after starting.
pub open spec fn started(response: ResponseView) -> ResponseView {
    if response.state is NotStarted {
        ResponseView { state: StreamState::Streaming, ..response }
    } else {
        response
    }
}

/// The response after the consumer went away: one that had not ended is
/// aborted.
pub open spec fn cancelled(response: ResponseView) -> ResponseView {
    if is_terminal(response.state) {
        response
    } else {
        ResponseView { state: StreamState::Aborted, ..response }
    }
}

/// The response after a pull. A response that has ended stays as it is.
pub open spec fn step(response: ResponseView, pulled: Pulled) -> ResponseView {
    if is_terminal(response.state) {
        response
    } else {
        ResponseView {
            response_type: response.response_type,
            state: match pulled {
                Pulled::Item(_) => StreamState::Streaming,
                Pulled::Failed => StreamState::Aborted,
                Pulled::Exhausted => StreamState::Completed,
            },
            joined: response.joined || pulled is Item,
        }
    }
}

/// The chunk that a pull adds to the body. A response that has ended
/// adds nothing. A failure adds nothing of its own: what was sent stays
/// as it is, and nothing closes it.
pub open spec fn step_chunk(response: ResponseView, pulled: Pulled) -> Seq<char> {
    if is_terminal(response.state) {
        Seq::empty()
    } else {
        start_chunk(response) + match pulled {
            Pulled::Item(record) => item_chunk(response.response_type, response.joined, record@),
            Pulled::Failed => Seq::empty(),
            Pulled::Exhausted => closing(response.response_type),
        }
    }
}

/// The chunks of the line encodings for a list of records.
pub open spec fn line_chunks(response_type: LogsResponseType, records: Seq<RecordView>) -> Seq<
    Seq<char>,
> {
    records.map_values(|r: RecordView| item_chunk(response_type, false, r))
}

/// The whole body for the records that were sent. `completed` says
/// whether the sequence ended without an error.
pub open spec fn body(
    response_type: LogsResponseType,
    records: Seq<RecordView>,
    completed: bool,
) -> Seq<char> {
    if response_type is Json {
        if completed {
            json_document(records)
        } else {
            json_truncated(records)
        }
    } else {
        concat(line_chunks(response_type, records))
    }
}

/// The place of the first error in a list of pulled elements, or the
/// length of the list where it holds none.
pub open spec fn first_failure(elements: Seq<Result<LogRecord, UpstreamError>>) -> int
    decreases elements.len(),
{
    if elements.len() == 0 {
        0
    } else if elements[0] is Err {
        0
    } else {
        1 + first_failure(elements.drop_first())
    }
}

/// The records that stand before the first error.
pub open spec fn records_before_failure(
    elements: Seq<Result<LogRecord, UpstreamError>>,
) -> Seq<RecordView> {
    Seq::new(first_failure(elements) as nat, |i: int| elements[i]->Ok_0@)
}

/// The sequence ends without an error.
pub open spec fn completes(elements: Seq<Result<LogRecord, UpstreamError>>) -> bool {
    first_failure(elements) == elements.len()
}

/// The body for a sequence of pulled elements: complete where the
/// sequence ends without an error; else the records before the first
/// error and nothing after them, for JSON not even the closing bracket.
pub open spec fn encoded_body(
    response_type: LogsResponseType,
    elements: Seq<Result<LogRecord, UpstreamError>>,
) -> Seq<char> {
    body(response_type, records_before_failure(elements), completes(elements))
}

/// The state in which the response for a sequence ends.
pub open spec fn final_state(elements: Seq<Result<LogRecord, UpstreamError>>) -> StreamState {
    if completes(elements) {
        StreamState::Completed
    } else {
        StreamState::Aborted
    }
}

/// `first_failure` is the place of the first error.
pub proof fn lemma_first_failure(elements: Seq<Result<LogRecord, UpstreamError>>, at: int)
    requires
        0 <= at <= elements.len(),
        forall|j: int| 0 <= j < at ==> (#[trigger] elements[j]) is Ok,
        at < elements.len() ==> elements[at] is Err,
    ensures
        first_failure(elements) == at,
    decreases elements.len(),
{
    if elements.len() > 0 && at > 0 {
        let rest = elements.drop_first();
        assert(elements[0] is Ok);
        assert forall|j: int| 0 <= j < at - 1 implies (#[trigger] rest[j]) is Ok by {
            assert(rest[j] == elements[j + 1]);
        }
        lemma_first_failure(rest, at - 1);
    }
}

/// What `first_failure` finds: an error stands at that place, and
/// records stand at all places before it.
pub proof fn lemma_first_failure_found(elements: Seq<Result<LogRecord, UpstreamError>>)
    ensures
        0 <= first_failure(elements) <= elements.len(),
        first_failure(elements) < elements.len() ==> elements[first_failure(elements)] is Err,
        forall|j: int| 0 <= j < first_failure(elements) ==> (#[trigger] elements[j]) is Ok,
    decreases elements.len(),
{
    if elements.len() > 0 && elements[0] is Ok {
        let rest = elements.drop_first();
        lemma_first_failure_found(rest);
        assert forall|j: int| 0 <= j < first_failure(elements) implies (
        #[trigger] elements[j]) is Ok by {
            if j > 0 {
                assert(rest[j - 1] == elements[j]);
            }
        }
    }
}

/// Sending one record more appends its chunk to the body sent so far.
pub proof fn lemma_body_push(
    response_type: LogsResponseType,
    records: Seq<RecordView>,
    record: RecordView,
)
    ensures
        body(response_type, records.push(record), false) == body(response_type, records, false)
            + item_chunk(response_type, records.len() > 0, record),
{
    let more = records.push(record);
    if response_type is Json {
        assert(json_objects(more) =~= json_objects(records).push(json_object(record)));
        lemma_join_push(json_objects(records), ","@, json_object(record));
        assert(body(response_type, more, false) =~= body(response_type, records, false)
            + item_chunk(response_type, records.len() > 0, record));
    } else {
        let chunks = line_chunks(response_type, more);
        assert(chunks.drop_last() =~= line_chunks(response_type, records));
        assert(chunks.last() == item_chunk(response_type, false, record));
    }
}

/// A body that ends without an error is the body sent so far and what
/// closes it.
pub proof fn lemma_body_close(response_type: LogsResponseType, records: Seq<RecordView>)
    ensures
        body(response_type, records, true) == body(response_type, records, false) + closing(
            response_type,
        ),
{
    assert(body(response_type, records, true) =~= body(response_type, records, false) + closing(
        response_type,
    ));
}

impl View for LogsResponse {
    type V = ResponseView;

    open spec fn view(&self) -> ResponseView {
        ResponseView {
            response_type: self.response_type,
            state: self.state,
            joined: self.joiner.started,
        }
    }
}

impl LogsResponse {
    /// The separator is the one that the JSON array needs.
    pub open spec fn wf(&self) -> bool {
        self.joiner.separator@ == ","@
    }

    /// A response of the given encoding of which nothing was sent yet.
    pub fn new(response_type: LogsResponseType) -> (response: Self)
        ensures
            response.wf(),
            response@ == (ResponseView {
                response_type,
                state: StreamState::NotStarted,
                joined: false,
            }),
    {
        LogsResponse {
            response_type,
            state: StreamState::NotStarted,
            joiner: JoinIter::new(String::from_str(",")),
        }
    }

    /// Whether the caller should pull another element: as long as the
    /// response has not ended.
    pub fn wants_pull(&self) -> (wanted: bool)
        ensures
            wanted == !is_terminal(self@.state),
    {
        match self.state {
            StreamState::NotStarted | StreamState::Streaming => true,
            _ => false,
        }
    }

    /// Starts the response, before anything is pulled, and answers with
    /// what stands in front of the first element. A response that was
    /// started already is left as it is and adds nothing.
    pub fn start(&mut self) -> (chunk: String)
        requires
            old(self).wf(),
        ensures
            final(self).wf(),
            final(self)@ == started(old(self)@),
            chunk@ == start_chunk(old(self)@),
    {
        let mut chunk = String::new();
        match self.state {
            StreamState::NotStarted => {
                self.state = StreamState::Streaming;
                match self.response_type {
                    LogsResponseType::Json => {
                        chunk.append("[");
                    },
                    _ => {},
                }
                assert(chunk@ =~= opening(self.response_type));
            },
            _ => {},
        }
        chunk
    }

    /// Takes the outcome of one pull and answers with the chunk that it
    /// adds to the body. A record adds its line, or its object with a
    /// comma in front of every object but the first. The end of the
    /// sequence closes the body and completes the response. A failure
    /// aborts the response and closes nothing. A response that was not
    /// started is started first; one that has ended stays as it is.
    pub fn poll_next(&mut self, pulled: Pulled) -> (chunk: String)
        requires
            old(self).wf(),
        ensures
            final(self).wf(),
            final(self)@ == step(old(self)@, pulled),
            chunk@ == step_chunk(old(self)@, pulled),
    {
        let mut chunk = self.start();
        let ghost head = chunk@;
        match self.state {
            StreamState::Streaming => {
                match pulled {
                    Pulled::Item(record) => {
                        match self.response_type {
                            LogsResponseType::Raw => {
                                chunk.append(record.line.as_str());
                                chunk.append("\n");
                                self.joiner.started = true;
                            },
                            LogsResponseType::Text => {
                                let line = render(record);
                                chunk.append(line.as_str());
                                chunk.append("\n");
                                self.joiner.started = true;
                            },
                            LogsResponseType::Json => {
                                let object = serialize_record(record);
                                let piece = self.joiner.next(object.as_str());
                                chunk.append(piece.as_str());
                            },
                        }
                        assert(chunk@ =~= head + item_chunk(
                            self.response_type,
                            old(self)@.joined,
                            record@,
                        ));
                    },
                    Pulled::Failed => {
                        self.state = StreamState::Aborted;
                        assert(chunk@ =~= head + Seq::<char>::empty());
                    },
                    Pulled::Exhausted => {
                        self.state = StreamState::Completed;
                        match self.response_type {
                            LogsResponseType::Json => {
                                chunk.append("]");
                            },
                            _ => {},
                        }
                        assert(chunk@ =~= head + closing(self.response_type));
                    },
                }
            },
            _ => {},
        }
        chunk
    }

    /// The consumer went away. Answers whether the upstream sequence has
    /// to be released now: once, when the response had not ended yet.
    /// After that nothing is pulled any more.
    pub fn cancel(&mut self) -> (release: bool)
        ensures
            release == !is_terminal(old(self)@.state),
            final(self)@ == cancelled(old(self)@),
            final(self).joiner == old(self).joiner,
    {
        match self.state {
            StreamState::NotStarted | StreamState::Streaming => {
                self.state = StreamState::Aborted;
                true
            },
            _ => false,
        }
    }

    /// Encodes a sequence that is at hand as a whole, by the same steps
    /// by which a live one is encoded: the body up to the first error, and
    /// the state in which the response ended.
    pub fn encode_all(
        response_type: LogsResponseType,
        elements: &Vec<Result<LogRecord, UpstreamError>>,
    ) -> (out: (String, StreamState))
        ensures
            out.0@ == encoded_body(response_type, elements@),
            out.1 == final_state(elements@),
    {
        let mut response = LogsResponse::new(response_type);
        let mut out = response.start();
        let n: usize = elements.len();
        let mut i: usize = 0;
        let ghost mut sent: Seq<RecordView> = Seq::empty();
        proof {
            assert(json_objects(sent) =~= Seq::<Seq<char>>::empty());
            assert(out@ =~= body(response_type, sent, false));
        }
        while i < n && response.wants_pull()
            invariant
                i <= n,
                n == elements@.len(),
                response.wf(),
                response@.response_type == response_type,
                response@.joined == (i > 0),
                forall|j: int| 0 <= j < i ==> (#[trigger] elements@[j]) is Ok,
                sent == Seq::new(i as nat, |j: int| elements@[j]->Ok_0@),
                response@.state is Streaming || (response@.state is Aborted && i < n
                    && elements@[i as int] is Err),
                out@ == body(response_type, sent, false),
            decreases n - i + (if response@.state is Streaming { 1int } else { 0int }),
        {
            match &elements[i] {
                Ok(record) => {
                    let chunk = response.poll_next(Pulled::Item(record));
                    out.append(chunk.as_str());
                    proof {
                        lemma_body_push(response_type, sent, record@);
                        sent = sent.push(record@);
                        assert(sent =~= Seq::new((i + 1) as nat, |j: int| elements@[j]->Ok_0@));
                    }
                    i += 1;
                },
                Err(_) => {
                    let chunk = response.poll_next(Pulled::Failed);
                    out.append(chunk.as_str());
                    assert(out@ =~= body(response_type, sent, false));
                },
            }
        }
        proof {
            lemma_first_failure(elements@, i as int);
        }
        if response.wants_pull() {
            let chunk = response.poll_next(Pulled::Exhausted);
            out.append(chunk.as_str());
            proof {
                lemma_body_close(response_type, sent);
            }
        }
        (out, response.state)
    }
}

} // verus!

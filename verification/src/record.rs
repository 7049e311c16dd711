//! The log record and what the upstream sequence yields.

use vstd::prelude::*;

verus! {

/// Severity of a record.
#[derive(Clone, Copy, Debug, PartialEq, Eq, Structural)]
pub enum Level {
    Trace,
    Debug,
    Info,
    Warn,
    Error,
}

/// Structured fields as a model: keys with their values, in the order in
/// which the keys were first set.
pub type Entries = Seq<(Seq<char>, Seq<char>)>;

/// A record as a mathematical value.
pub struct RecordView {
    pub timestamp: nat,
    pub level: Level,
    pub line: Seq<char>,
    pub fields: Entries,
}

/// One structured log entry. The core never changes a record that it was
/// handed.
#[derive(Debug)]
pub struct LogRecord {
    /// Milliseconds since the epoch.
    pub timestamp: u64,
    pub level: Level,
    /// The line as the backend wrote it, without a line break at its end.
    pub line: String,
    /// Structured fields in insertion order, no key twice.
    pub fields: Vec<(String, String)>,
}

/// The upstream sequence failed or was interrupted.
#[derive(Debug)]
pub struct UpstreamError {
    pub reason: String,
}

/// The name under which a level is written.
pub open spec fn level_name(level: Level) -> Seq<char> {
    match level {
        Level::Trace => "TRACE"@,
        Level::Debug => "DEBUG"@,
        Level::Info => "INFO"@,
        Level::Warn => "WARN"@,
        Level::Error => "ERROR"@,
    }
}

/// The model of a list of fields.
pub open spec fn entries_view(fields: Seq<(String, String)>) -> Entries {
    fields.map_values(|p: (String, String)| (p.0@, p.1@))
}

/// No key occurs twice.
pub open spec fn keys_unique(entries: Entries) -> bool {
    forall|i: int, j: int|
        0 <= i < j < entries.len() ==> (#[trigger] entries[i]).0 != (#[trigger] entries[j]).0
}

/// The first place at which `key` stands, or the length where it stands
/// nowhere.
pub open spec fn key_index(entries: Entries, key: Seq<char>) -> int
    decreases entries.len(),
{
    if entries.len() == 0 {
        0
    } else if entries[0].0 == key {
        0
    } else {
        1 + key_index(entries.drop_first(), key)
    }
}

/// Setting a key: a key that is present keeps its place and gets the new
/// value, a new key goes to the end.
pub open spec fn insert_entry(entries: Entries, key: Seq<char>, value: Seq<char>) -> Entries {
    let at = key_index(entries, key);
    if at < entries.len() {
        entries.update(at, (key, value))
    } else {
        entries.push((key, value))
    }
}

/// `key_index` is the place of the first entry with the key.
pub proof fn lemma_key_index(entries: Entries, key: Seq<char>, at: int)
    requires
        0 <= at <= entries.len(),
        forall|j: int| 0 <= j < at ==> (#[trigger] entries[j]).0 != key,
        at < entries.len() ==> entries[at].0 == key,
    ensures
        key_index(entries, key) == at,
    decreases entries.len(),
{
    if entries.len() > 0 && at > 0 {
        let rest = entries.drop_first();
        assert(entries[0].0 != key);
        assert forall|j: int| 0 <= j < at - 1 implies (#[trigger] rest[j]).0 != key by {
            assert(rest[j] == entries[j + 1]);
        }
        lemma_key_index(rest, key, at - 1);
    }
}

/// Setting a key keeps the keys unique.
pub proof fn lemma_insert_keeps_unique(entries: Entries, key: Seq<char>, value: Seq<char>)
    requires
        keys_unique(entries),
    ensures
        keys_unique(insert_entry(entries, key, value)),
{
    let at = key_index(entries, key);
    lemma_key_index_found(entries, key);
    let after = insert_entry(entries, key, value);
    assert forall|i: int, j: int| 0 <= i < j < after.len() implies (#[trigger] after[i]).0 != (
    #[trigger] after[j]).0 by {
        if at < entries.len() {
            assert(entries[i].0 != entries[j].0);
        } else if j < entries.len() {
            assert(entries[i].0 != entries[j].0);
        } else {
            assert(entries[i].0 != key);
        }
    }
}

/// What `key_index` finds: the key stands at that place and nowhere
/// before it.
pub proof fn lemma_key_index_found(entries: Entries, key: Seq<char>)
    ensures
        0 <= key_index(entries, key) <= entries.len(),
        key_index(entries, key) < entries.len() ==> entries[key_index(entries, key)].0 == key,
        forall|j: int| 0 <= j < key_index(entries, key) ==> (#[trigger] entries[j]).0 != key,
    decreases entries.len(),
{
    if entries.len() > 0 && entries[0].0 != key {
        let rest = entries.drop_first();
        lemma_key_index_found(rest, key);
        assert forall|j: int| 0 <= j < key_index(entries, key) implies (#[trigger] entries[j]).0
            != key by {
            if j > 0 {
                assert(rest[j - 1] == entries[j]);
            }
        }
    }
}

impl Level {
    /// The name under which the level is written.
    pub fn name(&self) -> (name: &'static str)
        ensures
            name@ == level_name(*self),
    {
        match self {
            Level::Trace => "TRACE",
            Level::Debug => "DEBUG",
            Level::Info => "INFO",
            Level::Warn => "WARN",
            Level::Error => "ERROR",
        }
    }
}

impl View for LogRecord {
    type V = RecordView;

    open spec fn view(&self) -> RecordView {
        RecordView {
            timestamp: self.timestamp as nat,
            level: self.level,
            line: self.line@,
            fields: entries_view(self.fields@),
        }
    }
}

impl LogRecord {
    /// A record is well formed when no field key occurs twice.
    pub open spec fn wf(&self) -> bool {
        keys_unique(self@.fields)
    }

    /// A record without structured fields.
    pub fn new(timestamp: u64, level: Level, line: String) -> (record: Self)
        ensures
            record.wf(),
            record@ == (RecordView {
                timestamp: timestamp as nat,
                level,
                line: line@,
                fields: Seq::empty(),
            }),
    {
        let record = LogRecord { timestamp, level, line, fields: Vec::new() };
        assert(record@.fields =~= Seq::empty());
        record
    }

    /// Sets a field. A key that the record has already keeps its place
    /// and gets the new value; a new key goes to the end.
    pub fn set_field(&mut self, key: String, value: String)
        requires
            old(self).wf(),
        ensures
            final(self).wf(),
            final(self)@ == (RecordView {
                fields: insert_entry(old(self)@.fields, key@, value@),
                ..old(self)@
            }),
    {
        let ghost before = self@.fields;
        let n: usize = self.fields.len();
        let mut i: usize = 0;
        let mut found = false;
        while i < n && !found
            invariant
                i <= n,
                n == self.fields@.len(),
                *self == *old(self),
                forall|j: int| 0 <= j < i ==> (#[trigger] before[j]).0 != key@,
                before == entries_view(self.fields@),
                found ==> i < n && before[i as int].0 == key@,
            decreases n - i + (if found { 0int } else { 1int }),
        {
            if self.fields[i].0 == key {
                found = true;
            } else {
                i += 1;
            }
        }
        proof {
            lemma_key_index(before, key@, i as int);
            lemma_insert_keeps_unique(before, key@, value@);
        }
        if i < n {
            self.fields.set(i, (key, value));
        } else {
            self.fields.push((key, value));
        }
        assert(self@.fields =~= insert_entry(before, key@, value@));
    }
}

} // verus!

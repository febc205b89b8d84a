//! The data model: log levels, log entries with their timestamp and JSON
//! fields, and the status of a log source.
use vstd::prelude::*;
use crate::text::{chars_of, copy_str};

verus! {

/// Severity of a log line, from least to most severe.
#[derive(Clone, Copy, Debug, PartialEq, Eq, Structural, Hash)]
pub enum LogLevel {
    Trace,
    Debug,
    Info,
    Warn,
    Error,
    Fatal,
}

/// ASCII lowercase of a character; other characters are unchanged.
pub open spec fn ascii_lower(c: char) -> char {
    if 'A' <= c <= 'Z' {
        ((c as u32) + 32) as char
    } else {
        c
    }
}

/// `s` equals `word` (given in lowercase) when ASCII letters are compared
/// without regard to case.
pub open spec fn eq_ignore_case(s: Seq<char>, word: Seq<char>) -> bool {
    s.len() == word.len() && forall|i: int| 0 <= i < s.len() ==> ascii_lower(#[trigger] s[i])
        == word[i]
}

impl LogLevel {
    /// Position in the severity order: Trace is 0, Fatal is 5.
    pub open spec fn rank(self) -> nat {
        match self {
            LogLevel::Trace => 0,
            LogLevel::Debug => 1,
            LogLevel::Info => 2,
            LogLevel::Warn => 3,
            LogLevel::Error => 4,
            LogLevel::Fatal => 5,
        }
    }

    /// Position in the severity order (also the index of the level's
    /// visibility toggle).
    pub fn index(&self) -> (r: usize)
        ensures
            r == self.rank(),
            r < 6,
    {
        match self {
            LogLevel::Trace => 0,
            LogLevel::Debug => 1,
            LogLevel::Info => 2,
            LogLevel::Warn => 3,
            LogLevel::Error => 4,
            LogLevel::Fatal => 5,
        }
    }

    /// Whether `self` is at least as severe as `other`.
    pub fn is_at_least(&self, other: &LogLevel) -> (r: bool)
        ensures
            r == (self.rank() >= other.rank()),
    {
        self.index() >= other.index()
    }

    /// The level named by `s`, compared without regard to ASCII case:
    /// trace; debug; info; warn or warning; error or err; fatal, critical or crit.
    pub open spec fn spec_from_name(s: Seq<char>) -> Option<LogLevel> {
        if eq_ignore_case(s, seq!['t', 'r', 'a', 'c', 'e']) {
            Some(LogLevel::Trace)
        } else if eq_ignore_case(s, seq!['d', 'e', 'b', 'u', 'g']) {
            Some(LogLevel::Debug)
        } else if eq_ignore_case(s, seq!['i', 'n', 'f', 'o']) {
            Some(LogLevel::Info)
        } else if eq_ignore_case(s, seq!['w', 'a', 'r', 'n']) || eq_ignore_case(
            s,
            seq!['w', 'a', 'r', 'n', 'i', 'n', 'g'],
        ) {
            Some(LogLevel::Warn)
        } else if eq_ignore_case(s, seq!['e', 'r', 'r', 'o', 'r']) || eq_ignore_case(
            s,
            seq!['e', 'r', 'r'],
        ) {
            Some(LogLevel::Error)
        } else if eq_ignore_case(s, seq!['f', 'a', 't', 'a', 'l']) || eq_ignore_case(
            s,
            seq!['c', 'r', 'i', 't', 'i', 'c', 'a', 'l'],
        ) || eq_ignore_case(s, seq!['c', 'r', 'i', 't']) {
            Some(LogLevel::Fatal)
        } else {
            None
        }
    }

    /// Parses a level name (see `spec_from_name`).
    pub fn from_str(s: &str) -> (r: Option<LogLevel>)
        ensures
            r == Self::spec_from_name(s@),
    {
        let cs = chars_of(s);
        let mut low: Vec<char> = Vec::new();
        let mut i: usize = 0;
        while i < cs.len()
            invariant
                cs@ == s@,
                i <= cs@.len(),
                low@.len() == i,
                forall|k: int| 0 <= k < i ==> low@[k] == ascii_lower(#[trigger] cs@[k]),
            decreases cs@.len() - i,
        {
            let c = cs[i];
            let l = if 'A' <= c && c <= 'Z' {
                ((c as u32) + 32) as u8 as char
            } else {
                c
            };
            proof {
                if 'A' <= c && c <= 'Z' {
                    assert(((c as u32) + 32) < 256);
                    assert((((c as u32) + 32) as u8 as char) == (((c as u32) + 32) as char));
                }
            }
            low.push(l);
            i += 1;
        }
        assert forall|w: Seq<char>| eq_ignore_case(s@, w) == (low@ == w) by {
            if low@ == w {
                assert(eq_ignore_case(s@, w));
            }
            if eq_ignore_case(s@, w) {
                assert forall|k: int| 0 <= k < low@.len() implies low@[k] == w[k] by {
                    assert(low@[k] == ascii_lower(cs@[k]));
                    assert(ascii_lower(s@[k]) == w[k]);
                }
                assert(low@ =~= w);
            }
        }
        let l = low.as_slice();
        if lit_eq(l, &['t', 'r', 'a', 'c', 'e']) {
            Some(LogLevel::Trace)
        } else if lit_eq(l, &['d', 'e', 'b', 'u', 'g']) {
            Some(LogLevel::Debug)
        } else if lit_eq(l, &['i', 'n', 'f', 'o']) {
            Some(LogLevel::Info)
        } else if lit_eq(l, &['w', 'a', 'r', 'n']) || lit_eq(l, &['w', 'a', 'r', 'n', 'i', 'n', 'g']) {
            Some(LogLevel::Warn)
        } else if lit_eq(l, &['e', 'r', 'r', 'o', 'r']) || lit_eq(l, &['e', 'r', 'r']) {
            Some(LogLevel::Error)
        } else if lit_eq(l, &['f', 'a', 't', 'a', 'l']) || lit_eq(
            l,
            &['c', 'r', 'i', 't', 'i', 'c', 'a', 'l'],
        ) || lit_eq(l, &['c', 'r', 'i', 't']) {
            Some(LogLevel::Fatal)
        } else {
            None
        }
    }

    /// The upper-case name of the level.
    pub open spec fn spec_name(self) -> Seq<char> {
        match self {
            LogLevel::Trace => seq!['T', 'R', 'A', 'C', 'E'],
            LogLevel::Debug => seq!['D', 'E', 'B', 'U', 'G'],
            LogLevel::Info => seq!['I', 'N', 'F', 'O'],
            LogLevel::Warn => seq!['W', 'A', 'R', 'N'],
            LogLevel::Error => seq!['E', 'R', 'R', 'O', 'R'],
            LogLevel::Fatal => seq!['F', 'A', 'T', 'A', 'L'],
        }
    }

    /// The upper-case name of the level ("TRACE" ... "FATAL").
    pub fn as_str(&self) -> (r: &'static str)
        ensures
            r@ == self.spec_name(),
    {
        let r = match self {
            LogLevel::Trace => "TRACE",
            LogLevel::Debug => "DEBUG",
            LogLevel::Info => "INFO",
            LogLevel::Warn => "WARN",
            LogLevel::Error => "ERROR",
            LogLevel::Fatal => "FATAL",
        };
        proof {
            reveal_strlit("TRACE");
            reveal_strlit("DEBUG");
            reveal_strlit("INFO");
            reveal_strlit("WARN");
            reveal_strlit("ERROR");
            reveal_strlit("FATAL");
        }
        r
    }
}

/// Whether the characters of `a` equal the literal `b`.
fn lit_eq(a: &[char], b: &[char]) -> (r: bool)
    ensures
        r == (a@ == b@),
{
    if a.len() != b.len() {
        return false;
    }
    let mut i: usize = 0;
    while i < a.len()
        invariant
            a@.len() == b@.len(),
            i <= a@.len(),
            forall|k: int| 0 <= k < i ==> a@[k] == b@[k],
        decreases a@.len() - i,
    {
        if a[i] != b[i] {
            return false;
        }
        i += 1;
    }
    assert(a@ =~= b@);
    true
}

/// An instant in UTC: whole seconds since the Unix epoch and the nanoseconds
/// past that second (a leap second is carried as nanoseconds of 10^9 or more).
#[derive(Clone, Copy, Debug, PartialEq, Eq, Structural)]
pub struct Timestamp {
    pub secs: i64,
    pub nanos: u32,
}

impl Timestamp {
    /// `self` is strictly later than `other`.
    pub open spec fn spec_after(self, other: Timestamp) -> bool {
        self.secs > other.secs || (self.secs == other.secs && self.nanos > other.nanos)
    }

    /// Whether `self` is strictly later than `other`.
    pub fn is_after(&self, other: &Timestamp) -> (r: bool)
        ensures
            r == self.spec_after(*other),
    {
        self.secs > other.secs || (self.secs == other.secs && self.nanos > other.nanos)
    }
}

/// The value of a top-level JSON field, as the filters read it.
pub enum FieldValue {
    /// A JSON string, with its contents.
    Text(String),
    /// A JSON number: its value when it is an integer that fits in `i64`, and
    /// its JSON text.
    Number(Option<i64>, String),
    /// Any other JSON value (boolean, null, array, object), as JSON text.
    Other(String),
}

/// The mathematical value of a [`FieldValue`].
pub enum FieldValueModel {
    Text(Seq<char>),
    Number(Option<i64>, Seq<char>),
    Other(Seq<char>),
}

impl View for FieldValue {
    type V = FieldValueModel;

    open spec fn view(&self) -> FieldValueModel {
        match self {
            FieldValue::Text(s) => FieldValueModel::Text(s@),
            FieldValue::Number(n, s) => FieldValueModel::Number(*n, s@),
            FieldValue::Other(s) => FieldValueModel::Other(s@),
        }
    }
}

impl FieldValueModel {
    /// The field as text: a string's contents, or the JSON text of anything else.
    pub open spec fn text(self) -> Seq<char> {
        match self {
            FieldValueModel::Text(s) => s,
            FieldValueModel::Number(_, s) => s,
            FieldValueModel::Other(s) => s,
        }
    }
}

impl FieldValue {
    /// The field as text: a string's contents, or the JSON text of anything else.
    pub fn text(&self) -> (r: String)
        ensures
            r@ == self@.text(),
    {
        match self {
            FieldValue::Text(s) => copy_str(s.as_str()),
            FieldValue::Number(_, s) => copy_str(s.as_str()),
            FieldValue::Other(s) => copy_str(s.as_str()),
        }
    }

    /// A copy of the value.
    pub fn duplicate(&self) -> (r: FieldValue)
        ensures
            r@ == self@,
    {
        match self {
            FieldValue::Text(s) => FieldValue::Text(copy_str(s.as_str())),
            FieldValue::Number(n, s) => FieldValue::Number(*n, copy_str(s.as_str())),
            FieldValue::Other(s) => FieldValue::Other(copy_str(s.as_str())),
        }
    }
}

/// One top-level field of a JSON object.
pub struct JsonField {
    pub key: String,
    pub value: FieldValue,
}

impl View for JsonField {
    type V = (Seq<char>, FieldValueModel);

    open spec fn view(&self) -> (Seq<char>, FieldValueModel) {
        (self.key@, self.value@)
    }
}

impl JsonField {
    /// A copy of the field.
    pub fn duplicate(&self) -> (r: JsonField)
        ensures
            r@ == self@,
    {
        JsonField { key: copy_str(self.key.as_str()), value: self.value.duplicate() }
    }
}

/// The value of the first field named `name`, if any.
pub open spec fn field_lookup(fields: Seq<(Seq<char>, FieldValueModel)>, name: Seq<char>) -> Option<
    FieldValueModel,
>
    decreases fields.len(),
{
    if fields.len() == 0 {
        None
    } else if fields[0].0 == name {
        Some(fields[0].1)
    } else {
        field_lookup(fields.drop_first(), name)
    }
}

/// Index of the first field named `name`.
pub fn find_field(fields: &Vec<JsonField>, name: &str) -> (r: Option<usize>)
    ensures
        match r {
            Some(i) => i < fields@.len() && field_lookup(fields@.map_values(|f: JsonField| f@), name@)
                == Some(fields@[i as int].value@),
            None => field_lookup(fields@.map_values(|f: JsonField| f@), name@) is None,
        },
{
    let ghost fs = fields@.map_values(|f: JsonField| f@);
    let mut i: usize = 0;
    assert(fs.skip(0) == fs);
    while i < fields.len()
        invariant
            i <= fields@.len(),
            fs == fields@.map_values(|f: JsonField| f@),
            field_lookup(fs, name@) == field_lookup(fs.skip(i as int), name@),
        decreases fields@.len() - i,
    {
        assert(fs.skip(i as int)[0] == fields@[i as int]@);
        if crate::text::str_eq(fields[i].key.as_str(), name) {
            return Some(i);
        }
        assert(fs.skip(i as int).drop_first() == fs.skip(i + 1));
        i += 1;
    }
    None
}

/// A copy of a list of fields.
pub fn duplicate_fields(fields: &Vec<JsonField>) -> (r: Vec<JsonField>)
    ensures
        r@.map_values(|f: JsonField| f@) == fields@.map_values(|f: JsonField| f@),
{
    let mut r: Vec<JsonField> = Vec::new();
    let mut i: usize = 0;
    while i < fields.len()
        invariant
            i <= fields@.len(),
            r@.len() == i,
            forall|k: int| 0 <= k < i ==> #[trigger] r@[k]@ == fields@[k]@,
        decreases fields@.len() - i,
    {
        r.push(fields[i].duplicate());
        i += 1;
    }
    assert(r@.map_values(|f: JsonField| f@) =~= fields@.map_values(|f: JsonField| f@));
    r
}

/// One parsed log line.
pub struct LogEntry {
    pub id: u64,
    pub timestamp: Option<Timestamp>,
    pub source: String,
    pub level: Option<LogLevel>,
    /// The message shown for the line; the whole line unless a parser found one.
    pub message: String,
    /// The line as it was read.
    pub raw: String,
    /// The top-level fields of a JSON line, in the order the JSON parser gave them.
    pub fields: Vec<JsonField>,
}

/// The mathematical value of a [`LogEntry`].
pub struct LogEntryModel {
    pub id: u64,
    pub timestamp: Option<Timestamp>,
    pub source: Seq<char>,
    pub level: Option<LogLevel>,
    pub message: Seq<char>,
    pub raw: Seq<char>,
    pub fields: Seq<(Seq<char>, FieldValueModel)>,
}

impl View for LogEntry {
    type V = LogEntryModel;

    open spec fn view(&self) -> LogEntryModel {
        LogEntryModel {
            id: self.id,
            timestamp: self.timestamp,
            source: self.source@,
            level: self.level,
            message: self.message@,
            raw: self.raw@,
            fields: self.fields@.map_values(|f: JsonField| f@),
        }
    }
}

impl LogEntry {
    /// A line from `source` with no timestamp, level or fields; its message is
    /// the whole line.
    pub fn new(source: String, raw: String) -> (r: LogEntry)
        ensures
            r@ == (LogEntryModel {
                id: 0,
                timestamp: None,
                source: source@,
                level: None,
                message: raw@,
                raw: raw@,
                fields: seq![],
            }),
    {
        let message = copy_str(raw.as_str());
        let r = LogEntry {
            id: 0,
            timestamp: None,
            source,
            level: None,
            message,
            raw,
            fields: Vec::new(),
        };
        assert(r@.fields =~= Seq::<(Seq<char>, FieldValueModel)>::empty());
        r
    }

    /// The same entry with the given timestamp.
    pub fn with_timestamp(self, ts: Timestamp) -> (r: LogEntry)
        ensures
            r@ == (LogEntryModel { timestamp: Some(ts), ..self@ }),
    {
        LogEntry { timestamp: Some(ts), ..self }
    }

    /// The same entry with the given level.
    pub fn with_level(self, level: LogLevel) -> (r: LogEntry)
        ensures
            r@ == (LogEntryModel { level: Some(level), ..self@ }),
    {
        LogEntry { level: Some(level), ..self }
    }

    /// The same entry with the given message.
    pub fn with_message(self, message: String) -> (r: LogEntry)
        ensures
            r@ == (LogEntryModel { message: message@, ..self@ }),
    {
        LogEntry { message, ..self }
    }

    /// The same entry with the given fields.
    pub fn with_fields(self, fields: Vec<JsonField>) -> (r: LogEntry)
        ensures
            r@ == (LogEntryModel { fields: fields@.map_values(|f: JsonField| f@), ..self@ }),
    {
        LogEntry { fields, ..self }
    }

    /// Whether the entry has a field named `key`.
    pub fn has_field(&self, key: &str) -> (r: bool)
        ensures
            r == field_lookup(self@.fields, key@) is Some,
    {
        find_field(&self.fields, key).is_some()
    }

    /// The text of the field named `name` (a string's contents, or JSON text).
    pub fn field_text(&self, name: &str) -> (r: Option<String>)
        ensures
            match field_lookup(self@.fields, name@) {
                Some(v) => r is Some && r->0@ == v.text(),
                None => r is None,
            },
    {
        match find_field(&self.fields, name) {
            Some(i) => Some(self.fields[i].value.text()),
            None => None,
        }
    }

    /// A copy of the entry.
    pub fn duplicate(&self) -> (r: LogEntry)
        ensures
            r@ == self@,
    {
        LogEntry {
            id: self.id,
            timestamp: self.timestamp,
            source: copy_str(self.source.as_str()),
            level: self.level,
            message: copy_str(self.message.as_str()),
            raw: copy_str(self.raw.as_str()),
            fields: duplicate_fields(&self.fields),
        }
    }
}

/// Where a source's lines come from.
#[derive(Clone, Copy, Debug, PartialEq, Eq, Structural)]
pub enum SourceType {
    Local,
    Ssh,
}

impl SourceType {
    /// The name of the kind of source: "local" or "ssh".
    pub fn as_str(&self) -> (r: &'static str)
        ensures
            r@ == (match self {
                SourceType::Local => seq!['l', 'o', 'c', 'a', 'l'],
                SourceType::Ssh => seq!['s', 's', 'h'],
            }),
    {
        proof {
            reveal_strlit("local");
            reveal_strlit("ssh");
        }
        match self {
            SourceType::Local => "local",
            SourceType::Ssh => "ssh",
        }
    }
}

/// Connection state of a source.
#[derive(Clone, Copy, Debug, PartialEq, Eq, Structural)]
pub enum SourceStatus {
    Connecting,
    Connected,
    Disconnected,
    Error,
}

impl SourceStatus {
    /// The name of the state: "connecting", "connected", "disconnected" or "error".
    pub fn as_str(&self) -> (r: &'static str)
        ensures
            r@ == (match self {
                SourceStatus::Connecting => seq!['c', 'o', 'n', 'n', 'e', 'c', 't', 'i', 'n', 'g'],
                SourceStatus::Connected => seq!['c', 'o', 'n', 'n', 'e', 'c', 't', 'e', 'd'],
                SourceStatus::Disconnected => seq![
                    'd', 'i', 's', 'c', 'o', 'n', 'n', 'e', 'c', 't', 'e', 'd'
                ],
                SourceStatus::Error => seq!['e', 'r', 'r', 'o', 'r'],
            }),
    {
        proof {
            reveal_strlit("connecting");
            reveal_strlit("connected");
            reveal_strlit("disconnected");
            reveal_strlit("error");
        }
        match self {
            SourceStatus::Connecting => "connecting",
            SourceStatus::Connected => "connected",
            SourceStatus::Disconnected => "disconnected",
            SourceStatus::Error => "error",
        }
    }
}

/// What is known about one source.
pub struct SourceInfo {
    pub name: String,
    pub source_type: SourceType,
    pub path: String,
    pub status: SourceStatus,
    pub line_count: u64,
    pub enabled: bool,
    /// Bytes of the file (local) or bytes received (SSH), when known.
    pub file_size: Option<u64>,
}

impl SourceInfo {
    /// A new, enabled, disconnected source with no lines read.
    pub fn new(name: String, source_type: SourceType, path: String) -> (r: SourceInfo)
        ensures
            r.name@ == name@,
            r.source_type == source_type,
            r.path@ == path@,
            r.status == SourceStatus::Disconnected,
            r.line_count == 0,
            r.enabled,
            r.file_size is None,
    {
        SourceInfo {
            name,
            source_type,
            path,
            status: SourceStatus::Disconnected,
            line_count: 0,
            enabled: true,
            file_size: None,
        }
    }

    /// The one-character symbol of the source's status.
    pub open spec fn spec_status_symbol(self) -> Seq<char> {
        match self.status {
            SourceStatus::Connecting => seq!['\u{25d0}'],
            SourceStatus::Connected => seq!['\u{25cf}'],
            SourceStatus::Disconnected => seq!['\u{25cb}'],
            SourceStatus::Error => seq!['\u{2717}'],
        }
    }

    /// The symbol of the source's status: half circle while connecting, full
    /// circle when connected, empty circle when disconnected, a cross on error.
    pub fn status_symbol(&self) -> (r: &'static str)
        ensures
            r@ == self.spec_status_symbol(),
    {
        proof {
            reveal_strlit("\u{25d0}");
            reveal_strlit("\u{25cf}");
            reveal_strlit("\u{25cb}");
            reveal_strlit("\u{2717}");
        }
        match self.status {
            SourceStatus::Connecting => "\u{25d0}",
            SourceStatus::Connected => "\u{25cf}",
            SourceStatus::Disconnected => "\u{25cb}",
            SourceStatus::Error => "\u{2717}",
        }
    }

    /// A copy of the record.
    pub fn duplicate(&self) -> (r: SourceInfo)
        ensures
            r.name@ == self.name@,
            r.source_type == self.source_type,
            r.path@ == self.path@,
            r.status == self.status,
            r.line_count == self.line_count,
            r.enabled == self.enabled,
            r.file_size == self.file_size,
    {
        SourceInfo {
            name: copy_str(self.name.as_str()),
            source_type: self.source_type,
            path: copy_str(self.path.as_str()),
            status: self.status,
            line_count: self.line_count,
            enabled: self.enabled,
            file_size: self.file_size,
        }
    }
}

/// Application theme (kept for configuration compatibility).
#[derive(Clone, Copy, Debug, PartialEq, Eq, Structural)]
pub enum Theme {
    Light,
    Dark,
    System,
}

impl Default for Theme {
    fn default() -> (r: Theme)
        ensures
            r == Theme::System,
    {
        Theme::System
    }
}

} // verus!

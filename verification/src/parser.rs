//! Turning a raw line into a log entry: the plain-text parser (timestamps and
//! levels found by regular expressions) and the JSON parser (well-known
//! field names).
use vstd::prelude::*;
use crate::clock::{
    from_unix_seconds, instant_of, naive_instant, parse_naive, parse_rfc3339, rfc3339_instant,
    unix_seconds_representable,
};
use crate::json::{json_object_fields, parse_json_object};
use crate::models::{
    FieldValue, FieldValueModel, JsonField, LogEntry, LogEntryModel, LogLevel, Timestamp, field_lookup,
    find_field,
};
use crate::pattern::{CompiledRegex, regex_compiles, regex_group1};
use crate::text::copy_str;

verus! {

/// ISO 8601 timestamps such as `2024-01-22T10:15:32.123Z`.
pub const ISO_PATTERN: &'static str = "(\\d{4}-\\d{2}-\\d{2}T\\d{2}:\\d{2}:\\d{2}(?:\\.\\d+)?(?:Z|[+-]\\d{2}:?\\d{2})?)";

/// The `chrono` format tried first for an ISO 8601 match.
pub const ISO_FORMAT: &'static str = "%Y-%m-%dT%H:%M:%S%.fZ";

/// Common log timestamps such as `2024-01-22 10:15:32`.
pub const COMMON_PATTERN: &'static str = "(\\d{4}-\\d{2}-\\d{2} \\d{2}:\\d{2}:\\d{2})";

/// The `chrono` format for a common log timestamp.
pub const COMMON_FORMAT: &'static str = "%Y-%m-%d %H:%M:%S";

/// Syslog timestamps such as `Jan 22 10:15:32`.
pub const SYSLOG_PATTERN: &'static str = "([A-Z][a-z]{2} \\d{1,2} \\d{2}:\\d{2}:\\d{2})";

/// The `chrono` format for a syslog timestamp.
pub const SYSLOG_FORMAT: &'static str = "%b %d %H:%M:%S";

/// A level keyword standing as a word, in any case.
pub const LEVEL_PATTERN: &'static str = "(?i)\\b(TRACE|DEBUG|INFO|WARN(?:ING)?|ERROR|ERR|FATAL|CRITICAL|CRIT)\\b";

/// The instant a timestamp pattern finds in `line`: the text its first group
/// captures, read with `format`, or else read as RFC 3339. `None` when the
/// pattern does not match or neither reading succeeds.
pub open spec fn pattern_instant(pattern: Seq<char>, format: Seq<char>, line: Seq<char>) -> Option<(i64, u32)> {
    if !regex_compiles(pattern) {
        None
    } else {
        match regex_group1(pattern, line) {
            Some(m) => match naive_instant(m, format) {
                Some(t) => Some(t),
                None => rfc3339_instant(m),
            },
            None => None,
        }
    }
}

/// The timestamp of a plain line: the first of the ISO, common and syslog
/// patterns that yields an instant.
pub open spec fn plain_instant(line: Seq<char>) -> Option<(i64, u32)> {
    match pattern_instant(ISO_PATTERN@, ISO_FORMAT@, line) {
        Some(t) => Some(t),
        None => match pattern_instant(COMMON_PATTERN@, COMMON_FORMAT@, line) {
            Some(t) => Some(t),
            None => pattern_instant(SYSLOG_PATTERN@, SYSLOG_FORMAT@, line),
        },
    }
}

/// The level of a plain line: the first level keyword standing as a word.
pub open spec fn plain_level(line: Seq<char>) -> Option<LogLevel> {
    if !regex_compiles(LEVEL_PATTERN@) {
        None
    } else {
        match regex_group1(LEVEL_PATTERN@, line) {
            Some(m) => LogLevel::spec_from_name(m),
            None => None,
        }
    }
}

/// A compiled pattern, or `None` when the pattern does not compile.
fn compile_opt(pattern: &str) -> (r: Option<CompiledRegex>)
    ensures
        r is Some <==> regex_compiles(pattern@),
        r matches Some(c) ==> c.pattern() == pattern@,
{
    match CompiledRegex::compile(pattern) {
        Ok(c) => Some(c),
        Err(_) => None,
    }
}

/// The group-1 capture of an optional compiled pattern.
fn capture(re: &Option<CompiledRegex>, line: &str) -> (r: Option<String>)
    ensures
        match re {
            Some(c) => match r {
                Some(s) => regex_group1(c.pattern(), line@) == Some(s@),
                None => regex_group1(c.pattern(), line@) is None,
            },
            None => r is None,
        },
{
    match re {
        Some(c) => c.group1(line),
        None => None,
    }
}

/// Parses lines of plain text.
pub struct PlainParser {
    iso: Option<CompiledRegex>,
    common: Option<CompiledRegex>,
    syslog: Option<CompiledRegex>,
    level: Option<CompiledRegex>,
}

/// An optional compiled regex holds the pattern `p` exactly when `p` compiles.
pub open spec fn holds_pattern(re: Option<CompiledRegex>, p: Seq<char>) -> bool {
    match re {
        Some(c) => c.pattern() == p && regex_compiles(p),
        None => !regex_compiles(p),
    }
}

impl PlainParser {
    /// Each pattern is compiled, where it compiles.
    pub closed spec fn wf(&self) -> bool {
        &&& holds_pattern(self.iso, ISO_PATTERN@)
        &&& holds_pattern(self.common, COMMON_PATTERN@)
        &&& holds_pattern(self.syslog, SYSLOG_PATTERN@)
        &&& holds_pattern(self.level, LEVEL_PATTERN@)
    }

    /// A parser with its patterns compiled.
    pub fn new() -> (r: PlainParser)
        ensures
            r.wf(),
    {
        PlainParser {
            iso: compile_opt(ISO_PATTERN),
            common: compile_opt(COMMON_PATTERN),
            syslog: compile_opt(SYSLOG_PATTERN),
            level: compile_opt(LEVEL_PATTERN),
        }
    }

    fn try_pattern(re: &Option<CompiledRegex>, format: &str, line: &str) -> (r: Option<Timestamp>)
        requires
            re matches Some(c) ==> regex_compiles(c.pattern()),
        ensures
            match re {
                Some(c) => instant_of(r) == pattern_instant(c.pattern(), format@, line@),
                None => r is None,
            },
    {
        match capture(re, line) {
            Some(m) => match parse_naive(m.as_str(), format) {
                Some(t) => Some(t),
                None => parse_rfc3339(m.as_str()),
            },
            None => None,
        }
    }

    /// The timestamp of a plain line (see `plain_instant`).
    pub fn extract_timestamp(&self, line: &str) -> (r: Option<Timestamp>)
        requires
            self.wf(),
        ensures
            instant_of(r) == plain_instant(line@),
    {
        match Self::try_pattern(&self.iso, ISO_FORMAT, line) {
            Some(t) => Some(t),
            None => match Self::try_pattern(&self.common, COMMON_FORMAT, line) {
                Some(t) => Some(t),
                None => Self::try_pattern(&self.syslog, SYSLOG_FORMAT, line),
            },
        }
    }

    /// The level of a plain line (see `plain_level`).
    pub fn extract_level(&self, line: &str) -> (r: Option<LogLevel>)
        requires
            self.wf(),
        ensures
            r == plain_level(line@),
    {
        match capture(&self.level, line) {
            Some(m) => LogLevel::from_str(m.as_str()),
            None => None,
        }
    }
}

impl Default for PlainParser {
    fn default() -> (r: PlainParser)
        ensures
            r.wf(),
    {
        PlainParser::new()
    }
}

/// The entry a plain line gives: the whole line as message, with the
/// timestamp and level found in it.
pub open spec fn plain_entry_ok(r: LogEntryModel, source: Seq<char>, line: Seq<char>) -> bool {
    &&& r.id == 0
    &&& r.source == source
    &&& r.raw == line
    &&& r.message == line
    &&& r.fields == Seq::<(Seq<char>, FieldValueModel)>::empty()
    &&& instant_of(r.timestamp) == plain_instant(line)
    &&& r.level == plain_level(line)
}

/// Turns a line into a log entry.
pub trait Parser {
    /// Whether the parser is ready to be used.
    spec fn ready(&self) -> bool;

    /// The entry for `line`, read from `source`.
    fn parse(&self, source: &str, line: &str) -> (r: LogEntry)
        requires
            self.ready(),
        ensures
            r@.source == source@,
            r@.raw == line@,
    ;

    /// The parser's name.
    fn name(&self) -> &str;
}

impl Parser for PlainParser {
    open spec fn ready(&self) -> bool {
        self.wf()
    }

    fn parse(&self, source: &str, line: &str) -> (r: LogEntry)
        ensures
            plain_entry_ok(r@, source@, line@),
    {
        let mut entry = LogEntry::new(copy_str(source), copy_str(line));
        if let Some(ts) = self.extract_timestamp(line) {
            entry = entry.with_timestamp(ts);
        }
        if let Some(level) = self.extract_level(line) {
            entry = entry.with_level(level);
        }
        entry
    }

    /// "plain".
    fn name(&self) -> (r: &str)
        ensures
            r@ == "plain"@,
    {
        "plain"
    }
}

// ---------------------------------------------------------------------------
/// The format tried for a textual timestamp that is not RFC 3339.
pub const JSON_TEXT_FORMAT: &'static str = "%Y-%m-%d %H:%M:%S";

/// Numbers above this are taken as milliseconds rather than seconds.
pub const MILLIS_THRESHOLD: i64 = 1000000000000;

/// The instant a timestamp field gives: a string read as RFC 3339 or else as
/// `%Y-%m-%d %H:%M:%S`; an integer read as Unix seconds (or milliseconds when
/// above 10^12).
pub open spec fn field_instant(v: FieldValueModel) -> Option<(i64, u32)> {
    match v {
        FieldValueModel::Text(s) => match rfc3339_instant(s) {
            Some(t) => Some(t),
            None => naive_instant(s, JSON_TEXT_FORMAT@),
        },
        FieldValueModel::Number(Some(n), _) => {
            let secs = if n > MILLIS_THRESHOLD {
                (n / 1000) as i64
            } else {
                n
            };
            if unix_seconds_representable(secs) {
                Some((secs, 0u32))
            } else {
                None
            }
        },
        _ => None,
    }
}

/// A JSON number is a Unix timestamp: above 10^12 it counts milliseconds,
/// so the instant is the number divided by 1000 (whole seconds); up to 10^12
/// it counts seconds. Either way the instant is the one chrono can represent
/// at that second, or there is none.
pub proof fn lemma_number_timestamp_units(n: i64, text: Seq<char>)
    ensures
        n > 1_000_000_000_000 ==> field_instant(FieldValueModel::Number(Some(n), text)) == (if unix_seconds_representable(
            (n / 1000) as i64,
        ) {
            Some(((n / 1000) as i64, 0u32))
        } else {
            None
        }),
        n > 1_000_000_000_000 ==> (field_instant(FieldValueModel::Number(Some(n), text)) matches Some(t) && t.0
            * 1000 <= n < t.0 * 1000 + 1000 && t.1 == 0) || field_instant(FieldValueModel::Number(Some(n), text))
            is None,
        n <= 1_000_000_000_000 ==> field_instant(FieldValueModel::Number(Some(n), text)) == (if unix_seconds_representable(n) {
            Some((n, 0u32))
        } else {
            None
        }),
{
}

/// The first of `names` whose field gives an instant.
pub open spec fn json_instant(names: Seq<Seq<char>>, fields: Seq<(Seq<char>, FieldValueModel)>) -> Option<(i64, u32)>
    decreases names.len(),
{
    if names.len() == 0 {
        None
    } else {
        match field_lookup(fields, names[0]) {
            Some(v) => match field_instant(v) {
                Some(t) => Some(t),
                None => json_instant(names.drop_first(), fields),
            },
            None => json_instant(names.drop_first(), fields),
        }
    }
}

/// The first of `names` whose field is a string naming a level.
pub open spec fn json_level(names: Seq<Seq<char>>, fields: Seq<(Seq<char>, FieldValueModel)>) -> Option<LogLevel>
    decreases names.len(),
{
    if names.len() == 0 {
        None
    } else {
        match field_lookup(fields, names[0]) {
            Some(FieldValueModel::Text(s)) => match LogLevel::spec_from_name(s) {
                Some(l) => Some(l),
                None => json_level(names.drop_first(), fields),
            },
            _ => json_level(names.drop_first(), fields),
        }
    }
}

/// The first of `names` whose field is a string: its contents.
pub open spec fn json_message(names: Seq<Seq<char>>, fields: Seq<(Seq<char>, FieldValueModel)>) -> Option<Seq<char>>
    decreases names.len(),
{
    if names.len() == 0 {
        None
    } else {
        match field_lookup(fields, names[0]) {
            Some(FieldValueModel::Text(s)) => Some(s),
            _ => json_message(names.drop_first(), fields),
        }
    }
}

/// Parses lines that hold a JSON object.
pub struct JsonParser {
    timestamp_fields: Vec<&'static str>,
    level_fields: Vec<&'static str>,
    message_fields: Vec<&'static str>,
}

/// The names in a list of field names.
pub open spec fn names_of(v: Seq<&'static str>) -> Seq<Seq<char>> {
    v.map_values(|s: &'static str| s@)
}

impl JsonParser {
    /// Field names tried for the timestamp, in order.
    pub closed spec fn timestamp_names(&self) -> Seq<Seq<char>> {
        names_of(self.timestamp_fields@)
    }

    /// Field names tried for the level, in order.
    pub closed spec fn level_names(&self) -> Seq<Seq<char>> {
        names_of(self.level_fields@)
    }

    /// Field names tried for the message, in order.
    pub closed spec fn message_names(&self) -> Seq<Seq<char>> {
        names_of(self.message_fields@)
    }

    /// A parser trying the usual field names: timestamp, time, ts, @timestamp,
    /// datetime, date; level, severity, log_level, loglevel, lvl; message,
    /// msg, text, log, body.
    pub fn new() -> (r: JsonParser)
        ensures
            r.timestamp_names() == seq![
                "timestamp"@,
                "time"@,
                "ts"@,
                "@timestamp"@,
                "datetime"@,
                "date"@,
            ],
            r.level_names() == seq!["level"@, "severity"@, "log_level"@, "loglevel"@, "lvl"@],
            r.message_names() == seq!["message"@, "msg"@, "text"@, "log"@, "body"@],
    {
        let r = JsonParser {
            timestamp_fields: vec!["timestamp", "time", "ts", "@timestamp", "datetime", "date"],
            level_fields: vec!["level", "severity", "log_level", "loglevel", "lvl"],
            message_fields: vec!["message", "msg", "text", "log", "body"],
        };
        assert(r.timestamp_names() =~= seq![
            "timestamp"@,
            "time"@,
            "ts"@,
            "@timestamp"@,
            "datetime"@,
            "date"@,
        ]);
        assert(r.level_names() =~= seq!["level"@, "severity"@, "log_level"@, "loglevel"@, "lvl"@]);
        assert(r.message_names() =~= seq!["message"@, "msg"@, "text"@, "log"@, "body"@]);
        r
    }

    fn field_timestamp(v: &FieldValue) -> (r: Option<Timestamp>)
        ensures
            instant_of(r) == field_instant(v@),
    {
        match v {
            FieldValue::Text(s) => match parse_rfc3339(s.as_str()) {
                Some(t) => Some(t),
                None => parse_naive(s.as_str(), JSON_TEXT_FORMAT),
            },
            FieldValue::Number(Some(n), _) => {
                let secs = if *n > MILLIS_THRESHOLD {
                    *n / 1000
                } else {
                    *n
                };
                from_unix_seconds(secs)
            },
            _ => None,
        }
    }

    /// The timestamp of a JSON object's fields (see `json_instant`).
    pub fn extract_timestamp(&self, fields: &Vec<JsonField>) -> (r: Option<Timestamp>)
        ensures
            instant_of(r) == json_instant(self.timestamp_names(), fields@.map_values(|f: JsonField| f@)),
    {
        let ghost fs = fields@.map_values(|f: JsonField| f@);
        let ghost names = self.timestamp_names();
        let mut i: usize = 0;
        assert(names.skip(0) == names);
        while i < self.timestamp_fields.len()
            invariant
                i <= names.len(),
                names == names_of(self.timestamp_fields@),
                fs == fields@.map_values(|f: JsonField| f@),
                json_instant(names, fs) == json_instant(names.skip(i as int), fs),
            decreases names.len() - i,
        {
            assert(names.skip(i as int).drop_first() == names.skip(i + 1));
            assert(names.skip(i as int)[0] == self.timestamp_fields@[i as int]@);
            if let Some(k) = find_field(fields, self.timestamp_fields[i]) {
                if let Some(t) = Self::field_timestamp(&fields[k].value) {
                    return Some(t);
                }
            }
            i += 1;
        }
        None
    }

    /// The level of a JSON object's fields (see `json_level`).
    pub fn extract_level(&self, fields: &Vec<JsonField>) -> (r: Option<LogLevel>)
        ensures
            r == json_level(self.level_names(), fields@.map_values(|f: JsonField| f@)),
    {
        let ghost fs = fields@.map_values(|f: JsonField| f@);
        let ghost names = self.level_names();
        let mut i: usize = 0;
        assert(names.skip(0) == names);
        while i < self.level_fields.len()
            invariant
                i <= names.len(),
                names == names_of(self.level_fields@),
                fs == fields@.map_values(|f: JsonField| f@),
                json_level(names, fs) == json_level(names.skip(i as int), fs),
            decreases names.len() - i,
        {
            assert(names.skip(i as int).drop_first() == names.skip(i + 1));
            assert(names.skip(i as int)[0] == self.level_fields@[i as int]@);
            if let Some(k) = find_field(fields, self.level_fields[i]) {
                if let FieldValue::Text(s) = &fields[k].value {
                    if let Some(level) = LogLevel::from_str(s.as_str()) {
                        return Some(level);
                    }
                }
            }
            i += 1;
        }
        None
    }

    /// The message of a JSON object's fields (see `json_message`).
    pub fn extract_message(&self, fields: &Vec<JsonField>) -> (r: Option<String>)
        ensures
            match r {
                Some(s) => json_message(self.message_names(), fields@.map_values(|f: JsonField| f@))
                    == Some(s@),
                None => json_message(self.message_names(), fields@.map_values(|f: JsonField| f@)) is None,
            },
    {
        let ghost fs = fields@.map_values(|f: JsonField| f@);
        let ghost names = self.message_names();
        let mut i: usize = 0;
        assert(names.skip(0) == names);
        while i < self.message_fields.len()
            invariant
                i <= names.len(),
                names == names_of(self.message_fields@),
                fs == fields@.map_values(|f: JsonField| f@),
                json_message(names, fs) == json_message(names.skip(i as int), fs),
            decreases names.len() - i,
        {
            assert(names.skip(i as int).drop_first() == names.skip(i + 1));
            assert(names.skip(i as int)[0] == self.message_fields@[i as int]@);
            if let Some(k) = find_field(fields, self.message_fields[i]) {
                if let FieldValue::Text(s) = &fields[k].value {
                    return Some(copy_str(s.as_str()));
                }
            }
            i += 1;
        }
        None
    }
}

impl Default for JsonParser {
    fn default() -> (r: JsonParser)
        ensures
            r.timestamp_names() == seq![
                "timestamp"@,
                "time"@,
                "ts"@,
                "@timestamp"@,
                "datetime"@,
                "date"@,
            ],
            r.level_names() == seq!["level"@, "severity"@, "log_level"@, "loglevel"@, "lvl"@],
            r.message_names() == seq!["message"@, "msg"@, "text"@, "log"@, "body"@],
    {
        JsonParser::new()
    }
}

/// The entry a line gives under the JSON parser: for a JSON object, the
/// timestamp, level and message found in its fields (each only when found)
/// and all its fields; otherwise the line as for a line with nothing found.
pub open spec fn json_entry_ok(p: JsonParser, r: LogEntryModel, source: Seq<char>, line: Seq<char>) -> bool {
    &&& r.id == 0
    &&& r.source == source
    &&& r.raw == line
    &&& match json_object_fields(line) {
        Some(fs) => {
            &&& instant_of(r.timestamp) == json_instant(p.timestamp_names(), fs)
            &&& r.level == json_level(p.level_names(), fs)
            &&& r.message == match json_message(p.message_names(), fs) {
                Some(m) => m,
                None => line,
            }
            &&& r.fields == fs
        },
        None => {
            &&& r.timestamp is None
            &&& r.level is None
            &&& r.message == line
            &&& r.fields == Seq::<(Seq<char>, FieldValueModel)>::empty()
        },
    }
}

impl Parser for JsonParser {
    open spec fn ready(&self) -> bool {
        true
    }

    fn parse(&self, source: &str, line: &str) -> (r: LogEntry)
        ensures
            json_entry_ok(*self, r@, source@, line@),
    {
        let mut entry = LogEntry::new(copy_str(source), copy_str(line));
        if let Some(fields) = parse_json_object(line) {
            if let Some(ts) = self.extract_timestamp(&fields) {
                entry = entry.with_timestamp(ts);
            }
            if let Some(level) = self.extract_level(&fields) {
                entry = entry.with_level(level);
            }
            if let Some(msg) = self.extract_message(&fields) {
                entry = entry.with_message(msg);
            }
            entry = entry.with_fields(fields);
        }
        entry
    }

    /// "json".
    fn name(&self) -> (r: &str)
        ensures
            r@ == "json"@,
    {
        "json"
    }
}

} // verus!

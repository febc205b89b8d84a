//! The application core, independent of any frontend: the bounded log buffer,
//! ingestion of source events through the parsers and the alert dispatcher,
//! filters, filter presets and the sources' status. Work on sources is
//! returned as [`SourceCommand`]s for the caller to carry out.
use vstd::prelude::*;
use crate::alert::{
    batch_dispatch, batch_firings_after, dispatch, firings_after, patterns_bounded, AlertDispatcher, AlertEvent, AlertFiring,
    AlertRule, duplicate_actions, action_views,
};
use crate::clock::utc_now;
use crate::config::{AlertConfig, AppConfig, HighlightConfig, SourceConfig};
use crate::filter::{FilterEngine, FilterRule};
use crate::models::{LogEntry, LogEntryModel, LogLevel, SourceInfo, SourceType, Timestamp};
use crate::parser::{json_entry_ok, plain_entry_ok, JsonParser, Parser, PlainParser};
use crate::paths::{file_name, path_file_name};
use crate::pattern::{regex_compiles, regex_error_text, CompiledRegex};
use crate::source::{SourceCommand, SourceEvent};
use crate::strmap::StrMap;
use crate::text::{
    contains_char, copy_str, lowercase, sorted_strings, sorted_strs, string_views, to_lowercase,
    trim_end, trim_start,
};
use std::collections::VecDeque;

verus! {

/// The escape character that starts an ANSI sequence.
pub open spec fn escape_char() -> char {
    '\u{1b}'
}

// ---------------------------------------------------------------------------
// Highlights

/// A compiled highlight rule; the color stays as red, green, blue for the
/// frontend to convert.
pub struct HighlightMatcher {
    /// The compiled regex of a regex rule; `None` for a substring rule.
    pub regex: Option<CompiledRegex>,
    /// The pattern in lowercase, for substring rules.
    pub needle_lower: String,
    pub color: [u8; 3],
}

/// Whether a highlight rule compiles: a substring rule always does, a regex
/// rule when the regex crate accepts its pattern.
pub open spec fn highlight_compiles(cfg: HighlightConfig) -> bool {
    !cfg.regex || regex_compiles(cfg.pattern@)
}

/// `m` is the compiled form of `cfg`.
pub open spec fn compiled_from(m: HighlightMatcher, cfg: HighlightConfig) -> bool {
    &&& m.needle_lower@ == lowercase(cfg.pattern@)
    &&& m.color@ == cfg.color@
    &&& match m.regex {
        Some(re) => cfg.regex && re.pattern() == cfg.pattern@,
        None => !cfg.regex,
    }
}

impl HighlightMatcher {
    /// Compiles a highlight rule; `None` when it is a regex rule whose regex
    /// does not compile.
    pub fn compile(cfg: &HighlightConfig) -> (r: Option<HighlightMatcher>)
        ensures
            r is Some <==> highlight_compiles(*cfg),
            r matches Some(m) ==> compiled_from(m, *cfg),
    {
        let regex = if cfg.regex {
            match CompiledRegex::compile(cfg.pattern.as_str()) {
                Ok(re) => Some(re),
                Err(_) => {
                    return None;
                },
            }
        } else {
            None
        };
        Some(
            HighlightMatcher {
                regex,
                needle_lower: to_lowercase(cfg.pattern.as_str()),
                color: cfg.color,
            },
        )
    }
}

/// The highlight rules of `cfgs` that compile, in order.
pub open spec fn compiling_highlights(cfgs: Seq<HighlightConfig>) -> Seq<HighlightConfig>
    decreases cfgs.len(),
{
    if cfgs.len() == 0 {
        seq![]
    } else {
        let rest = compiling_highlights(cfgs.drop_last());
        if highlight_compiles(cfgs.last()) {
            rest.push(cfgs.last())
        } else {
            rest
        }
    }
}

/// Compiles the highlight rules, leaving out those that do not compile.
pub fn compile_highlights(cfgs: &Vec<HighlightConfig>) -> (r: Vec<HighlightMatcher>)
    ensures
        r@.len() == compiling_highlights(cfgs@).len(),
        forall|k: int| 0 <= k < r@.len() ==> compiled_from(#[trigger] r@[k], compiling_highlights(cfgs@)[k]),
{
    let mut r: Vec<HighlightMatcher> = Vec::new();
    let mut i: usize = 0;
    while i < cfgs.len()
        invariant
            i <= cfgs@.len(),
            r@.len() == compiling_highlights(cfgs@.take(i as int)).len(),
            forall|k: int| 0 <= k < r@.len() ==> compiled_from(#[trigger] r@[k], compiling_highlights(cfgs@.take(i as int))[k]),
        decreases cfgs@.len() - i,
    {
        assert(cfgs@.take(i + 1).drop_last() =~= cfgs@.take(i as int));
        if let Some(m) = HighlightMatcher::compile(&cfgs[i]) {
            r.push(m);
        }
        i += 1;
    }
    assert(cfgs@.take(cfgs@.len() as int) =~= cfgs@);
    r
}

// ---------------------------------------------------------------------------
// The log buffer

/// A line held in the log buffer.
pub struct DisplayLine {
    pub entry: LogEntry,
    /// Whether the raw line holds an escape character (ANSI colors).
    pub has_ansi: bool,
    /// The line's number since the buffer was last cleared, from 1.
    pub line_num: usize,
}

impl DisplayLine {
    /// Wraps `entry` as line number `line_num`.
    pub fn from_entry(entry: LogEntry, line_num: usize) -> (r: DisplayLine)
        ensures
            r.entry == entry,
            r.line_num == line_num,
            r.has_ansi == entry.raw@.contains(escape_char()),
    {
        let has_ansi = contains_char(entry.raw.as_str(), '\u{1b}');
        DisplayLine { entry, has_ansi, line_num }
    }
}

/// The smaller of two numbers.
pub open spec fn min_nat(a: nat, b: nat) -> nat {
    if a <= b {
        a
    } else {
        b
    }
}

/// A bounded buffer of the most recent lines.
pub struct LogState {
    lines: VecDeque<DisplayLine>,
    max_lines: usize,
    total_lines_read: usize,
    version: u64,
    /// Every entry added since the buffer was created or last cleared.
    history: Ghost<Seq<LogEntryModel>>,
}

impl LogState {
    /// The lines held, oldest first.
    pub closed spec fn lines(&self) -> Seq<DisplayLine> {
        self.lines@
    }

    /// Every entry added since the buffer was created or last cleared.
    pub closed spec fn history(&self) -> Seq<LogEntryModel> {
        self.history@
    }

    /// The configured bound on the number of lines.
    pub closed spec fn max_lines(&self) -> usize {
        self.max_lines
    }

    /// How many lines the buffer holds at most: the configured bound.
    pub open spec fn capacity(&self) -> nat {
        self.max_lines() as nat
    }

    /// How many times the buffer has changed.
    pub closed spec fn spec_version(&self) -> u64 {
        self.version
    }

    /// The buffer holds the last entries of its history, as many as it can,
    /// numbered by their place in the history.
    pub closed spec fn wf(&self) -> bool {
        let h = self.history@;
        let n = self.lines@.len();
        &&& self.total_lines_read == h.len()
        &&& n == min_nat(h.len(), self.capacity())
        &&& forall|i: int|
            0 <= i < n ==> {
                &&& (#[trigger] self.lines@[i]).entry@ == h[h.len() - n + i]
                &&& self.lines@[i].line_num == h.len() - n + i + 1
                &&& self.lines@[i].has_ansi == self.lines@[i].entry.raw@.contains(escape_char())
            }
    }

    /// An empty buffer bounded by `max_lines`.
    pub fn new(max_lines: usize) -> (r: LogState)
        ensures
            r.wf(),
            r.max_lines() == max_lines,
            r.history() == Seq::<LogEntryModel>::empty(),
            r.lines() == Seq::<DisplayLine>::empty(),
            r.spec_version() == 0,
    {
        LogState {
            lines: VecDeque::new(),
            max_lines,
            total_lines_read: 0,
            version: 0,
            history: Ghost(Seq::empty()),
        }
    }

    /// Adds an entry as the newest line, dropping the oldest line when the
    /// buffer is full; a buffer bounded by 0 keeps no line (the entry still
    /// counts as read).
    pub fn add_entry(&mut self, entry: LogEntry)
        requires
            old(self).wf(),
            old(self).history().len() < usize::MAX,
            old(self).spec_version() < u64::MAX,
        ensures
            final(self).wf(),
            final(self).history() == old(self).history().push(entry@),
            final(self).max_lines() == old(self).max_lines(),
            final(self).spec_version() == old(self).spec_version() + 1,
            old(self).max_lines() == 0 ==> final(self).lines().len() == 0,
            old(self).max_lines() > 0 ==> final(self).lines().last().entry == entry,
            old(self).max_lines() > 0 ==> final(self).lines().last().line_num == final(self).history().len(),
            final(self).lines().len() <= final(self).max_lines(),
            old(self).max_lines() > 0 ==> final(self).lines().drop_last() == (if old(self).lines().len()
                >= old(self).max_lines() {
                old(self).lines().drop_first()
            } else {
                old(self).lines()
            }),
    {
        let ghost old_lines = self.lines@;
        let ghost h = self.history@;
        self.total_lines_read = self.total_lines_read + 1;
        let display_line = DisplayLine::from_entry(entry, self.total_lines_read);
        let ghost entry_v = display_line.entry@;
        if self.max_lines == 0 {
            self.version = self.version + 1;
            self.history = Ghost(h.push(entry_v));
            return;
        }
        if self.lines.len() >= self.max_lines {
            self.lines.pop_front();
        }
        self.lines.push_back(display_line);
        self.version = self.version + 1;
        self.history = Ghost(h.push(entry_v));
        proof {
            let n = self.lines@.len();
            let h2 = self.history@;
            assert(self.lines@.drop_last() =~= (if old_lines.len() >= self.max_lines && old_lines.len() > 0 {
                old_lines.drop_first()
            } else {
                old_lines
            }));
            assert forall|i: int| 0 <= i < n implies {
                &&& (#[trigger] self.lines@[i]).entry@ == h2[h2.len() - n + i]
                &&& self.lines@[i].line_num == h2.len() - n + i + 1
                &&& self.lines@[i].has_ansi == self.lines@[i].entry.raw@.contains(escape_char())
            } by {
                if i < n - 1 {
                    if old_lines.len() >= self.max_lines && old_lines.len() > 0 {
                        assert(self.lines@[i] == old_lines[i + 1]);
                    } else {
                        assert(self.lines@[i] == old_lines[i]);
                    }
                }
            }
        }
    }

    /// Empties the buffer and restarts the line numbers.
    pub fn clear(&mut self)
        requires
            old(self).wf(),
            old(self).spec_version() < u64::MAX,
        ensures
            final(self).wf(),
            final(self).history() == Seq::<LogEntryModel>::empty(),
            final(self).lines() == Seq::<DisplayLine>::empty(),
            final(self).max_lines() == old(self).max_lines(),
            final(self).spec_version() == old(self).spec_version() + 1,
    {
        self.lines.clear();
        self.total_lines_read = 0;
        self.version = self.version + 1;
        self.history = Ghost(Seq::empty());
    }

    /// The number of lines held.
    pub fn line_count(&self) -> (r: usize)
        ensures
            r == self.lines().len(),
    {
        self.lines.len()
    }

    /// The line at position `i`, oldest first.
    pub fn line(&self, i: usize) -> (r: &DisplayLine)
        requires
            i < self.lines().len(),
        ensures
            *r == self.lines()[i as int],
    {
        &self.lines[i]
    }

    /// How many lines were added since the buffer was created or cleared.
    pub fn total_lines_read(&self) -> (r: usize)
        requires
            self.wf(),
        ensures
            r == self.history().len(),
    {
        self.total_lines_read
    }

    /// How many times the buffer has changed.
    pub fn version(&self) -> (r: u64)
        ensures
            r == self.spec_version(),
    {
        self.version
    }
}

/// The buffer keeps the most recent entries: it holds the last
/// min(added, capacity) entries added since it was created or cleared, in
/// order, the newest numbered by how many were added.
pub proof fn lemma_buffer_keeps_latest(s: LogState)
    requires
        s.wf(),
    ensures
        s.lines().len() == min_nat(s.history().len(), s.capacity()),
        forall|i: int|
            0 <= i < s.lines().len() ==> (#[trigger] s.lines()[i]).entry@ == s.history()[s.history().len()
                - s.lines().len() + i] && s.lines()[i].line_num == s.history().len() - s.lines().len() + i
                + 1,
{
}

// ---------------------------------------------------------------------------
// Alerts from the configuration

/// The alert rule made from `cfg`: its pattern as a regex rule.
pub open spec fn rule_from_config(rule: AlertRule, cfg: AlertConfig) -> bool {
    &&& rule.name@ == cfg.name@
    &&& rule.pattern matches FilterRule::Regex { pattern } && pattern@ == cfg.pattern@
    &&& action_views(rule.actions@) == action_views(cfg.actions@)
    &&& rule.cooldown_seconds == cfg.cooldown_seconds
}

/// Converts a configured alert into an alert rule whose pattern is the
/// configured regex.
pub fn convert_alert_config(cfg: &AlertConfig) -> (r: Option<AlertRule>)
    ensures
        r matches Some(rule) && rule_from_config(rule, *cfg),
{
    Some(
        AlertRule {
            name: copy_str(cfg.name.as_str()),
            pattern: FilterRule::Regex { pattern: copy_str(cfg.pattern.as_str()) },
            actions: duplicate_actions(&cfg.actions),
            cooldown_seconds: cfg.cooldown_seconds,
        },
    )
}


// ---------------------------------------------------------------------------
// Source commands

/// The name a local source gets: its file name, or `local` when the path has
/// none.
pub open spec fn local_name(path: Seq<char>) -> Seq<char> {
    match path_file_name(path) {
        Some(n) => n,
        None => "local"@,
    }
}

/// `cmd` opens the local file `path` under its file name.
pub open spec fn opens_local(cmd: SourceCommand, path: Seq<char>) -> bool {
    cmd matches SourceCommand::AddLocal { name, path: p } && name@ == local_name(path) && p@ == path
}

/// `cmd` opens the configured source `cfg` (an SSH source on its configured
/// port, with no password).
pub open spec fn opens_configured(cmd: SourceCommand, cfg: SourceConfig) -> bool {
    match cfg {
        SourceConfig::Local { name, path, .. } => cmd matches SourceCommand::AddLocal {
            name: n,
            path: p,
        } && n@ == name@ && p@ == path@,
        SourceConfig::Ssh { name, host, port, user, path, key_path, .. } => cmd matches SourceCommand::AddSsh {
            name: n,
            host: h,
            user: u,
            path: p,
            port: pt,
            key_path: k,
            password: pw,
        } && n@ == name@ && h@ == host@ && u@ == user@ && p@ == path@ && pt == Some(port)
            && crate::alert::opt_view(k) == crate::alert::opt_view(key_path) && pw is None,
    }
}

/// The configured sources opened on startup, in order: those enabled
/// (`auto_open` plays no part).
pub open spec fn startup_sources(s: Seq<SourceConfig>) -> Seq<SourceConfig>
    decreases s.len(),
{
    if s.len() == 0 {
        seq![]
    } else {
        let rest = startup_sources(s.drop_last());
        if s.last().spec_enabled() {
            rest.push(s.last())
        } else {
            rest
        }
    }
}

/// An optional string copied.
fn copy_opt(s: &Option<String>) -> (r: Option<String>)
    ensures
        crate::alert::opt_view(r) == crate::alert::opt_view(*s),
{
    match s {
        Some(t) => Some(copy_str(t.as_str())),
        None => None,
    }
}

/// The command that opens the local file `path`, named after its file name.
pub fn local_source_command(path: &str) -> (r: SourceCommand)
    ensures
        opens_local(r, path@),
{
    let name = match file_name(path) {
        Some(n) => n,
        None => copy_str("local"),
    };
    SourceCommand::AddLocal { name, path: copy_str(path) }
}

/// The command that opens a configured source.
pub fn source_command_from_config(cfg: &SourceConfig) -> (r: SourceCommand)
    ensures
        opens_configured(r, *cfg),
{
    match cfg {
        SourceConfig::Local { name, path, .. } => SourceCommand::AddLocal {
            name: copy_str(name.as_str()),
            path: copy_str(path.as_str()),
        },
        SourceConfig::Ssh { name, host, port, user, path, key_path, .. } => SourceCommand::AddSsh {
            name: copy_str(name.as_str()),
            host: copy_str(host.as_str()),
            user: copy_str(user.as_str()),
            path: copy_str(path.as_str()),
            port: Some(*port),
            key_path: copy_opt(key_path),
            password: None,
        },
    }
}

/// Whether `line` is read as JSON when JSON parsing is on: trimmed, it
/// starts with `{` and ends with `}`.
pub open spec fn looks_like_json(line: Seq<char>) -> bool {
    crate::text::starts_with_char(trim_start(line), '{') && crate::text::ends_with_char(
        trim_end(line),
        '}',
    )
}

/// Whether `line` is read as JSON when JSON parsing is on.
pub fn is_json_like(line: &str) -> (r: bool)
    ensures
        r == looks_like_json(line@),
{
    let cs = crate::text::chars_of(line);
    let n = cs.len();
    let lo = crate::text::skip_ws(cs.as_slice(), 0);
    let hi = crate::text::skip_ws_back(cs.as_slice(), n);
    assert(cs@.subrange(0, n as int) == cs@);
    lo < n && cs[lo] == '{' && hi > 0 && cs[hi - 1] == '}'
}

/// Whether a level is shown under the visibility toggles (a line without a
/// level always is).
pub open spec fn level_shown(show: Seq<bool>, level: Option<LogLevel>) -> bool {
    match level {
        Some(l) => show[l.rank() as int],
        None => true,
    }
}

/// The most alerts kept for display.
pub const MAX_PENDING_ALERTS: usize = 20;

// ---------------------------------------------------------------------------
// The core

/// The application state behind any frontend.
pub struct AppCore {
    log_state: LogState,
    filter_engine: FilterEngine,
    /// The live filter as typed.
    filter_text: String,
    /// The regex error of the live filter, when it is not a valid regex.
    filter_error: Option<String>,
    /// Visibility of each level, in severity order.
    show_levels: [bool; 6],
    config: AppConfig,
    source_infos: StrMap<SourceInfo>,
    /// The most recent alerts, oldest first.
    pending_alerts: Vec<AlertEvent>,
    alert_dispatcher: AlertDispatcher,
    plain_parser: PlainParser,
    json_parser: JsonParser,
    highlights: Vec<HighlightMatcher>,
    started_empty: bool,
}

impl AppCore {
    /// The log buffer.
    pub closed spec fn spec_log(&self) -> LogState {
        self.log_state
    }

    /// The filter engine.
    pub closed spec fn spec_filters(&self) -> FilterEngine {
        self.filter_engine
    }

    /// The configuration.
    pub closed spec fn spec_config(&self) -> AppConfig {
        self.config
    }

    /// The known sources' status by name.
    pub closed spec fn spec_sources(&self) -> StrMap<SourceInfo> {
        self.source_infos
    }

    /// The alert dispatcher.
    pub closed spec fn spec_alerts(&self) -> AlertDispatcher {
        self.alert_dispatcher
    }

    /// The JSON parser.
    pub closed spec fn spec_json_parser(&self) -> JsonParser {
        self.json_parser
    }

    /// The compiled highlight rules.
    pub closed spec fn spec_highlights(&self) -> Seq<HighlightMatcher> {
        self.highlights@
    }

    /// Whether nothing was opened at startup.
    pub closed spec fn spec_started_empty(&self) -> bool {
        self.started_empty
    }

    /// The live filter as typed.
    pub closed spec fn spec_filter_text(&self) -> Seq<char> {
        self.filter_text@
    }

    /// The regex error of the live filter, if any.
    pub closed spec fn spec_filter_error(&self) -> Option<Seq<char>> {
        crate::alert::opt_view(self.filter_error)
    }

    /// Visibility of each level, in severity order.
    pub closed spec fn spec_show_levels(&self) -> Seq<bool> {
        self.show_levels@
    }

    /// The most recent alerts, oldest first.
    pub closed spec fn spec_pending_alerts(&self) -> Seq<AlertEvent> {
        self.pending_alerts@
    }

    /// The parts of the core are consistent.
    pub closed spec fn wf(&self) -> bool {
        &&& self.log_state.wf()
        &&& self.filter_engine.wf()
        &&& self.filter_engine.rules_bounded()
        &&& self.alert_dispatcher.wf()
        &&& patterns_bounded(self.alert_dispatcher.rules())
        &&& self.plain_parser.wf()
        &&& self.source_infos.wf()
        &&& self.config.filters.wf()
    }

    /// Whether `e` is what the core's parsers make of `line` from `source`:
    /// the JSON parser's entry when JSON parsing is on and the line looks like
    /// JSON, the plain parser's otherwise.
    pub open spec fn parsed(&self, e: LogEntryModel, source: Seq<char>, line: Seq<char>) -> bool {
        if self.spec_config().general.auto_parse_json && looks_like_json(line) {
            json_entry_ok(self.spec_json_parser(), e, source, line)
        } else {
            plain_entry_ok(e, source, line)
        }
    }

    /// The core for `config`, and the commands that open the files given on
    /// the command line and the configured sources marked to open on startup.
    pub fn new(config: AppConfig, initial_files: Vec<String>) -> (r: (AppCore, Vec<SourceCommand>))
        requires
            config.filters.wf(),
        ensures
            r.0.wf(),
            r.0.spec_config() == config,
            r.0.spec_log().max_lines() == config.general.buffer_size,
            r.0.spec_log().history() == Seq::<LogEntryModel>::empty(),
            r.0.spec_log().lines() == Seq::<DisplayLine>::empty(),
            r.0.spec_log().spec_version() == 0,
            r.0.spec_filter_text() == Seq::<char>::empty(),
            r.0.spec_filter_error() is None,
            r.0.spec_show_levels() == seq![true, true, true, true, true, true],
            r.0.spec_filters().inclusions() == Seq::<FilterRule>::empty(),
            r.0.spec_filters().exclusions() == Seq::<FilterRule>::empty(),
            r.0.spec_filters().live() is None,
            r.0.spec_filter_text() == Seq::<char>::empty(),
            r.0.spec_filter_error() is None,
            r.0.spec_show_levels() == seq![true, true, true, true, true, true],
            r.0.spec_pending_alerts().len() == 0,
            r.0.spec_sources().view() == Map::<Seq<char>, SourceInfo>::empty(),
            r.0.spec_json_parser().timestamp_names() == seq![
                "timestamp"@,
                "time"@,
                "ts"@,
                "@timestamp"@,
                "datetime"@,
                "date"@,
            ],
            r.0.spec_json_parser().level_names() == seq!["level"@, "severity"@, "log_level"@, "loglevel"@, "lvl"@],
            r.0.spec_json_parser().message_names() == seq!["message"@, "msg"@, "text"@, "log"@, "body"@],
            r.0.spec_alerts().rules().len() == config.alerts@.len(),
            forall|k: int| 0 <= k < config.alerts@.len() ==> rule_from_config(
                #[trigger] r.0.spec_alerts().rules()[k],
                config.alerts@[k],
            ),
            r.0.spec_alerts().last_fired() == Map::<Seq<char>, u64>::empty(),
            r.0.spec_highlights().len() == compiling_highlights(config.highlights@).len(),
            forall|k: int| 0 <= k < r.0.spec_highlights().len() ==> compiled_from(
                #[trigger] r.0.spec_highlights()[k],
                compiling_highlights(config.highlights@)[k],
            ),
            r.1@.len() == initial_files@.len() + startup_sources(config.sources@).len(),
            forall|k: int| 0 <= k < initial_files@.len() ==> opens_local(#[trigger] r.1@[k], initial_files@[k]@),
            forall|k: int| 0 <= k < startup_sources(config.sources@).len() ==> opens_configured(
                #[trigger] r.1@[initial_files@.len() + k],
                startup_sources(config.sources@)[k],
            ),
            r.0.spec_started_empty() == (initial_files@.len() == 0 && startup_sources(config.sources@).len() == 0),
    {
        let buffer_size = config.general.buffer_size;
        let mut dispatcher = AlertDispatcher::new();
        let mut i: usize = 0;
        while i < config.alerts.len()
            invariant
                i <= config.alerts@.len(),
                dispatcher.wf(),
                dispatcher.rules().len() == i,
                forall|k: int| 0 <= k < i ==> rule_from_config(#[trigger] dispatcher.rules()[k], config.alerts@[k]),
                patterns_bounded(dispatcher.rules()),
                dispatcher.last_fired() == Map::<Seq<char>, u64>::empty(),
            decreases config.alerts@.len() - i,
        {
            match convert_alert_config(&config.alerts[i]) {
                Some(rule) => {
                    dispatcher.add_rule(rule);
                },
                None => {},
            }
            i += 1;
        }
        let highlights = compile_highlights(&config.highlights);
        let mut commands: Vec<SourceCommand> = Vec::new();
        let mut j: usize = 0;
        while j < initial_files.len()
            invariant
                j <= initial_files@.len(),
                commands@.len() == j,
                forall|k: int| 0 <= k < j ==> opens_local(#[trigger] commands@[k], initial_files@[k]@),
            decreases initial_files@.len() - j,
        {
            commands.push(local_source_command(initial_files[j].as_str()));
            j += 1;
        }
        let n_files = initial_files.len();
        let mut opened_config = false;
        let mut m: usize = 0;
        while m < config.sources.len()
            invariant
                m <= config.sources@.len(),
                n_files == initial_files@.len(),
                commands@.len() == n_files + startup_sources(config.sources@.take(m as int)).len(),
                forall|k: int| 0 <= k < n_files ==> opens_local(#[trigger] commands@[k], initial_files@[k]@),
                forall|k: int| 0 <= k < startup_sources(config.sources@.take(m as int)).len() ==> opens_configured(
                    #[trigger] commands@[n_files + k],
                    startup_sources(config.sources@.take(m as int))[k],
                ),
                opened_config == (startup_sources(config.sources@.take(m as int)).len() > 0),
            decreases config.sources@.len() - m,
        {
            assert(config.sources@.take(m + 1).drop_last() =~= config.sources@.take(m as int));
            let sc = &config.sources[m];
            if sc.is_enabled() {
                commands.push(source_command_from_config(sc));
                opened_config = true;
            }
            m += 1;
        }
        assert(config.sources@.take(config.sources@.len() as int) =~= config.sources@);
        let started_empty = n_files == 0 && !opened_config;
        let core = AppCore {
            log_state: LogState::new(buffer_size),
            filter_engine: FilterEngine::new(),
            filter_text: String::new(),
            filter_error: None,
            show_levels: [true; 6],
            config,
            source_infos: StrMap::new(),
            pending_alerts: Vec::new(),
            alert_dispatcher: dispatcher,
            plain_parser: PlainParser::new(),
            json_parser: JsonParser::new(),
            highlights,
            started_empty,
        };
        (core, commands)
    }
}


/// The paths of the local sources among `es`, in order.
pub open spec fn local_paths(es: Seq<(String, SourceInfo)>) -> Seq<Seq<char>>
    decreases es.len(),
{
    if es.len() == 0 {
        seq![]
    } else {
        let rest = local_paths(es.drop_last());
        if es.last().1.source_type == SourceType::Local {
            rest.push(es.last().1.path@)
        } else {
            rest
        }
    }
}

/// The sum of the known sizes among `es`.
pub open spec fn bytes_sum(es: Seq<(String, SourceInfo)>) -> int
    decreases es.len(),
{
    if es.len() == 0 {
        0
    } else {
        bytes_sum(es.drop_last()) + match es.last().1.file_size {
            Some(n) => n as int,
            None => 0,
        }
    }
}

proof fn lemma_bytes_sum_monotone(es: Seq<(String, SourceInfo)>, i: int)
    requires
        0 <= i <= es.len(),
    ensures
        bytes_sum(es.take(i)) <= bytes_sum(es),
    decreases es.len() - i,
{
    if i < es.len() {
        lemma_bytes_sum_monotone(es, i + 1);
        assert(es.take(i + 1).drop_last() =~= es.take(i));
    } else {
        assert(es.take(i) =~= es);
    }
}

/// `rule` is a regex rule with the pattern `p`.
pub open spec fn is_regex_rule(rule: FilterRule, p: Seq<char>) -> bool {
    rule matches FilterRule::Regex { pattern } && pattern@ == p
}

/// How many lines an event brings.
pub open spec fn event_lines(event: SourceEvent) -> nat {
    match event {
        SourceEvent::Line { .. } => 1,
        SourceEvent::Lines { lines, .. } => lines@.len(),
        _ => 0,
    }
}

/// The core's parts other than the log buffer, the alert record and the
/// source table are the same in `a` and `b`.
pub open spec fn same_settings(a: AppCore, b: AppCore) -> bool {
    &&& a.spec_config() == b.spec_config()
    &&& a.spec_filters() == b.spec_filters()
    &&& a.spec_filter_text() == b.spec_filter_text()
    &&& a.spec_filter_error() == b.spec_filter_error()
    &&& a.spec_show_levels() == b.spec_show_levels()
    &&& a.spec_json_parser() == b.spec_json_parser()
    &&& a.spec_alerts().rules() == b.spec_alerts().rules()
    &&& a.spec_highlights() == b.spec_highlights()
    &&& a.spec_pending_alerts() == b.spec_pending_alerts()
}

/// The parts of the core that the interface's keys never change: the
/// configuration, the sources, the alerts, the parsers' settings, the
/// highlights, the startup flag and the pending alerts.
pub open spec fn core_rest_same(a: AppCore, b: AppCore) -> bool {
    &&& a.spec_config() == b.spec_config()
    &&& a.spec_sources() == b.spec_sources()
    &&& a.spec_alerts() == b.spec_alerts()
    &&& a.spec_json_parser() == b.spec_json_parser()
    &&& a.spec_highlights() == b.spec_highlights()
    &&& a.spec_started_empty() == b.spec_started_empty()
    &&& a.spec_pending_alerts() == b.spec_pending_alerts()
}

/// The regex error recorded for the live filter text `t`.
pub open spec fn filter_error_of(t: Seq<char>) -> Option<Seq<char>> {
    if t.len() == 0 {
        None
    } else if regex_compiles(t) {
        None
    } else {
        Some(regex_error_text(t))
    }
}

/// A consistent core has a consistent log buffer, so what
/// [`lemma_buffer_keeps_latest`] says of a buffer holds of the core's.
pub proof fn lemma_core_log_wf(c: AppCore)
    requires
        c.wf(),
    ensures
        c.spec_log().wf(),
{
}

/// There are six level toggles.
pub proof fn lemma_six_levels(c: AppCore)
    ensures
        c.spec_show_levels().len() == 6,
{
}

impl AppCore {
    /// The command that opens the local file `path`, named after its file name.
    pub fn add_local_source(&self, path: &str) -> (r: SourceCommand)
        ensures
            opens_local(r, path@),
    {
        local_source_command(path)
    }

    /// The command that opens a file over SSH.
    pub fn add_ssh_source(
        &self,
        name: String,
        host: String,
        user: String,
        path: String,
        port: Option<u16>,
        key_path: Option<String>,
        password: Option<String>,
    ) -> (r: SourceCommand)
        ensures
            r == (SourceCommand::AddSsh { name, host, user, path, port, key_path, password }),
    {
        SourceCommand::AddSsh { name, host, user, path, port, key_path, password }
    }

    /// Empties the log buffer and gives the command that restarts every known
    /// source, reading each file from the start.
    pub fn reload(&mut self) -> (r: SourceCommand)
        requires
            old(self).wf(),
            old(self).spec_log().spec_version() < u64::MAX,
        ensures
            final(self).wf(),
            final(self).spec_log().history() == Seq::<LogEntryModel>::empty(),
            final(self).spec_log().lines() == Seq::<DisplayLine>::empty(),
            final(self).spec_log().max_lines() == old(self).spec_log().max_lines(),
            final(self).spec_sources() == old(self).spec_sources(),
            final(self).spec_log().spec_version() == old(self).spec_log().spec_version() + 1,
            same_settings(*final(self), *old(self)),
            core_rest_same(*final(self), *old(self)),
            r matches SourceCommand::Reload { names } && string_views(names@) == old(self).spec_sources().key_list(),
    {
        self.log_state.clear();
        let names = self.source_infos.keys();
        SourceCommand::Reload { names }
    }

    /// The paths of the open local sources, for the saved session.
    pub fn open_local_paths(&self) -> (r: Vec<String>)
        ensures
            string_views(r@) == local_paths(self.spec_sources().entries()),
    {
        let mut r: Vec<String> = Vec::new();
        let mut i: usize = 0;
        let n = self.source_infos.entry_count();
        while i < n
            invariant
                n == self.spec_sources().entries().len(),
                i <= n,
                string_views(r@) == local_paths(self.spec_sources().entries().take(i as int)),
            decreases n - i,
        {
            let (_, info) = self.source_infos.entry_at(i);
            assert(self.spec_sources().entries().take(i + 1).drop_last() =~= self.spec_sources().entries().take(i as int));
            if info.source_type == SourceType::Local {
                r.push(copy_str(info.path.as_str()));
            }
            i += 1;
        }
        assert(self.spec_sources().entries().take(n as int) =~= self.spec_sources().entries());
        r
    }

    /// The names of the configured filter presets, sorted.
    pub fn preset_names(&self) -> (r: Vec<String>)
        requires
            self.wf(),
        ensures
            sorted_strs(string_views(r@)),
            string_views(r@).to_multiset() == self.spec_config().filters.key_list().to_multiset(),
    {
        let names = self.config.filters.keys();
        sorted_strings(&names)
    }

    /// Replaces the inclusion and exclusion rules by those of the preset
    /// named `name`: a regex rule for each of its inclusion and exclusion
    /// patterns, then its further rules as inclusion rules. The live filter
    /// stays. `false`, with nothing changed, when there is no such preset.
    #[verifier::loop_isolation(false)]
    pub fn apply_filter_preset(&mut self, name: &str) -> (r: bool)
        requires
            old(self).wf(),
            old(self).spec_config().filters.view().contains_key(name@) ==> crate::filter::all_time_bounded(
                old(self).spec_config().filters.view()[name@].rules@,
            ),
        ensures
            final(self).wf(),
            r == old(self).spec_config().filters.view().contains_key(name@),
            !r ==> final(self).spec_filters() == old(self).spec_filters(),
            final(self).spec_filter_text() == old(self).spec_filter_text(),
            final(self).spec_filter_error() == old(self).spec_filter_error(),
            final(self).spec_log() == old(self).spec_log(),
            final(self).spec_show_levels() == old(self).spec_show_levels(),
            core_rest_same(*final(self), *old(self)),
            r ==> {
                let p = old(self).spec_config().filters.view()[name@];
                let ni = p.inclusions@.len();
                &&& final(self).spec_filters().inclusions().len() == ni + p.rules@.len()
                &&& final(self).spec_filters().exclusions().len() == p.exclusions@.len()
                &&& forall|k: int| 0 <= k < ni ==> is_regex_rule(#[trigger] final(self).spec_filters().inclusions()[k], p.inclusions@[k]@)
                &&& forall|k: int| 0 <= k < p.exclusions@.len() ==> is_regex_rule(#[trigger] final(self).spec_filters().exclusions()[k], p.exclusions@[k]@)
                &&& forall|k: int, e: LogEntryModel, now: Timestamp| 0 <= k < p.rules@.len() ==> #[trigger] final(self).spec_filters().inclusions()[ni + k].spec_matches(e, now) == p.rules@[k].spec_matches(e, now)
                &&& final(self).spec_filters().live() == old(self).spec_filters().live()
            },
            final(self).spec_log() == old(self).spec_log(),
            final(self).spec_config() == old(self).spec_config(),
            final(self).spec_sources() == old(self).spec_sources(),
            final(self).spec_alerts() == old(self).spec_alerts(),
    {
        let preset = match self.config.filters.get(name) {
            Some(p) => p,
            None => {
                return false;
            },
        };
        self.filter_engine.clear_rules();
        let ni = preset.inclusions.len();
        let mut i: usize = 0;
        while i < ni
            invariant
                ni == preset.inclusions@.len(),
                i <= ni,
                self.filter_engine.wf(),
                self.filter_engine.rules_bounded(),
                self.log_state == old(self).log_state,
                self.config == old(self).config,
                self.source_infos == old(self).source_infos,
                self.alert_dispatcher == old(self).alert_dispatcher,
                self.plain_parser == old(self).plain_parser,
                self.filter_text == old(self).filter_text,
                self.filter_error == old(self).filter_error,
                self.show_levels == old(self).show_levels,
                self.json_parser == old(self).json_parser,
                self.highlights == old(self).highlights,
                self.started_empty == old(self).started_empty,
                self.pending_alerts == old(self).pending_alerts,
                self.filter_engine.inclusions().len() == i,
                self.filter_engine.exclusions().len() == 0,
                self.filter_engine.live() == old(self).spec_filters().live(),
                forall|k: int| 0 <= k < i ==> is_regex_rule(#[trigger] self.filter_engine.inclusions()[k], preset.inclusions@[k]@),
            decreases ni - i,
        {
            self.filter_engine.add_include_rule(FilterRule::regex(preset.inclusions[i].as_str()));
            i += 1;
        }
        let mut j: usize = 0;
        while j < preset.exclusions.len()
            invariant
                j <= preset.exclusions@.len(),
                self.filter_engine.wf(),
                self.filter_engine.rules_bounded(),
                self.log_state == old(self).log_state,
                self.config == old(self).config,
                self.source_infos == old(self).source_infos,
                self.alert_dispatcher == old(self).alert_dispatcher,
                self.plain_parser == old(self).plain_parser,
                self.filter_text == old(self).filter_text,
                self.filter_error == old(self).filter_error,
                self.show_levels == old(self).show_levels,
                self.json_parser == old(self).json_parser,
                self.highlights == old(self).highlights,
                self.started_empty == old(self).started_empty,
                self.pending_alerts == old(self).pending_alerts,
                self.filter_engine.inclusions().len() == ni,
                self.filter_engine.exclusions().len() == j,
                self.filter_engine.live() == old(self).spec_filters().live(),
                forall|k: int| 0 <= k < ni ==> is_regex_rule(#[trigger] self.filter_engine.inclusions()[k], preset.inclusions@[k]@),
                forall|k: int| 0 <= k < j ==> is_regex_rule(#[trigger] self.filter_engine.exclusions()[k], preset.exclusions@[k]@),
            decreases preset.exclusions@.len() - j,
        {
            self.filter_engine.add_exclude_rule(FilterRule::regex(preset.exclusions[j].as_str()));
            j += 1;
        }
        let mut m: usize = 0;
        while m < preset.rules.len()
            invariant
                m <= preset.rules@.len(),
                crate::filter::all_time_bounded(preset.rules@),
                self.filter_engine.wf(),
                self.filter_engine.rules_bounded(),
                self.log_state == old(self).log_state,
                self.config == old(self).config,
                self.source_infos == old(self).source_infos,
                self.alert_dispatcher == old(self).alert_dispatcher,
                self.plain_parser == old(self).plain_parser,
                self.filter_text == old(self).filter_text,
                self.filter_error == old(self).filter_error,
                self.show_levels == old(self).show_levels,
                self.json_parser == old(self).json_parser,
                self.highlights == old(self).highlights,
                self.started_empty == old(self).started_empty,
                self.pending_alerts == old(self).pending_alerts,
                self.filter_engine.inclusions().len() == ni + m,
                self.filter_engine.exclusions().len() == preset.exclusions@.len(),
                self.filter_engine.live() == old(self).spec_filters().live(),
                forall|k: int| 0 <= k < ni ==> is_regex_rule(#[trigger] self.filter_engine.inclusions()[k], preset.inclusions@[k]@),
                forall|k: int| 0 <= k < preset.exclusions@.len() ==> is_regex_rule(#[trigger] self.filter_engine.exclusions()[k], preset.exclusions@[k]@),
                forall|k: int, e: LogEntryModel, now: Timestamp| 0 <= k < m ==> #[trigger] self.filter_engine.inclusions()[ni + k].spec_matches(e, now) == preset.rules@[k].spec_matches(e, now),
            decreases preset.rules@.len() - m,
        {
            let rule = preset.rules[m].duplicate();
            assert(preset.rules@[m as int].time_bounded());
            self.filter_engine.add_include_rule(rule);
            proof {
                assert forall|k: int, e: LogEntryModel, now: Timestamp| 0 <= k < m + 1 implies #[trigger] self.filter_engine.inclusions()[ni + k].spec_matches(e, now) == preset.rules@[k].spec_matches(e, now) by {
                    if k == m {
                        assert(rule.spec_matches(e, now) == preset.rules@[k].spec_matches(e, now));
                    }
                }
            }
            m += 1;
        }
        true
    }

    /// Removes the preset's inclusion and exclusion rules.
    pub fn clear_filter_rules(&mut self)
        requires
            old(self).wf(),
        ensures
            final(self).wf(),
            final(self).spec_filters().inclusions() == Seq::<FilterRule>::empty(),
            final(self).spec_filters().exclusions() == Seq::<FilterRule>::empty(),
            final(self).spec_filters().live() == old(self).spec_filters().live(),
            final(self).spec_log() == old(self).spec_log(),
            final(self).spec_config() == old(self).spec_config(),
    {
        self.filter_engine.clear_rules();
    }

    /// Sets the live filter from the typed text (none when it is empty) and
    /// records the regex error of the text, if it is not a valid regex.
    pub fn update_filter(&mut self)
        requires
            old(self).wf(),
        ensures
            final(self).wf(),
            final(self).spec_filter_text() == old(self).spec_filter_text(),
            final(self).spec_filters().live() == (if old(self).spec_filter_text().len() == 0 {
                None
            } else {
                Some(old(self).spec_filter_text())
            }),
            final(self).spec_filters().inclusions() == old(self).spec_filters().inclusions(),
            final(self).spec_filters().exclusions() == old(self).spec_filters().exclusions(),
            final(self).spec_filter_error() == (if old(self).spec_filter_text().len() == 0 {
                None
            } else if regex_compiles(old(self).spec_filter_text()) {
                None
            } else {
                Some(regex_error_text(old(self).spec_filter_text()))
            }),
            final(self).spec_log() == old(self).spec_log(),
            final(self).spec_config() == old(self).spec_config(),
            final(self).spec_show_levels() == old(self).spec_show_levels(),
            core_rest_same(*final(self), *old(self)),
    {
        let text = copy_str(self.filter_text.as_str());
        let empty = text.as_str().is_empty();
        let live = if empty {
            None
        } else {
            Some(text)
        };
        self.filter_engine.set_live_filter(live);
        self.filter_error = if empty {
            None
        } else {
            match CompiledRegex::compile(self.filter_text.as_str()) {
                Ok(_) => None,
                Err(e) => Some(e),
            }
        };
    }

    /// Appends a character to the live filter text and updates the filter.
    pub fn push_filter_char(&mut self, c: char)
        requires
            old(self).wf(),
        ensures
            final(self).wf(),
            final(self).spec_filter_text() == old(self).spec_filter_text().push(c),
            final(self).spec_filters().live() == Some(final(self).spec_filter_text()),
            final(self).spec_filters().inclusions() == old(self).spec_filters().inclusions(),
            final(self).spec_filters().exclusions() == old(self).spec_filters().exclusions(),
            final(self).spec_filter_error() == filter_error_of(final(self).spec_filter_text()),
            final(self).spec_log() == old(self).spec_log(),
            final(self).spec_show_levels() == old(self).spec_show_levels(),
            core_rest_same(*final(self), *old(self)),
    {
        crate::text::push_char(&mut self.filter_text, c);
        self.update_filter();
    }

    /// Removes the last character of the live filter text, if any, and
    /// updates the filter.
    pub fn pop_filter_char(&mut self)
        requires
            old(self).wf(),
        ensures
            final(self).wf(),
            final(self).spec_filter_text() == (if old(self).spec_filter_text().len() == 0 {
                old(self).spec_filter_text()
            } else {
                old(self).spec_filter_text().drop_last()
            }),
            final(self).spec_filters().live() == (if final(self).spec_filter_text().len() == 0 {
                None
            } else {
                Some(final(self).spec_filter_text())
            }),
            final(self).spec_filters().inclusions() == old(self).spec_filters().inclusions(),
            final(self).spec_filters().exclusions() == old(self).spec_filters().exclusions(),
            final(self).spec_filter_error() == filter_error_of(final(self).spec_filter_text()),
            final(self).spec_log() == old(self).spec_log(),
            final(self).spec_show_levels() == old(self).spec_show_levels(),
            core_rest_same(*final(self), *old(self)),
    {
        crate::text::pop_char(&mut self.filter_text);
        self.update_filter();
    }

    /// Flips the visibility of the level at position `idx`.
    pub fn toggle_level(&mut self, idx: usize)
        requires
            idx < 6,
        ensures
            final(self).spec_show_levels() == old(self).spec_show_levels().update(
                idx as int,
                !old(self).spec_show_levels()[idx as int],
            ),
            final(self).spec_log() == old(self).spec_log(),
            final(self).spec_filters() == old(self).spec_filters(),
            final(self).spec_filter_text() == old(self).spec_filter_text(),
            final(self).spec_config() == old(self).spec_config(),
            final(self).spec_sources() == old(self).spec_sources(),
            final(self).spec_filter_error() == old(self).spec_filter_error(),
            core_rest_same(*final(self), *old(self)),
            final(self).wf() == old(self).wf(),
    {
        let v = !self.show_levels[idx];
        self.show_levels[idx] = v;
    }

    /// Empties the log buffer.
    pub fn clear_log(&mut self)
        requires
            old(self).wf(),
            old(self).spec_log().spec_version() < u64::MAX,
        ensures
            final(self).wf(),
            final(self).spec_log().history() == Seq::<LogEntryModel>::empty(),
            final(self).spec_log().lines() == Seq::<DisplayLine>::empty(),
            final(self).spec_log().max_lines() == old(self).spec_log().max_lines(),
            final(self).spec_sources() == old(self).spec_sources(),
            final(self).spec_log().spec_version() == old(self).spec_log().spec_version() + 1,
            same_settings(*final(self), *old(self)),
            core_rest_same(*final(self), *old(self)),
    {
        self.log_state.clear();
    }

    /// Parses one line from `source`, checks it against the alert rules at
    /// wall time `now` and monotonic time `mono`, and adds it to the buffer;
    /// returns the alerts that fired.
    pub fn ingest_line(&mut self, source: &str, line: String, now: Timestamp, mono: u64) -> (r: Vec<
        AlertFiring,
    >)
        requires
            old(self).wf(),
            old(self).spec_log().history().len() < usize::MAX,
            old(self).spec_log().spec_version() < u64::MAX,
        ensures
            final(self).wf(),
            same_settings(*final(self), *old(self)),
            final(self).spec_sources() == old(self).spec_sources(),
            final(self).spec_log().max_lines() == old(self).spec_log().max_lines(),
            final(self).spec_log().spec_version() == old(self).spec_log().spec_version() + 1,
            final(self).spec_log().history().len() == old(self).spec_log().history().len() + 1,
            final(self).spec_log().history().drop_last() == old(self).spec_log().history(),
            old(self).parsed(final(self).spec_log().history().last(), source@, line@),
            final(self).spec_log().max_lines() == 0 ==> final(self).spec_log().lines().len() == 0,
            final(self).spec_log().max_lines() > 0 ==> final(self).spec_log().lines().last().entry@
                == final(self).spec_log().history().last(),
            final(self).spec_log().max_lines() > 0 ==> final(self).spec_log().lines().last().line_num
                == final(self).spec_log().history().len(),
            final(self).spec_log().max_lines() > 0 ==> final(self).spec_log().lines().drop_last() == (if old(
                self,
            ).spec_log().lines().len() >= old(self).spec_log().max_lines() {
                old(self).spec_log().lines().drop_first()
            } else {
                old(self).spec_log().lines()
            }),
            firings_after(
                r@,
                old(self).spec_alerts().rules(),
                old(self).spec_alerts().rules().len(),
                final(self).spec_log().history().last(),
                now,
                mono,
                old(self).spec_alerts().last_fired(),
                final(self).spec_alerts().last_fired(),
            ),
    {
        let entry = if self.config.general.auto_parse_json && is_json_like(line.as_str()) {
            self.json_parser.parse(source, line.as_str())
        } else {
            self.plain_parser.parse(source, line.as_str())
        };
        let firings = self.alert_dispatcher.check_and_alert_at(&entry, now, mono);
        self.log_state.add_entry(entry);
        firings
    }

    /// Takes in one event from a source, with the alerts checked at the
    /// current wall time (read once) and monotonic time `mono`: lines are
    /// parsed, checked and buffered in order, a status replaces the source's
    /// entry, an error changes nothing. Returns whether anything changed, and
    /// the alerts that fired.
    pub fn ingest(&mut self, event: SourceEvent, mono: u64) -> (r: (bool, Vec<AlertFiring>))
        requires
            old(self).wf(),
            old(self).spec_log().history().len() + event_lines(event) <= usize::MAX,
            old(self).spec_log().spec_version() + event_lines(event) <= u64::MAX,
        ensures
            final(self).wf(),
            same_settings(*final(self), *old(self)),
            final(self).spec_log().max_lines() == old(self).spec_log().max_lines(),
            r.0 == !(event is Error),
            final(self).spec_log().history().len() == old(self).spec_log().history().len() + event_lines(event),
            final(self).spec_log().history().take(old(self).spec_log().history().len() as int) == old(self).spec_log().history(),
            forall|k: int| 0 <= k < r.1@.len() ==> (#[trigger] r.1@[k]).rule_index < old(self).spec_alerts().rules().len(),
            match event {
                SourceEvent::Line { source, line } => {
                    &&& old(self).parsed(final(self).spec_log().history().last(), source@, line@)
                    &&& final(self).spec_sources() == old(self).spec_sources()
                    &&& exists|now: Timestamp| #[trigger] firings_after(
                        r.1@,
                        old(self).spec_alerts().rules(),
                        old(self).spec_alerts().rules().len(),
                        final(self).spec_log().history().last(),
                        now,
                        mono,
                        old(self).spec_alerts().last_fired(),
                        final(self).spec_alerts().last_fired(),
                    )
                },
                SourceEvent::Lines { source, lines } => {
                    &&& forall|k: int| 0 <= k < lines@.len() ==> old(self).parsed(
                        #[trigger] final(self).spec_log().history()[old(self).spec_log().history().len() + k],
                        source@,
                        lines@[k]@,
                    )
                    &&& final(self).spec_sources() == old(self).spec_sources()
                    &&& exists|now: Timestamp| #[trigger] batch_firings_after(
                        r.1@,
                        old(self).spec_alerts().rules(),
                        final(self).spec_log().history().skip(old(self).spec_log().history().len() as int),
                        now,
                        mono,
                        old(self).spec_alerts().last_fired(),
                        final(self).spec_alerts().last_fired(),
                    )
                },
                SourceEvent::StatusChange { source, info } => {
                    &&& final(self).spec_log() == old(self).spec_log()
                    &&& final(self).spec_sources().view() == old(self).spec_sources().view().insert(source@, info)
                    &&& final(self).spec_alerts().last_fired() == old(self).spec_alerts().last_fired()
                },
                SourceEvent::Error { .. } => {
                    &&& final(self).spec_log() == old(self).spec_log()
                    &&& final(self).spec_sources() == old(self).spec_sources()
                    &&& final(self).spec_alerts().last_fired() == old(self).spec_alerts().last_fired()
                },
            },
    {
        let now = utc_now();
        match event {
            SourceEvent::Line { source, line } => {
                let firings = self.ingest_line(source.as_str(), line, now, mono);
                proof {
                    crate::alert::lemma_dispatch_positions(
                        old(self).spec_alerts().rules(),
                        old(self).spec_alerts().rules().len(),
                        self.log_state.history().last(),
                        now,
                        mono,
                        old(self).spec_alerts().last_fired(),
                    );
                    assert(firings_after(
                        firings@,
                        old(self).spec_alerts().rules(),
                        old(self).spec_alerts().rules().len(),
                        self.log_state.history().last(),
                        now,
                        mono,
                        old(self).spec_alerts().last_fired(),
                        self.alert_dispatcher.last_fired(),
                    ));
                }
                (true, firings)
            },
            SourceEvent::Lines { source, lines } => {
                let mut all: Vec<AlertFiring> = Vec::new();
                let ghost h0 = self.log_state.history();
                let mut i: usize = 0;
                while i < lines.len()
                    invariant
                        self.wf(),
                        i <= lines@.len(),
                        same_settings(*self, *old(self)),
                        self.spec_sources() == old(self).spec_sources(),
                        self.spec_log().max_lines() == old(self).spec_log().max_lines(),
                        h0 == old(self).spec_log().history(),
                        h0.len() + lines@.len() <= usize::MAX,
                        old(self).spec_log().spec_version() + lines@.len() <= u64::MAX,
                        self.spec_log().spec_version() == old(self).spec_log().spec_version() + i,
                        self.spec_log().history().len() == h0.len() + i,
                        self.spec_log().history().take(h0.len() as int) == h0,
                        forall|k: int| 0 <= k < i ==> old(self).parsed(
                            #[trigger] self.spec_log().history()[h0.len() + k],
                            source@,
                            lines@[k]@,
                        ),
                        forall|k: int| 0 <= k < all@.len() ==> (#[trigger] all@[k]).rule_index < old(self).spec_alerts().rules().len(),
                        patterns_bounded(old(self).spec_alerts().rules()),
                        batch_firings_after(
                            all@,
                            old(self).spec_alerts().rules(),
                            self.spec_log().history().skip(h0.len() as int),
                            now,
                            mono,
                            old(self).spec_alerts().last_fired(),
                            self.spec_alerts().last_fired(),
                        ),
                    decreases lines@.len() - i,
                {
                    let ghost before = self.log_state.history();
                    let ghost old_fired = self.alert_dispatcher.last_fired();
                    let line = copy_str(lines[i].as_str());
                    let mut got = self.ingest_line(source.as_str(), line, now, mono);
                    let ghost got_before = got@;
                    proof {
                        let after = self.log_state.history();
                        assert(after.drop_last() == before);
                        assert(after.take(h0.len() as int) =~= before.take(h0.len() as int));
                        assert forall|k: int| 0 <= k < i + 1 implies old(self).parsed(
                            #[trigger] after[h0.len() + k],
                            source@,
                            lines@[k]@,
                        ) by {
                            if k < i {
                                assert(after[h0.len() + k] == before[h0.len() + k]);
                            }
                        }
                        crate::alert::lemma_dispatch_positions(
                            old(self).spec_alerts().rules(),
                            old(self).spec_alerts().rules().len(),
                            after.last(),
                            now,
                            mono,
                            old_fired,
                        );
                    }
                    let ghost all0 = all@;
                    all.append(&mut got);
                    proof {
                        let rules = old(self).spec_alerts().rules();
                        let after = self.log_state.history();
                        let es0 = before.skip(h0.len() as int);
                        let es1 = after.skip(h0.len() as int);
                        assert(es1.drop_last() =~= es0);
                        assert(es1.last() == after.last());
                        let b0 = batch_dispatch(rules, es0, now, mono, old(self).spec_alerts().last_fired());
                        let d = dispatch(rules, rules.len(), after.last(), now, mono, b0.1);
                        let b1 = batch_dispatch(rules, es1, now, mono, old(self).spec_alerts().last_fired());
                        assert(b1.0 == b0.0 + d.0.map_values(|q: int| (q, after.last())));
                        assert forall|j: int| 0 <= j < all@.len() implies {
                            &&& (#[trigger] all@[j]).rule_index == b1.0[j].0
                            &&& all@[j].event.entry@ == b1.0[j].1
                            &&& all@[j].event.rule_name@ == rules[b1.0[j].0].name@
                        } by {
                            if j >= all0.len() {
                                assert(all@[j] == got_before[j - all0.len()]);
                                assert(b1.0[j] == (d.0[j - all0.len()], after.last()));
                            } else {
                                assert(all@[j] == all0[j]);
                                assert(b1.0[j] == b0.0[j]);
                            }
                        }
                        assert forall|k: int| 0 <= k < all@.len() implies (#[trigger] all@[k]).rule_index < old(self).spec_alerts().rules().len() by {
                            if k >= all0.len() {
                                assert(all@[k] == got_before[k - all0.len()]);
                            }
                        }
                    }
                    i += 1;
                }
                proof {
                    assert(self.log_state.history().take(h0.len() as int) == h0);
                    assert(batch_firings_after(
                        all@,
                        old(self).spec_alerts().rules(),
                        self.spec_log().history().skip(h0.len() as int),
                        now,
                        mono,
                        old(self).spec_alerts().last_fired(),
                        self.spec_alerts().last_fired(),
                    ));
                }
                (true, all)
            },
            SourceEvent::StatusChange { source, info } => {
                self.source_infos.insert(source, info);
                (true, Vec::new())
            },
            SourceEvent::Error { .. } => (false, Vec::new()),
        }
    }

    /// Whether entry `e` is shown at time `now`: its level is toggled on and
    /// the filter engine accepts it.
    pub open spec fn spec_passes(&self, e: LogEntryModel, now: Timestamp) -> bool {
        level_shown(self.spec_show_levels(), e.level) && self.spec_filters().spec_matches(e, now)
    }

    /// Whether `line` passes the level toggles and the filter engine at time
    /// `now`.
    pub fn passes_filter_at(&self, line: &DisplayLine, now: Timestamp) -> (r: bool)
        requires
            self.wf(),
        ensures
            r == self.spec_passes(line.entry@, now),
    {
        let level_ok = match &line.entry.level {
            Some(level) => self.show_levels[level.index()],
            None => true,
        };
        level_ok && self.filter_engine.matches_at(&line.entry, now)
    }

    /// Whether `line` passes the level toggles and the filter engine now (the
    /// clock is read once).
    pub fn passes_filter(&self, line: &DisplayLine) -> (r: bool)
        requires
            self.wf(),
        ensures
            exists|now: Timestamp| r == #[trigger] self.spec_passes(line.entry@, now),
    {
        let now = utc_now();
        let r = self.passes_filter_at(line, now);
        assert(r == self.spec_passes(line.entry@, now));
        r
    }

    /// The bytes reported by all sources together; `None` when the sum does
    /// not fit in 64 bits.
    pub fn total_bytes(&self) -> (r: Option<u64>)
        ensures
            match r {
                Some(n) => n == bytes_sum(self.spec_sources().entries()),
                None => bytes_sum(self.spec_sources().entries()) > u64::MAX,
            },
    {
        let n = self.source_infos.entry_count();
        let mut total: u64 = 0;
        let mut i: usize = 0;
        while i < n
            invariant
                n == self.spec_sources().entries().len(),
                i <= n,
                total == bytes_sum(self.spec_sources().entries().take(i as int)),
            decreases n - i,
        {
            let (_, info) = self.source_infos.entry_at(i);
            assert(self.spec_sources().entries().take(i + 1).drop_last() =~= self.spec_sources().entries().take(i as int));
            if let Some(size) = info.file_size {
                match total.checked_add(size) {
                    Some(t) => {
                        total = t;
                    },
                    None => {
                        proof {
                            lemma_bytes_sum_monotone(self.spec_sources().entries(), i + 1);
                        }
                        return None;
                    },
                }
            }
            i += 1;
        }
        assert(self.spec_sources().entries().take(n as int) =~= self.spec_sources().entries());
        Some(total)
    }

    /// Records an alert for display, keeping only the 20 most recent.
    pub fn push_alert(&mut self, alert: AlertEvent)
        ensures
            final(self).spec_pending_alerts() == (if old(self).spec_pending_alerts().len() + 1 > MAX_PENDING_ALERTS {
                old(self).spec_pending_alerts().push(alert).drop_first()
            } else {
                old(self).spec_pending_alerts().push(alert)
            }),
            old(self).spec_pending_alerts().len() <= MAX_PENDING_ALERTS ==> final(self).spec_pending_alerts().len() <= MAX_PENDING_ALERTS,
            final(self).spec_log() == old(self).spec_log(),
            final(self).spec_filters() == old(self).spec_filters(),
            final(self).spec_config() == old(self).spec_config(),
            final(self).spec_sources() == old(self).spec_sources(),
            final(self).spec_show_levels() == old(self).spec_show_levels(),
            final(self).wf() == old(self).wf(),
    {
        self.pending_alerts.push(alert);
        if self.pending_alerts.len() > MAX_PENDING_ALERTS {
            self.pending_alerts.remove(0);
        }
    }
}


impl AppCore {
    /// The log buffer.
    pub fn log_state(&self) -> (r: &LogState)
        ensures
            *r == self.spec_log(),
    {
        &self.log_state
    }

    /// The configuration.
    pub fn config(&self) -> (r: &AppConfig)
        ensures
            *r == self.spec_config(),
    {
        &self.config
    }

    /// The known sources' status by name.
    pub fn source_infos(&self) -> (r: &StrMap<SourceInfo>)
        ensures
            *r == self.spec_sources(),
    {
        &self.source_infos
    }

    /// The number of known sources.
    pub fn source_count(&self) -> (r: usize)
        requires
            self.wf(),
        ensures
            r == self.spec_sources().view().dom().len(),
    {
        self.source_infos.len()
    }

    /// The alert dispatcher (its rules give the actions of each firing).
    pub fn alert_dispatcher(&self) -> (r: &AlertDispatcher)
        ensures
            *r == self.spec_alerts(),
    {
        &self.alert_dispatcher
    }

    /// The compiled highlight rules.
    pub fn highlights(&self) -> (r: &Vec<HighlightMatcher>)
        ensures
            r@ == self.spec_highlights(),
    {
        &self.highlights
    }

    /// Whether nothing was opened at startup (so a saved session may be
    /// restored).
    pub fn started_empty(&self) -> (r: bool)
        ensures
            r == self.spec_started_empty(),
    {
        self.started_empty
    }

    /// The live filter as typed.
    pub fn filter_text(&self) -> (r: &str)
        ensures
            r@ == self.spec_filter_text(),
    {
        self.filter_text.as_str()
    }

    /// The regex error of the live filter, if any.
    pub fn filter_error(&self) -> (r: Option<&str>)
        ensures
            match r {
                Some(e) => self.spec_filter_error() == Some(e@),
                None => self.spec_filter_error() is None,
            },
    {
        match &self.filter_error {
            Some(e) => Some(e.as_str()),
            None => None,
        }
    }

    /// Visibility of each level, in severity order.
    pub fn show_levels(&self) -> (r: [bool; 6])
        ensures
            r@ == self.spec_show_levels(),
    {
        self.show_levels
    }

    /// The most recent alerts, oldest first.
    pub fn pending_alerts(&self) -> (r: &Vec<AlertEvent>)
        ensures
            r@ == self.spec_pending_alerts(),
    {
        &self.pending_alerts
    }
}

} // verus!

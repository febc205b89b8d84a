//! Filter rules over log entries and the engine that combines inclusion rules,
//! exclusion rules and the live text filter.
use vstd::prelude::*;
use crate::clock::utc_now;
use crate::models::{LogEntry, LogEntryModel, LogLevel, Timestamp, field_lookup};
use crate::pattern::{CompiledRegex, regex_compiles, regex_error_text, regex_is_match};
use crate::text::{concat, contains, contains_str, copy_str, decimal, lowercase, to_lowercase, u64_to_string};
use vstd::string::StringExecFns;

verus! {

/// The longest regex pattern accepted, in bytes.
pub const MAX_REGEX_PATTERN_LEN: usize = 1000;

/// The largest look-back a time-range rule may ask for, in minutes: the
/// span from chrono's earliest date (1 January 262143 BCE) to the Unix
/// epoch. Subtracting more from the current time (which the clock gives
/// from 1970 on) can leave chrono's range, where the subtraction panics.
pub const MAX_TIME_RANGE_MINUTES: u64 = 138910021920;

/// Length in bytes of the UTF-8 encoding of `s`.
pub open spec fn byte_len(s: Seq<char>) -> nat {
    vstd::utf8::encode_utf8(s).len()
}

/// Whether `safe_regex_compile` accepts `pattern`: at most 1000 bytes, and
/// accepted by the regex compiler.
pub open spec fn safe_compiles(pattern: Seq<char>) -> bool {
    byte_len(pattern) <= MAX_REGEX_PATTERN_LEN && regex_compiles(pattern)
}

/// The error text `safe_regex_compile` returns for a rejected pattern.
pub open spec fn safe_compile_error(pattern: Seq<char>) -> Seq<char> {
    if byte_len(pattern) > MAX_REGEX_PATTERN_LEN {
        "Regex pattern too long ("@ + decimal(byte_len(pattern)) + " > 1000 chars)"@
    } else {
        "Invalid regex: "@ + regex_error_text(pattern)
    }
}

/// Compiles a regex after checking its length, to bound the work a pattern
/// from a user or a config file can cause.
pub fn safe_regex_compile(pattern: &str) -> (r: Result<CompiledRegex, String>)
    ensures
        r is Ok <==> safe_compiles(pattern@),
        r matches Ok(c) ==> c.pattern() == pattern@,
        r matches Err(e) ==> e@ == safe_compile_error(pattern@),
{
    let len = pattern.as_bytes().len();
    if len > MAX_REGEX_PATTERN_LEN {
        let mut msg = String::from_str("Regex pattern too long (");
        let n = u64_to_string(len as u64);
        msg.append(n.as_str());
        msg.append(" > 1000 chars)");
        return Err(msg);
    }
    match CompiledRegex::compile(pattern) {
        Ok(c) => Ok(c),
        Err(e) => Err(concat("Invalid regex: ", e.as_str())),
    }
}

/// A rule that decides whether a log entry is wanted.
pub enum FilterRule {
    /// The line or its message contains `pattern` (compared in lowercase
    /// unless `case_sensitive`).
    Contains { pattern: String, case_sensitive: bool },
    /// The regex `pattern` matches the line or its message.
    Regex { pattern: String },
    /// The entry's level is `level` (or at least `level` when `min`).
    Level { level: LogLevel, min: bool },
    /// The JSON field `name` matches the regex `pattern` (or contains it, when
    /// `pattern` is not a valid regex).
    Field { name: String, pattern: String },
    /// The entry's source name contains `name`.
    Source { name: String },
    /// All of the rules match.
    And { rules: Vec<FilterRule> },
    /// At least one of the rules matches.
    Or { rules: Vec<FilterRule> },
    /// The rule does not match.
    Not { rule: Box<FilterRule> },
    /// The entry's timestamp lies within the last `minutes` minutes.
    TimeRange { minutes: u64 },
}

/// `ts` lies after the instant `minutes` minutes before `now`.
pub open spec fn within_minutes(ts: Timestamp, now: Timestamp, minutes: nat) -> bool {
    let cutoff = now.secs - 60 * minutes;
    ts.secs > cutoff || (ts.secs == cutoff && ts.nanos > now.nanos)
}

/// Whether `needle` occurs in `hay` with both compared in lowercase.
pub open spec fn contains_lower(hay: Seq<char>, needle: Seq<char>) -> bool {
    contains(lowercase(hay), lowercase(needle))
}

/// Whether the (already lowercased) `needle` occurs in the lowercase of `hay`.
fn lower_contains(hay: &str, needle_lower: &str) -> (r: bool)
    ensures
        r == contains(lowercase(hay@), needle_lower@),
{
    let h = to_lowercase(hay);
    contains_str(h.as_str(), needle_lower)
}

impl FilterRule {
    /// Whether the rule accepts entry `e` when the current time is `now`.
    pub open spec fn spec_matches(&self, e: LogEntryModel, now: Timestamp) -> bool
        decreases self,
    {
        match self {
            FilterRule::Contains { pattern, case_sensitive } => if *case_sensitive {
                contains(e.raw, pattern@) || contains(e.message, pattern@)
            } else {
                contains_lower(e.raw, pattern@) || contains_lower(e.message, pattern@)
            },
            FilterRule::Regex { pattern } => safe_compiles(pattern@) && (regex_is_match(
                pattern@,
                e.raw,
            ) || regex_is_match(pattern@, e.message)),
            FilterRule::Level { level, min } => match e.level {
                Some(l) => if *min {
                    l.rank() >= level.rank()
                } else {
                    l == *level
                },
                None => false,
            },
            FilterRule::Field { name, pattern } => match field_lookup(e.fields, name@) {
                Some(v) => if safe_compiles(pattern@) {
                    regex_is_match(pattern@, v.text())
                } else {
                    contains(v.text(), pattern@)
                },
                None => false,
            },
            FilterRule::Source { name } => e.source == name@ || contains(e.source, name@),
            FilterRule::And { rules } => forall|i: int|
                0 <= i < rules@.len() ==> (#[trigger] rules@[i]).spec_matches(e, now),
            FilterRule::Or { rules } => exists|i: int|
                0 <= i < rules@.len() && (#[trigger] rules@[i]).spec_matches(e, now),
            FilterRule::Not { rule } => !rule.spec_matches(e, now),
            FilterRule::TimeRange { minutes } => match e.timestamp {
                Some(ts) => within_minutes(ts, now, *minutes as nat),
                None => false,
            },
        }
    }

    /// Every time range in the rule looks back at most `MAX_TIME_RANGE_MINUTES`.
    pub open spec fn time_bounded(&self) -> bool
        decreases self,
    {
        match self {
            FilterRule::And { rules } => forall|i: int|
                0 <= i < rules@.len() ==> (#[trigger] rules@[i]).time_bounded(),
            FilterRule::Or { rules } => forall|i: int|
                0 <= i < rules@.len() ==> (#[trigger] rules@[i]).time_bounded(),
            FilterRule::Not { rule } => rule.time_bounded(),
            FilterRule::TimeRange { minutes } => *minutes <= MAX_TIME_RANGE_MINUTES,
            _ => true,
        }
    }

    /// A rule matching lines that contain `pattern`, ignoring case.
    pub fn contains(pattern: &str) -> (r: FilterRule)
        ensures
            r matches FilterRule::Contains { pattern: p, case_sensitive: false } && p@ == pattern@,
            r.time_bounded(),
    {
        FilterRule::Contains { pattern: copy_str(pattern), case_sensitive: false }
    }

    /// A rule matching lines where the regex `pattern` matches.
    pub fn regex(pattern: &str) -> (r: FilterRule)
        ensures
            r matches FilterRule::Regex { pattern: p } && p@ == pattern@,
            r.time_bounded(),
    {
        FilterRule::Regex { pattern: copy_str(pattern) }
    }

    /// A rule matching entries at least as severe as `level`.
    pub fn min_level(level: LogLevel) -> (r: FilterRule)
        ensures
            r == (FilterRule::Level { level, min: true }),
            r.time_bounded(),
    {
        FilterRule::Level { level, min: true }
    }

    /// A rule matching entries whose JSON field `name` matches `pattern`.
    pub fn field(name: &str, pattern: &str) -> (r: FilterRule)
        ensures
            r matches FilterRule::Field { name: n, pattern: p } && n@ == name@ && p@ == pattern@,
            r.time_bounded(),
    {
        FilterRule::Field { name: copy_str(name), pattern: copy_str(pattern) }
    }

    /// A rule matching entries from the last `minutes` minutes.
    pub fn time_range(minutes: u64) -> (r: FilterRule)
        ensures
            r == (FilterRule::TimeRange { minutes }),
    {
        FilterRule::TimeRange { minutes }
    }

    /// Whether every time range in the rule is within the supported look-back.
    #[verifier::loop_isolation(false)]
    pub fn is_time_bounded(&self) -> (r: bool)
        ensures
            r == self.time_bounded(),
        decreases self,
    {
        match self {
            FilterRule::And { rules } | FilterRule::Or { rules } => {
                let mut i: usize = 0;
                while i < rules.len()
                    invariant
                        i <= rules@.len(),
                        forall|k: int| 0 <= k < i ==> (#[trigger] rules@[k]).time_bounded(),
                    decreases rules@.len() - i,
                {
                    if !rules[i].is_time_bounded() {
                        return false;
                    }
                    i += 1;
                }
                true
            },
            FilterRule::Not { rule } => rule.is_time_bounded(),
            FilterRule::TimeRange { minutes } => *minutes <= MAX_TIME_RANGE_MINUTES,
            _ => true,
        }
    }

    /// Whether the rule accepts `entry` when the current time is `now`.
    #[verifier::loop_isolation(false)]
    pub fn matches_at(&self, entry: &LogEntry, now: Timestamp) -> (r: bool)
        requires
            self.time_bounded(),
        ensures
            r == self.spec_matches(entry@, now),
        decreases self,
    {
        match self {
            FilterRule::Contains { pattern, case_sensitive } => {
                if *case_sensitive {
                    contains_str(entry.raw.as_str(), pattern.as_str()) || contains_str(
                        entry.message.as_str(),
                        pattern.as_str(),
                    )
                } else {
                    let pattern_lower = to_lowercase(pattern.as_str());
                    lower_contains(entry.raw.as_str(), pattern_lower.as_str()) || lower_contains(
                        entry.message.as_str(),
                        pattern_lower.as_str(),
                    )
                }
            },
            FilterRule::Regex { pattern } => match safe_regex_compile(pattern.as_str()) {
                Ok(re) => re.is_match(entry.raw.as_str()) || re.is_match(entry.message.as_str()),
                Err(_) => false,
            },
            FilterRule::Level { level, min } => match &entry.level {
                Some(entry_level) => if *min {
                    entry_level.is_at_least(level)
                } else {
                    *entry_level == *level
                },
                None => false,
            },
            FilterRule::Field { name, pattern } => match entry.field_text(name.as_str()) {
                Some(value_str) => match safe_regex_compile(pattern.as_str()) {
                    Ok(re) => re.is_match(value_str.as_str()),
                    Err(_) => contains_str(value_str.as_str(), pattern.as_str()),
                },
                None => false,
            },
            FilterRule::Source { name } => {
                crate::text::str_eq(entry.source.as_str(), name.as_str()) || contains_str(
                    entry.source.as_str(),
                    name.as_str(),
                )
            },
            FilterRule::And { rules } => {
                let mut i: usize = 0;
                while i < rules.len()
                    invariant
                        i <= rules@.len(),
                        forall|k: int| 0 <= k < rules@.len() ==> (#[trigger] rules@[k]).time_bounded(),
                        forall|k: int| 0 <= k < i ==> (#[trigger] rules@[k]).spec_matches(entry@, now),
                    decreases rules@.len() - i,
                {
                    if !rules[i].matches_at(entry, now) {
                        return false;
                    }
                    i += 1;
                }
                true
            },
            FilterRule::Or { rules } => {
                let mut i: usize = 0;
                while i < rules.len()
                    invariant
                        i <= rules@.len(),
                        forall|k: int| 0 <= k < rules@.len() ==> (#[trigger] rules@[k]).time_bounded(),
                        forall|k: int| 0 <= k < i ==> !(#[trigger] rules@[k]).spec_matches(entry@, now),
                    decreases rules@.len() - i,
                {
                    if rules[i].matches_at(entry, now) {
                        return true;
                    }
                    i += 1;
                }
                false
            },
            FilterRule::Not { rule } => !rule.matches_at(entry, now),
            FilterRule::TimeRange { minutes } => match &entry.timestamp {
                Some(ts) => {
                    let cutoff: i128 = now.secs as i128 - (*minutes as i128) * 60;
                    (ts.secs as i128) > cutoff || ((ts.secs as i128) == cutoff && ts.nanos > now.nanos)
                },
                None => false,
            },
        }
    }

    /// A copy of the rule, which accepts exactly the entries the rule accepts.
    pub fn duplicate(&self) -> (r: FilterRule)
        ensures
            forall|e: LogEntryModel, now: Timestamp| #[trigger] r.spec_matches(e, now)
                == self.spec_matches(e, now),
            r.time_bounded() == self.time_bounded(),
            r.spec_pattern() == self.spec_pattern(),
        decreases self,
    {
        match self {
            FilterRule::Contains { pattern, case_sensitive } => FilterRule::Contains {
                pattern: copy_str(pattern.as_str()),
                case_sensitive: *case_sensitive,
            },
            FilterRule::Regex { pattern } => FilterRule::Regex { pattern: copy_str(pattern.as_str()) },
            FilterRule::Level { level, min } => FilterRule::Level { level: *level, min: *min },
            FilterRule::Field { name, pattern } => FilterRule::Field {
                name: copy_str(name.as_str()),
                pattern: copy_str(pattern.as_str()),
            },
            FilterRule::Source { name } => FilterRule::Source { name: copy_str(name.as_str()) },
            FilterRule::And { rules } => {
                let copies = Self::duplicate_all(self, rules);
                let r = FilterRule::And { rules: copies };
                proof {
                    assert forall|e: LogEntryModel, now: Timestamp| #[trigger] r.spec_matches(e, now)
                        == self.spec_matches(e, now) by {
                        lemma_same_verdicts(r->And_rules@, rules@, e, now);
                    }
                    lemma_same_bounds(r->And_rules@, rules@);
                }
                r
            },
            FilterRule::Or { rules } => {
                let copies = Self::duplicate_all(self, rules);
                let r = FilterRule::Or { rules: copies };
                proof {
                    assert forall|e: LogEntryModel, now: Timestamp| #[trigger] r.spec_matches(e, now)
                        == self.spec_matches(e, now) by {
                        lemma_same_verdicts(r->Or_rules@, rules@, e, now);
                    }
                    lemma_same_bounds(r->Or_rules@, rules@);
                }
                r
            },
            FilterRule::Not { rule } => {
                let d = rule.duplicate();
                let r = FilterRule::Not { rule: Box::new(d) };
                assert forall|e: LogEntryModel, now: Timestamp| #[trigger] r.spec_matches(e, now)
                    == self.spec_matches(e, now) by {
                    assert(d.spec_matches(e, now) == rule.spec_matches(e, now));
                }
                r
            },
            FilterRule::TimeRange { minutes } => FilterRule::TimeRange { minutes: *minutes },
        }
    }

    fn duplicate_all(parent: &FilterRule, rules: &Vec<FilterRule>) -> (r: Vec<FilterRule>)
        requires
            forall|k: int| 0 <= k < rules@.len() ==> decreases_to!(*parent => #[trigger] rules@[k]),
        ensures
            r@.len() == rules@.len(),
            forall|k: int, e: LogEntryModel, now: Timestamp|
                0 <= k < rules@.len() ==> #[trigger] r@[k].spec_matches(e, now)
                    == rules@[k].spec_matches(e, now),
            forall|k: int| 0 <= k < rules@.len() ==> #[trigger] r@[k].time_bounded()
                == rules@[k].time_bounded(),
        decreases *parent, 0nat,
    {
        let mut out: Vec<FilterRule> = Vec::new();
        let mut i: usize = 0;
        while i < rules.len()
            invariant
                i <= rules@.len(),
                out@.len() == i,
                forall|k: int| 0 <= k < rules@.len() ==> decreases_to!(*parent => #[trigger] rules@[k]),
                forall|k: int, e: LogEntryModel, now: Timestamp|
                    0 <= k < i ==> #[trigger] out@[k].spec_matches(e, now)
                        == rules@[k].spec_matches(e, now),
                forall|k: int| 0 <= k < i ==> #[trigger] out@[k].time_bounded()
                    == rules@[k].time_bounded(),
            decreases rules@.len() - i,
        {
            let c = rules[i].duplicate();
            out.push(c);
            i += 1;
        }
        out
    }

    /// The text pattern of a `Contains` or `Regex` rule, if it is one of those.
    pub open spec fn spec_pattern(&self) -> Option<Seq<char>> {
        match self {
            FilterRule::Contains { pattern, .. } => Some(pattern@),
            FilterRule::Regex { pattern } => Some(pattern@),
            _ => None,
        }
    }
}

/// Two lists of rules that agree rule by rule on an entry agree on "all
/// match" and on "some match" for it.
proof fn lemma_same_verdicts(a: Seq<FilterRule>, b: Seq<FilterRule>, e: LogEntryModel, now: Timestamp)
    requires
        a.len() == b.len(),
        forall|k: int| 0 <= k < a.len() ==> #[trigger] a[k].spec_matches(e, now) == b[k].spec_matches(e, now),
    ensures
        (forall|i: int| 0 <= i < a.len() ==> (#[trigger] a[i]).spec_matches(e, now)) == (forall|i: int|
            0 <= i < b.len() ==> (#[trigger] b[i]).spec_matches(e, now)),
        (exists|i: int| 0 <= i < a.len() && (#[trigger] a[i]).spec_matches(e, now)) == (exists|i: int|
            0 <= i < b.len() && (#[trigger] b[i]).spec_matches(e, now)),
{
    if forall|i: int| 0 <= i < a.len() ==> (#[trigger] a[i]).spec_matches(e, now) {
        assert forall|i: int| 0 <= i < b.len() implies (#[trigger] b[i]).spec_matches(e, now) by {
            assert(a[i].spec_matches(e, now));
        }
    }
    if forall|i: int| 0 <= i < b.len() ==> (#[trigger] b[i]).spec_matches(e, now) {
        assert forall|i: int| 0 <= i < a.len() implies (#[trigger] a[i]).spec_matches(e, now) by {
            assert(b[i].spec_matches(e, now));
        }
    }
    if exists|i: int| 0 <= i < a.len() && (#[trigger] a[i]).spec_matches(e, now) {
        let k = choose|i: int| 0 <= i < a.len() && (#[trigger] a[i]).spec_matches(e, now);
        assert(b[k].spec_matches(e, now));
    }
    if exists|i: int| 0 <= i < b.len() && (#[trigger] b[i]).spec_matches(e, now) {
        let k = choose|i: int| 0 <= i < b.len() && (#[trigger] b[i]).spec_matches(e, now);
        assert(a[k].spec_matches(e, now));
    }
}

/// Two lists of rules that agree rule by rule on being time-bounded agree on
/// all being time-bounded.
proof fn lemma_same_bounds(a: Seq<FilterRule>, b: Seq<FilterRule>)
    requires
        a.len() == b.len(),
        forall|k: int| 0 <= k < a.len() ==> #[trigger] a[k].time_bounded() == b[k].time_bounded(),
    ensures
        (forall|i: int| 0 <= i < a.len() ==> (#[trigger] a[i]).time_bounded()) == (forall|i: int|
            0 <= i < b.len() ==> (#[trigger] b[i]).time_bounded()),
{
    if forall|i: int| 0 <= i < a.len() ==> (#[trigger] a[i]).time_bounded() {
        assert forall|i: int| 0 <= i < b.len() implies (#[trigger] b[i]).time_bounded() by {
            assert(a[i].time_bounded());
        }
    }
    if forall|i: int| 0 <= i < b.len() ==> (#[trigger] b[i]).time_bounded() {
        assert forall|i: int| 0 <= i < a.len() implies (#[trigger] a[i]).time_bounded() by {
            assert(b[i].time_bounded());
        }
    }
}

/// Something that decides whether a log entry is wanted.
pub trait Filter {
    /// Whether `matches` may be called on this filter.
    spec fn evaluable(&self) -> bool;

    /// Whether the filter accepts `entry`.
    fn matches(&self, entry: &LogEntry) -> bool
        requires
            self.evaluable(),
    ;
}

impl Filter for FilterRule {
    open spec fn evaluable(&self) -> bool {
        self.time_bounded()
    }

    /// Whether the rule accepts `entry` at the current time (read from the
    /// clock once per call; only time ranges depend on it).
    fn matches(&self, entry: &LogEntry) -> (r: bool)
        ensures
            exists|now: Timestamp| r == self.spec_matches(entry@, now),
    {
        let now = utc_now();
        self.matches_at(entry, now)
    }
}

} // verus!

verus! {

/// What the live text filter lets through: with no filter, everything; with a
/// pattern that `safe_regex_compile` accepts, entries whose line or message
/// the regex matches; otherwise entries whose line or message contains the
/// pattern, compared in lowercase.
pub open spec fn live_accepts(live: Option<Seq<char>>, e: LogEntryModel) -> bool {
    match live {
        None => true,
        Some(p) => if safe_compiles(p) {
            regex_is_match(p, e.raw) || regex_is_match(p, e.message)
        } else {
            contains_lower(e.raw, p) || contains_lower(e.message, p)
        },
    }
}

/// Some rule of `rules` accepts `e` at time `now`.
pub open spec fn any_rule_matches(rules: Seq<FilterRule>, e: LogEntryModel, now: Timestamp) -> bool {
    exists|i: int| 0 <= i < rules.len() && (#[trigger] rules[i]).spec_matches(e, now)
}

/// Every rule of `rules` is time-bounded.
pub open spec fn all_time_bounded(rules: Seq<FilterRule>) -> bool {
    forall|i: int| 0 <= i < rules.len() ==> (#[trigger] rules[i]).time_bounded()
}

/// Combines inclusion rules, exclusion rules and the live text filter.
pub struct FilterEngine {
    inclusion_rules: Vec<FilterRule>,
    exclusion_rules: Vec<FilterRule>,
    live_filter: Option<String>,
    compiled_live_filter: Option<CompiledRegex>,
}

impl FilterEngine {
    /// The inclusion rules, in the order they were added.
    pub closed spec fn inclusions(&self) -> Seq<FilterRule> {
        self.inclusion_rules@
    }

    /// The exclusion rules, in the order they were added.
    pub closed spec fn exclusions(&self) -> Seq<FilterRule> {
        self.exclusion_rules@
    }

    /// The live text filter, if one is set.
    pub closed spec fn live(&self) -> Option<Seq<char>> {
        match self.live_filter {
            Some(p) => Some(p@),
            None => None,
        }
    }

    /// The compiled live filter is present exactly when the live pattern
    /// compiles, and was compiled from it.
    pub closed spec fn wf(&self) -> bool {
        match self.compiled_live_filter {
            Some(c) => self.live_filter matches Some(p) && c.pattern() == p@ && safe_compiles(p@),
            None => self.live_filter matches Some(p) ==> !safe_compiles(p@),
        }
    }

    /// Every rule of the engine is time-bounded.
    pub open spec fn rules_bounded(&self) -> bool {
        all_time_bounded(self.inclusions()) && all_time_bounded(self.exclusions())
    }

    /// Whether the engine accepts `e` at time `now`: no exclusion rule matches,
    /// the live filter lets it through, and (when there are inclusion rules)
    /// some inclusion rule matches.
    pub open spec fn spec_matches(&self, e: LogEntryModel, now: Timestamp) -> bool {
        &&& !any_rule_matches(self.exclusions(), e, now)
        &&& live_accepts(self.live(), e)
        &&& (self.inclusions().len() == 0 || any_rule_matches(self.inclusions(), e, now))
    }

    /// An engine with no rules and no live filter; it accepts every entry.
    pub fn new() -> (r: FilterEngine)
        ensures
            r.wf(),
            r.inclusions() == Seq::<FilterRule>::empty(),
            r.exclusions() == Seq::<FilterRule>::empty(),
            r.live() is None,
    {
        FilterEngine {
            inclusion_rules: Vec::new(),
            exclusion_rules: Vec::new(),
            live_filter: None,
            compiled_live_filter: None,
        }
    }

    /// Adds a rule of which some must match (when there is any).
    pub fn add_include_rule(&mut self, rule: FilterRule)
        requires
            old(self).wf(),
        ensures
            final(self).wf(),
            final(self).inclusions() == old(self).inclusions().push(rule),
            final(self).exclusions() == old(self).exclusions(),
            final(self).live() == old(self).live(),
    {
        self.inclusion_rules.push(rule);
    }

    /// Adds a rule that rejects every entry it matches.
    pub fn add_exclude_rule(&mut self, rule: FilterRule)
        requires
            old(self).wf(),
        ensures
            final(self).wf(),
            final(self).exclusions() == old(self).exclusions().push(rule),
            final(self).inclusions() == old(self).inclusions(),
            final(self).live() == old(self).live(),
    {
        self.exclusion_rules.push(rule);
    }

    /// Sets (or, with `None`, removes) the live text filter.
    pub fn set_live_filter(&mut self, pattern: Option<String>)
        requires
            old(self).wf(),
        ensures
            final(self).wf(),
            final(self).live() == (match pattern {
                Some(p) => Some(p@),
                None => None,
            }),
            final(self).inclusions() == old(self).inclusions(),
            final(self).exclusions() == old(self).exclusions(),
    {
        let compiled = match &pattern {
            Some(p) => match safe_regex_compile(p.as_str()) {
                Ok(c) => Some(c),
                Err(_) => None,
            },
            None => None,
        };
        self.live_filter = pattern;
        self.compiled_live_filter = compiled;
    }

    /// Removes all inclusion and exclusion rules; the live filter stays.
    pub fn clear_rules(&mut self)
        requires
            old(self).wf(),
        ensures
            final(self).wf(),
            final(self).inclusions() == Seq::<FilterRule>::empty(),
            final(self).exclusions() == Seq::<FilterRule>::empty(),
            final(self).live() == old(self).live(),
    {
        self.inclusion_rules.clear();
        self.exclusion_rules.clear();
    }

    /// Whether the engine accepts `entry` when the current time is `now`.
    #[verifier::loop_isolation(false)]
    pub fn matches_at(&self, entry: &LogEntry, now: Timestamp) -> (r: bool)
        requires
            self.wf(),
            self.rules_bounded(),
        ensures
            r == self.spec_matches(entry@, now),
    {
        let mut i: usize = 0;
        while i < self.exclusion_rules.len()
            invariant
                self.rules_bounded(),
                i <= self.exclusions().len(),
                forall|k: int| 0 <= k < i ==> !(#[trigger] self.exclusions()[k]).spec_matches(entry@, now),
            decreases self.exclusions().len() - i,
        {
            if self.exclusion_rules[i].matches_at(entry, now) {
                return false;
            }
            i += 1;
        }
        match &self.compiled_live_filter {
            Some(re) => {
                if !re.is_match(entry.raw.as_str()) && !re.is_match(entry.message.as_str()) {
                    return false;
                }
            },
            None => {
                if let Some(pattern) = &self.live_filter {
                    let pattern_lower = to_lowercase(pattern.as_str());
                    if !lower_contains(entry.raw.as_str(), pattern_lower.as_str())
                        && !lower_contains(entry.message.as_str(), pattern_lower.as_str()) {
                        return false;
                    }
                }
            },
        }
        if self.inclusion_rules.len() == 0 {
            return true;
        }
        let mut j: usize = 0;
        while j < self.inclusion_rules.len()
            invariant
                self.rules_bounded(),
                j <= self.inclusions().len(),
                forall|k: int| 0 <= k < j ==> !(#[trigger] self.inclusions()[k]).spec_matches(entry@, now),
            decreases self.inclusions().len() - j,
        {
            if self.inclusion_rules[j].matches_at(entry, now) {
                return true;
            }
            j += 1;
        }
        false
    }

    /// Whether the engine accepts `entry` at the current time (the clock is
    /// read once per call; only time-range rules depend on it).
    pub fn matches(&self, entry: &LogEntry) -> (r: bool)
        requires
            self.wf(),
            self.rules_bounded(),
        ensures
            exists|now: Timestamp| r == self.spec_matches(entry@, now),
    {
        let now = utc_now();
        self.matches_at(entry, now)
    }
}

impl Default for FilterEngine {
    fn default() -> (r: FilterEngine)
        ensures
            r.wf(),
            r.inclusions() == Seq::<FilterRule>::empty(),
            r.exclusions() == Seq::<FilterRule>::empty(),
            r.live() is None,
    {
        FilterEngine::new()
    }
}

/// The rule on levels: at least `level` when `min`, else exactly `level`.
pub open spec fn level_rule(level: LogLevel, min: bool) -> FilterRule {
    FilterRule::Level { level, min }
}

/// A minimum-level rule lets through its own level and every more severe
/// one (in the order Trace, Debug, Info, Warn, Error, Fatal), and nothing
/// less severe; an exact-level rule only its own level; neither matches an
/// entry without a level.
pub proof fn lemma_level_rule(level: LogLevel, e: LogEntryModel, now: Timestamp)
    ensures
        e.level == Some(level) ==> level_rule(level, true).spec_matches(e, now),
        e.level == Some(level) ==> level_rule(level, false).spec_matches(e, now),
        e.level == Some(LogLevel::Fatal) ==> level_rule(level, true).spec_matches(e, now),
        level == LogLevel::Trace && e.level is Some ==> level_rule(level, true).spec_matches(e, now),
        e.level matches Some(l) ==> (level_rule(level, true).spec_matches(e, now) <==> l.rank() >= level.rank()),
        e.level matches Some(l) && l != level ==> !level_rule(level, false).spec_matches(e, now),
        e.level is None ==> !level_rule(level, true).spec_matches(e, now),
{
}

} // verus!

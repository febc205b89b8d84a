//! Alert rules and the dispatcher that decides, for each incoming entry, which
//! rules fire, keeping a per-rule cooldown. Showing a notification, ringing
//! the bell and posting a webhook are left to the caller: the dispatcher
//! returns what fired, and the notifier and payload builders below compose
//! what is shown or sent.
use vstd::prelude::*;
use crate::clock::{format_rfc3339, rfc3339_text, utc_now};
use crate::filter::FilterRule;
use crate::models::{LogEntry, LogEntryModel, Timestamp};
use crate::strmap::StrMap;
use crate::text::{concat, copy_str};
use vstd::utf8::{decode_utf8, encode_utf8, is_char_boundary};

verus! {

/// What to do when an alert rule fires.
pub enum AlertAction {
    Visual,
    Sound,
    Desktop { title: Option<String> },
    Webhook { url: String },
}

/// The mathematical value of an [`AlertAction`].
pub enum AlertActionModel {
    Visual,
    Sound,
    Desktop { title: Option<Seq<char>> },
    Webhook { url: Seq<char> },
}

impl View for AlertAction {
    type V = AlertActionModel;

    open spec fn view(&self) -> AlertActionModel {
        match self {
            AlertAction::Visual => AlertActionModel::Visual,
            AlertAction::Sound => AlertActionModel::Sound,
            AlertAction::Desktop { title } => AlertActionModel::Desktop {
                title: match title {
                    Some(t) => Some(t@),
                    None => None,
                },
            },
            AlertAction::Webhook { url } => AlertActionModel::Webhook { url: url@ },
        }
    }
}

impl AlertAction {
    /// A copy of the action.
    pub fn duplicate(&self) -> (r: AlertAction)
        ensures
            r@ == self@,
    {
        match self {
            AlertAction::Visual => AlertAction::Visual,
            AlertAction::Sound => AlertAction::Sound,
            AlertAction::Desktop { title } => AlertAction::Desktop {
                title: match title {
                    Some(t) => Some(copy_str(t.as_str())),
                    None => None,
                },
            },
            AlertAction::Webhook { url } => AlertAction::Webhook { url: copy_str(url.as_str()) },
        }
    }
}

/// The values of a list of actions.
pub open spec fn action_views(actions: Seq<AlertAction>) -> Seq<AlertActionModel> {
    actions.map_values(|a: AlertAction| a@)
}

/// A copy of a list of actions.
pub fn duplicate_actions(actions: &Vec<AlertAction>) -> (r: Vec<AlertAction>)
    ensures
        action_views(r@) == action_views(actions@),
{
    let mut r: Vec<AlertAction> = Vec::new();
    let mut i: usize = 0;
    while i < actions.len()
        invariant
            i <= actions@.len(),
            r@.len() == i,
            forall|k: int| 0 <= k < i ==> (#[trigger] r@[k])@ == actions@[k]@,
        decreases actions@.len() - i,
    {
        r.push(actions[i].duplicate());
        i += 1;
    }
    assert(action_views(r@) =~= action_views(actions@));
    r
}

/// A named rule: when its pattern matches an entry, its actions are taken,
/// at most once per cooldown period when it has one.
pub struct AlertRule {
    pub name: String,
    pub pattern: FilterRule,
    pub actions: Vec<AlertAction>,
    pub cooldown_seconds: Option<u64>,
}

impl AlertRule {
    /// A copy of the rule: same name, actions and cooldown, and a pattern that
    /// accepts exactly the entries this one accepts.
    pub fn duplicate(&self) -> (r: AlertRule)
        ensures
            r.name@ == self.name@,
            r.cooldown_seconds == self.cooldown_seconds,
            action_views(r.actions@) == action_views(self.actions@),
            r.pattern.time_bounded() == self.pattern.time_bounded(),
            r.pattern.spec_pattern() == self.pattern.spec_pattern(),
            forall|e: LogEntryModel, now: Timestamp| #[trigger] r.pattern.spec_matches(e, now)
                == self.pattern.spec_matches(e, now),
    {
        AlertRule {
            name: copy_str(self.name.as_str()),
            pattern: self.pattern.duplicate(),
            actions: duplicate_actions(&self.actions),
            cooldown_seconds: self.cooldown_seconds,
        }
    }
}

/// Copies of a list of rules, rule by rule as [`AlertRule::duplicate`] copies.
pub fn duplicate_rules(rules: &Vec<AlertRule>) -> (r: Vec<AlertRule>)
    ensures
        r@.len() == rules@.len(),
        forall|k: int| 0 <= k < rules@.len() ==> same_rule(#[trigger] r@[k], rules@[k]),
{
    let mut r: Vec<AlertRule> = Vec::new();
    let mut i: usize = 0;
    while i < rules.len()
        invariant
            i <= rules@.len(),
            r@.len() == i,
            forall|k: int| 0 <= k < i ==> same_rule(#[trigger] r@[k], rules@[k]),
        decreases rules@.len() - i,
    {
        let c = rules[i].duplicate();
        proof {
            assert forall|e: LogEntryModel, now: Timestamp| #[trigger] c.pattern.spec_matches(e, now)
                == rules@[i as int].pattern.spec_matches(e, now) by {}
        }
        r.push(c);
        i += 1;
    }
    r
}

/// Two rules with the same name, actions and cooldown whose patterns accept
/// the same entries.
pub open spec fn same_rule(a: AlertRule, b: AlertRule) -> bool {
    &&& a.name@ == b.name@
    &&& a.cooldown_seconds == b.cooldown_seconds
    &&& action_views(a.actions@) == action_views(b.actions@)
    &&& a.pattern.time_bounded() == b.pattern.time_bounded()
    &&& forall|e: LogEntryModel, now: Timestamp| #[trigger] a.pattern.spec_matches(e, now)
        == b.pattern.spec_matches(e, now)
}

/// A rule firing on an entry: what the alert channel carries.
pub struct AlertEvent {
    pub entry: LogEntry,
    pub rule_name: String,
}

/// One firing decided by the dispatcher: which rule (by its position in the
/// dispatcher's list) fired, and the event to report.
pub struct AlertFiring {
    pub rule_index: usize,
    pub event: AlertEvent,
}

// ---------------------------------------------------------------------------
// Cooldowns

/// Whole seconds from `last` to `now` (both in nanoseconds of a monotonic
/// clock), zero when `now` is not after `last`.
pub open spec fn elapsed_secs(now: u64, last: u64) -> int {
    if now >= last {
        (now - last) / 1_000_000_000
    } else {
        0
    }
}

/// Whether a rule named `name` with cooldown `cooldown` may fire at `now`,
/// given when each rule name last fired.
pub open spec fn cooldown_allows(
    fired: Map<Seq<char>, u64>,
    name: Seq<char>,
    cooldown: Option<u64>,
    now: u64,
) -> bool {
    match cooldown {
        None => true,
        Some(c) => !(fired.contains_key(name) && elapsed_secs(now, fired[name]) < c),
    }
}

/// The last-fired times after the cooldown check of `name` at `now`: a rule
/// with a cooldown that may fire is recorded as fired at `now`.
pub open spec fn cooldown_after(
    fired: Map<Seq<char>, u64>,
    name: Seq<char>,
    cooldown: Option<u64>,
    now: u64,
) -> Map<Seq<char>, u64> {
    match cooldown {
        None => fired,
        Some(c) => if cooldown_allows(fired, name, cooldown, now) {
            fired.insert(name, now)
        } else {
            fired
        },
    }
}

/// Once a rule with a cooldown of `c` seconds has fired at `t`, a later check
/// of the same name with the same cooldown lets it fire again exactly when at
/// least `c` whole seconds have passed since `t`.
pub proof fn lemma_cooldown_holds_back(
    fired: Map<Seq<char>, u64>,
    name: Seq<char>,
    c: u64,
    t: u64,
    later: u64,
)
    requires
        cooldown_allows(fired, name, Some(c), t),
    ensures
        cooldown_allows(cooldown_after(fired, name, Some(c), t), name, Some(c), later) <==> elapsed_secs(
            later,
            t,
        ) >= c,
{
}

/// A check without a cooldown always lets the rule fire and records nothing.
pub proof fn lemma_no_cooldown_always_fires(fired: Map<Seq<char>, u64>, name: Seq<char>, now: u64)
    ensures
        cooldown_allows(fired, name, None, now),
        cooldown_after(fired, name, None, now) == fired,
{
}

/// The rules (by position) among the first `k` of `rules` that fire on `e`
/// at wall time `now` and monotonic time `mono`, and the last-fired times
/// afterwards, starting from `fired`: each matching rule is checked against
/// its cooldown in turn.
pub open spec fn dispatch(
    rules: Seq<AlertRule>,
    k: nat,
    e: LogEntryModel,
    now: Timestamp,
    mono: u64,
    fired: Map<Seq<char>, u64>,
) -> (Seq<int>, Map<Seq<char>, u64>)
    decreases k,
{
    if k == 0 {
        (seq![], fired)
    } else {
        let prev = dispatch(rules, (k - 1) as nat, e, now, mono, fired);
        let rule = rules[k - 1];
        if rule.pattern.spec_matches(e, now) && cooldown_allows(
            prev.1,
            rule.name@,
            rule.cooldown_seconds,
            mono,
        ) {
            (prev.0.push(k - 1), cooldown_after(prev.1, rule.name@, rule.cooldown_seconds, mono))
        } else {
            prev
        }
    }
}

/// An entry that none of the first `k` rules matches fires nothing and
/// leaves every last-fired time as it was (so it starts no cooldown).
pub proof fn lemma_unmatched_entry_changes_nothing(
    rules: Seq<AlertRule>,
    k: nat,
    e: LogEntryModel,
    now: Timestamp,
    mono: u64,
    fired: Map<Seq<char>, u64>,
)
    requires
        k <= rules.len(),
        forall|j: int| 0 <= j < k ==> !(#[trigger] rules[j]).pattern.spec_matches(e, now),
    ensures
        dispatch(rules, k, e, now, mono, fired).0.len() == 0,
        dispatch(rules, k, e, now, mono, fired).1 == fired,
    decreases k,
{
    if k > 0 {
        lemma_unmatched_entry_changes_nothing(rules, (k - 1) as nat, e, now, mono, fired);
        assert(!rules[k - 1].pattern.spec_matches(e, now));
    }
}

/// When the first rule matches and has never fired, it fires, and first.
pub proof fn lemma_first_matching_rule_fires(
    rules: Seq<AlertRule>,
    k: nat,
    e: LogEntryModel,
    now: Timestamp,
    mono: u64,
    fired: Map<Seq<char>, u64>,
)
    requires
        1 <= k <= rules.len(),
        rules[0].pattern.spec_matches(e, now),
        !fired.contains_key(rules[0].name@),
    ensures
        dispatch(rules, k, e, now, mono, fired).0.len() >= 1,
        dispatch(rules, k, e, now, mono, fired).0[0] == 0,
    decreases k,
{
    if k > 1 {
        lemma_first_matching_rule_fires(rules, (k - 1) as nat, e, now, mono, fired);
    } else {
        assert(dispatch(rules, 0, e, now, mono, fired) == (Seq::<int>::empty(), fired));
    }
}

/// A single matching rule with a cooldown, never fired before, fires on the
/// first entry and, checked again before the cooldown has passed, not on the
/// second; it then fires again once the cooldown has passed. Without a
/// cooldown it fires on both.
pub proof fn lemma_rule_fires_once_within_cooldown(
    r: AlertRule,
    e1: LogEntryModel,
    now1: Timestamp,
    mono1: u64,
    e2: LogEntryModel,
    now2: Timestamp,
    mono2: u64,
    fired: Map<Seq<char>, u64>,
)
    requires
        r.pattern.spec_matches(e1, now1),
        r.pattern.spec_matches(e2, now2),
        !fired.contains_key(r.name@),
    ensures
        ({
            let rules = seq![r];
            let first = dispatch(rules, 1, e1, now1, mono1, fired);
            let second = dispatch(rules, 1, e2, now2, mono2, first.1);
            &&& first.0 == seq![0int]
            &&& match r.cooldown_seconds {
                Some(c) => {
                    &&& first.1 == fired.insert(r.name@, mono1)
                    &&& second.0 == (if elapsed_secs(mono2, mono1) < c {
                        Seq::<int>::empty()
                    } else {
                        seq![0int]
                    })
                },
                None => second.0 == seq![0int] && first.1 == fired && second.1 == fired,
            }
        }),
{
    let rules = seq![r];
    assert(rules[0] == r);
    let first = dispatch(rules, 1, e1, now1, mono1, fired);
    assert(dispatch(rules, 0, e1, now1, mono1, fired) == (Seq::<int>::empty(), fired));
    assert(first.0 =~= seq![0int]);
    assert(dispatch(rules, 0, e2, now2, mono2, first.1) == (Seq::<int>::empty(), first.1));
    let second = dispatch(rules, 1, e2, now2, mono2, first.1);
    match r.cooldown_seconds {
        Some(c) => {
            if elapsed_secs(mono2, mono1) < c {
                assert(second.0 =~= Seq::<int>::empty());
            } else {
                assert(second.0 =~= seq![0int]);
            }
        },
        None => {
            assert(second.0 =~= seq![0int]);
        },
    }
}

/// `firings` are the firings (rule position, entry and rule name) that
/// [`dispatch`] decides for the first `k` rules, and `after` the last-fired
/// times it leaves, starting from `before`.
pub open spec fn firings_after(
    firings: Seq<AlertFiring>,
    rules: Seq<AlertRule>,
    k: nat,
    e: LogEntryModel,
    now: Timestamp,
    mono: u64,
    before: Map<Seq<char>, u64>,
    after: Map<Seq<char>, u64>,
) -> bool {
    let d = dispatch(rules, k, e, now, mono, before);
    &&& firings.len() == d.0.len()
    &&& forall|j: int|
        0 <= j < firings.len() ==> {
            &&& (#[trigger] firings[j]).rule_index == d.0[j]
            &&& firings[j].event.entry@ == e
            &&& firings[j].event.rule_name@ == rules[d.0[j]].name@
        }
    &&& after == d.1
}

/// The firings for the entries `es` checked in order, each check seeing the
/// last-fired times the previous ones left: pairs of rule position and
/// entry, and the last-fired times afterwards.
pub open spec fn batch_dispatch(
    rules: Seq<AlertRule>,
    es: Seq<LogEntryModel>,
    now: Timestamp,
    mono: u64,
    fired: Map<Seq<char>, u64>,
) -> (Seq<(int, LogEntryModel)>, Map<Seq<char>, u64>)
    decreases es.len(),
{
    if es.len() == 0 {
        (seq![], fired)
    } else {
        let prev = batch_dispatch(rules, es.drop_last(), now, mono, fired);
        let d = dispatch(rules, rules.len(), es.last(), now, mono, prev.1);
        (prev.0 + d.0.map_values(|i: int| (i, es.last())), d.1)
    }
}

/// `firings` are the firings [`batch_dispatch`] decides for `es`, and `after`
/// the last-fired times it leaves, starting from `before`.
pub open spec fn batch_firings_after(
    firings: Seq<AlertFiring>,
    rules: Seq<AlertRule>,
    es: Seq<LogEntryModel>,
    now: Timestamp,
    mono: u64,
    before: Map<Seq<char>, u64>,
    after: Map<Seq<char>, u64>,
) -> bool {
    let b = batch_dispatch(rules, es, now, mono, before);
    &&& firings.len() == b.0.len()
    &&& forall|j: int|
        0 <= j < firings.len() ==> {
            &&& (#[trigger] firings[j]).rule_index == b.0[j].0
            &&& firings[j].event.entry@ == b.0[j].1
            &&& firings[j].event.rule_name@ == rules[b.0[j].0].name@
        }
    &&& after == b.1
}

/// The positions [`dispatch`] gives are positions among the first `k` rules.
pub proof fn lemma_dispatch_positions(
    rules: Seq<AlertRule>,
    k: nat,
    e: LogEntryModel,
    now: Timestamp,
    mono: u64,
    fired: Map<Seq<char>, u64>,
)
    ensures
        forall|j: int|
            0 <= j < dispatch(rules, k, e, now, mono, fired).0.len() ==> 0 <= #[trigger] dispatch(
                rules,
                k,
                e,
                now,
                mono,
                fired,
            ).0[j] < k,
    decreases k,
{
    if k > 0 {
        lemma_dispatch_positions(rules, (k - 1) as nat, e, now, mono, fired);
        let prev = dispatch(rules, (k - 1) as nat, e, now, mono, fired);
        let d = dispatch(rules, k, e, now, mono, fired);
        assert forall|j: int| 0 <= j < d.0.len() implies 0 <= #[trigger] d.0[j] < k by {
            if j < prev.0.len() {
                assert(d.0[j] == prev.0[j]);
            }
        }
    }
}

/// Every rule's pattern is time-bounded.
pub open spec fn patterns_bounded(rules: Seq<AlertRule>) -> bool {
    forall|i: int| 0 <= i < rules.len() ==> (#[trigger] rules[i]).pattern.time_bounded()
}

/// Holds the alert rules and when each rule name last fired.
pub struct AlertDispatcher {
    rules: Vec<AlertRule>,
    cooldowns: StrMap<u64>,
}

impl AlertDispatcher {
    /// The rules, in the order they were added.
    pub closed spec fn rules(&self) -> Seq<AlertRule> {
        self.rules@
    }

    /// When each rule name last fired (monotonic nanoseconds).
    pub closed spec fn last_fired(&self) -> Map<Seq<char>, u64> {
        self.cooldowns.view()
    }

    /// The internal record of last firings is consistent.
    pub closed spec fn wf(&self) -> bool {
        self.cooldowns.wf()
    }

    /// A dispatcher with no rules and no recorded firings.
    pub fn new() -> (r: AlertDispatcher)
        ensures
            r.wf(),
            r.rules() == Seq::<AlertRule>::empty(),
            r.last_fired() == Map::<Seq<char>, u64>::empty(),
    {
        AlertDispatcher { rules: Vec::new(), cooldowns: StrMap::new() }
    }

    /// Adds a rule after the existing ones.
    pub fn add_rule(&mut self, rule: AlertRule)
        requires
            old(self).wf(),
        ensures
            final(self).wf(),
            final(self).rules() == old(self).rules().push(rule),
            final(self).last_fired() == old(self).last_fired(),
    {
        self.rules.push(rule);
    }

    /// Removes every rule and forgets every firing.
    pub fn clear_rules(&mut self)
        requires
            old(self).wf(),
        ensures
            final(self).wf(),
            final(self).rules() == Seq::<AlertRule>::empty(),
            final(self).last_fired() == Map::<Seq<char>, u64>::empty(),
    {
        self.rules.clear();
        self.cooldowns.clear();
    }

    /// Replaces the rules; recorded firings are kept.
    pub fn set_rules(&mut self, new_rules: Vec<AlertRule>)
        requires
            old(self).wf(),
        ensures
            final(self).wf(),
            final(self).rules() == new_rules@,
            final(self).last_fired() == old(self).last_fired(),
    {
        self.rules = new_rules;
    }

    /// Copies of the rules.
    pub fn get_rules(&self) -> (r: Vec<AlertRule>)
        ensures
            r@.len() == self.rules().len(),
            forall|k: int| 0 <= k < r@.len() ==> same_rule(#[trigger] r@[k], self.rules()[k]),
    {
        duplicate_rules(&self.rules)
    }

    /// The number of rules.
    pub fn rule_count(&self) -> (r: usize)
        ensures
            r == self.rules().len(),
    {
        self.rules.len()
    }

    /// The rule at position `i`.
    pub fn rule(&self, i: usize) -> (r: &AlertRule)
        requires
            i < self.rules().len(),
        ensures
            *r == self.rules()[i as int],
    {
        &self.rules[i]
    }

    /// Whether the rule named `rule_name` may fire at monotonic time `now`
    /// (nanoseconds); when it has a cooldown and may fire, `now` is recorded
    /// as its last firing.
    pub fn check_cooldown(&mut self, rule_name: &str, cooldown_secs: Option<u64>, now: u64) -> (r:
        bool)
        requires
            old(self).wf(),
        ensures
            final(self).wf(),
            final(self).rules() == old(self).rules(),
            r == cooldown_allows(old(self).last_fired(), rule_name@, cooldown_secs, now),
            final(self).last_fired() == cooldown_after(
                old(self).last_fired(),
                rule_name@,
                cooldown_secs,
                now,
            ),
    {
        let cooldown = match cooldown_secs {
            None => {
                return true;
            },
            Some(c) => c,
        };
        match self.cooldowns.get(rule_name) {
            Some(last) => {
                let elapsed: u64 = if now >= *last {
                    (now - *last) / 1_000_000_000
                } else {
                    0
                };
                if elapsed < cooldown {
                    return false;
                }
            },
            None => {},
        }
        self.cooldowns.insert(copy_str(rule_name), now);
        true
    }

    /// The rules that fire on `entry` at wall time `now` and monotonic time
    /// `mono`, in rule order; each firing is recorded for the rule's cooldown.
    pub fn check_and_alert_at(&mut self, entry: &LogEntry, now: Timestamp, mono: u64) -> (r: Vec<
        AlertFiring,
    >)
        requires
            old(self).wf(),
            patterns_bounded(old(self).rules()),
        ensures
            final(self).wf(),
            final(self).rules() == old(self).rules(),
            firings_after(
                r@,
                old(self).rules(),
                old(self).rules().len(),
                entry@,
                now,
                mono,
                old(self).last_fired(),
                final(self).last_fired(),
            ),
    {
        let ghost rules0 = self.rules@;
        let ghost fired0 = self.cooldowns.view();
        let mut out: Vec<AlertFiring> = Vec::new();
        let n = self.rules.len();
        let mut i: usize = 0;
        while i < n
            invariant
                self.wf(),
                self.rules@ == rules0,
                n == rules0.len(),
                i <= n,
                patterns_bounded(rules0),
                firings_after(
                    out@,
                    rules0,
                    i as nat,
                    entry@,
                    now,
                    mono,
                    fired0,
                    self.cooldowns.view(),
                ),
            decreases n - i,
        {
            let matched = self.rules[i].pattern.matches_at(entry, now);
            if matched {
                let name = copy_str(self.rules[i].name.as_str());
                let cooldown = self.rules[i].cooldown_seconds;
                if self.check_cooldown(name.as_str(), cooldown, mono) {
                    let event = AlertEvent { entry: entry.duplicate(), rule_name: name };
                    out.push(AlertFiring { rule_index: i, event });
                }
            }
            i += 1;
        }
        out
    }

    /// The rules that fire on `entry` now (the wall clock is read once), given
    /// the monotonic time `mono` in nanoseconds.
    pub fn check_and_alert(&mut self, entry: &LogEntry, mono: u64) -> (r: Vec<AlertFiring>)
        requires
            old(self).wf(),
            patterns_bounded(old(self).rules()),
        ensures
            final(self).wf(),
            final(self).rules() == old(self).rules(),
            exists|now: Timestamp|
                #[trigger] firings_after(
                    r@,
                    old(self).rules(),
                    old(self).rules().len(),
                    entry@,
                    now,
                    mono,
                    old(self).last_fired(),
                    final(self).last_fired(),
                ),
    {
        let now = utc_now();
        self.check_and_alert_at(entry, now, mono)
    }
}

// ---------------------------------------------------------------------------
// What the alert actions show and send

/// The largest message, in bytes, that a desktop notification shows whole.
pub const NOTIFICATION_BODY_LIMIT: usize = 200;

/// The title of the desktop notification for a rule named `name` firing on a
/// line from `source`: `[source] Alert: name`.
pub open spec fn notification_title(source: Seq<char>, name: Seq<char>) -> Seq<char> {
    "["@ + source + "] Alert: "@ + name
}

/// Whether the notification body can be cut from `message`: it fits whole, or
/// its 200th byte ends a character.
pub open spec fn body_cuttable(message: Seq<char>) -> bool {
    encode_utf8(message).len() <= NOTIFICATION_BODY_LIMIT || is_char_boundary(
        encode_utf8(message),
        NOTIFICATION_BODY_LIMIT as int,
    )
}

/// Whether the notification body can be cut from `message` (see
/// [`body_cuttable`]).
pub fn body_cuttable_text(message: &str) -> (r: bool)
    ensures
        r == body_cuttable(message@),
{
    message.as_bytes().len() <= NOTIFICATION_BODY_LIMIT || message.is_char_boundary(NOTIFICATION_BODY_LIMIT)
}

/// The notification body: the message, or its first 200 bytes and `...` when
/// it is longer.
pub open spec fn notification_body(message: Seq<char>) -> Seq<char> {
    if encode_utf8(message).len() > NOTIFICATION_BODY_LIMIT {
        decode_utf8(encode_utf8(message).subrange(0, NOTIFICATION_BODY_LIMIT as int)) + "..."@
    } else {
        message
    }
}

/// A desktop notification ready to be shown.
pub struct DesktopNotification {
    pub app_name: String,
    pub title: String,
    pub body: String,
}

/// Composes desktop notifications under an application name.
pub struct DesktopNotifier {
    app_name: String,
}

impl DesktopNotifier {
    /// The application name notifications are shown under.
    pub closed spec fn app_name(&self) -> Seq<char> {
        self.app_name@
    }

    /// A notifier under the name `Tail Logger`.
    pub fn new() -> (r: DesktopNotifier)
        ensures
            r.app_name() == "Tail Logger"@,
    {
        DesktopNotifier { app_name: copy_str("Tail Logger") }
    }

    /// The same notifier under the name `name`.
    pub fn with_app_name(self, name: String) -> (r: DesktopNotifier)
        ensures
            r.app_name() == name@,
    {
        DesktopNotifier { app_name: name }
    }

    /// The notification for `rule` firing on `entry`.
    pub fn compose(&self, entry: &LogEntry, rule: &AlertRule) -> (r: DesktopNotification)
        requires
            body_cuttable(entry.message@),
        ensures
            r.app_name@ == self.app_name(),
            r.title@ == notification_title(entry.source@, rule.name@),
            r.body@ == notification_body(entry.message@),
    {
        let mut title = concat("[", entry.source.as_str());
        title.append("] Alert: ");
        title.append(rule.name.as_str());
        let m = entry.message.as_str();
        let body = if m.as_bytes().len() > NOTIFICATION_BODY_LIMIT {
            let (head, _) = m.split_at(NOTIFICATION_BODY_LIMIT);
            proof {
                broadcast use vstd::utf8::encode_utf8_decode_utf8;
                assert(encode_utf8(head@) == encode_utf8(m@).subrange(0, NOTIFICATION_BODY_LIMIT as int));
                assert(decode_utf8(encode_utf8(head@)) == head@);
            }
            concat(head, "...")
        } else {
            copy_str(m)
        };
        DesktopNotification { app_name: copy_str(self.app_name.as_str()), title, body }
    }
}

impl Default for DesktopNotifier {
    fn default() -> (r: DesktopNotifier)
        ensures
            r.app_name() == "Tail Logger"@,
    {
        DesktopNotifier::new()
    }
}

/// The sound alert: rings the terminal bell.
pub struct SoundAlert;

impl SoundAlert {
    pub fn new() -> (r: SoundAlert) {
        SoundAlert
    }
}

/// The visual alert: the interface highlights what the alert channel reports.
pub struct VisualAlert;

impl VisualAlert {
    pub fn new() -> (r: VisualAlert) {
        VisualAlert
    }
}

/// What a webhook receives when a rule fires.
pub struct WebhookPayload {
    pub alert_name: String,
    pub source: String,
    pub level: Option<String>,
    pub message: String,
    pub timestamp: Option<String>,
    pub raw: String,
}

/// An optional string as an optional sequence of characters.
pub open spec fn opt_view(s: Option<String>) -> Option<Seq<char>> {
    match s {
        Some(t) => Some(t@),
        None => None,
    }
}

/// The payload posted for `rule` firing on `entry`: the rule's name, the
/// entry's source, level name, message, RFC 3339 time and raw line.
pub fn webhook_payload(entry: &LogEntry, rule: &AlertRule) -> (r: WebhookPayload)
    ensures
        r.alert_name@ == rule.name@,
        r.source@ == entry.source@,
        opt_view(r.level) == (match entry.level {
            Some(l) => Some(l.spec_name()),
            None => None,
        }),
        r.message@ == entry.message@,
        opt_view(r.timestamp) == (match entry.timestamp {
            Some(t) => rfc3339_text(t.secs, t.nanos),
            None => None,
        }),
        r.raw@ == entry.raw@,
{
    let level = match &entry.level {
        Some(l) => Some(copy_str(l.as_str())),
        None => None,
    };
    let timestamp = match &entry.timestamp {
        Some(t) => format_rfc3339(*t),
        None => None,
    };
    WebhookPayload {
        alert_name: copy_str(rule.name.as_str()),
        source: copy_str(entry.source.as_str()),
        level,
        message: copy_str(entry.message.as_str()),
        timestamp,
        raw: copy_str(entry.raw.as_str()),
    }
}

/// The URLs of the rule's webhook actions, in order: where the webhook alert
/// posts when the rule fires.
pub fn webhook_urls(rule: &AlertRule) -> (r: Vec<String>)
    ensures
        r@.map_values(|u: String| u@) == webhook_urls_of(action_views(rule.actions@)),
{
    let mut r: Vec<String> = Vec::new();
    let mut i: usize = 0;
    while i < rule.actions.len()
        invariant
            i <= rule.actions@.len(),
            r@.map_values(|u: String| u@) == webhook_urls_of(
                action_views(rule.actions@).take(i as int),
            ),
        decreases rule.actions@.len() - i,
    {
        proof {
            assert(action_views(rule.actions@).take(i + 1).drop_last() =~= action_views(
                rule.actions@,
            ).take(i as int));
        }
        match &rule.actions[i] {
            AlertAction::Webhook { url } => {
                r.push(copy_str(url.as_str()));
                proof {
                    assert(r@.map_values(|u: String| u@) =~= webhook_urls_of(
                        action_views(rule.actions@).take(i as int),
                    ).push(url@));
                }
            },
            _ => {},
        }
        i += 1;
    }
    assert(action_views(rule.actions@).take(rule.actions@.len() as int) =~= action_views(
        rule.actions@,
    ));
    r
}

/// The URLs of the webhook actions among `actions`, in order.
pub open spec fn webhook_urls_of(actions: Seq<AlertActionModel>) -> Seq<Seq<char>>
    decreases actions.len(),
{
    if actions.len() == 0 {
        seq![]
    } else {
        let rest = webhook_urls_of(actions.drop_last());
        match actions.last() {
            AlertActionModel::Webhook { url } => rest.push(url),
            _ => rest,
        }
    }
}

impl Default for AlertDispatcher {
    fn default() -> (r: AlertDispatcher)
        ensures
            r.wf(),
            r.rules() == Seq::<AlertRule>::empty(),
            r.last_fired() == Map::<Seq<char>, u64>::empty(),
    {
        AlertDispatcher::new()
    }
}

} // verus!

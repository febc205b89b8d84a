//! The state behind the editing forms for alert rules, SSH sources and
//! highlight rules, and what the forms produce.
use vstd::prelude::*;
use crate::alert::{action_views, opt_view, AlertAction, AlertActionModel, AlertRule};
use crate::filter::FilterRule;
use crate::palette::{opaque, Rgba};
use crate::text::{
    contains, copy_str, decimal, lowercase, parse_unsigned, to_lowercase, contains_str,
    u64_to_string, unsigned_value, digits_value, all_digits, };

verus! {

// ---------------------------------------------------------------------------
// Alert rules

/// The alert form.
pub struct AlertDialogState {
    pub open: bool,
    pub editing_index: Option<usize>,
    pub name: String,
    pub pattern: String,
    pub use_regex: bool,
    pub sound_enabled: bool,
    pub desktop_enabled: bool,
    pub desktop_title: String,
    pub webhook_enabled: bool,
    pub webhook_url: String,
    pub cooldown_seconds: String,
}

/// The fields of the alert form that make a rule.
pub struct AlertForm {
    pub name: Seq<char>,
    pub pattern: Seq<char>,
    pub use_regex: bool,
    pub sound: bool,
    pub desktop: bool,
    pub desktop_title: Seq<char>,
    pub webhook: bool,
    pub webhook_url: Seq<char>,
    pub cooldown: Seq<char>,
}

/// The pattern of an alert rule as the form sees it.
pub enum PatternModel {
    Contains { pattern: Seq<char>, case_sensitive: bool },
    Regex { pattern: Seq<char> },
    Other,
}

/// An alert rule as the form sees it.
pub struct AlertRuleModel {
    pub name: Seq<char>,
    pub pattern: PatternModel,
    pub actions: Seq<AlertActionModel>,
    pub cooldown: Option<u64>,
}

/// The form-level value of a rule.
pub open spec fn rule_model(rule: AlertRule) -> AlertRuleModel {
    AlertRuleModel {
        name: rule.name@,
        pattern: match rule.pattern {
            FilterRule::Contains { pattern, case_sensitive } => PatternModel::Contains {
                pattern: pattern@,
                case_sensitive,
            },
            FilterRule::Regex { pattern } => PatternModel::Regex { pattern: pattern@ },
            _ => PatternModel::Other,
        },
        actions: action_views(rule.actions@),
        cooldown: rule.cooldown_seconds,
    }
}

impl AlertDialogState {
    /// The fields of the form that make a rule.
    pub open spec fn form(&self) -> AlertForm {
        AlertForm {
            name: self.name@,
            pattern: self.pattern@,
            use_regex: self.use_regex,
            sound: self.sound_enabled,
            desktop: self.desktop_enabled,
            desktop_title: self.desktop_title@,
            webhook: self.webhook_enabled,
            webhook_url: self.webhook_url@,
            cooldown: self.cooldown_seconds@,
        }
    }
}

/// Whether some action of `acts` is the sound.
pub open spec fn has_sound(acts: Seq<AlertActionModel>) -> bool {
    exists|i: int| 0 <= i < acts.len() && acts[i] is Sound
}

/// The title (empty when none) of the last desktop action of `acts`, if any.
pub open spec fn last_desktop_title(acts: Seq<AlertActionModel>) -> Option<Seq<char>>
    decreases acts.len(),
{
    if acts.len() == 0 {
        None
    } else {
        match acts.last() {
            AlertActionModel::Desktop { title } => Some(
                match title {
                    Some(t) => t,
                    None => Seq::<char>::empty(),
                },
            ),
            _ => last_desktop_title(acts.drop_last()),
        }
    }
}

/// The URL of the last webhook action of `acts`, if any.
pub open spec fn last_webhook_url(acts: Seq<AlertActionModel>) -> Option<Seq<char>>
    decreases acts.len(),
{
    if acts.len() == 0 {
        None
    } else {
        match acts.last() {
            AlertActionModel::Webhook { url } => Some(url),
            _ => last_webhook_url(acts.drop_last()),
        }
    }
}

/// The form after loading `r`: its name; the pattern of a substring or regex
/// rule (any other rule gives an empty substring pattern); each kind of
/// action that occurs, with the last desktop title and webhook URL; the
/// cooldown in decimal, or empty.
pub open spec fn loaded_form(r: AlertRuleModel) -> AlertForm {
    AlertForm {
        name: r.name,
        pattern: match r.pattern {
            PatternModel::Contains { pattern, .. } => pattern,
            PatternModel::Regex { pattern } => pattern,
            PatternModel::Other => Seq::<char>::empty(),
        },
        use_regex: r.pattern is Regex,
        sound: has_sound(r.actions),
        desktop: last_desktop_title(r.actions) is Some,
        desktop_title: match last_desktop_title(r.actions) {
            Some(t) => t,
            None => Seq::<char>::empty(),
        },
        webhook: last_webhook_url(r.actions) is Some,
        webhook_url: match last_webhook_url(r.actions) {
            Some(u) => u,
            None => Seq::<char>::empty(),
        },
        cooldown: match r.cooldown {
            Some(s) => decimal(s as nat),
            None => Seq::<char>::empty(),
        },
    }
}

/// The actions a form gives: the sound, a desktop notification (with its
/// title unless empty) and a webhook (when it has a URL), each when chosen.
pub open spec fn form_actions(f: AlertForm) -> Seq<AlertActionModel> {
    (if f.sound {
        seq![AlertActionModel::Sound]
    } else {
        seq![]
    }) + (if f.desktop {
        seq![
            AlertActionModel::Desktop {
                title: if f.desktop_title.len() == 0 {
                    None
                } else {
                    Some(f.desktop_title)
                },
            },
        ]
    } else {
        seq![]
    }) + (if f.webhook && f.webhook_url.len() > 0 {
        seq![AlertActionModel::Webhook { url: f.webhook_url }]
    } else {
        seq![]
    })
}

/// The cooldown a form gives: its text read as a number of seconds, when it
/// is one.
pub open spec fn form_cooldown(text: Seq<char>) -> Option<u64> {
    match unsigned_value(text) {
        Some(v) => if v <= u64::MAX {
            Some(v as u64)
        } else {
            None
        },
        None => None,
    }
}

/// The rule a form gives: none without a name or a pattern; else a regex or
/// (case-insensitive) substring rule with the form's actions and cooldown.
pub open spec fn built_rule(f: AlertForm) -> Option<AlertRuleModel> {
    if f.name.len() == 0 || f.pattern.len() == 0 {
        None
    } else {
        Some(
            AlertRuleModel {
                name: f.name,
                pattern: if f.use_regex {
                    PatternModel::Regex { pattern: f.pattern }
                } else {
                    PatternModel::Contains { pattern: f.pattern, case_sensitive: false }
                },
                actions: form_actions(f),
                cooldown: form_cooldown(f.cooldown),
            },
        )
    }
}

/// Whether a rule is one the form can express: a name; a non-empty regex or
/// case-insensitive substring pattern; and actions in the form's order (the
/// sound, a desktop notification, a webhook with a URL), each at most once.
pub open spec fn form_expressible(r: AlertRuleModel) -> bool {
    &&& r.name.len() > 0
    &&& match r.pattern {
        PatternModel::Contains { pattern, case_sensitive } => pattern.len() > 0 && !case_sensitive,
        PatternModel::Regex { pattern } => pattern.len() > 0,
        PatternModel::Other => false,
    }
    &&& exists|sound: bool, desktop: bool, title: Seq<char>, webhook: bool, url: Seq<char>|
        r.actions == #[trigger] form_actions(
            AlertForm {
                name: r.name,
                pattern: seq![],
                use_regex: false,
                sound,
                desktop,
                desktop_title: title,
                webhook,
                webhook_url: url,
                cooldown: seq![],
            },
        )
}

impl AlertDialogState {
    /// An empty, closed form.
    pub fn new() -> (r: AlertDialogState)
        ensures
            !r.open,
            r.editing_index is None,
            r.form() == (AlertForm {
                name: seq![],
                pattern: seq![],
                use_regex: false,
                sound: false,
                desktop: false,
                desktop_title: seq![],
                webhook: false,
                webhook_url: seq![],
                cooldown: seq![],
            }),
    {
        AlertDialogState {
            open: false,
            editing_index: None,
            name: String::new(),
            pattern: String::new(),
            use_regex: false,
            sound_enabled: false,
            desktop_enabled: false,
            desktop_title: String::new(),
            webhook_enabled: false,
            webhook_url: String::new(),
            cooldown_seconds: String::new(),
        }
    }

    /// Clears the form for a new rule.
    pub fn reset_form(&mut self)
        ensures
            final(self).open == old(self).open,
            final(self).editing_index is None,
            final(self).form() == (AlertForm {
                name: seq![],
                pattern: seq![],
                use_regex: false,
                sound: false,
                desktop: false,
                desktop_title: seq![],
                webhook: false,
                webhook_url: seq![],
                cooldown: seq![],
            }),
    {
        self.editing_index = None;
        self.name = String::new();
        self.pattern = String::new();
        self.use_regex = false;
        self.sound_enabled = false;
        self.desktop_enabled = false;
        self.desktop_title = String::new();
        self.webhook_enabled = false;
        self.webhook_url = String::new();
        self.cooldown_seconds = String::new();
    }

    /// Fills the form from the rule at position `index`, for editing.
    pub fn load_rule(&mut self, index: usize, rule: &AlertRule)
        ensures
            final(self).open == old(self).open,
            final(self).editing_index == Some(index),
            final(self).form() == loaded_form(rule_model(*rule)),
    {
        self.editing_index = Some(index);
        self.name = copy_str(rule.name.as_str());
        match &rule.pattern {
            FilterRule::Contains { pattern, .. } => {
                self.pattern = copy_str(pattern.as_str());
                self.use_regex = false;
            },
            FilterRule::Regex { pattern } => {
                self.pattern = copy_str(pattern.as_str());
                self.use_regex = true;
            },
            _ => {
                self.pattern = String::new();
                self.use_regex = false;
            },
        }
        self.sound_enabled = false;
        self.desktop_enabled = false;
        self.desktop_title = String::new();
        self.webhook_enabled = false;
        self.webhook_url = String::new();
        let ghost acts = action_views(rule.actions@);
        let mut i: usize = 0;
        while i < rule.actions.len()
            invariant
                acts == action_views(rule.actions@),
                i <= rule.actions@.len(),
                self.sound_enabled == has_sound(acts.take(i as int)),
                self.desktop_enabled == last_desktop_title(acts.take(i as int)) is Some,
                self.desktop_title@ == match last_desktop_title(acts.take(i as int)) {
                    Some(t) => t,
                    None => Seq::<char>::empty(),
                },
                self.webhook_enabled == last_webhook_url(acts.take(i as int)) is Some,
                self.webhook_url@ == match last_webhook_url(acts.take(i as int)) {
                    Some(u) => u,
                    None => Seq::<char>::empty(),
                },
                self.name@ == rule.name@,
                self.editing_index == Some(index),
                self.open == old(self).open,
                self.pattern@ == loaded_form(rule_model(*rule)).pattern,
                self.use_regex == loaded_form(rule_model(*rule)).use_regex,
            decreases rule.actions@.len() - i,
        {
            let ghost pre = acts.take(i as int);
            let ghost post = acts.take(i + 1);
            assert(post.drop_last() =~= pre);
            assert(post.last() == rule.actions@[i as int]@);
            match &rule.actions[i] {
                AlertAction::Sound => {
                    self.sound_enabled = true;
                },
                AlertAction::Desktop { title } => {
                    self.desktop_enabled = true;
                    self.desktop_title = match title {
                        Some(t) => copy_str(t.as_str()),
                        None => String::new(),
                    };
                },
                AlertAction::Webhook { url } => {
                    self.webhook_enabled = true;
                    self.webhook_url = copy_str(url.as_str());
                },
                AlertAction::Visual => {},
            }
            proof {
                if has_sound(post) && !(post.last() is Sound) {
                    let k = choose|k: int| 0 <= k < post.len() && post[k] is Sound;
                    assert(pre[k] is Sound);
                }
                if has_sound(pre) {
                    let k = choose|k: int| 0 <= k < pre.len() && pre[k] is Sound;
                    assert(post[k] is Sound);
                }
                if post.last() is Sound {
                    assert(post[post.len() - 1] is Sound);
                }
            }
            i += 1;
        }
        assert(acts.take(rule.actions@.len() as int) =~= acts);
        self.cooldown_seconds = match rule.cooldown_seconds {
            Some(s) => u64_to_string(s),
            None => String::new(),
        };
    }

    /// The rule the form gives, if it has a name and a pattern.
    pub fn build_rule(&self) -> (r: Option<AlertRule>)
        ensures
            match r {
                Some(rule) => built_rule(self.form()) == Some(rule_model(rule)),
                None => built_rule(self.form()) is None,
            },
    {
        if self.name.as_str().is_empty() || self.pattern.as_str().is_empty() {
            return None;
        }
        let pattern = if self.use_regex {
            FilterRule::Regex { pattern: copy_str(self.pattern.as_str()) }
        } else {
            FilterRule::Contains { pattern: copy_str(self.pattern.as_str()), case_sensitive: false }
        };
        let mut actions: Vec<AlertAction> = Vec::new();
        if self.sound_enabled {
            actions.push(AlertAction::Sound);
        }
        let ghost a1 = action_views(actions@);
        if self.desktop_enabled {
            let title = if self.desktop_title.as_str().is_empty() {
                None
            } else {
                Some(copy_str(self.desktop_title.as_str()))
            };
            actions.push(AlertAction::Desktop { title });
        }
        let ghost a2 = action_views(actions@);
        if self.webhook_enabled && !self.webhook_url.as_str().is_empty() {
            actions.push(AlertAction::Webhook { url: copy_str(self.webhook_url.as_str()) });
        }
        let cooldown_seconds = parse_unsigned(self.cooldown_seconds.as_str(), u64::MAX);
        let rule = AlertRule {
            name: copy_str(self.name.as_str()),
            pattern,
            actions,
            cooldown_seconds,
        };
        proof {
            assert(action_views(rule.actions@) =~= form_actions(self.form()));
        }
        Some(rule)
    }
}

/// Reading back a number written in decimal gives the number.
pub proof fn lemma_decimal_reads_back(n: nat)
    ensures
        unsigned_value(decimal(n)) == Some(n),
        decimal(n).len() > 0,
    decreases n,
{
    lemma_decimal_digits(n);
}

proof fn lemma_digit_char(d: nat)
    requires
        d < 10,
    ensures
        '0' <= ((('0' as nat) + d) as char) <= '9',
        ((('0' as nat) + d) as char) as nat - ('0' as nat) == d,
{
    if d == 0 {
        assert((('0' as nat) + d) as char == '0');
    } else if d == 1 {
        assert((('0' as nat) + d) as char == '1');
    } else if d == 2 {
        assert((('0' as nat) + d) as char == '2');
    } else if d == 3 {
        assert((('0' as nat) + d) as char == '3');
    } else if d == 4 {
        assert((('0' as nat) + d) as char == '4');
    } else if d == 5 {
        assert((('0' as nat) + d) as char == '5');
    } else if d == 6 {
        assert((('0' as nat) + d) as char == '6');
    } else if d == 7 {
        assert((('0' as nat) + d) as char == '7');
    } else if d == 8 {
        assert((('0' as nat) + d) as char == '8');
    } else {
        assert((('0' as nat) + d) as char == '9');
    }
}

proof fn lemma_decimal_digits(n: nat)
    ensures
        decimal(n).len() > 0,
        all_digits(decimal(n)),
        digits_value(decimal(n)) == n,
        decimal(n)[0] != '+',
    decreases n,
{
    if n < 10 {
        let c = (('0' as nat) + n) as char;
        lemma_digit_char(n);
        assert(decimal(n) == seq![c]);
        assert(seq![c].drop_last() =~= Seq::<char>::empty());
        assert(digits_value(seq![c]) == digits_value(Seq::<char>::empty()) * 10 + (c as nat - '0' as nat) as nat);
    } else {
        lemma_decimal_digits(n / 10);
        let d = decimal(n / 10);
        let c = (('0' as nat) + n % 10) as char;
        lemma_digit_char(n % 10);
        assert(decimal(n) == d.push(c));
        assert(d.push(c).drop_last() =~= d);
        assert(decimal(n)[0] == d[0]);
        assert(digits_value(d.push(c)) == digits_value(d) * 10 + (c as nat - '0' as nat) as nat);
        assert((n / 10) * 10 + n % 10 == n);
    }
}

/// Loading a rule the form can express into the form and building a rule
/// from the form gives the same rule back.
pub proof fn lemma_alert_form_round_trip(r: AlertRuleModel)
    requires
        form_expressible(r),
    ensures
        built_rule(loaded_form(r)) == Some(r),
{
    let (sound, desktop, title, webhook, url) = choose|sound: bool, desktop: bool, title: Seq<char>, webhook: bool, url: Seq<char>|
        r.actions == #[trigger] form_actions(
            AlertForm {
                name: r.name,
                pattern: seq![],
                use_regex: false,
                sound,
                desktop,
                desktop_title: title,
                webhook,
                webhook_url: url,
                cooldown: seq![],
            },
        );
    let f = loaded_form(r);
    let acts = r.actions;
    // The sound is there exactly when chosen.
    if sound {
        assert(acts[0] is Sound);
    } else {
        assert forall|i: int| 0 <= i < acts.len() implies !(acts[i] is Sound) by {}
    }
    // The desktop and webhook actions are recovered from the end.
    let s_part: Seq<AlertActionModel> = if sound { seq![AlertActionModel::Sound] } else { seq![] };
    let d_part: Seq<AlertActionModel> = if desktop {
        seq![AlertActionModel::Desktop { title: if title.len() == 0 { None } else { Some(title) } }]
    } else {
        seq![]
    };
    let w_part: Seq<AlertActionModel> = if webhook && url.len() > 0 {
        seq![AlertActionModel::Webhook { url }]
    } else {
        seq![]
    };
    assert(acts == s_part + d_part + w_part);
    assert(last_desktop_title(s_part) is None) by {
        if sound {
            assert(s_part.drop_last() =~= Seq::<AlertActionModel>::empty());
            assert(s_part.last() == AlertActionModel::Sound);
            assert(last_desktop_title(s_part.drop_last()) is None);
        }
    }
    assert(last_webhook_url(s_part) is None) by {
        if sound {
            assert(s_part.drop_last() =~= Seq::<AlertActionModel>::empty());
            assert(s_part.last() == AlertActionModel::Sound);
            assert(last_webhook_url(s_part.drop_last()) is None);
        }
    }
    let sd = s_part + d_part;
    assert(last_desktop_title(sd) == if desktop { Some(title) } else { None }) by {
        if desktop {
            assert(sd.last() == d_part[0]);
        } else {
            assert(sd =~= s_part);
        }
    }
    assert(last_webhook_url(sd) is None) by {
        if desktop {
            assert(sd.drop_last() =~= s_part);
        } else {
            assert(sd =~= s_part);
        }
    }
    assert(last_desktop_title(acts) == last_desktop_title(sd)) by {
        if webhook && url.len() > 0 {
            assert(acts.drop_last() =~= sd);
        } else {
            assert(acts =~= sd);
        }
    }
    assert(last_webhook_url(acts) == if webhook && url.len() > 0 { Some(url) } else { None }) by {
        if webhook && url.len() > 0 {
            assert(acts.last() == w_part[0]);
        } else {
            assert(acts =~= sd);
        }
    }
    match r.cooldown {
        Some(s) => {
            lemma_decimal_reads_back(s as nat);
        },
        None => {
            assert(unsigned_value(Seq::<char>::empty()) is None);
        },
    }
    assert(form_actions(f) =~= acts);
}

/// What the alert form asks for when it closes.
pub enum AlertDialogResult {
    /// Nothing to do.
    NoAction,
    Save(AlertRule),
    Update(usize, AlertRule),
    Delete(usize),
}

// ---------------------------------------------------------------------------
// SSH sources

/// An SSH source as saved between sessions.
pub struct SavedSshSource {
    pub name: String,
    pub host: String,
    pub port: u16,
    pub user: String,
    pub remote_path: String,
    pub key_path: Option<String>,
    pub auto_open: bool,
}

/// The SSH source form.
pub struct SshDialogState {
    pub open: bool,
    pub editing: Option<String>,
    pub name: String,
    pub host: String,
    pub port: String,
    pub user: String,
    pub remote_path: String,
    pub key_path: String,
    pub password: String,
    pub error: Option<String>,
    pub auto_open: bool,
}

impl SshDialogState {
    /// An empty, closed form.
    pub fn new() -> (r: SshDialogState)
        ensures
            !r.open,
            r.editing is None,
            r.name@.len() == 0 && r.host@.len() == 0 && r.port@.len() == 0 && r.user@.len() == 0,
            r.remote_path@.len() == 0 && r.key_path@.len() == 0 && r.password@.len() == 0,
            r.error is None,
            !r.auto_open,
    {
        SshDialogState {
            open: false,
            editing: None,
            name: String::new(),
            host: String::new(),
            port: String::new(),
            user: String::new(),
            remote_path: String::new(),
            key_path: String::new(),
            password: String::new(),
            error: None,
            auto_open: false,
        }
    }

    /// Clears the form for a new source, on port 22.
    pub fn reset(&mut self)
        ensures
            final(self).open == old(self).open,
            final(self).editing is None,
            final(self).name@.len() == 0,
            final(self).host@.len() == 0,
            final(self).port@ == "22"@,
            final(self).user@.len() == 0,
            final(self).remote_path@.len() == 0,
            final(self).key_path@.len() == 0,
            final(self).password@.len() == 0,
            final(self).error is None,
            !final(self).auto_open,
    {
        self.editing = None;
        self.name = String::new();
        self.host = String::new();
        self.port = copy_str("22");
        self.user = String::new();
        self.remote_path = String::new();
        self.key_path = String::new();
        self.password = String::new();
        self.error = None;
        self.auto_open = false;
    }

    /// Fills the form from a saved source, for editing, with its stored
    /// password (empty when none is stored).
    pub fn load_from_saved(&mut self, source: &SavedSshSource, stored_password: Option<String>)
        ensures
            final(self).open == old(self).open,
            opt_view(final(self).editing) == Some(source.name@),
            final(self).name@ == source.name@,
            final(self).host@ == source.host@,
            final(self).port@ == decimal(source.port as nat),
            final(self).user@ == source.user@,
            final(self).remote_path@ == source.remote_path@,
            final(self).key_path@ == (match opt_view(source.key_path) {
                Some(k) => k,
                None => Seq::<char>::empty(),
            }),
            final(self).password@ == (match opt_view(stored_password) {
                Some(p) => p,
                None => Seq::<char>::empty(),
            }),
            final(self).error is None,
            final(self).auto_open == source.auto_open,
    {
        self.editing = Some(copy_str(source.name.as_str()));
        self.name = copy_str(source.name.as_str());
        self.host = copy_str(source.host.as_str());
        self.port = u64_to_string(source.port as u64);
        self.user = copy_str(source.user.as_str());
        self.remote_path = copy_str(source.remote_path.as_str());
        self.key_path = match &source.key_path {
            Some(k) => copy_str(k.as_str()),
            None => String::new(),
        };
        self.password = match stored_password {
            Some(p) => p,
            None => String::new(),
        };
        self.error = None;
        self.auto_open = source.auto_open;
    }

    /// The source the form describes: the port read as a number (22 when it
    /// is not one), no key path when it is empty.
    pub fn to_saved(&self) -> (r: SavedSshSource)
        ensures
            r.name@ == self.name@,
            r.host@ == self.host@,
            r.port == (match unsigned_value(self.port@) {
                Some(v) => if v <= u16::MAX {
                    v as u16
                } else {
                    22
                },
                None => 22,
            }),
            r.user@ == self.user@,
            r.remote_path@ == self.remote_path@,
            opt_view(r.key_path) == (if self.key_path@.len() == 0 {
                None
            } else {
                Some(self.key_path@)
            }),
            r.auto_open == self.auto_open,
    {
        let port = match parse_unsigned(self.port.as_str(), 65535) {
            Some(p) => p as u16,
            None => 22,
        };
        SavedSshSource {
            name: copy_str(self.name.as_str()),
            host: copy_str(self.host.as_str()),
            port,
            user: copy_str(self.user.as_str()),
            remote_path: copy_str(self.remote_path.as_str()),
            key_path: if self.key_path.as_str().is_empty() {
                None
            } else {
                Some(copy_str(self.key_path.as_str()))
            },
            auto_open: self.auto_open,
        }
    }
}

/// Saving a source into the form and reading it back gives the same source
/// (with the key path as an empty field when there is none).
pub proof fn lemma_ssh_form_round_trip(port: u16)
    ensures
        (match unsigned_value(decimal(port as nat)) {
            Some(v) => if v <= u16::MAX {
                v as u16
            } else {
                22
            },
            None => 22,
        }) == port,
{
    lemma_decimal_reads_back(port as nat);
}

/// What the SSH form asks for when it closes: save the source, or save and
/// connect, with the password when one was typed.
pub enum SshDialogResult {
    /// Nothing to do.
    NoAction,
    Save(SavedSshSource, Option<String>),
    Connect(SavedSshSource, Option<String>),
}

/// The first required field that is empty, as a message; `None` when all
/// are filled.
pub open spec fn ssh_form_error(name: Seq<char>, host: Seq<char>, user: Seq<char>, path: Seq<char>) -> Option<Seq<char>> {
    if name.len() == 0 {
        Some("Name is required"@)
    } else if host.len() == 0 {
        Some("Host is required"@)
    } else if user.len() == 0 {
        Some("User is required"@)
    } else if path.len() == 0 {
        Some("Remote path is required"@)
    } else {
        None
    }
}

/// Checks that the form's name, host, user and remote path are filled.
pub fn validate_ssh_dialog(dialog: &SshDialogState) -> (r: Option<String>)
    ensures
        opt_view(r) == ssh_form_error(dialog.name@, dialog.host@, dialog.user@, dialog.remote_path@),
{
    if dialog.name.as_str().is_empty() {
        return Some(copy_str("Name is required"));
    }
    if dialog.host.as_str().is_empty() {
        return Some(copy_str("Host is required"));
    }
    if dialog.user.as_str().is_empty() {
        return Some(copy_str("User is required"));
    }
    if dialog.remote_path.as_str().is_empty() {
        return Some(copy_str("Remote path is required"));
    }
    None
}

// ---------------------------------------------------------------------------
// Highlight rules

/// A rule that paints lines containing its pattern.
pub struct HighlightRule {
    pub pattern: String,
    pub foreground: Rgba,
    pub background: Rgba,
    pub bold: bool,
    pub italic: bool,
    pub ignore_case: bool,
    pub enabled: bool,
}

impl Default for HighlightRule {
    fn default() -> (r: HighlightRule)
        ensures
            r.pattern@.len() == 0,
            r.foreground == opaque(255, 255, 255),
            r.background == opaque(200, 50, 50),
            !r.bold,
            !r.italic,
            r.ignore_case,
            r.enabled,
    {
        HighlightRule {
            pattern: String::new(),
            foreground: Rgba { r: 255, g: 255, b: 255, a: 255 },
            background: Rgba { r: 200, g: 50, b: 50, a: 255 },
            bold: false,
            italic: false,
            ignore_case: true,
            enabled: true,
        }
    }
}

/// Whether an enabled rule with a pattern matches `text` (comparing in
/// lowercase when it ignores case).
pub open spec fn highlight_matches(rule: HighlightRule, text: Seq<char>) -> bool {
    rule.pattern@.len() > 0 && rule.enabled && if rule.ignore_case {
        contains(lowercase(text), lowercase(rule.pattern@))
    } else {
        contains(text, rule.pattern@)
    }
}

impl HighlightRule {
    /// Whether the rule paints `text`.
    pub fn matches(&self, text: &str) -> (r: bool)
        ensures
            r == highlight_matches(*self, text@),
    {
        if self.pattern.as_str().is_empty() || !self.enabled {
            return false;
        }
        if self.ignore_case {
            let t = to_lowercase(text);
            let p = to_lowercase(self.pattern.as_str());
            contains_str(t.as_str(), p.as_str())
        } else {
            contains_str(text, self.pattern.as_str())
        }
    }
}

/// The first rule that paints `text`, if any.
pub fn find_matching_highlight<'a>(rules: &'a [HighlightRule], text: &str) -> (r: Option<
    &'a HighlightRule,
>)
    ensures
        match r {
            Some(rule) => exists|i: int|
                0 <= i < rules@.len() && rules@[i] == *rule && highlight_matches(*rule, text@)
                    && forall|j: int| 0 <= j < i ==> !highlight_matches(#[trigger] rules@[j], text@),
            None => forall|j: int| 0 <= j < rules@.len() ==> !highlight_matches(#[trigger] rules@[j], text@),
        },
{
    let mut i: usize = 0;
    while i < rules.len()
        invariant
            i <= rules@.len(),
            forall|j: int| 0 <= j < i ==> !highlight_matches(#[trigger] rules@[j], text@),
        decreases rules@.len() - i,
    {
        if rules[i].matches(text) {
            return Some(&rules[i]);
        }
        i += 1;
    }
    None
}

/// The highlight rules offered by default: `ERROR` in white on red, bold,
/// and `WARN` in black on amber, both ignoring case.
pub fn default_highlight_rules() -> (r: Vec<HighlightRule>)
    ensures
        r@.len() == 2,
        r@[0].pattern@ == "ERROR"@,
        r@[0].foreground == opaque(255, 255, 255),
        r@[0].background == opaque(180, 40, 40),
        r@[0].bold && !r@[0].italic && r@[0].ignore_case && r@[0].enabled,
        r@[1].pattern@ == "WARN"@,
        r@[1].foreground == opaque(0, 0, 0),
        r@[1].background == opaque(230, 180, 50),
        !r@[1].bold && !r@[1].italic && r@[1].ignore_case && r@[1].enabled,
{
    let mut r: Vec<HighlightRule> = Vec::new();
    r.push(
        HighlightRule {
            pattern: copy_str("ERROR"),
            foreground: Rgba { r: 255, g: 255, b: 255, a: 255 },
            background: Rgba { r: 180, g: 40, b: 40, a: 255 },
            bold: true,
            italic: false,
            ignore_case: true,
            enabled: true,
        },
    );
    r.push(
        HighlightRule {
            pattern: copy_str("WARN"),
            foreground: Rgba { r: 0, g: 0, b: 0, a: 255 },
            background: Rgba { r: 230, g: 180, b: 50, a: 255 },
            bold: false,
            italic: false,
            ignore_case: true,
            enabled: true,
        },
    );
    r
}

/// The highlight form: which rule is edited, and its fields.
pub struct HighlightDialogState {
    pub open: bool,
    pub editing_index: Option<usize>,
    pub current_rule: HighlightRule,
}

/// What the settings form asks for when it closes.
pub enum SettingsDialogResult {
    /// Nothing to do.
    NoAction,
    Apply,
    Save,
    OpenHighlightDialog,
}

} // verus!

//! SSH sources: known host keys read from a `known_hosts` file and the
//! verdict on a server's key, the keys tried for authentication and the
//! message when none works, and the source's settings. Connecting and
//! reading are left to the caller.
use vstd::prelude::*;
use crate::models::{SourceInfo, SourceType};
use crate::paths::{join_path, joined_path};
use crate::strmap::StrMap;
use crate::text::{
    concat, copy_str, decimal, first_index_of, join_with, joined, split_char, split_on, split_whitespace,
    string_views, trim, trim_string, u64_to_string, words,
};

verus! {

/// Whether a server's key is known.
#[derive(Clone, Copy, Debug, PartialEq, Eq, Structural)]
pub enum HostKeyStatus {
    /// The host is listed with this key.
    Known,
    /// The host is listed, but not with this key.
    Changed,
    /// The host is not listed.
    Unknown,
}

/// `s` without the `[` characters it starts with.
pub open spec fn strip_open_brackets(s: Seq<char>) -> Seq<char>
    decreases s.len(),
{
    if s.len() > 0 && s[0] == '[' {
        strip_open_brackets(s.drop_first())
    } else {
        s
    }
}

/// `s` with each `]:` replaced by `:`, left to right.
pub open spec fn replace_close_port(s: Seq<char>) -> Seq<char>
    decreases s.len(),
{
    if s.len() >= 2 && s[0] == ']' && s[1] == ':' {
        seq![':'] + replace_close_port(s.skip(2))
    } else if s.len() > 0 {
        seq![s[0]] + replace_close_port(s.drop_first())
    } else {
        seq![]
    }
}

/// A host name from `known_hosts` as it is looked up: `[host]:port` becomes
/// `host:port`.
pub open spec fn normalized_host(h: Seq<char>) -> Seq<char> {
    replace_close_port(strip_open_brackets(h))
}

/// Normalizes a host name from `known_hosts`: drops the leading `[`s and
/// replaces each `]:` by `:`.
pub fn normalize_hostname(hostname: &str) -> (r: String)
    ensures
        r@ == normalized_host(hostname@),
{
    let cs = crate::text::chars_of(hostname);
    let n = cs.len();
    let mut lo: usize = 0;
    assert(cs@.skip(0) =~= cs@);
    while lo < n && cs[lo] == '['
        invariant
            lo <= n == cs@.len(),
            cs@ == hostname@,
            strip_open_brackets(cs@.skip(lo as int)) == strip_open_brackets(hostname@),
        decreases n - lo,
    {
        assert(cs@.skip(lo as int).drop_first() =~= cs@.skip(lo + 1));
        lo += 1;
    }
    assert(strip_open_brackets(cs@.skip(lo as int)) == cs@.skip(lo as int));
    assert(hostname@.skip(0) =~= hostname@);
    let mut r = String::new();
    let mut i = lo;
    while i < n
        invariant
            lo <= i <= n == cs@.len(),
            r@ + replace_close_port(cs@.skip(i as int)) == normalized_host(hostname@),
        decreases n - i,
    {
        if i + 1 < n && cs[i] == ']' && cs[i + 1] == ':' {
            crate::text::push_char(&mut r, ':');
            assert(cs@.skip(i as int).skip(2) =~= cs@.skip(i + 2));
            assert(r@ + replace_close_port(cs@.skip(i + 2)) =~= normalized_host(hostname@));
            i += 2;
        } else {
            crate::text::push_char(&mut r, cs[i]);
            assert(cs@.skip(i as int).drop_first() =~= cs@.skip(i + 1));
            assert(r@ + replace_close_port(cs@.skip(i + 1)) =~= normalized_host(hostname@));
            i += 1;
        }
    }
    assert(cs@.skip(n as int) =~= Seq::<char>::empty());
    assert(r@ + Seq::<char>::empty() =~= r@);
    r
}

/// The name a host is listed under: the host for port 22, else `[host]:port`.
pub open spec fn host_key_name(host: Seq<char>, port: u16) -> Seq<char> {
    if port == 22 {
        host
    } else {
        "["@ + host + "]:"@ + decimal(port as nat)
    }
}

/// The name a host is listed under for `port`.
pub fn format_host_key(host: &str, port: u16) -> (r: String)
    ensures
        r@ == host_key_name(host@, port),
{
    if port == 22 {
        copy_str(host)
    } else {
        let mut r = concat("[", host);
        r.append("]:");
        let p = u64_to_string(port as u64);
        r.append(p.as_str());
        r
    }
}

/// The listed keys of each host name.
pub type KnownKeys = Map<Seq<char>, Seq<Seq<char>>>;

/// `fp` appended to the keys of each of `names` in turn.
pub open spec fn add_key_to_all(m: KnownKeys, names: Seq<Seq<char>>, fp: Seq<char>) -> KnownKeys
    decreases names.len(),
{
    if names.len() == 0 {
        m
    } else {
        let prev = add_key_to_all(m, names.drop_last(), fp);
        let name = names.last();
        let list = if prev.contains_key(name) {
            prev[name]
        } else {
            seq![]
        };
        prev.insert(name, list.push(fp))
    }
}

/// The host names of a `known_hosts` entry's first field that are listed:
/// each comma-separated name that is not hashed (does not start with `|`),
/// normalized.
pub open spec fn plain_host_names(names: Seq<Seq<char>>) -> Seq<Seq<char>>
    decreases names.len(),
{
    if names.len() == 0 {
        seq![]
    } else {
        let rest = plain_host_names(names.drop_last());
        if names.last().len() > 0 && names.last()[0] == '|' {
            rest
        } else {
            rest.push(normalized_host(names.last()))
        }
    }
}

/// The keys listed after reading one `known_hosts` line: a line that is not
/// blank or a comment and has at least three fields lists `type:data` for
/// each plain host name of its first field.
pub open spec fn after_line(m: KnownKeys, line: Seq<char>) -> KnownKeys {
    let t = trim(line);
    let parts = words(t);
    if t.len() == 0 || t[0] == '#' || parts.len() < 3 {
        m
    } else {
        add_key_to_all(m, plain_host_names(split_on(parts[0], ',')), parts[1] + ":"@ + parts[2])
    }
}

/// The keys listed after reading `lines` in order.
pub open spec fn after_lines(m: KnownKeys, lines: Seq<Seq<char>>) -> KnownKeys
    decreases lines.len(),
{
    if lines.len() == 0 {
        m
    } else {
        after_line(after_lines(m, lines.drop_last()), lines.last())
    }
}

/// The keys listed for `names` (tried in order) decide the status of `fp`:
/// the first listed name decides, `Known` when `fp` is among its keys.
pub open spec fn status_among(m: KnownKeys, names: Seq<Seq<char>>, fp: Seq<char>) -> HostKeyStatus
    decreases names.len(),
{
    if names.len() == 0 {
        HostKeyStatus::Unknown
    } else if m.contains_key(names[0]) {
        if m[names[0]].contains(fp) {
            HostKeyStatus::Known
        } else {
            HostKeyStatus::Changed
        }
    } else {
        status_among(m, names.drop_first(), fp)
    }
}

/// The names a host is looked up under: its listed name, normalized as the
/// names read from `known_hosts` are (so `[host]:port` is found as
/// `host:port`, and port 22 as the bare host).
pub open spec fn lookup_names(host: Seq<char>, port: u16) -> Seq<Seq<char>> {
    seq![normalized_host(host_key_name(host, port))]
}

/// `line` of a `known_hosts` file lists, under a single plain name written as
/// [`format_host_key`] writes it for `host` on `port`, the key it ends with.
pub open spec fn lists_host(line: Seq<char>, host: Seq<char>, port: u16) -> bool {
    let t = trim(line);
    let parts = words(t);
    &&& t.len() > 0
    &&& t[0] != '#'
    &&& parts.len() >= 3
    &&& parts[0] == host_key_name(host, port)
    &&& !parts[0].contains(',')
    &&& !(parts[0].len() > 0 && parts[0][0] == '|')
}

/// The fingerprint (`type:data`) of the key a `known_hosts` line lists.
pub open spec fn line_fingerprint(line: Seq<char>) -> Seq<char> {
    let parts = words(trim(line));
    parts[1] + ":"@ + parts[2]
}

proof fn lemma_no_separator(s: Seq<char>, c: char)
    requires
        !s.contains(c),
    ensures
        first_index_of(s, c) is None,
        split_on(s, c) == seq![s],
    decreases s.len(),
{
    if s.len() > 0 {
        assert(s[0] != c);
        assert(!s.drop_first().contains(c)) by {
            if s.drop_first().contains(c) {
                let k = choose|k: int| 0 <= k < s.drop_first().len() && s.drop_first()[k] == c;
                assert(s[k + 1] == c);
            }
        }
        lemma_no_separator(s.drop_first(), c);
    }
}

/// A host listed by a line of `known_hosts` is then found: its key reads as
/// known, and any other key it was not already listed with reads as changed
/// (a possible attack), on any port.
pub proof fn lemma_listed_host_is_found(m: KnownKeys, line: Seq<char>, host: Seq<char>, port: u16, other: Seq<char>)
    requires
        lists_host(line, host, port),
    ensures
        status_among(after_line(m, line), lookup_names(host, port), line_fingerprint(line)) == HostKeyStatus::Known,
        other != line_fingerprint(line) && !(m.contains_key(normalized_host(host_key_name(host, port)))
            && m[normalized_host(host_key_name(host, port))].contains(other)) ==> status_among(
            after_line(m, line),
            lookup_names(host, port),
            other,
        ) == HostKeyStatus::Changed,
{
    let parts = words(trim(line));
    let name = parts[0];
    let n = normalized_host(name);
    let fp = line_fingerprint(line);
    lemma_no_separator(name, ',');
    let names = split_on(name, ',');
    assert(names.drop_last() =~= Seq::<Seq<char>>::empty());
    assert(names.last() == name);
    assert(plain_host_names(names.drop_last()) == Seq::<Seq<char>>::empty());
    assert(plain_host_names(names) =~= seq![n]);
    let ns = seq![n];
    assert(ns.drop_last() =~= Seq::<Seq<char>>::empty());
    assert(ns.last() == n);
    assert(add_key_to_all(m, ns.drop_last(), fp) == m);
    let list = if m.contains_key(n) {
        m[n]
    } else {
        seq![]
    };
    assert(after_line(m, line) == m.insert(n, list.push(fp)));
    assert(list.push(fp)[list.len() as int] == fp);
    assert(lookup_names(host, port)[0] == n);
    if other != fp && !(m.contains_key(n) && m[n].contains(other)) {
        assert(!list.push(fp).contains(other)) by {
            if list.push(fp).contains(other) {
                let k = choose|k: int| 0 <= k < list.push(fp).len() && list.push(fp)[k] == other;
                if k < list.len() {
                    assert(list[k] == other);
                }
            }
        }
    }
}

/// A store read from lines whose last lists a host finds that host's key.
pub proof fn lemma_loaded_host_is_known(lines: Seq<Seq<char>>, host: Seq<char>, port: u16)
    requires
        lines.len() > 0,
        lists_host(lines.last(), host, port),
    ensures
        status_among(after_lines(KnownKeys::empty(), lines), lookup_names(host, port), line_fingerprint(lines.last()))
            == HostKeyStatus::Known,
{
    lemma_listed_host_is_found(after_lines(KnownKeys::empty(), lines.drop_last()), lines.last(), host, port, seq![]);
}

/// Accepted host keys by host name.
pub struct KnownHostsStore {
    hosts: StrMap<Vec<String>>,
}

impl KnownHostsStore {
    /// The listed keys of each host name.
    pub closed spec fn known(&self) -> KnownKeys {
        self.hosts.view().map_values(|v: Vec<String>| string_views(v@))
    }

    /// The store's map is consistent.
    pub closed spec fn wf(&self) -> bool {
        self.hosts.wf()
    }

    /// A store with no hosts.
    pub fn new() -> (r: KnownHostsStore)
        ensures
            r.wf(),
            r.known() == KnownKeys::empty(),
    {
        let r = KnownHostsStore { hosts: StrMap::new() };
        assert(r.known() =~= KnownKeys::empty());
        r
    }

    /// Lists `fp` for the host name `name`, after its other keys.
    fn add_key(&mut self, name: String, fp: &str)
        requires
            old(self).wf(),
        ensures
            final(self).wf(),
            final(self).known() == old(self).known().insert(
                name@,
                (if old(self).known().contains_key(name@) {
                    old(self).known()[name@]
                } else {
                    seq![]
                }).push(fp@),
            ),
    {
        let mut list: Vec<String> = match self.hosts.get(name.as_str()) {
            Some(v) => crate::text::copy_strings(v),
            None => Vec::new(),
        };
        list.push(copy_str(fp));
        let ghost name_v = name@;
        let ghost list_v = list@;
        self.hosts.insert(name, list);
        proof {
            assert(string_views(list_v) =~= (if old(self).known().contains_key(name_v) {
                old(self).known()[name_v]
            } else {
                seq![]
            }).push(fp@));
            assert(self.known() =~= old(self).known().insert(name_v, string_views(list_v)));
        }
    }

    /// Reads one line of a `known_hosts` file: `names key-type key-data
    /// [comment]`, skipping blank lines, comments and hashed names.
    pub fn add_line(&mut self, line: &str)
        requires
            old(self).wf(),
        ensures
            final(self).wf(),
            final(self).known() == after_line(old(self).known(), line@),
    {
        let t = trim_string(line);
        let parts = split_whitespace(t.as_str());
        let tcs = crate::text::chars_of(t.as_str());
        if tcs.len() == 0 || tcs[0] == '#' || parts.len() < 3 {
            return;
        }
        let mut fp = concat(parts[1].as_str(), ":");
        fp.append(parts[2].as_str());
        let names = split_char(parts[0].as_str(), ',');
        let ghost all = split_on(parts@[0]@, ',');
        let mut i: usize = 0;
        while i < names.len()
            invariant
                self.wf(),
                all == split_on(parts@[0]@, ','),
                names@.len() == all.len(),
                forall|k: int| 0 <= k < names@.len() ==> #[trigger] names@[k]@ == all[k],
                i <= names@.len(),
                self.known() == add_key_to_all(old(self).known(), plain_host_names(all.take(i as int)), fp@),
            decreases names@.len() - i,
        {
            assert(all.take(i + 1).drop_last() =~= all.take(i as int));
            let hcs = crate::text::chars_of(names[i].as_str());
            if hcs.len() > 0 && hcs[0] == '|' {
            } else {
                let normalized = normalize_hostname(names[i].as_str());
                proof {
                    let before = plain_host_names(all.take(i as int));
                    let after = plain_host_names(all.take(i + 1));
                    assert(after == before.push(normalized@));
                    assert(after.drop_last() =~= before);
                }
                self.add_key(normalized, fp.as_str());
            }
            i += 1;
        }
        assert(all.take(all.len() as int) =~= all);
    }

    /// The store listing what `lines` of a `known_hosts` file list.
    pub fn from_lines(lines: &Vec<String>) -> (r: KnownHostsStore)
        ensures
            r.wf(),
            r.known() == after_lines(KnownKeys::empty(), string_views(lines@)),
    {
        let mut store = KnownHostsStore::new();
        let mut i: usize = 0;
        while i < lines.len()
            invariant
                i <= lines@.len(),
                store.wf(),
                store.known() == after_lines(KnownKeys::empty(), string_views(lines@.take(i as int))),
            decreases lines@.len() - i,
        {
            assert(string_views(lines@.take(i + 1)).drop_last() =~= string_views(lines@.take(i as int)));
            store.add_line(lines[i].as_str());
            i += 1;
        }
        assert(lines@.take(lines@.len() as int) =~= lines@);
        store
    }

    /// The number of host names listed.
    pub fn host_count(&self) -> (r: usize)
        requires
            self.wf(),
        ensures
            r == self.known().dom().len(),
    {
        proof {
            assert(self.known().dom() =~= self.hosts.view().dom());
        }
        self.hosts.len()
    }

    /// Whether the key with fingerprint `fingerprint` (`type:data`) is known
    /// for `host` on `port`: the host's listed name, normalized as the names
    /// of `known_hosts` are when read, decides.
    #[verifier::loop_isolation(false)]
    pub fn is_known(&self, host: &str, port: u16, fingerprint: &str) -> (r: HostKeyStatus)
        requires
            self.wf(),
        ensures
            r == status_among(self.known(), lookup_names(host@, port), fingerprint@),
    {
        let host_key = format_host_key(host, port);
        let mut names: Vec<String> = Vec::new();
        names.push(normalize_hostname(host_key.as_str()));
        let ghost ns = string_views(names@);
        assert(ns =~= lookup_names(host@, port));
        let mut i: usize = 0;
        assert(ns.skip(0) =~= ns);
        while i < names.len()
            invariant
                self.wf(),
                ns == string_views(names@),
                i <= names@.len(),
                status_among(self.known(), ns, fingerprint@) == status_among(self.known(), ns.skip(i as int), fingerprint@),
            decreases names@.len() - i,
        {
            assert(ns.skip(i as int).drop_first() =~= ns.skip(i + 1));
            let ghost rest = ns.skip(i as int);
            assert(rest[0] == names@[i as int]@);
            match self.hosts.get(names[i].as_str()) {
                Some(list) => {
                    assert(self.known().contains_key(names@[i as int]@));
                    assert(self.known()[names@[i as int]@] == string_views(list@));
                    let mut j: usize = 0;
                    while j < list.len()
                        invariant
                            j <= list@.len(),
                            forall|k: int| 0 <= k < j ==> (#[trigger] list@[k])@ != fingerprint@,
                        decreases list@.len() - j,
                    {
                        if crate::text::str_eq(list[j].as_str(), fingerprint) {
                            proof {
                                assert(string_views(list@)[j as int] == fingerprint@);
                            }
                            return HostKeyStatus::Known;
                        }
                        j += 1;
                    }
                    proof {
                        assert(!string_views(list@).contains(fingerprint@)) by {
                            if string_views(list@).contains(fingerprint@) {
                                let k = choose|k: int| 0 <= k < string_views(list@).len() && string_views(list@)[k] == fingerprint@;
                                assert(list@[k]@ == fingerprint@);
                            }
                        }
                    }
                    return HostKeyStatus::Changed;
                },
                None => {
                    assert(!self.known().contains_key(names@[i as int]@));
                },
            }
            i += 1;
        }
        HostKeyStatus::Unknown
    }
}

/// What to do with a server's key: go on for a known or an unknown host
/// (accepting a new key on first use), refuse a changed key with a warning.
pub fn check_server_key(status: HostKeyStatus, host: &str, port: u16) -> (r: Result<bool, String>)
    ensures
        status == HostKeyStatus::Changed <==> r is Err,
        r matches Ok(b) ==> b,
        r matches Err(e) ==> e@ == changed_key_message(host@, port),
{
    match status {
        HostKeyStatus::Known => Ok(true),
        HostKeyStatus::Changed => {
            let mut m = concat("SSH host key has changed for ", host);
            m.append(":");
            let p = u64_to_string(port as u64);
            m.append(p.as_str());
            m.append(
                ". This could indicate a security threat. If you trust this host, remove the old key from ~/.ssh/known_hosts and reconnect.",
            );
            Err(m)
        },
        HostKeyStatus::Unknown => Ok(true),
    }
}

/// The message refusing a changed host key.
pub open spec fn changed_key_message(host: Seq<char>, port: u16) -> Seq<char> {
    "SSH host key has changed for "@ + host + ":"@ + decimal(port as nat)
        + ". This could indicate a security threat. If you trust this host, remove the old key from ~/.ssh/known_hosts and reconnect."@
}

/// The private keys tried, in order: the configured one, then `id_ed25519`,
/// `id_rsa` and `id_ecdsa` in the SSH directory.
pub open spec fn key_candidates(key_path: Option<Seq<char>>, ssh_dir: Seq<char>) -> Seq<Seq<char>> {
    let defaults = seq![
        joined_path(ssh_dir, "id_ed25519"@),
        joined_path(ssh_dir, "id_rsa"@),
        joined_path(ssh_dir, "id_ecdsa"@),
    ];
    match key_path {
        Some(k) => seq![k] + defaults,
        None => defaults,
    }
}

/// The private keys to try, in order.
pub fn keys_to_try(key_path: &Option<String>, ssh_dir: &str) -> (r: Vec<String>)
    ensures
        string_views(r@) == key_candidates(crate::alert::opt_view(*key_path), ssh_dir@),
{
    let mut r: Vec<String> = Vec::new();
    match key_path {
        Some(k) => r.push(copy_str(k.as_str())),
        None => {},
    }
    r.push(join_path(ssh_dir, "id_ed25519"));
    r.push(join_path(ssh_dir, "id_rsa"));
    r.push(join_path(ssh_dir, "id_ecdsa"));
    assert(string_views(r@) =~= key_candidates(crate::alert::opt_view(*key_path), ssh_dir@));
    r
}

/// The message when no key and no password worked: the keys that were tried
/// (or that none were found) and whether a password was tried too.
pub open spec fn auth_failure_text(tried: Seq<Seq<char>>, password_given: bool) -> Seq<char> {
    "SSH authentication failed. "@ + (if tried.len() == 0 {
        "No SSH keys found"@
    } else {
        "Tried keys: "@ + joined(tried, ", "@)
    }) + (if password_given {
        ", also tried password"@
    } else {
        ""@
    })
}

/// The message when authentication failed, given the key files that exist
/// (and so were tried) and whether a password was given.
pub fn auth_failure_message(tried: &Vec<String>, password_given: bool) -> (r: String)
    ensures
        r@ == auth_failure_text(string_views(tried@), password_given),
{
    let mut m = String::from_str("SSH authentication failed. ");
    if tried.len() == 0 {
        m.append("No SSH keys found");
    } else {
        m.append("Tried keys: ");
        let j = join_with(tried, ", ");
        m.append(j.as_str());
    }
    if password_given {
        m.append(", also tried password");
    }
    proof {
        reveal_strlit("");
    }
    m
}

/// What authentication works through: the private key files to try, in
/// order, and the password given, if any.
pub struct AuthPlan {
    pub keys: Vec<String>,
    pub password: Option<String>,
}

impl AuthPlan {
    /// The plan for a source: the keys of [`keys_to_try`], then the password.
    pub fn new(key_path: &Option<String>, ssh_dir: &str, password: Option<String>) -> (r: AuthPlan)
        ensures
            string_views(r.keys@) == key_candidates(crate::alert::opt_view(*key_path), ssh_dir@),
            r.password == password,
    {
        AuthPlan { keys: keys_to_try(key_path, ssh_dir), password }
    }
}

/// How far authentication has got: how many keys were handed out, the key
/// files that existed and were tried, and whether the password was tried.
pub struct AuthState {
    pub next: usize,
    pub tried: Vec<String>,
    pub password_tried: bool,
}

impl AuthState {
    /// Nothing tried yet.
    pub fn start() -> (r: AuthState)
        ensures
            r.next == 0,
            r.tried@.len() == 0,
            !r.password_tried,
    {
        AuthState { next: 0, tried: Vec::new(), password_tried: false }
    }
}

/// What the caller does next to authenticate.
pub enum AuthAction {
    /// Try the private key file at this path (reporting `None` when the file
    /// does not exist, else whether the server accepted it).
    TryKey(String),
    /// Try this password.
    TryPassword(String),
    /// The server accepted the last attempt.
    Authenticated,
    /// Nothing is left to try; the message says what was tried.
    Fail(String),
}

/// Whether a password can be tried: it is given and not empty.
pub open spec fn password_usable(p: Option<Seq<char>>) -> bool {
    p is Some && p->0.len() > 0
}

/// The key files tried after the outcome `last_ok` of the last action: the
/// key last handed out joins them when it existed and was refused.
pub open spec fn tried_after(keys: Seq<Seq<char>>, next: usize, password_tried: bool, tried: Seq<Seq<char>>, last_ok: Option<bool>) -> Seq<Seq<char>> {
    if last_ok == Some(false) && 0 < next <= keys.len() && !password_tried {
        tried.push(keys[next - 1])
    } else {
        tried
    }
}

/// The next step of authentication, given the outcome of the last action
/// (`None` before the first, and for a key file that does not exist): stop
/// at the first success; else hand out the next key in order; after every
/// key, the password once, when it is given and not empty; then fail with
/// [`auth_failure_message`] over the key files tried.
pub fn next_auth_action(plan: &AuthPlan, state: AuthState, last_ok: Option<bool>) -> (r: (AuthState, AuthAction))
    ensures
        ({
            let keys = string_views(plan.keys@);
            let tried = tried_after(keys, state.next, state.password_tried, string_views(state.tried@), last_ok);
            if last_ok == Some(true) {
                &&& r.1 is Authenticated
                &&& r.0.next == state.next
                &&& r.0.tried@ == state.tried@
                &&& r.0.password_tried == state.password_tried
            } else {
                &&& string_views(r.0.tried@) == tried
                &&& if state.next < keys.len() {
                    &&& r.1 matches AuthAction::TryKey(k) && k@ == keys[state.next as int]
                    &&& r.0.next == state.next + 1
                    &&& r.0.password_tried == state.password_tried
                } else if !state.password_tried && password_usable(crate::alert::opt_view(plan.password)) {
                    &&& r.1 matches AuthAction::TryPassword(p) && p@ == plan.password->0@
                    &&& r.0.next == state.next
                    &&& r.0.password_tried
                } else {
                    &&& r.1 matches AuthAction::Fail(m) && m@ == auth_failure_text(tried, plan.password is Some)
                    &&& r.0.next == state.next
                    &&& r.0.password_tried == state.password_tried
                }
            }
        }),
{
    if last_ok == Some(true) {
        return (state, AuthAction::Authenticated);
    }
    let mut st = state;
    if last_ok == Some(false) && 0 < st.next && st.next <= plan.keys.len() && !st.password_tried {
        st.tried.push(copy_str(plan.keys[st.next - 1].as_str()));
        proof {
            assert(string_views(st.tried@) =~= string_views(state.tried@).push(plan.keys@[state.next - 1]@));
        }
    }
    if st.next < plan.keys.len() {
        let k = copy_str(plan.keys[st.next].as_str());
        st.next = st.next + 1;
        return (st, AuthAction::TryKey(k));
    }
    if !st.password_tried {
        match &plan.password {
            Some(p) => {
                if !p.as_str().is_empty() {
                    st.password_tried = true;
                    return (st, AuthAction::TryPassword(copy_str(p.as_str())));
                }
            },
            None => {},
        }
    }
    let m = auth_failure_message(&st.tried, plan.password.is_some());
    (st, AuthAction::Fail(m))
}

/// An SSH source's settings and status.
pub struct SshSource {
    pub name: String,
    pub host: String,
    pub port: u16,
    pub user: String,
    pub path: String,
    pub key_path: Option<String>,
    pub password: Option<String>,
    pub info: SourceInfo,
}

impl SshSource {
    /// A source for `path` on `host` as `user`, on port 22, shown as
    /// `user@host:path`.
    pub fn new(name: String, host: String, user: String, path: String) -> (r: SshSource)
        ensures
            r.name@ == name@,
            r.host@ == host@,
            r.user@ == user@,
            r.path@ == path@,
            r.port == 22,
            r.key_path is None,
            r.password is None,
            r.info.name@ == name@,
            r.info.source_type == SourceType::Ssh,
            r.info.path@ == user@ + "@"@ + host@ + ":"@ + path@,
    {
        let mut display = concat(user.as_str(), "@");
        display.append(host.as_str());
        display.append(":");
        display.append(path.as_str());
        let info = SourceInfo::new(copy_str(name.as_str()), SourceType::Ssh, display);
        SshSource { name, host, port: 22, user, path, key_path: None, password: None, info }
    }

    /// The same source on `port`.
    pub fn with_port(self, port: u16) -> (r: SshSource)
        ensures
            r == (SshSource { port, ..self }),
    {
        SshSource { port, ..self }
    }

    /// The same source authenticating with the key at `key_path` first.
    pub fn with_key_path(self, key_path: String) -> (r: SshSource)
        ensures
            r == (SshSource { key_path: Some(key_path), ..self }),
    {
        SshSource { key_path: Some(key_path), ..self }
    }

    /// The same source with a password to try after the keys.
    pub fn with_password(self, password: String) -> (r: SshSource)
        ensures
            r == (SshSource { password: Some(password), ..self }),
    {
        SshSource { password: Some(password), ..self }
    }
}

} // verus!

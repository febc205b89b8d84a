//! What sources report and what they are told to do.
use vstd::prelude::*;
use crate::models::SourceInfo;

verus! {

/// Something a source reports.
pub enum SourceEvent {
    /// One new line.
    Line { source: String, line: String },
    /// Several new lines, in order.
    Lines { source: String, lines: Vec<String> },
    /// The source's status or size changed.
    StatusChange { source: String, info: SourceInfo },
    /// The source failed.
    Error { source: String, error: String },
}

/// An instruction to the task that owns the sources.
pub enum SourceCommand {
    /// Open and tail a local file.
    AddLocal { name: String, path: String },
    /// Open and tail a file over SSH.
    AddSsh {
        name: String,
        host: String,
        user: String,
        path: String,
        port: Option<u16>,
        key_path: Option<String>,
        password: Option<String>,
    },
    /// Stop a source.
    Remove { name: String },
    /// Stop then restart the named sources, reading each file from the start.
    Reload { names: Vec<String> },
    /// Stop the named sources.
    StopAll { names: Vec<String> },
}

} // verus!

verus! {

/// A local file source's settings and status.
pub struct LocalFileSource {
    pub name: String,
    pub path: String,
    pub info: SourceInfo,
}

impl LocalFileSource {
    /// A source following the file at `path`.
    pub fn new(name: String, path: String) -> (r: LocalFileSource)
        ensures
            r.name@ == name@,
            r.path@ == path@,
            r.info.name@ == name@,
            r.info.source_type == crate::models::SourceType::Local,
            r.info.path@ == path@,
            r.info.status == crate::models::SourceStatus::Disconnected,
    {
        let info = SourceInfo::new(crate::text::copy_str(name.as_str()), crate::models::SourceType::Local, crate::text::copy_str(path.as_str()));
        LocalFileSource { name, path, info }
    }
}

/// A registered source.
pub enum SourceSpec {
    Local(LocalFileSource),
    Ssh(crate::ssh::SshSource),
}

/// What the owner of the sources does with one of them.
pub enum SourceAction {
    Start(String),
    Stop(String),
}

/// The registered sources by name.
pub struct SourceManager {
    sources: crate::strmap::StrMap<SourceSpec>,
}

/// The actions on the registered names among `names`, each as `make` gives.
pub open spec fn actions_for(
    registered: Set<Seq<char>>,
    names: Seq<Seq<char>>,
    start: bool,
) -> Seq<(bool, Seq<char>)>
    decreases names.len(),
{
    if names.len() == 0 {
        seq![]
    } else {
        let rest = actions_for(registered, names.drop_last(), start);
        if registered.contains(names.last()) {
            rest.push((start, names.last()))
        } else {
            rest
        }
    }
}

/// Actions as (whether it starts, the source name).
pub open spec fn action_models(v: Seq<SourceAction>) -> Seq<(bool, Seq<char>)> {
    v.map_values(|a: SourceAction| match a {
        SourceAction::Start(n) => (true, n@),
        SourceAction::Stop(n) => (false, n@),
    })
}

impl SourceManager {
    /// The names of the registered sources.
    pub closed spec fn names(&self) -> Set<Seq<char>> {
        self.sources.view().dom()
    }

    /// The registry is consistent.
    pub closed spec fn wf(&self) -> bool {
        self.sources.wf()
    }

    /// A manager with no sources.
    pub fn new() -> (r: SourceManager)
        ensures
            r.wf(),
            r.names() == Set::<Seq<char>>::empty(),
    {
        SourceManager { sources: crate::strmap::StrMap::new() }
    }

    /// Registers (or replaces) a local source.
    pub fn add_local_source(&mut self, name: String, path: String)
        requires
            old(self).wf(),
        ensures
            final(self).wf(),
            final(self).names() == old(self).names().insert(name@),
    {
        let key = crate::text::copy_str(name.as_str());
        let source = LocalFileSource::new(name, path);
        self.sources.insert(key, SourceSpec::Local(source));
    }

    /// Registers (or replaces) an SSH source, with the port, key and password
    /// given.
    pub fn add_ssh_source(
        &mut self,
        name: String,
        host: String,
        user: String,
        path: String,
        port: Option<u16>,
        key_path: Option<String>,
        password: Option<String>,
    )
        requires
            old(self).wf(),
        ensures
            final(self).wf(),
            final(self).names() == old(self).names().insert(name@),
    {
        let key = crate::text::copy_str(name.as_str());
        let mut source = crate::ssh::SshSource::new(name, host, user, path);
        if let Some(p) = port {
            source = source.with_port(p);
        }
        if let Some(k) = key_path {
            source = source.with_key_path(k);
        }
        if let Some(pwd) = password {
            source = source.with_password(pwd);
        }
        self.sources.insert(key, SourceSpec::Ssh(source));
    }

    /// The registered source named `name`, if any.
    pub fn source(&self, name: &str) -> (r: Option<&SourceSpec>)
        requires
            self.wf(),
        ensures
            r is Some <==> self.names().contains(name@),
    {
        self.sources.get(name)
    }

    /// Start or stop actions for the registered names among `names`.
    fn actions(&self, names: &Vec<String>, start: bool, out: &mut Vec<SourceAction>)
        requires
            self.wf(),
        ensures
            action_models(final(out)@) == action_models(old(out)@) + actions_for(
                self.names(),
                crate::text::string_views(names@),
                start,
            ),
    {
        let ghost base = action_models(out@);
        let mut i: usize = 0;
        while i < names.len()
            invariant
                self.wf(),
                i <= names@.len(),
                action_models(out@) == base + actions_for(
                    self.names(),
                    crate::text::string_views(names@.take(i as int)),
                    start,
                ),
            decreases names@.len() - i,
        {
            assert(crate::text::string_views(names@.take(i + 1)).drop_last() =~= crate::text::string_views(names@.take(i as int)));
            assert(crate::text::string_views(names@.take(i + 1)).last() == names@[i as int]@);
            let ghost prev = action_models(out@);
            if self.sources.contains_key(names[i].as_str()) {
                let n = crate::text::copy_str(names[i].as_str());
                if start {
                    out.push(SourceAction::Start(n));
                } else {
                    out.push(SourceAction::Stop(n));
                }
                assert(action_models(out@) =~= prev.push((start, names@[i as int]@)));
                assert(action_models(out@) =~= base + actions_for(
                    self.names(),
                    crate::text::string_views(names@.take(i + 1)),
                    start,
                ));
            }
            i += 1;
        }
        assert(names@.take(names@.len() as int) =~= names@);
    }

    /// Carries out a command on the registry and gives the start and stop
    /// actions it asks for: a new source is registered and started, a removed
    /// one stopped, a reload stops then starts the named sources, and
    /// stopping all stops them; only registered sources are acted on.
    pub fn run_command(&mut self, cmd: SourceCommand) -> (r: Vec<SourceAction>)
        requires
            old(self).wf(),
        ensures
            final(self).wf(),
            match cmd {
                SourceCommand::AddLocal { name, .. } => final(self).names() == old(self).names().insert(name@)
                    && action_models(r@) == seq![(true, name@)],
                SourceCommand::AddSsh { name, .. } => final(self).names() == old(self).names().insert(name@)
                    && action_models(r@) == seq![(true, name@)],
                SourceCommand::Remove { name } => final(self).names() == old(self).names()
                    && action_models(r@) == actions_for(old(self).names(), seq![name@], false),
                SourceCommand::Reload { names } => final(self).names() == old(self).names()
                    && action_models(r@) == actions_for(old(self).names(), crate::text::string_views(names@), false)
                        + actions_for(old(self).names(), crate::text::string_views(names@), true),
                SourceCommand::StopAll { names } => final(self).names() == old(self).names()
                    && action_models(r@) == actions_for(old(self).names(), crate::text::string_views(names@), false),
            },
    {
        let mut out: Vec<SourceAction> = Vec::new();
        match cmd {
            SourceCommand::AddLocal { name, path } => {
                let n = crate::text::copy_str(name.as_str());
                self.add_local_source(name, path);
                out.push(SourceAction::Start(n));
                assert(action_models(out@) =~= seq![(true, n@)]);
            },
            SourceCommand::AddSsh { name, host, user, path, port, key_path, password } => {
                let n = crate::text::copy_str(name.as_str());
                self.add_ssh_source(name, host, user, path, port, key_path, password);
                out.push(SourceAction::Start(n));
                assert(action_models(out@) =~= seq![(true, n@)]);
            },
            SourceCommand::Remove { name } => {
                let mut one: Vec<String> = Vec::new();
                one.push(name);
                assert(crate::text::string_views(one@) =~= seq![one@[0]@]);
                self.actions(&one, false, &mut out);
                assert(action_models(out@) =~= Seq::<(bool, Seq<char>)>::empty() + actions_for(self.names(), crate::text::string_views(one@), false));
            },
            SourceCommand::Reload { names } => {
                self.actions(&names, false, &mut out);
                self.actions(&names, true, &mut out);
                assert(action_models(out@) =~= actions_for(self.names(), crate::text::string_views(names@), false)
                    + actions_for(self.names(), crate::text::string_views(names@), true));
            },
            SourceCommand::StopAll { names } => {
                self.actions(&names, false, &mut out);
                assert(action_models(out@) =~= actions_for(self.names(), crate::text::string_views(names@), false));
            },
        }
        out
    }
}

} // verus!

//! The service start-up sequence as a state machine.
use vstd::prelude::*;
use crate::commands::texts;
use crate::launcher::{sanitize_path_string, sanitized_path, backend_not_found, backend_probes, lsof_args, stale_pids, stale_backend_pids, BackendLauncher, BackendSearch, gs_search, qpdf_search, tool_binary_probes};
use crate::text::{decimal, text};
use crate::tools::{probes_view, Platform, Probe, ProbeView};


verus! {

/// What polling the held child process showed.
#[derive(Clone, Copy, Debug, PartialEq, Eq, Structural)]
pub enum ChildState {
    /// No child is held.
    Absent,
    /// The child is still running.
    Running,
    /// The child has exited, or could not be polled.
    Exited,
}

/// How opening the service's log file went (paths and errors as text).
#[derive(Debug)]
pub enum LogOutcome {
    Opened { log: String },
    OpenFailed { log: String, error: String },
    CloneFailed { error: String },
}

/// How the search for the service binary went.
#[derive(Debug)]
pub enum SearchOutcome {
    Found(String),
    /// The application's resource directory could not be located (the error as text).
    ResourceDirError(String),
    NotFound,
}

/// The caller's answer to the last request.
#[derive(Debug)]
pub enum LaunchReply {
    Begin,
    Child(ChildState),
    Healthy(bool),
    Reachable(bool),
    /// The output of `lsof`, when it ran and succeeded.
    Listeners(Option<String>),
    Located(SearchOutcome),
    BinaryExists(bool),
    LogOpened(LogOutcome),
    ToolsResolved { qpdf: Option<String>, gs: Option<String> },
    /// Whether the process could be spawned (the error as text).
    Spawned(Result<(), String>),
    /// The exit status of the new process (as text) if it has already exited.
    Settled(Option<String>),
}

/// Something the caller does right away, in order.
#[derive(Debug)]
pub enum LaunchEffect {
    /// Drop the held child process.
    ForgetChild,
    /// `kill -9` the process with this id.
    Kill(String),
    /// Sleep this many milliseconds.
    SleepMillis(u64),
    /// Hold the newly spawned process as the child.
    KeepChild,
}

#[verifier::ext_equal]
pub enum LaunchEffectView {
    ForgetChild,
    Kill(Seq<char>),
    SleepMillis(u64),
    KeepChild,
}

impl View for LaunchEffect {
    type V = LaunchEffectView;

    open spec fn view(&self) -> LaunchEffectView {
        match self {
            LaunchEffect::ForgetChild => LaunchEffectView::ForgetChild,
            LaunchEffect::Kill(p) => LaunchEffectView::Kill(p@),
            LaunchEffect::SleepMillis(ms) => LaunchEffectView::SleepMillis(*ms),
            LaunchEffect::KeepChild => LaunchEffectView::KeepChild,
        }
    }
}

/// What the caller must do next and answer.
#[derive(Debug)]
pub enum LaunchRequest {
    /// Poll the held child; answer `Child`.
    PollChild,
    /// Run the health check; answer `Healthy`.
    CheckHealth,
    /// Try to connect to the port; answer `Reachable`.
    CheckPort,
    /// Run `lsof` with these arguments; answer `Listeners`.
    ListListeners(Vec<String>),
    /// Carry out the search; answer `Located`.
    Locate(BackendSearch),
    /// Whether something exists at this path; answer `BinaryExists`.
    CheckBinary(String),
    /// Open (create, append) the file of this name in the temporary directory, and a
    /// second handle to it, for the service's output; answer `LogOpened`.
    OpenLog(String),
    /// Carry out both searches; answer `ToolsResolved`.
    ResolveTools { qpdf: Vec<Probe>, gs: Vec<Probe> },
    /// Spawn `program` with `args` and `env`, stdin closed and output to the log;
    /// answer `Spawned`.
    Spawn { program: String, args: Vec<String>, env: Vec<(String, String)> },
    /// Check whether the new process already exited; answer `Settled`.
    Settle,
    /// Start-up is over with this result.
    Finish(Result<(), String>),
}

#[verifier::ext_equal]
pub enum LaunchRequestView {
    PollChild,
    CheckHealth,
    CheckPort,
    ListListeners(Seq<Seq<char>>),
    Locate { probes: Seq<ProbeView>, not_found: Seq<char> },
    CheckBinary(Seq<char>),
    OpenLog(Seq<char>),
    ResolveTools { qpdf: Seq<ProbeView>, gs: Seq<ProbeView> },
    Spawn { program: Seq<char>, args: Seq<Seq<char>>, env: Seq<(Seq<char>, Seq<char>)> },
    Settle,
    Finish(Result<(), Seq<char>>),
}

pub open spec fn env_view(v: Seq<(String, String)>) -> Seq<(Seq<char>, Seq<char>)> {
    v.map_values(|p: (String, String)| (p.0@, p.1@))
}

impl View for LaunchRequest {
    type V = LaunchRequestView;

    open spec fn view(&self) -> LaunchRequestView {
        match self {
            LaunchRequest::PollChild => LaunchRequestView::PollChild,
            LaunchRequest::CheckHealth => LaunchRequestView::CheckHealth,
            LaunchRequest::CheckPort => LaunchRequestView::CheckPort,
            LaunchRequest::ListListeners(a) => LaunchRequestView::ListListeners(texts(a@)),
            LaunchRequest::Locate(s) => LaunchRequestView::Locate {
                probes: probes_view(s.probes@),
                not_found: s.not_found@,
            },
            LaunchRequest::CheckBinary(p) => LaunchRequestView::CheckBinary(p@),
            LaunchRequest::OpenLog(n) => LaunchRequestView::OpenLog(n@),
            LaunchRequest::ResolveTools { qpdf, gs } => LaunchRequestView::ResolveTools {
                qpdf: probes_view(qpdf@),
                gs: probes_view(gs@),
            },
            LaunchRequest::Spawn { program, args, env } => LaunchRequestView::Spawn {
                program: program@,
                args: texts(args@),
                env: env_view(env@),
            },
            LaunchRequest::Settle => LaunchRequestView::Settle,
            LaunchRequest::Finish(r) => LaunchRequestView::Finish(
                match r {
                    Ok(()) => Ok(()),
                    Err(e) => Err(e@),
                },
            ),
        }
    }
}

/// Where the start-up stands.
#[derive(Clone, Copy, Debug, PartialEq, Eq, Structural)]
pub enum LaunchPhase {
    Begin,
    PollingChild,
    CheckingHealth,
    CheckingPort,
    RecheckingHealth,
    ListingListeners,
    Locating,
    CheckingBinary,
    OpeningLog,
    ResolvingTools,
    Spawning,
    Settling,
    Done,
}

/// One start-up of the service.
pub struct Launch {
    launcher: BackendLauncher,
    platform: Platform,
    manifest_dir: String,
    phase: LaunchPhase,
    backend: String,
    log: String,
}

pub struct LaunchView {
    pub port: u16,
    pub platform: Platform,
    pub manifest_dir: Seq<char>,
    pub phase: LaunchPhase,
    /// The service binary, once found.
    pub backend: Seq<char>,
    /// The log file's path, once opened.
    pub log: Seq<char>,
}

impl View for Launch {
    type V = LaunchView;

    closed spec fn view(&self) -> LaunchView {
        LaunchView {
            port: self.launcher.port_spec(),
            platform: self.platform,
            manifest_dir: self.manifest_dir@,
            phase: self.phase,
            backend: self.backend@,
            log: self.log@,
        }
    }
}

/// The result of one step of the start-up.
#[verifier::ext_equal]
pub struct LaunchTransition {
    pub state: LaunchView,
    pub effects: Seq<LaunchEffectView>,
    pub request: LaunchRequestView,
}

pub open spec fn go(v: LaunchView, phase: LaunchPhase, effects: Seq<LaunchEffectView>, request: LaunchRequestView) -> LaunchTransition {
    LaunchTransition { state: LaunchView { phase, ..v }, effects, request }
}

pub open spec fn finish(v: LaunchView, effects: Seq<LaunchEffectView>, result: Result<(), Seq<char>>) -> LaunchTransition {
    go(v, LaunchPhase::Done, effects, LaunchRequestView::Finish(result))
}

pub open spec fn locate(v: LaunchView, effects: Seq<LaunchEffectView>) -> LaunchTransition {
    go(
        v,
        LaunchPhase::Locating,
        effects,
        LaunchRequestView::Locate {
            probes: backend_probes(v.platform, v.manifest_dir),
            not_found: backend_not_found(),
        },
    )
}

pub open spec fn opt_flag(flag: Seq<char>, value: Option<Seq<char>>) -> Seq<Seq<char>> {
    match value {
        Some(p) => seq![flag, p],
        None => seq![],
    }
}

pub open spec fn opt_env(var: Seq<char>, value: Option<Seq<char>>) -> Seq<(Seq<char>, Seq<char>)> {
    match value {
        Some(p) => seq![(var, p)],
        None => seq![],
    }
}

/// A found tool path, cleaned; nothing when none was found or cleaning rejects it.
pub open spec fn cleaned_tool(found: Option<String>) -> Option<Seq<char>> {
    match found {
        Some(p) => sanitized_path(p@),
        None => None,
    }
}

/// The service's arguments: its port, and the tool paths it is given.
pub open spec fn service_args(port: u16, qpdf: Option<Seq<char>>, gs: Option<Seq<char>>) -> Seq<Seq<char>> {
    seq!["--port"@, decimal(port as nat)] + opt_flag("--qpdf"@, qpdf) + opt_flag("--gs"@, gs)
}

/// The service's environment: the tool paths it is given.
pub open spec fn service_env(qpdf: Option<Seq<char>>, gs: Option<Seq<char>>) -> Seq<(Seq<char>, Seq<char>)> {
    opt_env("PDFTOOL_QPDF_PATH"@, qpdf) + opt_env("PDFTOOL_GS_PATH"@, gs)
}

pub open spec fn kills(pids: Seq<Seq<char>>) -> Seq<LaunchEffectView> {
    pids.map_values(|p: Seq<char>| LaunchEffectView::Kill(p))
}

/// Whether `reply` answers the request of `phase`.
pub open spec fn launch_accepts(phase: LaunchPhase, reply: LaunchReply) -> bool {
    match phase {
        LaunchPhase::Begin => reply is Begin,
        LaunchPhase::PollingChild => reply is Child,
        LaunchPhase::CheckingHealth | LaunchPhase::RecheckingHealth => reply is Healthy,
        LaunchPhase::CheckingPort => reply is Reachable,
        LaunchPhase::ListingListeners => reply is Listeners,
        LaunchPhase::Locating => reply is Located,
        LaunchPhase::CheckingBinary => reply is BinaryExists,
        LaunchPhase::OpeningLog => reply is LogOpened,
        LaunchPhase::ResolvingTools => reply is ToolsResolved,
        LaunchPhase::Spawning => reply is Spawned,
        LaunchPhase::Settling => reply is Settled,
        LaunchPhase::Done => false,
    }
}

/// The start-up, one step at a time: a running child or a healthy service means
/// nothing to do; on macOS a port that answers but is not healthy has its stale
/// `pdfsvc` listeners killed; then the binary is found and checked, the log opened,
/// the tools resolved, the service spawned, and given 220 ms to fail.
pub open spec fn launch_step(v: LaunchView, reply: LaunchReply) -> LaunchTransition {
    match (v.phase, reply) {
        (LaunchPhase::Begin, _) => go(v, LaunchPhase::PollingChild, seq![], LaunchRequestView::PollChild),
        (LaunchPhase::PollingChild, LaunchReply::Child(c)) => match c {
            ChildState::Running => finish(v, seq![], Ok(())),
            ChildState::Absent => go(v, LaunchPhase::CheckingHealth, seq![], LaunchRequestView::CheckHealth),
            ChildState::Exited => go(
                v,
                LaunchPhase::CheckingHealth,
                seq![LaunchEffectView::ForgetChild],
                LaunchRequestView::CheckHealth,
            ),
        },
        (LaunchPhase::CheckingHealth, LaunchReply::Healthy(h)) => if h {
            finish(v, seq![], Ok(()))
        } else if v.platform == Platform::MacOs {
            go(v, LaunchPhase::CheckingPort, seq![], LaunchRequestView::CheckPort)
        } else {
            locate(v, seq![])
        },
        (LaunchPhase::CheckingPort, LaunchReply::Reachable(r)) => if r {
            go(v, LaunchPhase::RecheckingHealth, seq![], LaunchRequestView::CheckHealth)
        } else {
            locate(v, seq![])
        },
        (LaunchPhase::RecheckingHealth, LaunchReply::Healthy(h)) => if h {
            locate(v, seq![])
        } else {
            go(
                v,
                LaunchPhase::ListingListeners,
                seq![],
                LaunchRequestView::ListListeners(lsof_args(v.port)),
            )
        },
        (LaunchPhase::ListingListeners, LaunchReply::Listeners(out)) => {
            let pids = match out {
                Some(o) => stale_pids(o@),
                None => seq![],
            };
            locate(v, kills(pids) + seq![LaunchEffectView::SleepMillis(150)])
        },
        (LaunchPhase::Locating, LaunchReply::Located(o)) => match o {
            SearchOutcome::Found(p) => go(
                LaunchView { backend: p@, ..v },
                LaunchPhase::CheckingBinary,
                seq![],
                LaunchRequestView::CheckBinary(p@),
            ),
            SearchOutcome::ResourceDirError(e) => finish(v, seq![], Err(e@)),
            SearchOutcome::NotFound => finish(v, seq![], Err(backend_not_found())),
        },
        (LaunchPhase::CheckingBinary, LaunchReply::BinaryExists(b)) => if b {
            go(v, LaunchPhase::OpeningLog, seq![], LaunchRequestView::OpenLog("pdftool-backend.log"@))
        } else {
            finish(
                v,
                seq![],
                Err(
                    "backend binary missing at "@ + v.backend
                        + ". Build it with: cd backend/go-service && make build"@,
                ),
            )
        },
        (LaunchPhase::OpeningLog, LaunchReply::LogOpened(o)) => match o {
            LogOutcome::Opened { log } => go(
                LaunchView { log: log@, ..v },
                LaunchPhase::ResolvingTools,
                seq![],
                LaunchRequestView::ResolveTools {
                    qpdf: tool_binary_probes(qpdf_search(v.platform), v.platform),
                    gs: tool_binary_probes(gs_search(v.platform), v.platform),
                },
            ),
            LogOutcome::OpenFailed { log, error } => finish(
                v,
                seq![],
                Err("failed to open backend log file "@ + log@ + ": "@ + error@),
            ),
            LogOutcome::CloneFailed { error } => finish(
                v,
                seq![],
                Err("failed to clone backend log file handle: "@ + error@),
            ),
        },
        (LaunchPhase::ResolvingTools, LaunchReply::ToolsResolved { qpdf, gs }) => go(
            v,
            LaunchPhase::Spawning,
            seq![],
            LaunchRequestView::Spawn {
                program: v.backend,
                args: service_args(v.port, cleaned_tool(qpdf), cleaned_tool(gs)),
                env: service_env(cleaned_tool(qpdf), cleaned_tool(gs)),
            },
        ),
        (LaunchPhase::Spawning, LaunchReply::Spawned(r)) => match r {
            Ok(()) => go(
                v,
                LaunchPhase::Settling,
                seq![LaunchEffectView::SleepMillis(220)],
                LaunchRequestView::Settle,
            ),
            Err(e) => finish(v, seq![], Err("failed to launch backend: "@ + e@)),
        },
        (LaunchPhase::Settling, LaunchReply::Settled(s)) => match s {
            Some(status) => finish(
                v,
                seq![],
                Err(
                    "backend exited immediately with status "@ + status@ + ". Check log: "@
                        + v.log,
                ),
            ),
            None => finish(v, seq![LaunchEffectView::KeepChild], Ok(())),
        },
        _ => finish(v, seq![], Ok(())),
    }
}

/// What one step yields: effects to perform now, then the next request.
#[derive(Debug)]
pub struct LaunchStep {
    pub effects: Vec<LaunchEffect>,
    pub request: LaunchRequest,
}

pub open spec fn launch_effects_view(v: Seq<LaunchEffect>) -> Seq<LaunchEffectView> {
    v.map_values(|e: LaunchEffect| e@)
}


impl Launch {
    /// A start-up of the service of `launcher` on `platform`; `manifest_dir` is where
    /// the application was built from.
    pub fn new(launcher: BackendLauncher, platform: Platform, manifest_dir: String) -> (l: Launch)
        ensures
            l@ == (LaunchView {
                port: launcher.port_spec(),
                platform,
                manifest_dir: manifest_dir@,
                phase: LaunchPhase::Begin,
                backend: Seq::empty(),
                log: Seq::empty(),
            }),
    {
        Launch {
            launcher,
            platform,
            manifest_dir,
            phase: LaunchPhase::Begin,
            backend: String::new(),
            log: String::new(),
        }
    }

    /// Where the start-up stands.
    pub fn phase(&self) -> (p: LaunchPhase)
        ensures
            p == self@.phase,
    {
        self.phase
    }

    /// Whether `reply` answers the current request.
    pub fn accepts(&self, reply: &LaunchReply) -> (b: bool)
        ensures
            b == launch_accepts(self@.phase, *reply),
    {
        match (self.phase, reply) {
            (LaunchPhase::Begin, LaunchReply::Begin) => true,
            (LaunchPhase::PollingChild, LaunchReply::Child(_)) => true,
            (LaunchPhase::CheckingHealth, LaunchReply::Healthy(_)) => true,
            (LaunchPhase::RecheckingHealth, LaunchReply::Healthy(_)) => true,
            (LaunchPhase::CheckingPort, LaunchReply::Reachable(_)) => true,
            (LaunchPhase::ListingListeners, LaunchReply::Listeners(_)) => true,
            (LaunchPhase::Locating, LaunchReply::Located(_)) => true,
            (LaunchPhase::CheckingBinary, LaunchReply::BinaryExists(_)) => true,
            (LaunchPhase::OpeningLog, LaunchReply::LogOpened(_)) => true,
            (LaunchPhase::ResolvingTools, LaunchReply::ToolsResolved { .. }) => true,
            (LaunchPhase::Spawning, LaunchReply::Spawned(_)) => true,
            (LaunchPhase::Settling, LaunchReply::Settled(_)) => true,
            _ => false,
        }
    }

    fn finish(&mut self, effects: Vec<LaunchEffect>, result: Result<(), String>) -> (s: LaunchStep)
        ensures
            final(self)@ == (LaunchView { phase: LaunchPhase::Done, ..old(self)@ }),
            launch_effects_view(s.effects@) == launch_effects_view(effects@),
            s.request@ == LaunchRequestView::Finish(
                match result {
                    Ok(()) => Ok(()),
                    Err(e) => Err(e@),
                },
            ),
    {
        self.phase = LaunchPhase::Done;
        LaunchStep { effects, request: LaunchRequest::Finish(result) }
    }

    fn go(&mut self, phase: LaunchPhase, effects: Vec<LaunchEffect>, request: LaunchRequest) -> (s: LaunchStep)
        ensures
            final(self)@ == (LaunchView { phase, ..old(self)@ }),
            launch_effects_view(s.effects@) == launch_effects_view(effects@),
            s.request@ == request@,
    {
        self.phase = phase;
        LaunchStep { effects, request }
    }

    fn locate(&mut self, effects: Vec<LaunchEffect>) -> (s: LaunchStep)
        ensures
            final(self)@ == locate(old(self)@, launch_effects_view(effects@)).state,
            launch_effects_view(s.effects@) == launch_effects_view(effects@),
            s.request@ == locate(old(self)@, launch_effects_view(effects@)).request,
    {
        let search = self.launcher.backend_binary_path(self.platform, self.manifest_dir.as_str());
        self.go(LaunchPhase::Locating, effects, LaunchRequest::Locate(search))
    }

    /// Advances the start-up by one step, given the answer to its last request.
    pub fn step(&mut self, reply: LaunchReply) -> (s: LaunchStep)
        requires
            launch_accepts(old(self)@.phase, reply),
        ensures
            final(self)@ == launch_step(old(self)@, reply).state,
            launch_effects_view(s.effects@) == launch_step(old(self)@, reply).effects,
            s.request@ == launch_step(old(self)@, reply).request,
    {
        let ghost v = self@;
        let none: Vec<LaunchEffect> = Vec::new();
        assert(launch_effects_view(none@) =~= seq![]);
        match (self.phase, reply) {
            (LaunchPhase::Begin, _) => self.go(LaunchPhase::PollingChild, none, LaunchRequest::PollChild),
            (LaunchPhase::PollingChild, LaunchReply::Child(c)) => match c {
                ChildState::Running => self.finish(none, Ok(())),
                ChildState::Absent => self.go(LaunchPhase::CheckingHealth, none, LaunchRequest::CheckHealth),
                ChildState::Exited => {
                    let mut effects: Vec<LaunchEffect> = Vec::new();
                    effects.push(LaunchEffect::ForgetChild);
                    assert(launch_effects_view(effects@) =~= seq![LaunchEffectView::ForgetChild]);
                    self.go(LaunchPhase::CheckingHealth, effects, LaunchRequest::CheckHealth)
                },
            },
            (LaunchPhase::CheckingHealth, LaunchReply::Healthy(h)) => {
                if h {
                    self.finish(none, Ok(()))
                } else if self.platform == Platform::MacOs {
                    self.go(LaunchPhase::CheckingPort, none, LaunchRequest::CheckPort)
                } else {
                    self.locate(none)
                }
            },
            (LaunchPhase::CheckingPort, LaunchReply::Reachable(r)) => {
                if r {
                    self.go(LaunchPhase::RecheckingHealth, none, LaunchRequest::CheckHealth)
                } else {
                    self.locate(none)
                }
            },
            (LaunchPhase::RecheckingHealth, LaunchReply::Healthy(h)) => {
                if h {
                    self.locate(none)
                } else {
                    let args = self.launcher.lsof_arguments();
                    self.go(LaunchPhase::ListingListeners, none, LaunchRequest::ListListeners(args))
                }
            },
            (LaunchPhase::ListingListeners, LaunchReply::Listeners(out)) => {
                let pids = match &out {
                    Some(o) => stale_backend_pids(o.as_str()),
                    None => Vec::new(),
                };
                let ghost expected = match out {
                    Some(o) => stale_pids(o@),
                    None => Seq::<Seq<char>>::empty(),
                };
                assert(texts(pids@) =~= expected);
                let mut effects: Vec<LaunchEffect> = Vec::new();
                let n = pids.len();
                for i in 0..n
                    invariant
                        n == pids@.len(),
                        texts(pids@) == expected,
                        launch_effects_view(effects@) =~= kills(expected.take(i as int)),
                {
                    let ghost prev = effects@;
                    effects.push(LaunchEffect::Kill(pids[i].clone()));
                    assert(launch_effects_view(effects@) =~= launch_effects_view(prev).push(
                        LaunchEffectView::Kill(expected[i as int]),
                    ));
                    assert(expected.take(i + 1) =~= expected.take(i as int).push(expected[i as int]));
                    assert(kills(expected.take(i + 1)) =~= kills(expected.take(i as int)).push(
                        LaunchEffectView::Kill(expected[i as int]),
                    ));
                }
                assert(expected.take(n as int) =~= expected);
                effects.push(LaunchEffect::SleepMillis(150));
                assert(launch_effects_view(effects@) =~= kills(expected) + seq![
                    LaunchEffectView::SleepMillis(150),
                ]);
                self.locate(effects)
            },
            (LaunchPhase::Locating, LaunchReply::Located(o)) => match o {
                SearchOutcome::Found(p) => {
                    self.backend = p.clone();
                    self.go(LaunchPhase::CheckingBinary, none, LaunchRequest::CheckBinary(p))
                },
                SearchOutcome::ResourceDirError(e) => self.finish(none, Err(e)),
                SearchOutcome::NotFound => {
                    let message = text(
                        "backend binary not found; set PDFTOOL_BACKEND_PATH or build backend/go-service/bin/pdfsvc",
                    );
                    self.finish(none, Err(message))
                },
            },
            (LaunchPhase::CheckingBinary, LaunchReply::BinaryExists(b)) => {
                if b {
                    self.go(LaunchPhase::OpeningLog, none, LaunchRequest::OpenLog(text("pdftool-backend.log")))
                } else {
                    let mut message = text("backend binary missing at ");
                    message.append(self.backend.as_str());
                    message.append(". Build it with: cd backend/go-service && make build");
                    self.finish(none, Err(message))
                }
            },
            (LaunchPhase::OpeningLog, LaunchReply::LogOpened(o)) => match o {
                LogOutcome::Opened { log } => {
                    self.log = log;
                    let qpdf = self.launcher.resolve_qpdf_binary(self.platform);
                    let gs = self.launcher.resolve_ghostscript_binary(self.platform);
                    self.go(LaunchPhase::ResolvingTools, none, LaunchRequest::ResolveTools { qpdf, gs })
                },
                LogOutcome::OpenFailed { log, error } => {
                    let mut message = text("failed to open backend log file ");
                    message.append(log.as_str());
                    message.append(": ");
                    message.append(error.as_str());
                    self.finish(none, Err(message))
                },
                LogOutcome::CloneFailed { error } => {
                    let mut message = text("failed to clone backend log file handle: ");
                    message.append(error.as_str());
                    self.finish(none, Err(message))
                },
            },
            (LaunchPhase::ResolvingTools, LaunchReply::ToolsResolved { qpdf, gs }) => {
                let mut args: Vec<String> = Vec::new();
                args.push(text("--port"));
                let mut port = String::new();
                crate::text::push_decimal(&mut port, self.launcher.port() as usize);
                args.push(port);
                let mut env: Vec<(String, String)> = Vec::new();
                let ghost q = cleaned_tool(qpdf);
                let ghost g = cleaned_tool(gs);
                let qpdf = match &qpdf {
                    Some(p) => sanitize_path_string(p.as_str()),
                    None => None,
                };
                let gs = match &gs {
                    Some(p) => sanitize_path_string(p.as_str()),
                    None => None,
                };
                assert(crate::text::opt_view(qpdf) == q);
                assert(crate::text::opt_view(gs) == g);
                match &qpdf {
                    Some(p) => {
                        env.push((text("PDFTOOL_QPDF_PATH"), p.clone()));
                        args.push(text("--qpdf"));
                        args.push(p.clone());
                    },
                    None => {},
                }
                match &gs {
                    Some(p) => {
                        env.push((text("PDFTOOL_GS_PATH"), p.clone()));
                        args.push(text("--gs"));
                        args.push(p.clone());
                    },
                    None => {},
                }
                assert(texts(args@) =~= service_args(v.port, q, g));
                assert(env_view(env@) =~= service_env(q, g));
                let program = self.backend.clone();
                self.go(LaunchPhase::Spawning, none, LaunchRequest::Spawn { program, args, env })
            },
            (LaunchPhase::Spawning, LaunchReply::Spawned(r)) => match r {
                Ok(()) => {
                    let mut effects: Vec<LaunchEffect> = Vec::new();
                    effects.push(LaunchEffect::SleepMillis(220));
                    assert(launch_effects_view(effects@) =~= seq![LaunchEffectView::SleepMillis(220)]);
                    self.go(LaunchPhase::Settling, effects, LaunchRequest::Settle)
                },
                Err(e) => {
                    let mut message = text("failed to launch backend: ");
                    message.append(e.as_str());
                    self.finish(none, Err(message))
                },
            },
            (LaunchPhase::Settling, LaunchReply::Settled(s)) => match s {
                Some(status) => {
                    let mut message = text("backend exited immediately with status ");
                    message.append(status.as_str());
                    message.append(". Check log: ");
                    message.append(self.log.as_str());
                    self.finish(none, Err(message))
                },
                None => {
                    let mut effects: Vec<LaunchEffect> = Vec::new();
                    effects.push(LaunchEffect::KeepChild);
                    assert(launch_effects_view(effects@) =~= seq![LaunchEffectView::KeepChild]);
                    self.finish(effects, Ok(()))
                },
            },
            (_, _) => self.finish(none, Ok(())),
        }
    }
}


/// Steps left before the start-up can be over, at most.
pub open spec fn launch_rank(phase: LaunchPhase) -> nat {
    match phase {
        LaunchPhase::Begin => 12,
        LaunchPhase::PollingChild => 11,
        LaunchPhase::CheckingHealth => 10,
        LaunchPhase::CheckingPort => 9,
        LaunchPhase::RecheckingHealth => 8,
        LaunchPhase::ListingListeners => 7,
        LaunchPhase::Locating => 6,
        LaunchPhase::CheckingBinary => 5,
        LaunchPhase::OpeningLog => 4,
        LaunchPhase::ResolvingTools => 3,
        LaunchPhase::Spawning => 2,
        LaunchPhase::Settling => 1,
        LaunchPhase::Done => 0,
    }
}

/// Every accepted step moves the start-up strictly closer to its end, which it
/// reaches exactly when it asks to finish.
pub proof fn launch_makes_progress(v: LaunchView, reply: LaunchReply)
    requires
        launch_accepts(v.phase, reply),
    ensures
        launch_rank(launch_step(v, reply).state.phase) < launch_rank(v.phase),
        (launch_step(v, reply).state.phase == LaunchPhase::Done) <==> (launch_step(
            v,
            reply,
        ).request is Finish),
{
}

/// A child that still runs, or a service that answers its health check, ends the
/// start-up successfully at once, without starting or killing anything.
pub proof fn running_service_left_alone(v: LaunchView)
    ensures
        v.phase == LaunchPhase::PollingChild ==> launch_step(v, LaunchReply::Child(ChildState::Running))
            == finish(v, seq![], Ok(())),
        v.phase == LaunchPhase::CheckingHealth ==> launch_step(v, LaunchReply::Healthy(true))
            == finish(v, seq![], Ok(())),
{
}

/// The service is spawned from its located binary, told its port, and given each
/// tool path that was found and survives cleaning, both as a flag and in its
/// environment.
pub proof fn spawn_uses_found_binary(v: LaunchView, qpdf: Option<String>, gs: Option<String>)
    requires
        v.phase == LaunchPhase::ResolvingTools,
    ensures
        launch_step(v, LaunchReply::ToolsResolved { qpdf, gs }).request == (LaunchRequestView::Spawn {
            program: v.backend,
            args: service_args(v.port, cleaned_tool(qpdf), cleaned_tool(gs)),
            env: service_env(cleaned_tool(qpdf), cleaned_tool(gs)),
        }),
        service_args(v.port, cleaned_tool(qpdf), cleaned_tool(gs)).take(2) == seq![
            "--port"@,
            decimal(v.port as nat),
        ],
        cleaned_tool(qpdf) is Some ==> service_env(cleaned_tool(qpdf), cleaned_tool(gs)).contains(
            ("PDFTOOL_QPDF_PATH"@, cleaned_tool(qpdf)->0),
        ) && service_args(v.port, cleaned_tool(qpdf), cleaned_tool(gs)).contains(
            cleaned_tool(qpdf)->0,
        ),
{
    let q = cleaned_tool(qpdf);
    let a = service_args(v.port, q, cleaned_tool(gs));
    assert(a.take(2) =~= seq!["--port"@, decimal(v.port as nat)]);
    if q is Some {
        assert(service_env(q, cleaned_tool(gs))[0] == ("PDFTOOL_QPDF_PATH"@, q->0));
        assert(a[3] == q->0);
    }
}

} // verus!

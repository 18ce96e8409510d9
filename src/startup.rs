//! The startup sequencer: load and validate the configuration, establish the
//! session, register each binding, then serve. The caller performs each
//! action and hands back what came of it as an event.
use vstd::prelude::*;
use crate::config::ConfigError;

verus! {

#[derive(PartialEq, Eq, Structural, Clone, Copy, Debug)]
pub enum Phase {
    LoadingConfig,
    Connecting,
    Authenticating,
    Registering,
    Running,
    Failed,
}

/// A fatal startup condition.
#[derive(Debug)]
pub enum StartupError {
    /// No configuration file existed; a template was written for the user to edit.
    FirstRun,
    /// The configuration file could not be read.
    Unreadable(String),
    /// The configuration file does not follow the schema.
    Malformed(String),
    /// The configuration file follows the schema but is invalid.
    Invalid(ConfigError),
    /// The connection to the hub failed.
    Connect(String),
    /// The hub refused the token.
    Auth(String),
}

/// What came of the last action.
pub enum Event {
    ConfigAbsent,
    ConfigUnreadable(String),
    ConfigMalformed(String),
    /// The document was validated: the number of bindings, or the error.
    ConfigChecked(Result<usize, ConfigError>),
    Connected,
    ConnectFailed(String),
    Authenticated,
    AuthFailed(String),
    Registered,
}

/// What the caller does next.
pub enum Action {
    /// Open the connection to the hub.
    Connect,
    /// Authenticate with the token.
    Authenticate,
    /// Register the binding with this index with the key hook.
    Register(usize),
    /// Startup is complete: serve triggers until the process ends.
    Serve,
    /// Write the configuration template, then report that it must be edited and stop.
    WriteTemplateAndStop,
    /// Report this fatal error and stop.
    Abort(StartupError),
    /// Nothing to do: the event does not belong to this phase.
    Ignore,
}

/// Progress of startup. Build it with `new` and change it only with `step`.
pub struct Startup {
    pub phase: Phase,
    /// How many bindings the validated document compiled to.
    pub bindings: usize,
    /// How many of them have been registered.
    pub registered: usize,
    /// Whether the session is connected and authenticated.
    pub established: bool,
}

impl Startup {
    /// The session is established exactly from authentication on, and
    /// bindings are registered one at a time, only after that.
    pub open spec fn wf(&self) -> bool {
        &&& self.registered <= self.bindings
        &&& self.established <==> (self.phase == Phase::Registering || self.phase == Phase::Running)
        &&& self.phase == Phase::Registering ==> self.registered < self.bindings
        &&& self.phase == Phase::Running ==> self.registered == self.bindings
        &&& !self.established ==> self.registered == 0
    }

    /// The state and the action that follow `e` in state `s`.
    pub open spec fn next(s: Startup, e: Event) -> (Startup, Action) {
        match s.phase {
            Phase::LoadingConfig => match e {
                Event::ConfigAbsent => (Startup { phase: Phase::Failed, ..s }, Action::WriteTemplateAndStop),
                Event::ConfigUnreadable(m) => (
                    Startup { phase: Phase::Failed, ..s },
                    Action::Abort(StartupError::Unreadable(m)),
                ),
                Event::ConfigMalformed(m) => (
                    Startup { phase: Phase::Failed, ..s },
                    Action::Abort(StartupError::Malformed(m)),
                ),
                Event::ConfigChecked(Err(err)) => (
                    Startup { phase: Phase::Failed, ..s },
                    Action::Abort(StartupError::Invalid(err)),
                ),
                Event::ConfigChecked(Ok(n)) => (
                    Startup { phase: Phase::Connecting, bindings: n, ..s },
                    Action::Connect,
                ),
                _ => (s, Action::Ignore),
            },
            Phase::Connecting => match e {
                Event::Connected => (Startup { phase: Phase::Authenticating, ..s }, Action::Authenticate),
                Event::ConnectFailed(m) => (
                    Startup { phase: Phase::Failed, ..s },
                    Action::Abort(StartupError::Connect(m)),
                ),
                _ => (s, Action::Ignore),
            },
            Phase::Authenticating => match e {
                Event::Authenticated => if s.bindings == 0 {
                    (Startup { phase: Phase::Running, established: true, ..s }, Action::Serve)
                } else {
                    (Startup { phase: Phase::Registering, established: true, ..s }, Action::Register(0))
                },
                Event::AuthFailed(m) => (
                    Startup { phase: Phase::Failed, ..s },
                    Action::Abort(StartupError::Auth(m)),
                ),
                _ => (s, Action::Ignore),
            },
            Phase::Registering => match e {
                Event::Registered => if s.registered + 1 == s.bindings {
                    (Startup { phase: Phase::Running, registered: (s.registered + 1) as usize, ..s }, Action::Serve)
                } else {
                    (
                        Startup { registered: (s.registered + 1) as usize, ..s },
                        Action::Register((s.registered + 1) as usize),
                    )
                },
                _ => (s, Action::Ignore),
            },
            Phase::Running | Phase::Failed => (s, Action::Ignore),
        }
    }

    pub open spec fn new_spec() -> Startup {
        Startup { phase: Phase::LoadingConfig, bindings: 0, registered: 0, established: false }
    }

    /// The state before the configuration is loaded.
    pub fn new() -> (r: Startup)
        ensures
            r == Startup::new_spec(),
            r.wf(),
    {
        Startup { phase: Phase::LoadingConfig, bindings: 0, registered: 0, established: false }
    }

    /// Takes what came of the last action and decides the next one.
    pub fn step(&mut self, e: Event) -> (r: Action)
        requires
            old(self).wf(),
        ensures
            final(self).wf(),
            (*final(self), r) == Startup::next(*old(self), e),
    {
        match self.phase {
            Phase::LoadingConfig => match e {
                Event::ConfigAbsent => {
                    self.phase = Phase::Failed;
                    Action::WriteTemplateAndStop
                },
                Event::ConfigUnreadable(m) => {
                    self.phase = Phase::Failed;
                    Action::Abort(StartupError::Unreadable(m))
                },
                Event::ConfigMalformed(m) => {
                    self.phase = Phase::Failed;
                    Action::Abort(StartupError::Malformed(m))
                },
                Event::ConfigChecked(Err(err)) => {
                    self.phase = Phase::Failed;
                    Action::Abort(StartupError::Invalid(err))
                },
                Event::ConfigChecked(Ok(n)) => {
                    self.phase = Phase::Connecting;
                    self.bindings = n;
                    Action::Connect
                },
                _ => Action::Ignore,
            },
            Phase::Connecting => match e {
                Event::Connected => {
                    self.phase = Phase::Authenticating;
                    Action::Authenticate
                },
                Event::ConnectFailed(m) => {
                    self.phase = Phase::Failed;
                    Action::Abort(StartupError::Connect(m))
                },
                _ => Action::Ignore,
            },
            Phase::Authenticating => match e {
                Event::Authenticated => {
                    self.established = true;
                    if self.bindings == 0 {
                        self.phase = Phase::Running;
                        Action::Serve
                    } else {
                        self.phase = Phase::Registering;
                        Action::Register(0)
                    }
                },
                Event::AuthFailed(m) => {
                    self.phase = Phase::Failed;
                    Action::Abort(StartupError::Auth(m))
                },
                _ => Action::Ignore,
            },
            Phase::Registering => match e {
                Event::Registered => {
                    self.registered = self.registered + 1;
                    if self.registered == self.bindings {
                        self.phase = Phase::Running;
                        Action::Serve
                    } else {
                        Action::Register(self.registered)
                    }
                },
                _ => Action::Ignore,
            },
            Phase::Running | Phase::Failed => Action::Ignore,
        }
    }
}

/// Every step keeps the startup invariant.
pub proof fn lemma_step_keeps_wf(s: Startup, e: Event)
    requires
        s.wf(),
    ensures
        Startup::next(s, e).0.wf(),
{
}

/// No binding is registered before the session is established: a `Register`
/// action only ever comes from a state whose session is established, the
/// session becomes established only on a successful authentication, and the
/// index registered is the next one not yet registered.
pub proof fn lemma_register_only_after_establish(s: Startup, e: Event)
    requires
        s.wf(),
    ensures
        Startup::next(s, e).1 is Register ==> {
            &&& Startup::next(s, e).0.established
            &&& Startup::next(s, e).1->Register_0 == Startup::next(s, e).0.registered
            &&& Startup::next(s, e).0.registered < Startup::next(s, e).0.bindings
        },
        Startup::next(s, e).0.established && !s.established ==> s.phase == Phase::Authenticating
            && e is Authenticated,
        Startup::next(s, e).0.registered != s.registered ==> {
            &&& s.phase == Phase::Registering
            &&& e is Registered
            &&& Startup::next(s, e).0.registered == s.registered + 1
        },
{
}

/// The session is attempted only once a document has passed validation: a
/// `Connect` action follows only a successful check, and a rejected document
/// ends startup.
pub proof fn lemma_connect_only_after_valid_config(s: Startup, e: Event)
    requires
        s.wf(),
    ensures
        Startup::next(s, e).1 is Connect ==> s.phase == Phase::LoadingConfig && e is ConfigChecked
            && e->ConfigChecked_0 is Ok,
        s.phase == Phase::LoadingConfig && e is ConfigChecked && e->ConfigChecked_0 is Err ==> {
            &&& Startup::next(s, e).0.phase == Phase::Failed
            &&& Startup::next(s, e).1 == Action::Abort(StartupError::Invalid(e->ConfigChecked_0->Err_0))
        },
{
}

/// A failed startup stays failed, whatever comes after, and fails with no
/// binding registered.
pub proof fn lemma_failed_is_final(s: Startup, e: Event)
    requires
        s.wf(),
    ensures
        s.phase == Phase::Failed ==> Startup::next(s, e) == (s, Action::Ignore),
        Startup::next(s, e).0.phase == Phase::Failed ==> Startup::next(s, e).0.registered == 0,
{
}

/// The state after feeding `es` to `s`, one event at a time.
pub open spec fn run(s: Startup, es: Seq<Event>) -> Startup
    decreases es.len(),
{
    if es.len() == 0 {
        s
    } else {
        Startup::next(run(s, es.drop_last()), es.last()).0
    }
}

/// The action that the `k`-th event of `es` brings, fed in order from `s`.
pub open spec fn action_at(s: Startup, es: Seq<Event>, k: int) -> Action {
    Startup::next(run(s, es.subrange(0, k)), es[k]).1
}

/// Every run from a well-formed state ends in a well-formed state.
pub proof fn lemma_run_keeps_wf(s: Startup, es: Seq<Event>)
    requires
        s.wf(),
    ensures
        run(s, es).wf(),
    decreases es.len(),
{
    if es.len() > 0 {
        lemma_run_keeps_wf(s, es.drop_last());
    }
}

/// In every run from a fresh start, no binding is registered before the
/// session is established: whenever an event brings `Register`, an earlier
/// or the same event was a successful authentication, and the session is
/// established from then on.
pub proof fn lemma_no_register_before_establish_in_any_run(es: Seq<Event>, k: int)
    requires
        0 <= k < es.len(),
        action_at(Startup::new_spec(), es, k) is Register,
    ensures
        run(Startup::new_spec(), es.subrange(0, k + 1)).established,
        exists|j: int| 0 <= j <= k && #[trigger] es[j] is Authenticated,
{
    let s0 = Startup::new_spec();
    let pre = es.subrange(0, k);
    lemma_run_keeps_wf(s0, pre);
    lemma_register_only_after_establish(run(s0, pre), es[k]);
    assert(es.subrange(0, k + 1).drop_last() == pre);
    lemma_established_has_cause(es.subrange(0, k + 1));
    let j = choose|j: int| 0 <= j < k + 1 && #[trigger] es.subrange(0, k + 1)[j] is Authenticated;
    assert(es[j] is Authenticated);
}

proof fn lemma_established_has_cause(es: Seq<Event>)
    requires
        run(Startup::new_spec(), es).established,
    ensures
        exists|j: int| 0 <= j < es.len() && #[trigger] es[j] is Authenticated,
    decreases es.len(),
{
    let s0 = Startup::new_spec();
    if es.len() > 0 {
        let pre = es.drop_last();
        lemma_run_keeps_wf(s0, pre);
        if run(s0, pre).established {
            lemma_established_has_cause(pre);
            let j = choose|j: int| 0 <= j < pre.len() && #[trigger] pre[j] is Authenticated;
            assert(es[j] is Authenticated);
        } else {
            lemma_register_only_after_establish(run(s0, pre), es.last());
            assert(es[es.len() - 1] is Authenticated);
        }
    }
}

} // verus!

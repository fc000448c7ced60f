//! How the service starts.
//!
//! TLS is set up where an authority is configured, the database is brought up to date, the
//! unfinished proofs are queued again, and last of all the workers are started. Each state
//! below names what is to be done outside; its `answer` takes what came of it and gives the
//! next state. A failure ends the start, without workers.
use crate::manager::{terms_for, LoadStep, LoadView, TaskManager};
use crate::outcome::done_view;
use crate::protocol::{Build, RuntimeConfig};
use crate::service::StageServiceSVC;
use vstd::prelude::*;

verus! {

/// The files that TLS is set up from.
pub struct TlsPaths {
    pub ca_cert: String,
    pub cert: String,
    pub key: String,
}

/// What a [`TlsPaths`] says.
#[verifier::ext_equal]
pub struct TlsPathsView {
    pub ca_cert: Seq<char>,
    pub cert: Seq<char>,
    pub key: Seq<char>,
}

impl View for TlsPaths {
    type V = TlsPathsView;

    open spec fn view(&self) -> TlsPathsView {
        TlsPathsView { ca_cert: self.ca_cert@, cert: self.cert@, key: self.key@ }
    }
}

/// TLS is to be set up from these files.
pub struct TlsWork {
    pub service: StageServiceSVC,
    pub paths: TlsPaths,
}

/// The configured database is to be opened and brought up to date.
pub struct MigrateWork {
    pub service: StageServiceSVC,
    /// Is TLS set up?
    pub tls: bool,
}

/// The unfinished proofs are to be queued again, under these terms.
pub struct BacklogWork {
    pub service: StageServiceSVC,
    pub manager: TaskManager,
    pub tls: bool,
}

/// The workers are to be started, under these terms.
pub struct WorkersWork {
    pub service: StageServiceSVC,
    pub manager: TaskManager,
    pub tls: bool,
}

/// How far the start has come.
pub enum StartupStep {
    SetUpTls(TlsWork),
    Migrate(MigrateWork),
    LoadBacklog(BacklogWork),
    StartWorkers(WorkersWork),
    /// The service runs.
    Ready(StageServiceSVC),
    /// It does not, for this reason.
    Fail(String),
}

/// What a [`StartupStep`] says.
pub enum StartupView {
    SetUpTls { service: StageServiceSVC, paths: TlsPathsView },
    Migrate { service: StageServiceSVC, tls: bool },
    LoadBacklog { service: StageServiceSVC, manager: TaskManager, tls: bool },
    StartWorkers { service: StageServiceSVC, manager: TaskManager, tls: bool },
    Ready { service: StageServiceSVC },
    Fail(Seq<char>),
}

impl View for StartupStep {
    type V = StartupView;

    open spec fn view(&self) -> StartupView {
        match self {
            StartupStep::SetUpTls(w) => StartupView::SetUpTls {
                service: w.service,
                paths: w.paths@,
            },
            StartupStep::Migrate(w) => StartupView::Migrate { service: w.service, tls: w.tls },
            StartupStep::LoadBacklog(w) => StartupView::LoadBacklog {
                service: w.service,
                manager: w.manager,
                tls: w.tls,
            },
            StartupStep::StartWorkers(w) => StartupView::StartWorkers {
                service: w.service,
                manager: w.manager,
                tls: w.tls,
            },
            StartupStep::Ready(service) => StartupView::Ready { service: *service },
            StartupStep::Fail(message) => StartupView::Fail(message@),
        }
    }
}

/// Is TLS to be set up? It is where an authority is configured.
pub open spec fn tls_wanted(config: RuntimeConfig) -> bool {
    config.ca_cert_path is Some
}

/// The first state of a start.
pub open spec fn startup_begun(service: StageServiceSVC) -> StartupView {
    let config = service.config;
    if tls_wanted(config) {
        StartupView::SetUpTls {
            service,
            paths: TlsPathsView {
                ca_cert: config.ca_cert_path->0@,
                cert: config.cert_path->0@,
                key: config.key_path->0@,
            },
        }
    } else {
        StartupView::Migrate { service, tls: false }
    }
}

/// The state after TLS was set up.
pub open spec fn tls_answered(
    service: StageServiceSVC,
    outcome: Result<(), Seq<char>>,
) -> StartupView {
    match outcome {
        Ok(_) => StartupView::Migrate { service, tls: true },
        Err(message) => StartupView::Fail(message),
    }
}

/// The state after the database was brought up to date.
pub open spec fn migrate_answered(
    service: StageServiceSVC,
    tls: bool,
    outcome: Result<(), Seq<char>>,
) -> StartupView {
    match outcome {
        Ok(_) => StartupView::LoadBacklog {
            service,
            manager: terms_for(service.config.max_concurrent_tasks),
            tls,
        },
        Err(message) => StartupView::Fail(message),
    }
}

/// The state after the loading of unfinished proofs ended. However many were queued, only
/// a failure to have their rows ends the start.
pub open spec fn backlog_answered(
    service: StageServiceSVC,
    manager: TaskManager,
    tls: bool,
    end: LoadView,
) -> StartupView {
    match end {
        LoadView::Fail { message, cause } => StartupView::Fail(message),
        _ => StartupView::StartWorkers { service, manager, tls },
    }
}

/// The state after the workers were started.
pub open spec fn workers_started(service: StageServiceSVC) -> StartupView {
    StartupView::Ready { service }
}

impl StageServiceSVC {
    /// Begins the start of a service. Where an authority is configured, a certificate and
    /// a key must be, too.
    pub fn new(config: RuntimeConfig, build: Build) -> (r: StartupStep)
        requires
            tls_wanted(config) ==> config.cert_path is Some && config.key_path is Some,
        ensures
            r@ == startup_begun(StageServiceSVC { config, build }),
    {
        let paths: Option<TlsPaths> = match (
            &config.ca_cert_path,
            &config.cert_path,
            &config.key_path,
        ) {
            (Some(ca_cert), Some(cert), Some(key)) => Some(
                TlsPaths { ca_cert: ca_cert.clone(), cert: cert.clone(), key: key.clone() },
            ),
            _ => None,
        };
        let service = StageServiceSVC { config, build };
        match paths {
            Some(paths) => StartupStep::SetUpTls(TlsWork { service, paths }),
            None => StartupStep::Migrate(MigrateWork { service, tls: false }),
        }
    }
}

impl TlsWork {
    /// Goes on, unless TLS could not be set up.
    pub fn answer(self, outcome: Result<(), String>) -> (r: StartupStep)
        ensures
            r@ == tls_answered(self.service, done_view(outcome)),
    {
        match outcome {
            Ok(_) => StartupStep::Migrate(MigrateWork { service: self.service, tls: true }),
            Err(message) => StartupStep::Fail(message),
        }
    }
}

impl MigrateWork {
    /// Goes on, unless the database could not be brought up to date.
    pub fn answer(self, outcome: Result<(), String>) -> (r: StartupStep)
        ensures
            r@ == migrate_answered(self.service, self.tls, done_view(outcome)),
    {
        match outcome {
            Ok(_) => {
                let manager = TaskManager::new(self.service.config.max_concurrent_tasks);
                StartupStep::LoadBacklog(
                    BacklogWork { service: self.service, manager, tls: self.tls },
                )
            },
            Err(message) => StartupStep::Fail(message),
        }
    }
}

impl BacklogWork {
    /// Goes on, once the loading has ended, unless the rows could not be had.
    pub fn answer(self, end: LoadStep) -> (r: StartupStep)
        requires
            !(end is Send),
        ensures
            r@ == backlog_answered(self.service, self.manager, self.tls, end@),
    {
        match end {
            LoadStep::Fail { message, .. } => StartupStep::Fail(message),
            _ => StartupStep::StartWorkers(
                WorkersWork { service: self.service, manager: self.manager, tls: self.tls },
            ),
        }
    }
}

impl WorkersWork {
    /// Ends, the workers being started.
    pub fn answer(self) -> (r: StartupStep)
        ensures
            r@ == workers_started(self.service),
    {
        StartupStep::Ready(self.service)
    }
}

// ---------------------------------------------------------------------------
// What holds of a whole start
// ---------------------------------------------------------------------------

/// What comes of everything that a start asks for outside.
pub struct StartupWorld {
    pub tls: Result<(), Seq<char>>,
    pub migrate: Result<(), Seq<char>>,
    /// How the loading of unfinished proofs ends.
    pub backlog: LoadView,
}

/// The next state, in such a world.
pub open spec fn startup_next(state: StartupView, world: StartupWorld) -> StartupView {
    match state {
        StartupView::SetUpTls { service, paths } => tls_answered(service, world.tls),
        StartupView::Migrate { service, tls } => migrate_answered(service, tls, world.migrate),
        StartupView::LoadBacklog { service, manager, tls } => backlog_answered(
            service,
            manager,
            tls,
            world.backlog,
        ),
        StartupView::StartWorkers { service, manager, tls } => workers_started(service),
        other => other,
    }
}

/// The state after so many steps.
pub open spec fn startup_after(state: StartupView, world: StartupWorld, steps: nat) -> StartupView
    decreases steps,
{
    if steps == 0 {
        state
    } else {
        startup_next(startup_after(state, world, (steps - 1) as nat), world)
    }
}

/// The message of the first thing that does not go well, if any does not.
pub open spec fn startup_complaint(config: RuntimeConfig, world: StartupWorld) -> Option<
    Seq<char>,
> {
    if tls_wanted(config) && world.tls is Err {
        Some(world.tls->Err_0)
    } else if world.migrate is Err {
        Some(world.migrate->Err_0)
    } else if world.backlog is Fail {
        Some(world.backlog->Fail_message)
    } else {
        None
    }
}

/// A start ends after at most four steps: with the running service, or with the message of
/// the first thing that did not go well.
pub proof fn law_every_start_ends(service: StageServiceSVC, world: StartupWorld)
    ensures
        startup_after(startup_begun(service), world, 4) == (match startup_complaint(
            service.config,
            world,
        ) {
            Some(message) => StartupView::Fail(message),
            None => StartupView::Ready { service },
        }),
{
    reveal_with_fuel(startup_after, 5);
}

/// Has everything before a state gone well, and is the state one of this service, with TLS
/// where it is wanted and the terms that are configured?
pub open spec fn in_turn(
    state: StartupView,
    service: StageServiceSVC,
    world: StartupWorld,
) -> bool {
    let wanted = tls_wanted(service.config);
    let secured = wanted ==> world.tls is Ok;
    match state {
        StartupView::SetUpTls { service: at, paths } => at == service && wanted,
        StartupView::Migrate { service: at, tls } => at == service && tls == wanted && secured,
        StartupView::LoadBacklog { service: at, manager, tls } => {
            &&& at == service
            &&& tls == wanted
            &&& manager == terms_for(service.config.max_concurrent_tasks)
            &&& secured
            &&& world.migrate is Ok
        },
        StartupView::StartWorkers { service: at, manager, tls } => {
            &&& at == service
            &&& tls == wanted
            &&& manager == terms_for(service.config.max_concurrent_tasks)
            &&& secured
            &&& world.migrate is Ok
            &&& !(world.backlog is Fail)
        },
        StartupView::Ready { service: at } => {
            &&& at == service
            &&& secured
            &&& world.migrate is Ok
            &&& !(world.backlog is Fail)
        },
        StartupView::Fail(_) => startup_complaint(service.config, world) is Some,
    }
}

/// Everything is done in turn: the workers are started only after TLS was set up where it
/// is wanted, the database was brought up to date and the unfinished proofs were loaded,
/// and a start that fails starts none.
pub proof fn law_workers_are_started_last(
    service: StageServiceSVC,
    world: StartupWorld,
    steps: nat,
)
    ensures
        in_turn(startup_after(startup_begun(service), world, steps), service, world),
        startup_complaint(service.config, world) is Some ==> !(startup_after(
            startup_begun(service),
            world,
            steps,
        ) is StartWorkers),
    decreases steps,
{
    if steps > 0 {
        law_workers_are_started_last(service, world, (steps - 1) as nat);
    }
}

/// TLS is set up exactly where an authority is configured, from the files that are
/// configured for it.
pub proof fn law_tls_is_set_up_as_configured(service: StageServiceSVC)
    ensures
        ({
            let config = service.config;
            let state = startup_begun(service);
            &&& state is SetUpTls <==> config.ca_cert_path is Some
            &&& state is Migrate <==> config.ca_cert_path is None
            &&& state matches StartupView::SetUpTls { service: at, paths } ==> {
                &&& at == service
                &&& paths.ca_cert == config.ca_cert_path->0@
                &&& paths.cert == config.cert_path->0@
                &&& paths.key == config.key_path->0@
            }
            &&& state matches StartupView::Migrate { service: at, tls } ==> at == service && !tls
        }),
{
}

/// The workers start under the terms that are configured: as many proofs at once, one if
/// nothing is, and 256 that may wait.
pub proof fn law_workers_start_as_configured(
    service: StageServiceSVC,
    world: StartupWorld,
    steps: nat,
)
    ensures
        startup_after(
            startup_begun(service),
            world,
            steps,
        ) matches StartupView::StartWorkers { service: at, manager, tls } ==> {
            &&& at == service
            &&& tls <==> service.config.ca_cert_path is Some
            &&& service.config.max_concurrent_tasks matches Some(n) ==> manager.permits == n
            &&& service.config.max_concurrent_tasks is None ==> manager.permits == 1
            &&& manager.queue_capacity == 256
        },
{
    law_workers_are_started_last(service, world, steps);
}

} // verus!

//! The process supervisor's decisions.
//!
//! The supervisor owns the lifecycle of the sibling processes. Here it is a
//! state machine: each function takes what happened and says what to do
//! next; the caller spawns, waits and kills, and reports back.
//!
//! A role goes from `NotRunning` through `Starting` to `Running`, and from
//! there through `Stopping` back to `NotRunning`.

use crate::config::AppearanceSettings;
use crate::error::Error;
use crate::ipc::ProcessId;
use crate::registry::ClientRegistry;
use crate::router::AppCommand;
use vstd::prelude::*;

verus! {

/// Seconds between two looks at the managed processes.
pub const LIVENESS_TICK_SECS: u64 = 1;

/// A sibling process that the supervisor manages.
#[derive(Debug, Clone, Copy, PartialEq, Eq, Structural)]
pub enum Role {
    Tray,
    Theater,
    Manager,
    Settings,
}

/// Where a role stands in its lifecycle.
#[derive(Debug, Clone, Copy, PartialEq, Eq, Structural)]
pub enum RoleState {
    NotRunning,
    Starting,
    Running,
    Stopping,
}

/// What `start` asks of the caller.
#[derive(Debug, Clone, Copy, PartialEq, Eq, Structural)]
pub enum StartStep {
    /// The role is starting or running: nothing to do.
    AlreadyRunning,
    /// The role is being stopped: nothing is started until that is over.
    Busy,
    /// Spawn the role's executable and report with `spawned`.
    Spawn(Role),
}

/// What `stop` asks of the caller.
#[derive(Debug, Clone, Copy, PartialEq, Eq, Structural)]
pub enum StopStep {
    /// The role is not running, or is being stopped already: nothing to do.
    Nothing,
    /// Ask the role to shut down if `notify` is set, wait up to
    /// `timeout_secs` for the process to exit, and report with `waited`.
    Stop { notify: bool, timeout_secs: u64 },
}

/// How the wait for a process ended.
#[derive(Debug, Clone, Copy, PartialEq, Eq, Structural)]
pub enum WaitOutcome {
    /// The process exited.
    Exited,
    /// The wait failed.
    Failed,
    /// The process was still alive when the time was up.
    TimedOut,
}

/// What `waited` asks of the caller.
#[derive(Debug, Clone, Copy, PartialEq, Eq, Structural)]
pub enum AfterWait {
    /// The stop is complete.
    Done,
    /// Kill the process, wait until it is reaped, and report with `reaped`.
    Kill,
}

/// What changed in the state that the supervisor keeps on disk.
#[derive(Debug, Clone, Copy, PartialEq, Eq, Structural)]
pub enum Persist {
    Nothing,
    TheaterRunning(bool),
    PetVisible(bool),
}

/// What the loop does after a process was found to have exited.
#[derive(Debug, Clone, Copy, PartialEq, Eq, Structural)]
pub struct ExitOutcome {
    /// Leave the loop: the tray is gone, and with it the user.
    pub quit: bool,
    pub persist: Persist,
}

/// What the loop does on a command from the router.
#[derive(Debug, Clone, Copy, PartialEq, Eq, Structural)]
pub enum CommandPlan {
    /// Start the theater if `visible`, stop it if not; record the
    /// visibility; tell the tray `PetVisibilityChanged { visible }`.
    SetVisibility { visible: bool },
    /// Start the role.
    Start(Role),
    /// Leave the loop.
    Quit,
}

/// What the loop does after the configuration changed.
#[derive(Debug, Clone, Copy)]
pub struct ConfigPlan {
    /// Bring the login item in line with this value.
    pub auto_start: bool,
    /// The active pet changed: stop the theater.
    pub stop_theater: bool,
    /// Then start it again.
    pub start_theater: bool,
    /// The appearance changed: send it to the theater.
    pub push_appearance: Option<AppearanceSettings>,
}

/// What the loop waits for, as far as the supervisor decides on it.
/// Accepted connections and arrived envelopes go to the transport and the
/// router.
#[derive(Debug, Clone, Copy)]
pub enum LoopEvent {
    /// The operating system asks the coordinator to end.
    ShutdownSignal,
    /// The liveness tick found that the role's process has exited.
    ProcessExited(Role),
    /// The configuration file changed and was read again.
    ConfigChanged { auto_start: bool, active_pet: Option<u128>, appearance: AppearanceSettings },
    /// The router handed on a request.
    Command(AppCommand),
}

/// What the loop does on an event.
#[derive(Debug, Clone, Copy)]
pub enum LoopAction {
    /// Leave the loop and stop every role, in the order of `shutdown`.
    Quit,
    /// Record the change and go on.
    Record(Persist),
    /// Carry out the plan and go on.
    Reconcile(ConfigPlan),
    /// Set the pet's visibility and go on.
    SetVisibility { visible: bool },
    /// Start the role and go on.
    Start(Role),
}

/// The supervisor's state.
#[derive(Debug, Clone, Copy)]
pub struct ProcessManager {
    pub tray: RoleState,
    pub theater: RoleState,
    pub manager: RoleState,
    pub settings: RoleState,
    pub pet_visible: bool,
    pub last_active_pet: Option<u128>,
    pub last_appearance: AppearanceSettings,
}

/// Whether a role in this state has a process that is alive or about to be.
pub open spec fn is_up(s: RoleState) -> bool {
    s is Starting || s is Running
}

/// Seconds that a role gets to exit before it is killed.
pub open spec fn spec_stop_timeout(role: Role) -> u64 {
    match role {
        Role::Theater => 2,
        _ => 1,
    }
}

/// What starting or stopping a role changes on disk.
pub open spec fn persist_running(role: Role, running: bool) -> Persist {
    match role {
        Role::Theater => Persist::TheaterRunning(running),
        _ => Persist::Nothing,
    }
}

impl Role {
    /// The identity under which the role registers on the bus.
    pub open spec fn spec_process_id(self) -> ProcessId {
        match self {
            Role::Tray => ProcessId::Tray,
            Role::Theater => ProcessId::Theater,
            Role::Manager => ProcessId::Manager,
            Role::Settings => ProcessId::Settings,
        }
    }

    /// The identity under which the role registers on the bus.
    pub fn process_id(self) -> (r: ProcessId)
        ensures
            r == self.spec_process_id(),
    {
        match self {
            Role::Tray => ProcessId::Tray,
            Role::Theater => ProcessId::Theater,
            Role::Manager => ProcessId::Manager,
            Role::Settings => ProcessId::Settings,
        }
    }

    /// The file name of the role's executable, which lies beside the
    /// coordinator's own.
    pub fn exe_name(self) -> (r: &'static str)
        ensures
            r@ == match self {
                Role::Tray => "pet-tray"@,
                Role::Theater => "pet-theater"@,
                Role::Manager => "pet-manager"@,
                Role::Settings => "pet-settings"@,
            },
    {
        match self {
            Role::Tray => "pet-tray",
            Role::Theater => "pet-theater",
            Role::Manager => "pet-manager",
            Role::Settings => "pet-settings",
        }
    }

    /// Seconds that the role gets to exit before it is killed.
    pub fn stop_timeout_secs(self) -> (r: u64)
        ensures
            r == spec_stop_timeout(self),
    {
        match self {
            Role::Theater => 2,
            _ => 1,
        }
    }
}

impl ProcessManager {
    pub open spec fn state_of(self, role: Role) -> RoleState {
        match role {
            Role::Tray => self.tray,
            Role::Theater => self.theater,
            Role::Manager => self.manager,
            Role::Settings => self.settings,
        }
    }

    pub open spec fn with_state(self, role: Role, s: RoleState) -> ProcessManager {
        match role {
            Role::Tray => ProcessManager { tray: s, ..self },
            Role::Theater => ProcessManager { theater: s, ..self },
            Role::Manager => ProcessManager { manager: s, ..self },
            Role::Settings => ProcessManager { settings: s, ..self },
        }
    }

    /// `start`: nothing happens to a role that is up or being stopped; any
    /// other role is now starting, and its executable is to be spawned.
    pub open spec fn after_start(self, role: Role) -> (ProcessManager, StartStep) {
        match self.state_of(role) {
            RoleState::NotRunning => (
                self.with_state(role, RoleState::Starting),
                StartStep::Spawn(role),
            ),
            RoleState::Stopping => (self, StartStep::Busy),
            _ => (self, StartStep::AlreadyRunning),
        }
    }

    /// `spawned`: a starting role runs if the spawn succeeded and is not
    /// running if it failed.
    pub open spec fn after_spawned(self, role: Role, ok: bool) -> ProcessManager {
        if self.state_of(role) is Starting {
            self.with_state(
                role,
                if ok {
                    RoleState::Running
                } else {
                    RoleState::NotRunning
                },
            )
        } else {
            self
        }
    }

    /// `stop`: nothing happens to a role that is not up; a role that is up
    /// is now stopping.
    pub open spec fn after_stop(self, role: Role, registered: bool) -> (ProcessManager, StopStep) {
        if is_up(self.state_of(role)) {
            (
                self.with_state(role, RoleState::Stopping),
                StopStep::Stop { notify: registered, timeout_secs: spec_stop_timeout(role) },
            )
        } else {
            (self, StopStep::Nothing)
        }
    }

    /// `waited`: a stopping role whose process exited is not running; one
    /// whose process did not is to be killed and stays stopping.
    pub open spec fn after_waited(self, role: Role, outcome: WaitOutcome) -> (
        ProcessManager,
        AfterWait,
    ) {
        if self.state_of(role) is Stopping {
            match outcome {
                WaitOutcome::Exited => (
                    self.with_state(role, RoleState::NotRunning),
                    AfterWait::Done,
                ),
                _ => (self, AfterWait::Kill),
            }
        } else {
            (self, AfterWait::Done)
        }
    }

    /// `reaped`: a stopping role whose process was killed and reaped is not
    /// running.
    pub open spec fn after_reaped(self, role: Role) -> ProcessManager {
        if self.state_of(role) is Stopping {
            self.with_state(role, RoleState::NotRunning)
        } else {
            self
        }
    }

    /// `on_exit`: a role that was up and whose process is found to have
    /// exited is not running; the loop ends if that role is the tray.
    pub open spec fn after_exit(self, role: Role) -> (ProcessManager, ExitOutcome) {
        if is_up(self.state_of(role)) {
            (
                self.with_state(role, RoleState::NotRunning),
                ExitOutcome { quit: role == Role::Tray, persist: persist_running(role, false) },
            )
        } else {
            (self, ExitOutcome { quit: false, persist: Persist::Nothing })
        }
    }

    /// `handle_app_command`.
    pub open spec fn after_command(self, cmd: AppCommand) -> (ProcessManager, CommandPlan) {
        match cmd {
            AppCommand::TogglePetVisibility => (
                ProcessManager { pet_visible: !self.pet_visible, ..self },
                CommandPlan::SetVisibility { visible: !self.pet_visible },
            ),
            AppCommand::OpenManager => (self, CommandPlan::Start(Role::Manager)),
            AppCommand::OpenSettings => (self, CommandPlan::Start(Role::Settings)),
            AppCommand::QuitApp => (self, CommandPlan::Quit),
        }
    }

    /// `handle_config_change`.
    pub open spec fn after_config_change(
        self,
        auto_start: bool,
        active_pet: Option<u128>,
        appearance: AppearanceSettings,
    ) -> (ProcessManager, ConfigPlan) {
        let pet_changed = active_pet != self.last_active_pet;
        let look_changed = appearance != self.last_appearance;
        (
            ProcessManager { last_active_pet: active_pet, last_appearance: appearance, ..self },
            ConfigPlan {
                auto_start,
                stop_theater: pet_changed,
                start_theater: pet_changed && active_pet is Some && self.pet_visible,
                push_appearance: if look_changed {
                    Some(appearance)
                } else {
                    None
                },
            },
        )
    }

    /// One turn of the loop.
    pub open spec fn after_event(self, event: LoopEvent) -> (ProcessManager, LoopAction) {
        match event {
            LoopEvent::ShutdownSignal => (self, LoopAction::Quit),
            LoopEvent::ProcessExited(role) => {
                let (m, o) = self.after_exit(role);
                (
                    m,
                    if o.quit {
                        LoopAction::Quit
                    } else {
                        LoopAction::Record(o.persist)
                    },
                )
            },
            LoopEvent::ConfigChanged { auto_start, active_pet, appearance } => {
                let (m, plan) = self.after_config_change(auto_start, active_pet, appearance);
                (m, LoopAction::Reconcile(plan))
            },
            LoopEvent::Command(cmd) => {
                let (m, plan) = self.after_command(cmd);
                (
                    m,
                    match plan {
                        CommandPlan::SetVisibility { visible } => LoopAction::SetVisibility {
                            visible,
                        },
                        CommandPlan::Start(role) => LoopAction::Start(role),
                        CommandPlan::Quit => LoopAction::Quit,
                    },
                )
            },
        }
    }

    /// A supervisor that runs nothing, with the pet visible.
    pub fn new() -> (r: Self)
        ensures
            r.tray is NotRunning,
            r.theater is NotRunning,
            r.manager is NotRunning,
            r.settings is NotRunning,
            r.pet_visible,
            r.last_active_pet is None,
            r.last_appearance == AppearanceSettings::spec_default(),
    {
        ProcessManager {
            tray: RoleState::NotRunning,
            theater: RoleState::NotRunning,
            manager: RoleState::NotRunning,
            settings: RoleState::NotRunning,
            pet_visible: true,
            last_active_pet: None,
            last_appearance: AppearanceSettings::default(),
        }
    }

    /// Takes over what the configuration and the state on disk say when the
    /// loop begins. Without a readable state the pet is visible.
    pub fn begin_run(
        &mut self,
        active_pet: Option<u128>,
        appearance: AppearanceSettings,
        pet_visible: Option<bool>,
    )
        ensures
            *final(self) == (ProcessManager {
                last_active_pet: active_pet,
                last_appearance: appearance,
                pet_visible: match pet_visible {
                    Some(v) => v,
                    None => true,
                },
                ..*old(self)
            }),
    {
        self.last_active_pet = active_pet;
        self.last_appearance = appearance;
        self.pet_visible = match pet_visible {
            Some(v) => v,
            None => true,
        };
    }

    /// The state of a role.
    pub fn state(&self, role: Role) -> (r: RoleState)
        ensures
            r == self.state_of(role),
    {
        match role {
            Role::Tray => self.tray,
            Role::Theater => self.theater,
            Role::Manager => self.manager,
            Role::Settings => self.settings,
        }
    }

    fn set_state(&mut self, role: Role, s: RoleState)
        ensures
            *final(self) == old(self).with_state(role, s),
    {
        match role {
            Role::Tray => {
                self.tray = s;
            },
            Role::Theater => {
                self.theater = s;
            },
            Role::Manager => {
                self.manager = s;
            },
            Role::Settings => {
                self.settings = s;
            },
        }
    }

    /// Starts a role, unless it is up or being stopped.
    pub fn start(&mut self, role: Role) -> (r: StartStep)
        ensures
            (*final(self), r) == old(self).after_start(role),
    {
        match self.state(role) {
            RoleState::NotRunning => {
                self.set_state(role, RoleState::Starting);
                StartStep::Spawn(role)
            },
            RoleState::Stopping => StartStep::Busy,
            _ => StartStep::AlreadyRunning,
        }
    }

    /// Takes the result of the spawn that `start` asked for: `None` for
    /// success, the reason for failure. A failure is returned as an error
    /// and leaves the role not running.
    pub fn spawned(&mut self, role: Role, failure: Option<String>) -> (r: Result<Persist, Error>)
        ensures
            *final(self) == old(self).after_spawned(role, failure is None),
            match r {
                Ok(p) => failure is None && p == if old(self).state_of(role) is Starting {
                    persist_running(role, true)
                } else {
                    Persist::Nothing
                },
                Err(e) => failure is Some && e == Error::Spawn(failure->0),
            },
    {
        let starting: bool = match self.state(role) {
            RoleState::Starting => true,
            _ => false,
        };
        match failure {
            None => {
                if starting {
                    self.set_state(role, RoleState::Running);
                    Ok(Self::persist_for(role, true))
                } else {
                    Ok(Persist::Nothing)
                }
            },
            Some(reason) => {
                if starting {
                    self.set_state(role, RoleState::NotRunning);
                }
                Err(Error::Spawn(reason))
            },
        }
    }

    fn persist_for(role: Role, running: bool) -> (r: Persist)
        ensures
            r == persist_running(role, running),
    {
        match role {
            Role::Theater => Persist::TheaterRunning(running),
            _ => Persist::Nothing,
        }
    }

    /// Stops a role, unless it is not up. The role is asked to shut down
    /// where it has a registered connection.
    pub fn stop<W>(&mut self, role: Role, registry: &ClientRegistry<W>) -> (r: StopStep)
        ensures
            (*final(self), r) == old(self).after_stop(
                role,
                registry@.contains_key(role.spec_process_id()),
            ),
    {
        let up: bool = match self.state(role) {
            RoleState::Starting => true,
            RoleState::Running => true,
            _ => false,
        };
        if up {
            let notify: bool = registry.is_registered(role.process_id());
            self.set_state(role, RoleState::Stopping);
            StopStep::Stop { notify, timeout_secs: role.stop_timeout_secs() }
        } else {
            StopStep::Nothing
        }
    }

    /// Takes the result of the wait that `stop` asked for.
    pub fn waited(&mut self, role: Role, outcome: WaitOutcome) -> (r: AfterWait)
        ensures
            (*final(self), r) == old(self).after_waited(role, outcome),
    {
        let stopping: bool = match self.state(role) {
            RoleState::Stopping => true,
            _ => false,
        };
        if !stopping {
            return AfterWait::Done;
        }
        match outcome {
            WaitOutcome::Exited => {
                self.set_state(role, RoleState::NotRunning);
                AfterWait::Done
            },
            _ => AfterWait::Kill,
        }
    }

    /// Takes the report that a killed process was reaped.
    pub fn reaped(&mut self, role: Role)
        ensures
            *final(self) == old(self).after_reaped(role),
    {
        match self.state(role) {
            RoleState::Stopping => {
                self.set_state(role, RoleState::NotRunning);
            },
            _ => {},
        }
    }

    /// What a completed stop of the role changes on disk.
    pub fn stopped_persist(role: Role) -> (r: Persist)
        ensures
            r == persist_running(role, false),
    {
        Self::persist_for(role, false)
    }

    /// Takes the finding of the liveness tick that a role's process has
    /// exited.
    pub fn on_exit(&mut self, role: Role) -> (r: ExitOutcome)
        ensures
            (*final(self), r) == old(self).after_exit(role),
    {
        let up: bool = match self.state(role) {
            RoleState::Starting => true,
            RoleState::Running => true,
            _ => false,
        };
        if up {
            self.set_state(role, RoleState::NotRunning);
            let quit: bool = match role {
                Role::Tray => true,
                _ => false,
            };
            ExitOutcome { quit, persist: Self::persist_for(role, false) }
        } else {
            ExitOutcome { quit: false, persist: Persist::Nothing }
        }
    }

    /// Translates a command of the router into what the loop does.
    pub fn handle_app_command(&mut self, cmd: AppCommand) -> (r: CommandPlan)
        ensures
            (*final(self), r) == old(self).after_command(cmd),
    {
        match cmd {
            AppCommand::TogglePetVisibility => {
                self.pet_visible = !self.pet_visible;
                CommandPlan::SetVisibility { visible: self.pet_visible }
            },
            AppCommand::OpenManager => CommandPlan::Start(Role::Manager),
            AppCommand::OpenSettings => CommandPlan::Start(Role::Settings),
            AppCommand::QuitApp => CommandPlan::Quit,
        }
    }

    /// Compares a reloaded configuration with what the supervisor last saw.
    pub fn handle_config_change(
        &mut self,
        auto_start: bool,
        active_pet: Option<u128>,
        appearance: AppearanceSettings,
    ) -> (r: ConfigPlan)
        ensures
            (*final(self), r) == old(self).after_config_change(auto_start, active_pet, appearance),
    {
        let pet_changed: bool = match (active_pet, self.last_active_pet) {
            (Some(a), Some(b)) => a != b,
            (None, None) => false,
            _ => true,
        };
        let look_changed: bool = !appearance.same_as(&self.last_appearance);
        let start_theater: bool = pet_changed && active_pet.is_some() && self.pet_visible;
        self.last_active_pet = active_pet;
        self.last_appearance = appearance;
        ConfigPlan {
            auto_start,
            stop_theater: pet_changed,
            start_theater,
            push_appearance: if look_changed {
                Some(appearance)
            } else {
                None
            },
        }
    }

    /// One turn of the loop: what to do on an event. The loop ends on the
    /// shutdown signal, on the exit of the tray and on the request to quit.
    pub fn run(&mut self, event: LoopEvent) -> (r: LoopAction)
        ensures
            (*final(self), r) == old(self).after_event(event),
    {
        match event {
            LoopEvent::ShutdownSignal => LoopAction::Quit,
            LoopEvent::ProcessExited(role) => {
                let o = self.on_exit(role);
                if o.quit {
                    LoopAction::Quit
                } else {
                    LoopAction::Record(o.persist)
                }
            },
            LoopEvent::ConfigChanged { auto_start, active_pet, appearance } => {
                LoopAction::Reconcile(self.handle_config_change(auto_start, active_pet, appearance))
            },
            LoopEvent::Command(cmd) => match self.handle_app_command(cmd) {
                CommandPlan::SetVisibility { visible } => LoopAction::SetVisibility { visible },
                CommandPlan::Start(role) => LoopAction::Start(role),
                CommandPlan::Quit => LoopAction::Quit,
            },
        }
    }

    /// The roles to start when the loop begins: the tray and the theater,
    /// and the manager on a first run, when no pet is configured yet.
    pub fn start_child_processes(first_run: bool) -> (r: Vec<Role>)
        ensures
            r@ == if first_run {
                seq![Role::Tray, Role::Theater, Role::Manager]
            } else {
                seq![Role::Tray, Role::Theater]
            },
    {
        let mut roles: Vec<Role> = Vec::new();
        roles.push(Role::Tray);
        roles.push(Role::Theater);
        if first_run {
            roles.push(Role::Manager);
        }
        assert(roles@ =~= if first_run {
            seq![Role::Tray, Role::Theater, Role::Manager]
        } else {
            seq![Role::Tray, Role::Theater]
        });
        roles
    }

    /// The order in which the roles are stopped when the loop has ended: the
    /// tray last.
    pub fn shutdown() -> (r: [Role; 4])
        ensures
            r@ == seq![Role::Settings, Role::Manager, Role::Theater, Role::Tray],
    {
        let r = [Role::Settings, Role::Manager, Role::Theater, Role::Tray];
        assert(r@ =~= seq![Role::Settings, Role::Manager, Role::Theater, Role::Tray]);
        r
    }

    pub fn start_tray(&mut self) -> (r: StartStep)
        ensures
            (*final(self), r) == old(self).after_start(Role::Tray),
    {
        self.start(Role::Tray)
    }

    pub fn start_theater(&mut self) -> (r: StartStep)
        ensures
            (*final(self), r) == old(self).after_start(Role::Theater),
    {
        self.start(Role::Theater)
    }

    pub fn start_manager(&mut self) -> (r: StartStep)
        ensures
            (*final(self), r) == old(self).after_start(Role::Manager),
    {
        self.start(Role::Manager)
    }

    pub fn start_settings(&mut self) -> (r: StartStep)
        ensures
            (*final(self), r) == old(self).after_start(Role::Settings),
    {
        self.start(Role::Settings)
    }

    pub fn stop_tray<W>(&mut self, registry: &ClientRegistry<W>) -> (r: StopStep)
        ensures
            (*final(self), r) == old(self).after_stop(
                Role::Tray,
                registry@.contains_key(ProcessId::Tray),
            ),
    {
        self.stop(Role::Tray, registry)
    }

    pub fn stop_theater<W>(&mut self, registry: &ClientRegistry<W>) -> (r: StopStep)
        ensures
            (*final(self), r) == old(self).after_stop(
                Role::Theater,
                registry@.contains_key(ProcessId::Theater),
            ),
    {
        self.stop(Role::Theater, registry)
    }

    pub fn stop_manager<W>(&mut self, registry: &ClientRegistry<W>) -> (r: StopStep)
        ensures
            (*final(self), r) == old(self).after_stop(
                Role::Manager,
                registry@.contains_key(ProcessId::Manager),
            ),
    {
        self.stop(Role::Manager, registry)
    }

    pub fn stop_settings<W>(&mut self, registry: &ClientRegistry<W>) -> (r: StopStep)
        ensures
            (*final(self), r) == old(self).after_stop(
                Role::Settings,
                registry@.contains_key(ProcessId::Settings),
            ),
    {
        self.stop(Role::Settings, registry)
    }
}

/// Escalated stop: a role that is up and stopped gets its grace period; if
/// it is still alive when the time is up, or the wait fails, it is to be
/// killed; and it counts as not running only once its process has exited or
/// was reaped after the kill.
pub proof fn lemma_escalated_stop(m: ProcessManager, role: Role, registered: bool, o: WaitOutcome)
    requires
        is_up(m.state_of(role)),
    ensures
        m.after_stop(role, registered).1 == (StopStep::Stop {
            notify: registered,
            timeout_secs: spec_stop_timeout(role),
        }),
        m.after_stop(role, registered).0.state_of(role) is Stopping,
        ({
            let stopping = m.after_stop(role, registered).0;
            let (after, step) = stopping.after_waited(role, o);
            &&& (o is Exited <==> step is Done)
            &&& (o is Exited <==> after.state_of(role) is NotRunning)
            &&& (!(o is Exited) ==> step is Kill && after.state_of(role) is Stopping
                && after.after_reaped(role).state_of(role) is NotRunning)
        }),
{
}

/// Idempotent start: a second `start` without a `stop` between asks for no
/// second spawn and changes nothing, whether or not the first spawn has been
/// reported as done.
pub proof fn lemma_start_idempotent(m: ProcessManager, role: Role)
    requires
        m.state_of(role) is NotRunning,
    ensures
        m.after_start(role).1 == StartStep::Spawn(role),
        ({
            let first = m.after_start(role).0;
            &&& first.after_start(role) == (first, StartStep::AlreadyRunning)
            &&& first.after_spawned(role, true).after_start(role) == (
                first.after_spawned(role, true),
                StartStep::AlreadyRunning,
            )
        }),
{
}

/// Idempotent stop: stopping a role that is not running does nothing.
pub proof fn lemma_stop_idempotent(m: ProcessManager, role: Role, registered: bool)
    requires
        m.state_of(role) is NotRunning,
    ensures
        m.after_stop(role, registered) == (m, StopStep::Nothing),
        ({
            let n = m.after_start(role).0.after_spawned(role, true);
            let stopped = n.after_stop(role, registered).0.after_waited(role, WaitOutcome::Exited).0;
            &&& stopped.state_of(role) is NotRunning
            &&& stopped.after_stop(role, registered) == (stopped, StopStep::Nothing)
        }),
{
}

/// The loop ends on exactly three events: the shutdown signal, the exit of
/// the tray while it was up, and the request to quit.
pub proof fn lemma_loop_ends(m: ProcessManager, event: LoopEvent)
    ensures
        m.after_event(event).1 is Quit <==> {
            ||| event is ShutdownSignal
            ||| event == LoopEvent::ProcessExited(Role::Tray) && is_up(m.tray)
            ||| event == LoopEvent::Command(AppCommand::QuitApp)
        },
{
}

/// A step for one role leaves the states of the other roles alone.
pub proof fn lemma_roles_independent(m: ProcessManager, role: Role, other: Role, o: WaitOutcome)
    requires
        role != other,
    ensures
        m.after_start(role).0.state_of(other) == m.state_of(other),
        m.after_spawned(role, true).state_of(other) == m.state_of(other),
        m.after_spawned(role, false).state_of(other) == m.state_of(other),
        m.after_stop(role, true).0.state_of(other) == m.state_of(other),
        m.after_waited(role, o).0.state_of(other) == m.state_of(other),
        m.after_reaped(role).state_of(other) == m.state_of(other),
        m.after_exit(role).0.state_of(other) == m.state_of(other),
{
}

} // verus!

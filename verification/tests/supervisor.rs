use pet_core::config::{default_language, default_model, default_pet_name, default_true};
use pet_core::config::{AiProvider, AppState, AppearanceSettings, GeneralSettings, PersonalityConfig};
use pet_core::error::Error;
use pet_core::ipc::ProcessId;
use pet_core::models::{WindowPosition, WindowSize};
use pet_core::paths::{join, AppPaths};
use pet_core::process::{
    AfterWait, CommandPlan, Persist, ProcessManager, Role, RoleState, StartStep, StopStep,
    WaitOutcome,
};
use pet_core::registry::ClientRegistry;
use pet_core::router::AppCommand;
use pet_core::script::{Action, BehaviorScript};
use pet_core::storage::{is_among, StorageService};
use pet_core::views::{
    provider_label, status_from_report, GenerationState, GenerationStatus, Page, Screen,
};

#[test]
fn start_twice_spawns_once() {
    let mut m = ProcessManager::new();
    assert_eq!(m.start(Role::Theater), StartStep::Spawn(Role::Theater));
    assert_eq!(m.state(Role::Theater), RoleState::Starting);
    assert_eq!(m.start(Role::Theater), StartStep::AlreadyRunning);
    assert_eq!(m.spawned(Role::Theater, None).unwrap(), Persist::TheaterRunning(true));
    assert_eq!(m.state(Role::Theater), RoleState::Running);
    assert_eq!(m.start_theater(), StartStep::AlreadyRunning);
    assert_eq!(m.state(Role::Theater), RoleState::Running);
    assert_eq!(m.state(Role::Tray), RoleState::NotRunning);
}

#[test]
fn stop_of_a_stopped_role_does_nothing() {
    let mut m = ProcessManager::new();
    let registry: ClientRegistry<u8> = ClientRegistry::new();
    assert_eq!(m.stop(Role::Manager, &registry), StopStep::Nothing);
    assert_eq!(m.stop_manager(&registry), StopStep::Nothing);
    assert_eq!(m.state(Role::Manager), RoleState::NotRunning);
}

#[test]
fn failed_spawn_is_an_error_and_leaves_the_role_not_running() {
    let mut m = ProcessManager::new();
    assert_eq!(m.start_tray(), StartStep::Spawn(Role::Tray));
    match m.spawned(Role::Tray, Some("no such file".to_string())) {
        Err(Error::Spawn(reason)) => assert_eq!(reason, "no such file"),
        other => panic!("{:?}", other),
    }
    assert_eq!(m.state(Role::Tray), RoleState::NotRunning);
    assert_eq!(m.start_tray(), StartStep::Spawn(Role::Tray));
}

#[test]
fn graceful_stop_of_a_registered_role() {
    let mut m = ProcessManager::new();
    let mut registry: ClientRegistry<u8> = ClientRegistry::new();
    registry.register(ProcessId::Theater, 3, 9);
    m.start(Role::Theater);
    m.spawned(Role::Theater, None).unwrap();
    assert_eq!(
        m.stop(Role::Theater, &registry),
        StopStep::Stop { notify: true, timeout_secs: 2 }
    );
    assert_eq!(m.state(Role::Theater), RoleState::Stopping);
    assert_eq!(m.start(Role::Theater), StartStep::Busy);
    assert_eq!(m.stop(Role::Theater, &registry), StopStep::Nothing);
    assert_eq!(m.waited(Role::Theater, WaitOutcome::Exited), AfterWait::Done);
    assert_eq!(m.state(Role::Theater), RoleState::NotRunning);
    assert_eq!(ProcessManager::stopped_persist(Role::Theater), Persist::TheaterRunning(false));
    assert_eq!(ProcessManager::stopped_persist(Role::Tray), Persist::Nothing);
}

#[test]
fn a_role_that_ignores_the_request_is_killed() {
    for outcome in [WaitOutcome::TimedOut, WaitOutcome::Failed] {
        let mut m = ProcessManager::new();
        let registry: ClientRegistry<u8> = ClientRegistry::new();
        m.start(Role::Tray);
        m.spawned(Role::Tray, None).unwrap();
        assert_eq!(m.stop_tray(&registry), StopStep::Stop { notify: false, timeout_secs: 1 });
        assert_eq!(m.waited(Role::Tray, outcome), AfterWait::Kill);
        assert_eq!(m.state(Role::Tray), RoleState::Stopping);
        m.reaped(Role::Tray);
        assert_eq!(m.state(Role::Tray), RoleState::NotRunning);
    }
}

#[test]
fn exit_of_the_tray_ends_the_loop_and_exit_of_others_does_not() {
    let mut m = ProcessManager::new();
    for role in [Role::Tray, Role::Theater, Role::Manager, Role::Settings] {
        m.start(role);
        m.spawned(role, None).unwrap();
    }
    let o = m.on_exit(Role::Theater);
    assert!(!o.quit);
    assert_eq!(o.persist, Persist::TheaterRunning(false));
    assert_eq!(m.state(Role::Theater), RoleState::NotRunning);
    assert_eq!(m.start(Role::Theater), StartStep::Spawn(Role::Theater));
    let o = m.on_exit(Role::Manager);
    assert!(!o.quit);
    assert_eq!(o.persist, Persist::Nothing);
    let o = m.on_exit(Role::Manager);
    assert!(!o.quit);
    let o = m.on_exit(Role::Tray);
    assert!(o.quit);
    assert_eq!(m.state(Role::Settings), RoleState::Running);
}

#[test]
fn commands_become_plans() {
    let mut m = ProcessManager::new();
    assert!(m.pet_visible);
    assert_eq!(
        m.handle_app_command(AppCommand::TogglePetVisibility),
        CommandPlan::SetVisibility { visible: false }
    );
    assert!(!m.pet_visible);
    assert_eq!(
        m.handle_app_command(AppCommand::TogglePetVisibility),
        CommandPlan::SetVisibility { visible: true }
    );
    assert_eq!(m.handle_app_command(AppCommand::OpenManager), CommandPlan::Start(Role::Manager));
    assert_eq!(m.handle_app_command(AppCommand::OpenSettings), CommandPlan::Start(Role::Settings));
    assert_eq!(m.handle_app_command(AppCommand::QuitApp), CommandPlan::Quit);
}

#[test]
fn config_changes_are_reconciled() {
    let mut m = ProcessManager::new();
    let look = AppearanceSettings::default();
    m.begin_run(Some(7), look, None);
    assert!(m.pet_visible);

    let p = m.handle_config_change(true, Some(7), look);
    assert!(p.auto_start && !p.stop_theater && !p.start_theater && p.push_appearance.is_none());

    let p = m.handle_config_change(false, Some(8), look);
    assert!(!p.auto_start && p.stop_theater && p.start_theater);

    let p = m.handle_config_change(false, None, look);
    assert!(p.stop_theater && !p.start_theater);

    m.handle_app_command(AppCommand::TogglePetVisibility);
    let p = m.handle_config_change(false, Some(9), look);
    assert!(p.stop_theater && !p.start_theater);

    let bigger = AppearanceSettings { pet_scale: 2.0f32.to_bits(), ..look };
    let p = m.handle_config_change(false, Some(9), bigger);
    assert!(!p.stop_theater);
    assert_eq!(p.push_appearance.map(|a| f32::from_bits(a.pet_scale)), Some(2.0));
    let p = m.handle_config_change(false, Some(9), bigger);
    assert!(p.push_appearance.is_none());
    let moved = AppearanceSettings { pet_position: WindowPosition::new(1, 0), ..bigger };
    assert!(m.handle_config_change(false, Some(9), moved).push_appearance.is_some());
}

#[test]
fn order_of_start_and_of_shutdown() {
    assert_eq!(ProcessManager::start_child_processes(false), vec![Role::Tray, Role::Theater]);
    assert_eq!(
        ProcessManager::start_child_processes(true),
        vec![Role::Tray, Role::Theater, Role::Manager]
    );
    assert_eq!(
        ProcessManager::shutdown(),
        [Role::Settings, Role::Manager, Role::Theater, Role::Tray]
    );
    assert_eq!(Role::Tray.exe_name(), "pet-tray");
    assert_eq!(Role::Theater.exe_name(), "pet-theater");
    assert_eq!(Role::Manager.exe_name(), "pet-manager");
    assert_eq!(Role::Settings.exe_name(), "pet-settings");
    assert_eq!(Role::Theater.stop_timeout_secs(), 2);
    assert_eq!(Role::Settings.stop_timeout_secs(), 1);
    assert_eq!(Role::Manager.process_id(), ProcessId::Manager);
}

#[test]
fn defaults_of_the_settings() {
    let look = AppearanceSettings::default();
    assert_eq!(f32::from_bits(look.pet_scale), 1.0);
    assert_eq!(f32::from_bits(look.opacity), 1.0);
    assert!(look.always_on_top);
    assert_eq!(look.pet_position, WindowPosition::default());
    assert_eq!(default_language(), "en");
    assert_eq!(default_model(), "gpt-4o-mini");
    assert_eq!(default_pet_name(), "Pet");
    assert!(default_true());
    let g = GeneralSettings::default();
    assert!(!g.auto_start);
    assert_eq!(g.language, "en");
    assert_eq!(AiProvider::default(), AiProvider::OpenAi);
    assert_eq!(PersonalityConfig::default().name, "Pet");
    assert_eq!(WindowSize::new(3, 4), WindowSize { width: 3, height: 4 });
    let s = AppState::load(None);
    assert_eq!(s, AppState::default());
    let t = AppState { pet_visible: true, theater_running: false, manager_open: true };
    assert_eq!(AppState::load(Some(t)), t);
    assert!(t.apply(Persist::TheaterRunning(true)).theater_running);
    assert!(!t.apply(Persist::PetVisible(false)).pet_visible);
    assert_eq!(t.apply(Persist::Nothing), t);
}

#[test]
fn paths_lie_below_the_two_directories() {
    let p = AppPaths::with_dirs("/c".to_string(), "/d".to_string());
    assert_eq!(p.config_dir(), "/c");
    assert_eq!(p.data_dir(), "/d");
    assert_eq!(p.config_file(), "/c/config.toml");
    assert_eq!(p.state_file(), "/c/state.toml");
    assert_eq!(p.models_dir(), "/d/models");
    assert_eq!(p.scripts_dir(), "/d/scripts");
    assert_eq!(p.logs_dir(), "/d/logs");
    assert_eq!(p.socket_path(), "/d/pet.sock");
    assert_eq!(p.script_file("idle"), "/d/scripts/idle.toml");
    assert_eq!(join("a", "b"), "a/b");
}

#[test]
fn builtin_scripts_and_which_are_missing() {
    let all = BehaviorScript::builtin_scripts();
    let ids: Vec<&str> = all.iter().map(|s| s.id.as_str()).collect();
    assert_eq!(ids, vec!["idle", "walk", "happy", "sleep"]);
    let walk = BehaviorScript::walk();
    assert_eq!(walk.duration.map(f32::from_bits), Some(4.0));
    match &walk.keyframes[2].action {
        Action::MoveTo { x, y } => {
            assert_eq!(f32::from_bits(*x), -0.3);
            assert_eq!(f32::from_bits(*y), 0.0);
        },
        _ => panic!("wrong action"),
    }
    assert_eq!(f32::from_bits(walk.keyframes[2].time), 2.0);
    let happy = BehaviorScript::happy();
    assert!(!happy.interruptible);
    match &happy.keyframes[1].action {
        Action::Scale { factor } => assert_eq!(f32::from_bits(*factor), 1.2),
        _ => panic!("wrong action"),
    }
    assert_eq!(f32::from_bits(happy.keyframes[3].time), 1.5);
    assert_eq!(BehaviorScript::sleep().duration, None);
    assert_eq!(BehaviorScript::idle().keyframes.len(), 3);

    let storage = StorageService::new(AppPaths::with_dirs("c".to_string(), "d".to_string()));
    assert_eq!(storage.paths().data_dir(), "d");
    let existing = vec!["walk".to_string(), "other".to_string(), "sleep".to_string()];
    let missing = storage.init_builtin_scripts(&existing);
    let ids: Vec<&str> = missing.iter().map(|s| s.id.as_str()).collect();
    assert_eq!(ids, vec!["idle", "happy"]);
    assert_eq!(storage.init_builtin_scripts(&vec![]).len(), 4);
    assert!(is_among("walk", &existing));
    assert!(!is_among("idle", &existing));
}

#[test]
fn generation_status() {
    let mut g = GenerationState {
        status: GenerationStatus::Submitting,
        task_id: None,
        progress: 0,
        model_data: None,
        thumbnail_data: None,
        error: None,
    };
    assert!(g.is_active());
    assert_eq!(g.poll_interval_secs(), None);
    g.status = GenerationStatus::Pending;
    assert_eq!(g.poll_interval_secs(), Some(5));
    g.status = GenerationStatus::InProgress;
    assert_eq!(g.poll_interval_secs(), Some(3));
    g.status = GenerationStatus::Failed;
    assert!(!g.is_active());
    g.status = GenerationStatus::Succeeded;
    assert!(!g.is_active());
    assert_eq!(status_from_report("PENDING"), Some(GenerationStatus::Pending));
    assert_eq!(status_from_report("IN_PROGRESS"), Some(GenerationStatus::InProgress));
    assert_eq!(status_from_report("SUCCEEDED"), Some(GenerationStatus::Downloading));
    assert_eq!(status_from_report("FAILED"), Some(GenerationStatus::Failed));
    assert_eq!(status_from_report("EXPIRED"), Some(GenerationStatus::Failed));
    assert_eq!(status_from_report("pending"), None);
    assert_eq!(provider_label(&AiProvider::OpenAi), "OpenAI");
    assert_eq!(provider_label(&AiProvider::Custom), "Custom");
    assert_eq!(Screen::default(), Screen::PetList);
    assert_ne!(Page::General, Page::About);
}

use appshell::bootstrap::{
    build_config, classify_termination, phase_after_setup, setup_outcome, setup_plugins,
    should_attach_logger, startup, Phase, Plugin, SetupError, Termination,
};
use appshell::window::WindowAction;

#[test]
fn building_the_configuration_always_yields_the_same_base() {
    // Building is total: no input, no error path, a fixed result.
    let c = build_config();
    assert_eq!(c.plugins, vec![Plugin::Dialog, Plugin::Fs]);
    assert_eq!(c.main_window, "main");
    let again = build_config();
    assert_eq!(again.plugins, c.plugins);
    assert_eq!(again.main_window, c.main_window);
}

#[test]
fn logger_is_attached_exactly_in_debug_builds() {
    assert!(should_attach_logger(true));
    assert!(!should_attach_logger(false));
    assert_eq!(setup_plugins(true), vec![Plugin::Log]);
    assert_eq!(setup_plugins(false), vec![]);
    assert!(setup_plugins(true).contains(&Plugin::Log));
    assert!(!setup_plugins(false).contains(&Plugin::Log));
}

#[test]
fn setup_fails_only_on_a_failed_logger_attach() {
    assert_eq!(setup_outcome(false, true), Ok(()));
    assert_eq!(setup_outcome(false, false), Ok(()));
    assert_eq!(setup_outcome(true, true), Ok(()));
    assert_eq!(setup_outcome(true, false), Err(SetupError::LoggerInit));
}

#[test]
fn running_phase_is_reached_exactly_after_successful_setup() {
    assert_eq!(phase_after_setup(&Ok(())), Some(Phase::Running));
    assert_eq!(phase_after_setup(&Err(SetupError::LoggerInit)), None);
}

#[test]
fn runtime_failure_terminates_the_process() {
    // A failed event loop never continues: the classification is fatal.
    assert_eq!(classify_termination(true, false), Termination::Fatal);
    assert_eq!(classify_termination(false, false), Termination::Fatal);
    assert_eq!(classify_termination(true, true), Termination::Normal);
    assert_eq!(classify_termination(false, true), Termination::Fatal);
}

#[test]
fn startup_in_a_release_build_registers_no_logger() {
    let r = startup(false, true, true, true);
    assert!(!r.logger_attached);
    assert_eq!(r.registered, vec![Plugin::Dialog, Plugin::Fs]);
    assert_eq!(r.window_action, WindowAction::Maximize);
    assert_eq!(r.phase, Some(Phase::Running));
    assert_eq!(r.termination, Termination::Normal);
}

#[test]
fn startup_in_a_debug_build_registers_the_logger() {
    let r = startup(true, true, false, true);
    assert!(r.logger_attached);
    assert_eq!(r.registered, vec![Plugin::Dialog, Plugin::Fs, Plugin::Log]);
    assert_eq!(r.window_action, WindowAction::Skip);
    assert_eq!(r.phase, Some(Phase::Running));
    assert_eq!(r.termination, Termination::Normal);
}

#[test]
fn startup_aborts_when_the_logger_cannot_attach() {
    let r = startup(true, false, true, true);
    assert!(!r.logger_attached);
    assert_eq!(r.registered, vec![Plugin::Dialog, Plugin::Fs]);
    assert_eq!(r.window_action, WindowAction::Skip);
    assert_eq!(r.phase, None);
    assert_eq!(r.termination, Termination::Fatal);
}

#[test]
fn startup_ends_fatally_when_the_event_loop_fails() {
    let r = startup(false, true, true, false);
    assert_eq!(r.phase, Some(Phase::Running));
    assert_eq!(r.termination, Termination::Fatal);
}

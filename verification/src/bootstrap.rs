use vstd::prelude::*;
use crate::window::{spec_window_action, WindowAction};

verus! {

/// The capability plugins the shell can register with the host runtime.
#[derive(PartialEq, Eq, Structural, Clone, Copy, Debug)]
pub enum Plugin {
    Dialog,
    Fs,
    Log,
}

/// An error raised while the setup callback runs: the only step of setup
/// that can fail is attaching the leveled logger.
#[derive(PartialEq, Eq, Structural, Clone, Copy, Debug)]
pub enum SetupError {
    LoggerInit,
}

/// The two states of the shell: the setup callback is executing, or the
/// host event loop has taken over.
#[derive(PartialEq, Eq, Structural, Clone, Copy, Debug)]
pub enum Phase {
    Configuring,
    Running,
}

/// How the process ends: the event loop returned in the ordinary way, or
/// startup failed and the process terminates with a fatal diagnostic.
#[derive(PartialEq, Eq, Structural, Clone, Copy, Debug)]
pub enum Termination {
    Normal,
    Fatal,
}

/// The plugins registered unconditionally, before setup runs, in order.
pub open spec fn spec_base_plugins() -> Seq<Plugin> {
    seq![Plugin::Dialog, Plugin::Fs]
}

/// The plugins the setup callback decides to attach: the logger exactly
/// in a debug build, nothing otherwise.
pub open spec fn spec_setup_plugins(debug: bool) -> Seq<Plugin> {
    if debug {
        seq![Plugin::Log]
    } else {
        Seq::<Plugin>::empty()
    }
}

/// Every plugin a complete, successful startup registers, in order.
pub open spec fn spec_registered_plugins(debug: bool) -> Seq<Plugin> {
    spec_base_plugins() + spec_setup_plugins(debug)
}

/// Setup succeeds unless it had to attach the logger and that failed.
pub open spec fn spec_setup_ok(debug: bool, logger_ok: bool) -> bool {
    !debug || logger_ok
}

/// How the process ends, given whether setup succeeded and whether the
/// host event loop started and ran to completion.
pub open spec fn spec_termination(setup_ok: bool, runtime_ok: bool) -> Termination {
    if setup_ok && runtime_ok {
        Termination::Normal
    } else {
        Termination::Fatal
    }
}

/// The application configuration assembled before the host runtime starts:
/// the unconditional plugins and the name of the primary window.
pub struct AppConfig {
    pub plugins: Vec<Plugin>,
    pub main_window: String,
}

/// Builds the base application configuration. Building it is total: it
/// returns the same configuration on every call, never fails, and depends
/// on nothing in the environment.
pub fn build_config() -> (c: AppConfig)
    ensures
        c.plugins@ == spec_base_plugins(),
        c.main_window@ == "main"@,
{
    let mut plugins: Vec<Plugin> = Vec::new();
    plugins.push(Plugin::Dialog);
    plugins.push(Plugin::Fs);
    proof {
        assert(plugins@ =~= spec_base_plugins());
    }
    AppConfig { plugins, main_window: crate::window::main_window_name().to_owned() }
}

/// The one conditional decision of startup: attach the leveled logger
/// exactly when the binary was built in a debug configuration.
pub fn should_attach_logger(debug: bool) -> (r: bool)
    ensures
        r == debug,
{
    debug
}

/// The plugins the setup callback attaches for the given build flag.
pub fn setup_plugins(debug: bool) -> (r: Vec<Plugin>)
    ensures
        r@ == spec_setup_plugins(debug),
{
    let mut plugins: Vec<Plugin> = Vec::new();
    if debug {
        plugins.push(Plugin::Log);
    }
    proof {
        assert(plugins@ =~= spec_setup_plugins(debug));
    }
    plugins
}

/// The result the setup callback reports: `Ok` unless the logger had to be
/// attached and attaching it failed, in which case the error propagates and
/// startup aborts before the event loop is entered.
pub fn setup_outcome(debug: bool, logger_ok: bool) -> (r: Result<(), SetupError>)
    ensures
        r is Ok <==> spec_setup_ok(debug, logger_ok),
        r is Err ==> r == Result::<(), SetupError>::Err(SetupError::LoggerInit),
{
    if debug && !logger_ok {
        Err(SetupError::LoggerInit)
    } else {
        Ok(())
    }
}

/// The single transition of the shell's state machine: from `Configuring`
/// to `Running`, taken once, exactly when setup succeeded; a failed setup
/// reaches no further state.
pub fn phase_after_setup(setup: &Result<(), SetupError>) -> (p: Option<Phase>)
    ensures
        match p {
            Some(q) => setup is Ok && q == Phase::Running,
            None => setup is Err,
        },
{
    match setup {
        Ok(_) => Some(Phase::Running),
        Err(_) => None,
    }
}

/// How the run ends, given whether the host event loop started and ran to
/// completion: a failure terminates the process, nothing continues past it.
pub fn classify_termination(setup_ok: bool, runtime_ok: bool) -> (t: Termination)
    ensures
        t == spec_termination(setup_ok, runtime_ok),
{
    if setup_ok && runtime_ok {
        Termination::Normal
    } else {
        Termination::Fatal
    }
}

/// Everything one startup of the shell decides, given what the environment
/// answered: which plugins were registered and in what order, whether the
/// logger was attached, what was done with the main window, which phase was
/// reached, and how the process ends.
pub struct StartupReport {
    pub registered: Vec<Plugin>,
    pub logger_attached: bool,
    pub window_action: WindowAction,
    pub phase: Option<Phase>,
    pub termination: Termination,
}

/// The complete startup decision. Its inputs are the facts the environment
/// hands the shell: the build flag, whether attaching the logger succeeded,
/// whether a window named as the main window is registered, and whether the
/// host event loop ran to completion. Every field of the report is pinned:
/// the base plugins are always registered; the logger is attached exactly in
/// a debug build whose attach succeeded; the window step runs only when
/// setup succeeded and maximizes exactly when the window was found; the
/// running phase is reached exactly when setup succeeded; and any failure
/// ends fatally.
pub fn startup(debug: bool, logger_ok: bool, window_found: bool, runtime_ok: bool) -> (r:
    StartupReport)
    ensures
        r.logger_attached <==> (debug && logger_ok),
        r.registered@ == spec_base_plugins() + (if debug && logger_ok {
            seq![Plugin::Log]
        } else {
            Seq::<Plugin>::empty()
        }),
        spec_setup_ok(debug, logger_ok) ==> r.registered@ == spec_registered_plugins(debug),
        r.window_action == (if spec_setup_ok(debug, logger_ok) {
            spec_window_action(window_found)
        } else {
            WindowAction::Skip
        }),
        r.phase == (if spec_setup_ok(debug, logger_ok) {
            Some(Phase::Running)
        } else {
            None::<Phase>
        }),
        r.termination == spec_termination(spec_setup_ok(debug, logger_ok), runtime_ok),
{
    let mut registered = build_config().plugins;
    let mut logger_attached = false;
    if should_attach_logger(debug) && logger_ok {
        registered.push(Plugin::Log);
        logger_attached = true;
    }
    let setup = setup_outcome(debug, logger_ok);
    let setup_ok = setup.is_ok();
    let window_action = if setup_ok {
        crate::window::window_action(if window_found {
            Some(0)
        } else {
            None
        })
    } else {
        WindowAction::Skip
    };
    let phase = phase_after_setup(&setup);
    let termination = classify_termination(setup_ok, runtime_ok);
    proof {
        assert(registered@ =~= spec_base_plugins() + (if debug && logger_ok {
            seq![Plugin::Log]
        } else {
            Seq::<Plugin>::empty()
        }));
        if spec_setup_ok(debug, logger_ok) {
            assert(registered@ =~= spec_registered_plugins(debug));
        }
    }
    StartupReport { registered, logger_attached, window_action, phase, termination }
}

/// The conditional logging capability is registered if and only if the
/// build configuration is debug; in a release build it is absent.
pub proof fn lemma_logger_iff_debug(debug: bool)
    ensures
        spec_registered_plugins(debug).contains(Plugin::Log) <==> debug,
{
    if debug {
        assert(spec_registered_plugins(true)[2] == Plugin::Log);
    } else {
        assert(forall|i: int| 0 <= i < spec_registered_plugins(false).len()
            ==> spec_registered_plugins(false)[i] != Plugin::Log);
    }
}

/// A failure of the host runtime ends in fatal termination, whatever the
/// build flag and however setup went: execution never continues past it.
pub proof fn lemma_runtime_failure_is_fatal(setup_ok: bool)
    ensures
        spec_termination(setup_ok, false) == Termination::Fatal,
{
}

} // verus!

use bletchmame::appstate::AppEffect;
use bletchmame::appstate::AppState;
use bletchmame::appstate::AuditOutcome;
use bletchmame::assethash::AssetHash;
use bletchmame::audit::Asset;
use bletchmame::audit::AssetKind;
use bletchmame::audit::AssetLocation;
use bletchmame::audit::AssetStatus;
use bletchmame::audit::AuditMessage;
use bletchmame::audit::AuditResult;
use bletchmame::appstate::Failure;
use bletchmame::appstate::Flow;
use bletchmame::appstate::InfoDbBuildOutcome;
use bletchmame::appstate::Live;
use bletchmame::appstate::Report;
use bletchmame::appstate::Session;
use bletchmame::appstate::SessionActiveState;
use bletchmame::appstate::SessionError;
use bletchmame::appstate::SessionState;
use bletchmame::appstate::StartArgs;
use bletchmame::appstate::StatusRecord;
use bletchmame::appstate::StatusValidation;
use bletchmame::error::PreflightProblem;

fn session(state: SessionState, has_status: bool) -> Session {
    let status = if has_status { Some(StatusRecord { key: 1, is_running: false }) } else { None };
    Session { session_state: state, video: None, status, pending_status: None }
}

fn with_session(session: Session) -> AppState {
    AppState { info_db_build: None, live: Some(Live { session: Some(session) }), failure: None, last_save_state: None }
}

fn active(state: &AppState) -> Option<&SessionActiveState> {
    match &state.live {
        Some(Live { session: Some(Session { session_state: SessionState::Active { active_state }, .. }) }) => Some(active_state),
        _ => None,
    }
}

fn session_state(state: &AppState) -> Option<&SessionState> {
    match &state.live {
        Some(Live { session: Some(s) }) => Some(&s.session_state),
        _ => None,
    }
}

#[test]
fn report_prefers_infodb_build() {
    let mut state = with_session(session(SessionState::ShuttingDown, false));
    state.info_db_build = Some(Some("Pac-Man".to_string()));
    state.failure = Some(Failure::AuditCancelled);
    match state.report() {
        Some(Report::InfoDbBuild { machine_description }) => assert_eq!(Some("Pac-Man".to_string()), machine_description),
        _ => panic!("expected an InfoDB build report"),
    }
}

#[test]
fn report_failures() {
    let mut state = with_session(session(SessionState::ShuttingDown, false));
    state.failure = Some(Failure::Preflight(vec![PreflightProblem::NoMameExecutable, PreflightProblem::NoPluginsPaths]));
    match state.report() {
        Some(Report::PreflightFailure { problems }) => assert_eq!(
            vec!["No MAME executable found".to_string(), "No valid plugins paths specified".to_string()],
            problems
        ),
        _ => panic!("expected a preflight report"),
    }
    let mut state = AppState::new();
    state.failure = Some(Failure::SessionError(SessionError {
        message: "boom".to_string(),
        mame_stderr_text: None,
        exit_code: Some(-3),
    }));
    match state.report() {
        Some(Report::SessionError { error_message, mame_stderr_text, exit_code }) => {
            assert_eq!("boom", error_message);
            assert_eq!("", mame_stderr_text);
            assert_eq!("-3", exit_code);
        }
        _ => panic!("expected a session error report"),
    }
    let mut state = AppState::new();
    state.failure = Some(Failure::AuditError("bad".to_string()));
    assert!(matches!(state.report(), Some(Report::AuditError(m)) if m == "bad"));
}

#[test]
fn report_sessions() {
    let state_of = |state: SessionState, has_status: bool| with_session(session(state, has_status));
    let args = StartArgs { key: 7, video: None };
    assert!(matches!(state_of(SessionState::ShuttingDown, true).report(), Some(Report::SessionShuttingDown)));
    assert!(state_of(SessionState::Stopping, false).report().is_none());
    assert!(matches!(state_of(SessionState::Restarting { start_args: Some(args) }, true).report(), Some(Report::SessionRestartingForEmu)));
    assert!(matches!(state_of(SessionState::Restarting { start_args: None }, true).report(), Some(Report::SessionRestarting)));
    assert!(matches!(
        state_of(SessionState::Active { active_state: SessionActiveState::Normal }, false).report(),
        Some(Report::SessionStarting)
    ));
    assert!(state_of(SessionState::Active { active_state: SessionActiveState::Normal }, true).report().is_none());
    assert!(matches!(
        state_of(SessionState::Active { active_state: SessionActiveState::EmuStopping }, true).report(),
        Some(Report::EmuStopping)
    ));
    match state_of(
        SessionState::Active {
            active_state: SessionActiveState::Auditing {
                start_args: args,
                current_asset_name: Some("rom.bin".to_string()),
                current_progress: (2, 5),
            },
        },
        true,
    ).report() {
        Some(Report::Auditing { asset_name, progress }) => {
            assert_eq!(Some("rom.bin".to_string()), asset_name);
            assert_eq!((2, 5), progress);
        }
        _ => panic!("expected an auditing report"),
    }
    assert!(AppState::new().report().is_none());
}

#[test]
fn activate_without_infodb_rebuilds_it() {
    let mut state = AppState::new();
    assert_eq!((true, Some(AppEffect::SpawnInfoDbBuild)), state.activate(Ok(()), false));
    assert!(state.is_building_infodb());
    assert!(state.infodb_build_progress("Galaga".to_string()));
    assert!(matches!(state.report(), Some(Report::InfoDbBuild { machine_description: Some(d) }) if d == "Galaga"));

    // a second rebuild is refused while the first runs
    assert_eq!((false, None), state.infodb_rebuild(Ok(())));

    // the build completes; with no session, one is started
    assert_eq!(
        (true, Some(AppEffect::StartSession { start_args: None })),
        state.infodb_build_complete(InfoDbBuildOutcome::Built, StatusValidation::Valid, Ok(()))
    );
    assert!(!state.is_building_infodb());
    assert!(matches!(active(&state), Some(SessionActiveState::Normal)));
    assert!(matches!(state.report(), Some(Report::SessionStarting)));
}

#[test]
fn activate_with_preflight_problems() {
    let mut state = AppState::new();
    assert_eq!((true, None), state.activate(Err(vec![PreflightProblem::NoMameExecutablePath]), false));
    assert!(!state.is_building_infodb());
    assert!(matches!(state.report(), Some(Report::PreflightFailure { .. })));

    // with an InfoDB loadable but no arguments, nothing starts
    let mut state = AppState::new();
    state.live = Some(Live { session: None });
    assert_eq!((true, None), state.activate(Err(vec![PreflightProblem::NoPluginsPaths]), true));
    assert!(state.has_info_db());
    assert!(state.status().is_none());
}

#[test]
fn activate_twice_starts_one_session() {
    let mut state = AppState::new();
    assert_eq!((true, Some(AppEffect::StartSession { start_args: None })), state.activate(Ok(()), true));
    assert_eq!((false, None), state.activate(Ok(()), true));
}

#[test]
fn start_audits_then_runs() {
    let mut state = AppState::new();
    state.activate(Ok(()), true);
    let args = StartArgs { key: 3, video: None };
    assert_eq!((true, None), state.start(args, false, Ok(())));
    assert!(matches!(active(&state), Some(SessionActiveState::Auditing { .. })));
    assert!(matches!(state.report(), Some(Report::Auditing { asset_name: None, progress: (0, 0) })));
    assert!(state.audit_progress("pacman.6e".to_string(), 3, 8));
    assert!(matches!(state.report(), Some(Report::Auditing { asset_name: Some(n), progress: (3, 8) }) if n == "pacman.6e"));
    assert_eq!((true, Some(AppEffect::CancelAudit)), state.audit_cancel());
    assert_eq!((true, Some(AppEffect::SendStart(args))), state.audit_complete(AuditOutcome::Success));
    assert!(matches!(active(&state), Some(SessionActiveState::EmuStarting)));

    // once MAME reports a running machine, the session is back to normal
    let running = StatusRecord { key: 10, is_running: true };
    assert_eq!((true, None), state.status_update(running, StatusValidation::Valid, Ok(())));
    assert!(matches!(active(&state), Some(SessionActiveState::Normal)));
    assert_eq!(Some(running), state.status());

    // stopping twice sends one stop
    assert_eq!((true, Some(AppEffect::SendStop)), state.stop());
    assert_eq!((false, None), state.stop());
    state.set_last_save_state(Some("save.sta".to_string()));
    let stopped = StatusRecord { key: 11, is_running: false };
    assert_eq!((true, None), state.status_update(stopped, StatusValidation::Valid, Ok(())));
    assert!(matches!(active(&state), Some(SessionActiveState::Normal)));
    assert_eq!(&None, state.last_save_state());
}

#[test]
fn start_audit_failures() {
    let mut state = AppState::new();
    state.activate(Ok(()), true);
    let args = StartArgs { key: 4, video: None };
    assert_eq!((true, None), state.start(args, false, Err("no machine".to_string())));
    assert!(matches!(state.report(), Some(Report::AuditError(e)) if e == "no machine"));
    assert!(matches!(active(&state), Some(SessionActiveState::Normal)));

    assert_eq!((true, None), state.start(args, false, Ok(())));
    let missing = Asset {
        kind: AssetKind::Rom,
        name: "pacman.6e".to_string(),
        size: Some(4096),
        location: AssetLocation::MachinePaths(vec!["pacman".to_string()]),
        asset_hash: AssetHash { crc: Some(0xc1e6ab10), sha1: None },
        status: AssetStatus::Good,
        is_optional: false,
    };
    let items = vec![(missing, AuditResult { path: None, messages: vec![AuditMessage::NotFound] })];
    assert_eq!((true, None), state.audit_complete(AuditOutcome::Failed(items.clone())));
    assert!(matches!(&state.failure, Some(Failure::AuditResults { items: i, proceed }) if *proceed == args && *i == items));
    match state.report() {
        Some(Report::AuditFailure { items: i, proceed }) => {
            assert_eq!(items.as_slice(), i);
            assert_eq!(args, proceed);
        }
        _ => panic!("expected the audit failure report"),
    }

    assert_eq!((true, None), state.start(args, false, Ok(())));
    assert_eq!((true, None), state.audit_complete(AuditOutcome::Cancelled));
    assert!(matches!(state.report(), Some(Report::AuditCancelled)));
}

#[test]
fn start_with_other_video_restarts() {
    let mut state = AppState::new();
    state.activate(Ok(()), true);
    let args = StartArgs { key: 5, video: Some(2) };
    assert_eq!((true, None), state.start(args, true, Ok(())));
    assert!(matches!(session_state(&state), Some(SessionState::Restarting { start_args: Some(a) }) if *a == args));
    assert!(matches!(state.report(), Some(Report::SessionRestartingForEmu)));
    assert_eq!(
        (Flow::Continue, Some(AppEffect::StartSession { start_args: Some(args) })),
        state.session_ended(Ok(()), Ok(()))
    );
    assert!(matches!(active(&state), Some(SessionActiveState::EmuStarting)));

    // with the session's own video settings, the emulation starts at once
    let same = StartArgs { key: 6, video: Some(2) };
    assert_eq!((true, Some(AppEffect::SendStart(same))), state.start(same, true, Ok(())));
}

#[test]
fn status_update_validation() {
    let mut state = AppState::new();
    state.activate(Ok(()), true);
    let status = StatusRecord { key: 1, is_running: true };
    let mismatch = StatusValidation::VersionMismatch { status_build: "0.280".to_string(), infodb_build: "0.279".to_string() };
    assert_eq!((true, Some(AppEffect::SpawnInfoDbBuild)), state.status_update(status, mismatch, Ok(())));
    assert!(state.is_building_infodb());
    assert_eq!(None, state.status());

    // the rebuilt InfoDB validates the pending status
    assert_eq!((true, None), state.infodb_build_complete(InfoDbBuildOutcome::Built, StatusValidation::Valid, Ok(())));
    assert!(state.failure.is_none());

    let invalid = StatusValidation::Invalid(vec!["bad tag".to_string()]);
    assert_eq!((true, None), state.status_update(status, invalid, Ok(())));
    assert!(matches!(state.report(), Some(Report::InvalidStatusUpdate { problems }) if problems == vec!["bad tag".to_string()]));
}

#[test]
fn infodb_build_failures() {
    let mut state = AppState::new();
    state.infodb_rebuild(Ok(()));
    assert_eq!((false, Some(AppEffect::CancelInfoDbBuild)), state.infodb_build_cancel());
    assert_eq!((true, None), state.infodb_build_complete(InfoDbBuildOutcome::Cancelled, StatusValidation::Valid, Ok(())));
    assert!(matches!(state.report(), Some(Report::InfoDbBuildCancelled)));

    let mut state = AppState::new();
    state.activate(Ok(()), true);
    state.infodb_rebuild(Ok(()));
    assert_eq!(
        (true, None),
        state.infodb_build_complete(InfoDbBuildOutcome::Failed("crashed".to_string()), StatusValidation::Valid, Ok(()))
    );
    assert!(matches!(session_state(&state), Some(SessionState::Stopping)));
    assert!(matches!(state.report(), Some(Report::InfoDbBuildFailure(e)) if e == "crashed"));
}

#[test]
fn session_end_and_shutdown() {
    let mut state = AppState::new();
    state.activate(Ok(()), true);
    let error = SessionError { message: "MAME crashed".to_string(), mame_stderr_text: None, exit_code: Some(1) };
    assert_eq!((Flow::Continue, None), state.session_ended(Err(error), Ok(())));
    assert!(matches!(state.report(), Some(Report::SessionError { .. })));

    // reset starts a new session
    assert_eq!((true, Some(AppEffect::StartSession { start_args: None })), state.reset(Ok(()), true));
    assert_eq!((true, Some(AppEffect::CancelSession)), state.reset(Ok(()), true));
    assert!(matches!(state.report(), Some(Report::SessionRestarting)));
    assert_eq!((Flow::Continue, Some(AppEffect::StartSession { start_args: None })), state.session_ended(Ok(()), Ok(())));

    assert_eq!(Flow::Continue, state.shutdown());
    assert!(matches!(state.report(), Some(Report::SessionShuttingDown)));
    assert_eq!((Flow::Break, None), state.session_ended(Ok(()), Ok(())));
    assert_eq!(Flow::Break, state.shutdown());
}

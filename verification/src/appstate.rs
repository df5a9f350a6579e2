//! The application's state machine.
//!
//! The state of the application: the InfoDB build, the session with MAME, and what
//! failed; how each event changes it, and which work outside the library each change
//! asks for; and the report that tells the user what is going on (an InfoDB being
//! built, a failure, or a session starting, stopping or auditing).  Failures outrank
//! sessions, and an InfoDB build outranks both.
use crate::audit::{Asset, AuditResult};
use crate::error::problem_text;
use crate::error::PreflightProblem;
use crate::text::decimal;
use crate::text::opt_view;
use crate::text::push_decimal;
use crate::text::string_from_chars;
use vstd::prelude::*;

verus! {

/// What the application holds of the arguments that an emulation is started with: the
/// key by which it finds them again, and the key of their video settings (equal
/// settings, equal keys), where they have any.
#[derive(Clone, Copy, Debug, PartialEq, Eq)]
pub struct StartArgs {
    pub key: u64,
    pub video: Option<u64>,
}

/// What the application holds of a status that MAME reported: the key by which it
/// finds it again, and whether a machine is running in it.
#[derive(Clone, Copy, Debug, PartialEq, Eq)]
pub struct StatusRecord {
    pub key: u64,
    pub is_running: bool,
}

/// What an active session is doing: nothing special, starting or stopping an
/// emulation, or auditing the assets of one before starting it (with the name of the
/// asset being audited, once one is, and how far the audit has come: the index of that
/// asset among the assets and their count, the share done being their quotient;
/// `(0, 0)`, nothing done, before the first asset is reported).
#[derive(Debug)]
pub enum SessionActiveState {
    Normal,
    EmuStarting,
    EmuStopping,
    Auditing { start_args: StartArgs, current_asset_name: Option<String>, current_progress: (usize, usize) },
}

/// Where a session is in its life; a restarting session may have an emulation to
/// start once MAME runs again.
#[derive(Debug)]
pub enum SessionState {
    ShuttingDown,
    Stopping,
    Restarting { start_args: Option<StartArgs> },
    Active { active_state: SessionActiveState },
}

/// A session with MAME: its state, the video settings it was started with, the last
/// status accepted, and a status that awaits an InfoDB able to validate it.
#[derive(Debug)]
pub struct Session {
    pub session_state: SessionState,
    pub video: Option<u64>,
    pub status: Option<StatusRecord>,
    pub pending_status: Option<StatusRecord>,
}

/// The state that exists once an InfoDB is loaded: the session, if one runs.
#[derive(Debug)]
pub struct Live {
    pub session: Option<Session>,
}

/// How a session failed: the error's message, what MAME wrote to its standard error,
/// and its exit code, when known.
#[derive(Debug)]
pub struct SessionError {
    pub message: String,
    pub mame_stderr_text: Option<String>,
    pub exit_code: Option<i32>,
}

/// What went wrong. A failed audit keeps every asset with its audit result, and the
/// arguments of the emulation, so that it can be started all the same.
#[derive(Debug)]
pub enum Failure {
    Preflight(Vec<PreflightProblem>),
    SessionError(SessionError),
    InfoDbStatusMismatch { status_build: String, infodb_build: String },
    InvalidStatusUpdate(Vec<String>),
    InfoDbBuild(String),
    InfoDbBuildCancelled,
    AuditResults { items: Vec<(Asset, AuditResult)>, proceed: StartArgs },
    AuditError(String),
    AuditCancelled,
}

/// The state of the application: the InfoDB build under way (with the description of
/// the machine being read, if any), the live state once an InfoDB is loaded, the
/// failure to report, and the last state saved.
#[derive(Debug)]
pub struct AppState {
    pub info_db_build: Option<Option<String>>,
    pub live: Option<Live>,
    pub failure: Option<Failure>,
    pub last_save_state: Option<String>,
}

/// A report shown to the user. An audit in progress reports the asset being audited and
/// how far it has come (an index among a count of assets); a failed audit reports every
/// asset with its result, and the arguments that start the emulation all the same.
#[derive(Debug)]
pub enum Report<'a> {
    SessionStarting,
    SessionRestarting,
    SessionRestartingForEmu,
    SessionShuttingDown,
    EmuStarting,
    EmuStopping,
    Auditing { asset_name: Option<String>, progress: (usize, usize) },
    InfoDbBuild { machine_description: Option<String> },
    PreflightFailure { problems: Vec<String> },
    SessionError { error_message: String, mame_stderr_text: String, exit_code: String },
    InfoDbStatusMismatch { status_build: String, infodb_build: String },
    InvalidStatusUpdate { problems: Vec<String> },
    InfoDbBuildFailure(String),
    InfoDbBuildCancelled,
    AuditFailure { items: &'a [(Asset, AuditResult)], proceed: StartArgs },
    AuditError(String),
    AuditCancelled,
}

/// A number as text: its decimal digits, after a minus sign when it is negative.
pub open spec fn signed_decimal(n: i32) -> Seq<char> {
    if n < 0 {
        "-"@ + decimal((-n) as nat)
    } else {
        decimal(n as nat)
    }
}

/// The strings, each taken by its characters.
pub open spec fn texts_view(v: Seq<String>) -> Seq<Seq<char>> {
    v.map_values(|s: String| s@)
}

/// The report for a failure.
pub open spec fn failure_report(f: Failure, r: Option<Report>) -> bool {
    match f {
        Failure::Preflight(ps) => r matches Some(Report::PreflightFailure { problems })
            && texts_view(problems@) == ps@.map_values(|p: PreflightProblem| problem_text(p)),
        Failure::SessionError(e) => r matches Some(
            Report::SessionError { error_message, mame_stderr_text, exit_code },
        ) && error_message@ == e.message@ && mame_stderr_text@ == (match e.mame_stderr_text {
            Some(t) => t@,
            None => Seq::empty(),
        }) && exit_code@ == (match e.exit_code {
            Some(c) => signed_decimal(c),
            None => Seq::empty(),
        }),
        Failure::InfoDbStatusMismatch { status_build, infodb_build } => r matches Some(
            Report::InfoDbStatusMismatch { status_build: s, infodb_build: i },
        ) && s@ == status_build@ && i@ == infodb_build@,
        Failure::InvalidStatusUpdate(ps) => r matches Some(Report::InvalidStatusUpdate { problems })
            && texts_view(problems@) == texts_view(ps@),
        Failure::InfoDbBuild(m) => r matches Some(Report::InfoDbBuildFailure(x)) && x@ == m@,
        Failure::InfoDbBuildCancelled => r matches Some(Report::InfoDbBuildCancelled),
        Failure::AuditResults { items, proceed } => r matches Some(Report::AuditFailure { items: i, proceed: p })
            && i@ == items@ && p == proceed,
        Failure::AuditError(m) => r matches Some(Report::AuditError(x)) && x@ == m@,
        Failure::AuditCancelled => r matches Some(Report::AuditCancelled),
    }
}

/// The report for a session: none while it stops, or while it is active and normal
/// once MAME has reported its status.
pub open spec fn session_report(s: Session, r: Option<Report>) -> bool {
    match s.session_state {
        SessionState::ShuttingDown => r matches Some(Report::SessionShuttingDown),
        SessionState::Stopping => r is None,
        SessionState::Restarting { start_args } => if start_args is Some {
            r matches Some(Report::SessionRestartingForEmu)
        } else {
            r matches Some(Report::SessionRestarting)
        },
        SessionState::Active { active_state } => match active_state {
            SessionActiveState::Normal => if s.status is Some {
                r is None
            } else {
                r matches Some(Report::SessionStarting)
            },
            SessionActiveState::EmuStarting => r matches Some(Report::EmuStarting),
            SessionActiveState::EmuStopping => r matches Some(Report::EmuStopping),
            SessionActiveState::Auditing { current_asset_name, current_progress, .. } => r matches Some(
                Report::Auditing { asset_name, progress },
            ) && opt_view(asset_name) == opt_view(current_asset_name) && progress == current_progress,
        },
    }
}

/// The report for a state: the InfoDB build if one is under way, else the failure if
/// there is one, else the session's report if there is a session, else none.
pub open spec fn state_report(s: AppState, r: Option<Report>) -> bool {
    match s.info_db_build {
        Some(d) => r matches Some(Report::InfoDbBuild { machine_description: m }) && opt_view(m)
            == opt_view(d),
        None => match s.failure {
            Some(f) => failure_report(f, r),
            None => match s.live {
                Some(Live { session: Some(sess) }) => session_report(sess, r),
                _ => r is None,
            },
        },
    }
}

fn copy_opt(s: &Option<String>) -> (r: Option<String>)
    ensures
        opt_view(r) == opt_view(*s),
{
    match s {
        Some(x) => Some(x.clone()),
        None => None,
    }
}

fn copy_texts(v: &Vec<String>) -> (r: Vec<String>)
    ensures
        texts_view(r@) == texts_view(v@),
{
    let mut r: Vec<String> = Vec::new();
    for i in 0..v.len()
        invariant
            texts_view(r@) == texts_view(v@).take(i as int),
    {
        let ghost before = r@;
        r.push(v[i].clone());
        assert(texts_view(r@) =~= texts_view(before).push(v@[i as int]@));
        assert(texts_view(v@).take(i + 1) =~= texts_view(v@).take(i as int).push(v@[i as int]@));
    }
    assert(texts_view(v@).take(v.len() as int) =~= texts_view(v@));
    r
}

fn signed_decimal_exec(n: i32) -> (r: String)
    ensures
        r@ == signed_decimal(n),
{
    let mut out: Vec<char> = Vec::new();
    if n < 0 {
        out.push('-');
        let m: i64 = -(n as i64);
        push_decimal(&mut out, m as u64);
        assert(out@ =~= "-"@ + decimal((-n) as nat)) by {
            reveal_strlit("-");
        }
    } else {
        push_decimal(&mut out, n as u64);
        assert(out@ =~= decimal(n as nat));
    }
    string_from_chars(&out)
}

fn failure_report_exec(f: &Failure) -> (r: Option<Report>)
    ensures
        failure_report(*f, r),
{
    match f {
        Failure::Preflight(ps) => {
            let mut problems: Vec<String> = Vec::new();
            for i in 0..ps.len()
                invariant
                    texts_view(problems@) == ps@.take(i as int).map_values(
                        |p: PreflightProblem| problem_text(p),
                    ),
            {
                let ghost before = problems@;
                problems.push(ps[i].to_display_string());
                assert(texts_view(problems@) =~= texts_view(before).push(problem_text(ps@[i as int])));
                assert(ps@.take(i + 1).map_values(|p: PreflightProblem| problem_text(p)) =~= ps@.take(
                    i as int,
                ).map_values(|p: PreflightProblem| problem_text(p)).push(problem_text(ps@[i as int])));
            }
            assert(ps@.take(ps.len() as int) =~= ps@);
            Some(Report::PreflightFailure { problems })
        },
        Failure::SessionError(e) => {
            let mame_stderr_text = match &e.mame_stderr_text {
                Some(t) => t.clone(),
                None => String::new(),
            };
            let exit_code = match e.exit_code {
                Some(c) => signed_decimal_exec(c),
                None => String::new(),
            };
            Some(Report::SessionError { error_message: e.message.clone(), mame_stderr_text, exit_code })
        },
        Failure::InfoDbStatusMismatch { status_build, infodb_build } => Some(
            Report::InfoDbStatusMismatch {
                status_build: status_build.clone(),
                infodb_build: infodb_build.clone(),
            },
        ),
        Failure::InvalidStatusUpdate(ps) => Some(Report::InvalidStatusUpdate { problems: copy_texts(ps) }),
        Failure::InfoDbBuild(m) => Some(Report::InfoDbBuildFailure(m.clone())),
        Failure::InfoDbBuildCancelled => Some(Report::InfoDbBuildCancelled),
        Failure::AuditResults { items, proceed } => Some(
            Report::AuditFailure { items: items.as_slice(), proceed: *proceed },
        ),
        Failure::AuditError(m) => Some(Report::AuditError(m.clone())),
        Failure::AuditCancelled => Some(Report::AuditCancelled),
    }
}

fn session_report_exec(s: &Session) -> (r: Option<Report>)
    ensures
        session_report(*s, r),
{
    match &s.session_state {
        SessionState::ShuttingDown => Some(Report::SessionShuttingDown),
        SessionState::Stopping => None,
        SessionState::Restarting { start_args } => if start_args.is_some() {
            Some(Report::SessionRestartingForEmu)
        } else {
            Some(Report::SessionRestarting)
        },
        SessionState::Active { active_state } => match active_state {
            SessionActiveState::Normal => if s.status.is_some() {
                None
            } else {
                Some(Report::SessionStarting)
            },
            SessionActiveState::EmuStarting => Some(Report::EmuStarting),
            SessionActiveState::EmuStopping => Some(Report::EmuStopping),
            SessionActiveState::Auditing { current_asset_name, current_progress, .. } => Some(
                Report::Auditing { asset_name: copy_opt(current_asset_name), progress: *current_progress },
            ),
        },
    }
}

impl AppState {
    /// The report to show; see [`state_report`].
    pub fn report(&self) -> (r: Option<Report>)
        ensures
            state_report(*self, r),
    {
        match &self.info_db_build {
            Some(d) => Some(Report::InfoDbBuild { machine_description: copy_opt(d) }),
            None => match &self.failure {
                Some(f) => failure_report_exec(f),
                None => match &self.live {
                    Some(Live { session: Some(s) }) => session_report_exec(s),
                    _ => None,
                },
            },
        }
    }
}

/// Work outside the library that a change of state asks for.
#[derive(Debug, Clone, Copy, PartialEq, Eq)]
pub enum AppEffect {
    /// Start MAME with the arguments made from the preferences (with the video settings
    /// of `start_args`, where given), and where `start_args` is given, have it start
    /// that emulation at once.
    StartSession { start_args: Option<StartArgs> },
    /// Tell the running MAME to start the emulation.
    SendStart(StartArgs),
    /// Tell the running MAME to stop the emulation.
    SendStop,
    /// Cancel the session's job, so that MAME ends.
    CancelSession,
    /// Start building the InfoDB by running MAME with `-listxml`.
    SpawnInfoDbBuild,
    /// Cancel the InfoDB build.
    CancelInfoDbBuild,
    /// Cancel the audit under way.
    CancelAudit,
}

/// Whether the application goes on after an event, or ends.
#[derive(Debug, Clone, Copy, PartialEq, Eq)]
pub enum Flow {
    Continue,
    Break,
}

/// How an audit ended: with no asset failing, cancelled, or with some asset failing
/// (then with every asset and its result).
#[derive(Debug, PartialEq, Eq)]
pub enum AuditOutcome {
    Success,
    Cancelled,
    Failed(Vec<(Asset, AuditResult)>),
}

/// How an InfoDB build ended: with an InfoDB, cancelled by the user, or with an error.
#[derive(Debug)]
pub enum InfoDbBuildOutcome {
    Built,
    Cancelled,
    Failed(String),
}

/// How a status checked against the InfoDB: valid, from another build of MAME than the
/// InfoDB's, or invalid with the problems found.
#[derive(Debug)]
pub enum StatusValidation {
    Valid,
    VersionMismatch { status_build: String, infodb_build: String },
    Invalid(Vec<String>),
}

/// The state with `failure` as what is reported: none where the arguments for MAME
/// could be made from the preferences, else the problems found on the way.
pub open spec fn after_preflight(s: AppState, preflight: Result<(), Vec<PreflightProblem>>) -> AppState {
    AppState {
        failure: match preflight {
            Ok(_) => None,
            Err(problems) => Some(Failure::Preflight(problems)),
        },
        ..s
    }
}

/// A session just started: active, starting the emulation where it was given one.
pub open spec fn new_session(start_args: Option<StartArgs>) -> Session {
    Session {
        session_state: SessionState::Active {
            active_state: match start_args {
                Some(_) => SessionActiveState::EmuStarting,
                None => SessionActiveState::Normal,
            },
        },
        video: match start_args {
            Some(a) => a.video,
            None => None,
        },
        status: None,
        pending_status: None,
    }
}

/// Whether a session exists.
pub open spec fn has_session(s: AppState) -> bool {
    s.live matches Some(Live { session: Some(_) })
}

/// The state with `session` as the session.
pub open spec fn with_session(s: AppState, session: Session) -> AppState {
    AppState { live: Some(Live { session: Some(session) }), ..s }
}

/// Whether a session exists and is active.
pub open spec fn is_active(s: AppState) -> bool {
    s.live matches Some(Live { session: Some(Session { session_state: SessionState::Active { .. }, .. }) })
}

/// Whether a session exists, active and auditing.
pub open spec fn is_auditing(s: AppState) -> bool {
    s.live matches Some(
        Live {
            session: Some(
                Session {
                    session_state: SessionState::Active { active_state: SessionActiveState::Auditing { .. } },
                    ..
                },
            ),
        },
    )
}

/// An InfoDB rebuild once the arguments for MAME were made or not: nothing (and
/// `false`) while one is under way; else `true`, and a build is started where the
/// arguments were made.
pub open spec fn rebuild_after_args(s: AppState, args_made: bool) -> (AppState, bool, Option<AppEffect>) {
    if s.info_db_build is Some {
        (s, false, None)
    } else if args_made {
        (AppState { info_db_build: Some(None), ..s }, true, Some(AppEffect::SpawnInfoDbBuild))
    } else {
        (s, true, None)
    }
}

/// Rebuilding the InfoDB: nothing while a build is under way; else the arguments for
/// MAME are made (reporting their problems), and a build starts where they could be.
pub open spec fn infodb_rebuild_spec(s: AppState, preflight: Result<(), Vec<PreflightProblem>>) -> (
    AppState,
    bool,
    Option<AppEffect>,
) {
    if s.info_db_build is Some {
        (s, false, None)
    } else {
        rebuild_after_args(after_preflight(s, preflight), preflight is Ok)
    }
}

/// Activating: the failure is cleared; with a session already, nothing more (and the
/// result says whether a failure was cleared). Else the arguments for MAME are made;
/// with an InfoDB (the one loaded, or one that `info_db_loadable` says can be loaded
/// once the arguments are made) the state goes live, with a session started where
/// the arguments were made; without one, the InfoDB is rebuilt.
pub open spec fn activate_spec(
    s: AppState,
    preflight: Result<(), Vec<PreflightProblem>>,
    info_db_loadable: bool,
) -> (AppState, bool, Option<AppEffect>) {
    let cleared = AppState { failure: None, ..s };
    if has_session(s) {
        (cleared, s.failure is Some, None)
    } else {
        let s2 = after_preflight(cleared, preflight);
        if s.live is Some || (preflight is Ok && info_db_loadable) {
            match preflight {
                Ok(_) => (
                    AppState { live: Some(Live { session: Some(new_session(None)) }), ..s2 },
                    true,
                    Some(AppEffect::StartSession { start_args: None }),
                ),
                Err(_) => (AppState { live: Some(Live { session: None }), ..s2 }, true, None),
            }
        } else {
            infodb_rebuild_spec(s2, preflight)
        }
    }
}

/// Resetting: a session is cancelled and set to restart; then the state is activated.
pub open spec fn reset_spec(
    s: AppState,
    preflight: Result<(), Vec<PreflightProblem>>,
    info_db_loadable: bool,
) -> (AppState, bool, Option<AppEffect>) {
    match s.live {
        Some(Live { session: Some(sess) }) => {
            let restarting = with_session(
                s,
                Session { session_state: SessionState::Restarting { start_args: None }, ..sess },
            );
            (activate_spec(restarting, preflight, info_db_loadable).0, true, Some(AppEffect::CancelSession))
        },
        _ => {
            let r = activate_spec(s, preflight, info_db_loadable);
            (r.0, true, r.2)
        },
    }
}

/// Starting an emulation in the active session. Unless the audit is skipped, the
/// assets are audited first: where the audit could not be started its error is
/// reported, else the session audits. With the audit skipped, the emulation starts
/// where the session runs with its video settings, and the session restarts with
/// them where it does not. The failure is cleared but where the audit could not start.
pub open spec fn start_spec(s: AppState, start_args: StartArgs, skip_audit: bool, audit_spawn: Result<(), String>) -> (
    AppState,
    bool,
    Option<AppEffect>,
) {
    match s.live {
        Some(Live { session: Some(sess) }) => if !skip_audit {
            match audit_spawn {
                Err(e) => (AppState { failure: Some(Failure::AuditError(e)), ..s }, true, None),
                Ok(_) => {
                    let auditing = SessionActiveState::Auditing { start_args, current_asset_name: None, current_progress: (0, 0) };
                    let sess2 = Session { session_state: SessionState::Active { active_state: auditing }, ..sess };
                    (AppState { failure: None, ..with_session(s, sess2) }, true, None)
                },
            }
        } else if start_args.video == sess.video {
            let sess2 = Session {
                session_state: SessionState::Active { active_state: SessionActiveState::EmuStarting },
                ..sess
            };
            (AppState { failure: None, ..with_session(s, sess2) }, true, Some(AppEffect::SendStart(start_args)))
        } else {
            let sess2 = Session { session_state: SessionState::Restarting { start_args: Some(start_args) }, ..sess };
            (AppState { failure: None, ..with_session(s, sess2) }, true, None)
        },
        _ => (s, false, None),
    }
}

/// Recording the asset that the audit has reached, and its index among the `count`
/// assets.
pub open spec fn audit_progress_spec(s: AppState, asset_name: String, index: usize, count: usize) -> AppState {
    match s.live {
        Some(
            Live {
                session: Some(
                    sess @ Session {
                        session_state: SessionState::Active { active_state: SessionActiveState::Auditing { start_args, .. } },
                        ..
                    },
                ),
            },
        ) => {
            let auditing = SessionActiveState::Auditing {
                start_args,
                current_asset_name: Some(asset_name),
                current_progress: (index, count),
            };
            with_session(s, Session { session_state: SessionState::Active { active_state: auditing }, ..sess })
        },
        _ => s,
    }
}

/// An audit ending. After a success the emulation starts where the session runs with
/// its video settings, and the session restarts with them where it does not; else the
/// session is back to normal, and the cancellation (or the failed audit, with the
/// emulation's arguments to start it all the same) is reported.
pub open spec fn audit_complete_spec(s: AppState, outcome: AuditOutcome) -> (AppState, bool, Option<AppEffect>) {
    match s.live {
        Some(
            Live {
                session: Some(
                    sess @ Session {
                        session_state: SessionState::Active { active_state: SessionActiveState::Auditing { start_args, .. } },
                        ..
                    },
                ),
            },
        ) => {
            let normal = Session {
                session_state: SessionState::Active { active_state: SessionActiveState::Normal },
                ..sess
            };
            match outcome {
                AuditOutcome::Success => if start_args.video == sess.video {
                    let starting = Session {
                        session_state: SessionState::Active { active_state: SessionActiveState::EmuStarting },
                        ..sess
                    };
                    (with_session(s, starting), true, Some(AppEffect::SendStart(start_args)))
                } else {
                    let restarting = Session {
                        session_state: SessionState::Restarting { start_args: Some(start_args) },
                        ..sess
                    };
                    (with_session(s, restarting), true, None)
                },
                AuditOutcome::Cancelled => (
                    AppState { failure: Some(Failure::AuditCancelled), ..with_session(s, normal) },
                    true,
                    None,
                ),
                AuditOutcome::Failed(items) => (
                    AppState { failure: Some(Failure::AuditResults { items, proceed: start_args }), ..with_session(s, normal) },
                    true,
                    None,
                ),
            }
        },
        _ => (s, false, None),
    }
}

/// Stopping the emulation: nothing (and `false`) where the session is not active or
/// already stopping; else MAME is told to stop, and the session is stopping.
pub open spec fn stop_spec(s: AppState) -> (AppState, bool, Option<AppEffect>) {
    match s.live {
        Some(Live { session: Some(sess) }) => match sess.session_state {
            SessionState::Active { active_state: SessionActiveState::EmuStopping } => (s, false, None),
            SessionState::Active { .. } => {
                let stopping = Session {
                    session_state: SessionState::Active { active_state: SessionActiveState::EmuStopping },
                    ..sess
                };
                (with_session(s, stopping), true, Some(AppEffect::SendStop))
            },
            _ => (s, false, None),
        },
        _ => (s, false, None),
    }
}

/// The failure to report for a status that did not validate; none for a valid one.
pub open spec fn validation_failure(v: StatusValidation) -> Option<Failure> {
    match v {
        StatusValidation::Valid => None,
        StatusValidation::VersionMismatch { status_build, infodb_build } => Some(
            Failure::InfoDbStatusMismatch { status_build, infodb_build },
        ),
        StatusValidation::Invalid(problems) => Some(Failure::InvalidStatusUpdate(problems)),
    }
}

/// The session, set to stop.
pub open spec fn stopping(sess: Session) -> Session {
    Session { session_state: SessionState::Stopping, ..sess }
}

/// An InfoDB build ending; the build is over in every case.
///
/// - With an InfoDB, the state goes live with it. A session then has its status
///   checked against the new InfoDB (`validation`; a session with no status has
///   nothing to check): where it fails, the session stops and the failure is
///   reported, else the failure is cleared. Without a session, the arguments for MAME
///   are made and a session starts where they could be.
/// - Cancelled, this is reported where the state is not live.
/// - Failed, a session is stopped and the error is reported.
pub open spec fn infodb_build_complete_spec(
    s: AppState,
    outcome: InfoDbBuildOutcome,
    validation: StatusValidation,
    preflight: Result<(), Vec<PreflightProblem>>,
) -> (AppState, bool, Option<AppEffect>) {
    let s0 = AppState { info_db_build: None, ..s };
    match outcome {
        InfoDbBuildOutcome::Built => match s.live {
            Some(Live { session: Some(sess) }) => {
                let checked = if sess.status is None && sess.pending_status is None {
                    StatusValidation::Valid
                } else {
                    validation
                };
                match validation_failure(checked) {
                    Some(f) => (AppState { failure: Some(f), ..with_session(s0, stopping(sess)) }, true, None),
                    None => (AppState { failure: None, ..s0 }, true, None),
                }
            },
            _ => {
                let s1 = after_preflight(AppState { live: Some(Live { session: None }), ..s0 }, preflight);
                match preflight {
                    Ok(_) => (with_session(s1, new_session(None)), true, Some(AppEffect::StartSession { start_args: None })),
                    Err(_) => (s1, true, None),
                }
            },
        },
        InfoDbBuildOutcome::Cancelled => if s.live is None {
            (AppState { failure: Some(Failure::InfoDbBuildCancelled), ..s0 }, true, None)
        } else {
            (s0, true, None)
        },
        InfoDbBuildOutcome::Failed(e) => match s.live {
            Some(Live { session: Some(sess) }) => (
                AppState { failure: Some(Failure::InfoDbBuild(e)), ..with_session(s0, stopping(sess)) },
                true,
                None,
            ),
            _ => (AppState { failure: Some(Failure::InfoDbBuild(e)), ..s0 }, true, None),
        },
    }
}

/// The active state once a status says whether a machine runs: starting becomes
/// normal once one runs, stopping once none does.
pub open spec fn settled(active_state: SessionActiveState, is_running: bool) -> SessionActiveState {
    match active_state {
        SessionActiveState::EmuStarting => if is_running {
            SessionActiveState::Normal
        } else {
            SessionActiveState::EmuStarting
        },
        SessionActiveState::EmuStopping => if is_running {
            SessionActiveState::EmuStopping
        } else {
            SessionActiveState::Normal
        },
        other => other,
    }
}

/// A status update from MAME, merged with the status before into `merged`, and
/// checked against the InfoDB (`validation`). Ignored (with `false`) where the session
/// is not active. A valid status becomes the session's status; another waits as the
/// pending one. An invalid status is reported; one from another build of MAME asks
/// for the InfoDB to be rebuilt, unless a build is under way. The active state settles
/// by whether a machine runs in the status kept, and where none runs the last saved
/// state is forgotten.
pub open spec fn status_update_spec(
    s: AppState,
    merged: StatusRecord,
    validation: StatusValidation,
    preflight: Result<(), Vec<PreflightProblem>>,
) -> (AppState, bool, Option<AppEffect>) {
    match s.live {
        Some(Live { session: Some(sess @ Session { session_state: SessionState::Active { active_state }, .. }) }) => {
            let valid = validation is Valid;
            let status = if valid {
                Some(merged)
            } else {
                sess.status
            };
            let pending_status = if valid {
                None
            } else {
                Some(merged)
            };
            let rebuild = validation is VersionMismatch && s.info_db_build is None;
            let failure = match validation {
                StatusValidation::Invalid(problems) => Some(Failure::InvalidStatusUpdate(problems)),
                _ => s.failure,
            };
            let is_running = status matches Some(st) && st.is_running;
            let sess2 = Session {
                session_state: SessionState::Active { active_state: settled(active_state, is_running) },
                status,
                pending_status,
                ..sess
            };
            let s1 = AppState {
                failure,
                last_save_state: if is_running {
                    s.last_save_state
                } else {
                    None
                },
                ..with_session(s, sess2)
            };
            if rebuild {
                (infodb_rebuild_spec(s1, preflight).0, true, infodb_rebuild_spec(s1, preflight).2)
            } else {
                (s1, true, None)
            }
        },
        _ => (s, false, None),
    }
}

/// The MAME session ending, with `result`. Its error (if any) is the failure to
/// report. A session set to restart starts again, once the arguments for MAME are
/// made (with the video settings of the emulation to start, if any), with that
/// emulation; a session that was shutting down ends the application.
pub open spec fn session_ended_spec(
    s: AppState,
    result: Result<(), SessionError>,
    preflight: Result<(), Vec<PreflightProblem>>,
) -> (AppState, Flow, Option<AppEffect>) {
    let failure = match result {
        Ok(_) => None,
        Err(e) => Some(Failure::SessionError(e)),
    };
    let s1 = AppState { live: Some(Live { session: None }), failure, ..s };
    match s.live {
        Some(Live { session: Some(sess) }) => match sess.session_state {
            SessionState::Restarting { start_args } => {
                let s2 = after_preflight(s1, preflight);
                match preflight {
                    Ok(_) => (
                        with_session(s2, new_session(start_args)),
                        Flow::Continue,
                        Some(AppEffect::StartSession { start_args }),
                    ),
                    Err(_) => (s2, Flow::Continue, None),
                }
            },
            SessionState::ShuttingDown => (s1, Flow::Break, None),
            _ => (s1, Flow::Continue, None),
        },
        _ => (s, Flow::Continue, None),
    }
}

/// Shutting down: a session is set to shut down (and the application goes on until it
/// ends); without one, the application ends.
pub open spec fn shutdown_spec(s: AppState) -> (AppState, Flow) {
    match s.live {
        Some(Live { session: Some(sess) }) => (
            with_session(s, Session { session_state: SessionState::ShuttingDown, ..sess }),
            Flow::Continue,
        ),
        _ => (s, Flow::Break),
    }
}

/// The state at start: nothing built, nothing live, nothing failed, nothing saved.
pub open spec fn initial_state() -> AppState {
    AppState { info_db_build: None, live: None, failure: None, last_save_state: None }
}

fn preflight_failure(preflight: Result<(), Vec<PreflightProblem>>) -> (r: Option<Failure>)
    ensures
        r == after_preflight(initial_state(), preflight).failure,
{
    match preflight {
        Ok(()) => None,
        Err(problems) => Some(Failure::Preflight(problems)),
    }
}

fn new_session_exec(start_args: Option<StartArgs>) -> (r: Session)
    ensures
        r == new_session(start_args),
{
    let active_state = match start_args {
        Some(_) => SessionActiveState::EmuStarting,
        None => SessionActiveState::Normal,
    };
    let video = match start_args {
        Some(a) => a.video,
        None => None,
    };
    Session { session_state: SessionState::Active { active_state }, video, status: None, pending_status: None }
}

fn same_video(a: Option<u64>, b: Option<u64>) -> (r: bool)
    ensures
        r == (a == b),
{
    match (a, b) {
        (Some(x), Some(y)) => x == y,
        (None, None) => true,
        _ => false,
    }
}

fn rebuild_after_args_exec(s: AppState, args_made: bool) -> (r: (AppState, bool, Option<AppEffect>))
    ensures
        r == rebuild_after_args(s, args_made),
{
    if s.info_db_build.is_some() {
        (s, false, None)
    } else if args_made {
        let AppState { info_db_build: _, live, failure, last_save_state } = s;
        (AppState { info_db_build: Some(None), live, failure, last_save_state }, true, Some(AppEffect::SpawnInfoDbBuild))
    } else {
        (s, true, None)
    }
}

fn infodb_rebuild_owned(s: AppState, preflight: Result<(), Vec<PreflightProblem>>) -> (r: (
    AppState,
    bool,
    Option<AppEffect>,
))
    ensures
        r == infodb_rebuild_spec(s, preflight),
{
    if s.info_db_build.is_some() {
        return (s, false, None);
    }
    let args_made = preflight.is_ok();
    let AppState { info_db_build, live, failure: _, last_save_state } = s;
    let failure = preflight_failure(preflight);
    rebuild_after_args_exec(AppState { info_db_build, live, failure, last_save_state }, args_made)
}

fn activate_owned(s: AppState, preflight: Result<(), Vec<PreflightProblem>>, info_db_loadable: bool) -> (r: (
    AppState,
    bool,
    Option<AppEffect>,
))
    ensures
        r == activate_spec(s, preflight, info_db_loadable),
{
    let had_failure = s.failure.is_some();
    let AppState { info_db_build, live, failure: _, last_save_state } = s;
    let has_session = match &live {
        Some(l) => l.session.is_some(),
        None => false,
    };
    if has_session {
        return (AppState { info_db_build, live, failure: None, last_save_state }, had_failure, None);
    }
    let args_made = preflight.is_ok();
    let had_live = live.is_some();
    let failure = preflight_failure(preflight);
    if had_live || (args_made && info_db_loadable) {
        if args_made {
            let session = new_session_exec(None);
            (
                AppState { info_db_build, live: Some(Live { session: Some(session) }), failure, last_save_state },
                true,
                Some(AppEffect::StartSession { start_args: None }),
            )
        } else {
            (AppState { info_db_build, live: Some(Live { session: None }), failure, last_save_state }, true, None)
        }
    } else {
        rebuild_after_args_exec(AppState { info_db_build, live, failure, last_save_state }, args_made)
    }
}

fn reset_owned(s: AppState, preflight: Result<(), Vec<PreflightProblem>>, info_db_loadable: bool) -> (r: (
    AppState,
    bool,
    Option<AppEffect>,
))
    ensures
        r == reset_spec(s, preflight, info_db_loadable),
{
    let AppState { info_db_build, live, failure, last_save_state } = s;
    match live {
        Some(Live { session: Some(sess) }) => {
            let Session { session_state: _, video, status, pending_status } = sess;
            let session = Session {
                session_state: SessionState::Restarting { start_args: None },
                video,
                status,
                pending_status,
            };
            let restarting = AppState {
                info_db_build,
                live: Some(Live { session: Some(session) }),
                failure,
                last_save_state,
            };
            let (s2, _, _) = activate_owned(restarting, preflight, info_db_loadable);
            (s2, true, Some(AppEffect::CancelSession))
        },
        other => {
            let (s2, _, effect) = activate_owned(
                AppState { info_db_build, live: other, failure, last_save_state },
                preflight,
                info_db_loadable,
            );
            (s2, true, effect)
        },
    }
}

fn start_owned(s: AppState, start_args: StartArgs, skip_audit: bool, audit_spawn: Result<(), String>) -> (r: (
    AppState,
    bool,
    Option<AppEffect>,
))
    ensures
        r == start_spec(s, start_args, skip_audit, audit_spawn),
{
    let AppState { info_db_build, live, failure, last_save_state } = s;
    match live {
        Some(Live { session: Some(sess) }) => {
            let Session { session_state, video, status, pending_status } = sess;
            if !skip_audit {
                match audit_spawn {
                    Err(e) => {
                        let session = Session { session_state, video, status, pending_status };
                        (
                            AppState {
                                info_db_build,
                                live: Some(Live { session: Some(session) }),
                                failure: Some(Failure::AuditError(e)),
                                last_save_state,
                            },
                            true,
                            None,
                        )
                    },
                    Ok(()) => {
                        let auditing = SessionActiveState::Auditing { start_args, current_asset_name: None, current_progress: (0, 0) };
                        let session = Session {
                            session_state: SessionState::Active { active_state: auditing },
                            video,
                            status,
                            pending_status,
                        };
                        (
                            AppState { info_db_build, live: Some(Live { session: Some(session) }), failure: None, last_save_state },
                            true,
                            None,
                        )
                    },
                }
            } else if same_video(start_args.video, video) {
                let session = Session {
                    session_state: SessionState::Active { active_state: SessionActiveState::EmuStarting },
                    video,
                    status,
                    pending_status,
                };
                (
                    AppState { info_db_build, live: Some(Live { session: Some(session) }), failure: None, last_save_state },
                    true,
                    Some(AppEffect::SendStart(start_args)),
                )
            } else {
                let session = Session {
                    session_state: SessionState::Restarting { start_args: Some(start_args) },
                    video,
                    status,
                    pending_status,
                };
                (
                    AppState { info_db_build, live: Some(Live { session: Some(session) }), failure: None, last_save_state },
                    true,
                    None,
                )
            }
        },
        other => (AppState { info_db_build, live: other, failure, last_save_state }, false, None),
    }
}

fn audit_progress_owned(s: AppState, asset_name: String, index: usize, count: usize) -> (r: AppState)
    ensures
        r == audit_progress_spec(s, asset_name, index, count),
{
    let AppState { info_db_build, live, failure, last_save_state } = s;
    match live {
        Some(
            Live {
                session: Some(
                    Session {
                        session_state: SessionState::Active {
                            active_state: SessionActiveState::Auditing { start_args, .. },
                        },
                        video,
                        status,
                        pending_status,
                    },
                ),
            },
        ) => {
            let auditing = SessionActiveState::Auditing {
                start_args,
                current_asset_name: Some(asset_name),
                current_progress: (index, count),
            };
            let session = Session {
                session_state: SessionState::Active { active_state: auditing },
                video,
                status,
                pending_status,
            };
            AppState { info_db_build, live: Some(Live { session: Some(session) }), failure, last_save_state }
        },
        other => AppState { info_db_build, live: other, failure, last_save_state },
    }
}

fn audit_complete_owned(s: AppState, outcome: AuditOutcome) -> (r: (AppState, bool, Option<AppEffect>))
    ensures
        r == audit_complete_spec(s, outcome),
{
    let AppState { info_db_build, live, failure, last_save_state } = s;
    match live {
        Some(
            Live {
                session: Some(
                    Session {
                        session_state: SessionState::Active {
                            active_state: SessionActiveState::Auditing { start_args, .. },
                        },
                        video,
                        status,
                        pending_status,
                    },
                ),
            },
        ) => {
            let (session_state, failure, effect) = match outcome {
                AuditOutcome::Success => if same_video(start_args.video, video) {
                    (
                        SessionState::Active { active_state: SessionActiveState::EmuStarting },
                        failure,
                        Some(AppEffect::SendStart(start_args)),
                    )
                } else {
                    (SessionState::Restarting { start_args: Some(start_args) }, failure, None)
                },
                AuditOutcome::Cancelled => (
                    SessionState::Active { active_state: SessionActiveState::Normal },
                    Some(Failure::AuditCancelled),
                    None,
                ),
                AuditOutcome::Failed(items) => (
                    SessionState::Active { active_state: SessionActiveState::Normal },
                    Some(Failure::AuditResults { items, proceed: start_args }),
                    None,
                ),
            };
            let session = Session { session_state, video, status, pending_status };
            (AppState { info_db_build, live: Some(Live { session: Some(session) }), failure, last_save_state }, true, effect)
        },
        other => (AppState { info_db_build, live: other, failure, last_save_state }, false, None),
    }
}

fn stop_owned(s: AppState) -> (r: (AppState, bool, Option<AppEffect>))
    ensures
        r == stop_spec(s),
{
    let AppState { info_db_build, live, failure, last_save_state } = s;
    match live {
        Some(Live { session: Some(Session { session_state: SessionState::Active { active_state }, video, status, pending_status }) }) => {
            let already = match active_state {
                SessionActiveState::EmuStopping => true,
                _ => false,
            };
            if already {
                let session = Session { session_state: SessionState::Active { active_state }, video, status, pending_status };
                (AppState { info_db_build, live: Some(Live { session: Some(session) }), failure, last_save_state }, false, None)
            } else {
                let session = Session {
                    session_state: SessionState::Active { active_state: SessionActiveState::EmuStopping },
                    video,
                    status,
                    pending_status,
                };
                (
                    AppState { info_db_build, live: Some(Live { session: Some(session) }), failure, last_save_state },
                    true,
                    Some(AppEffect::SendStop),
                )
            }
        },
        other => (AppState { info_db_build, live: other, failure, last_save_state }, false, None),
    }
}

fn validation_failure_exec(v: StatusValidation) -> (r: Option<Failure>)
    ensures
        r == validation_failure(v),
{
    match v {
        StatusValidation::Valid => None,
        StatusValidation::VersionMismatch { status_build, infodb_build } => Some(
            Failure::InfoDbStatusMismatch { status_build, infodb_build },
        ),
        StatusValidation::Invalid(problems) => Some(Failure::InvalidStatusUpdate(problems)),
    }
}

fn infodb_build_complete_owned(
    s: AppState,
    outcome: InfoDbBuildOutcome,
    validation: StatusValidation,
    preflight: Result<(), Vec<PreflightProblem>>,
) -> (r: (AppState, bool, Option<AppEffect>))
    ensures
        r == infodb_build_complete_spec(s, outcome, validation, preflight),
{
    let AppState { info_db_build: _, live, failure, last_save_state } = s;
    match outcome {
        InfoDbBuildOutcome::Built => match live {
            Some(Live { session: Some(sess) }) => {
                let unchecked = sess.status.is_none() && sess.pending_status.is_none();
                let checked = if unchecked {
                    StatusValidation::Valid
                } else {
                    validation
                };
                match validation_failure_exec(checked) {
                    Some(f) => {
                        let Session { session_state: _, video, status, pending_status } = sess;
                        let session = Session { session_state: SessionState::Stopping, video, status, pending_status };
                        (
                            AppState {
                                info_db_build: None,
                                live: Some(Live { session: Some(session) }),
                                failure: Some(f),
                                last_save_state,
                            },
                            true,
                            None,
                        )
                    },
                    None => (
                        AppState { info_db_build: None, live: Some(Live { session: Some(sess) }), failure: None, last_save_state },
                        true,
                        None,
                    ),
                }
            },
            _ => {
                let args_made = preflight.is_ok();
                let failure = preflight_failure(preflight);
                if args_made {
                    let session = new_session_exec(None);
                    (
                        AppState { info_db_build: None, live: Some(Live { session: Some(session) }), failure, last_save_state },
                        true,
                        Some(AppEffect::StartSession { start_args: None }),
                    )
                } else {
                    (AppState { info_db_build: None, live: Some(Live { session: None }), failure, last_save_state }, true, None)
                }
            },
        },
        InfoDbBuildOutcome::Cancelled => if live.is_none() {
            (
                AppState { info_db_build: None, live, failure: Some(Failure::InfoDbBuildCancelled), last_save_state },
                true,
                None,
            )
        } else {
            (AppState { info_db_build: None, live, failure, last_save_state }, true, None)
        },
        InfoDbBuildOutcome::Failed(e) => match live {
            Some(Live { session: Some(sess) }) => {
                let Session { session_state: _, video, status, pending_status } = sess;
                let session = Session { session_state: SessionState::Stopping, video, status, pending_status };
                (
                    AppState {
                        info_db_build: None,
                        live: Some(Live { session: Some(session) }),
                        failure: Some(Failure::InfoDbBuild(e)),
                        last_save_state,
                    },
                    true,
                    None,
                )
            },
            other => (
                AppState { info_db_build: None, live: other, failure: Some(Failure::InfoDbBuild(e)), last_save_state },
                true,
                None,
            ),
        },
    }
}

fn settled_exec(active_state: SessionActiveState, is_running: bool) -> (r: SessionActiveState)
    ensures
        r == settled(active_state, is_running),
{
    match active_state {
        SessionActiveState::EmuStarting => if is_running {
            SessionActiveState::Normal
        } else {
            SessionActiveState::EmuStarting
        },
        SessionActiveState::EmuStopping => if is_running {
            SessionActiveState::EmuStopping
        } else {
            SessionActiveState::Normal
        },
        other => other,
    }
}

fn status_update_owned(
    s: AppState,
    merged: StatusRecord,
    validation: StatusValidation,
    preflight: Result<(), Vec<PreflightProblem>>,
) -> (r: (AppState, bool, Option<AppEffect>))
    ensures
        r == status_update_spec(s, merged, validation, preflight),
{
    let AppState { info_db_build, live, failure, last_save_state } = s;
    match live {
        Some(Live { session: Some(Session { session_state: SessionState::Active { active_state }, video, status, pending_status }) }) => {
            let valid = match &validation {
                StatusValidation::Valid => true,
                _ => false,
            };
            let mismatch = match &validation {
                StatusValidation::VersionMismatch { .. } => true,
                _ => false,
            };
            let rebuild = mismatch && info_db_build.is_none();
            let (new_status, new_pending) = if valid {
                (Some(merged), None)
            } else {
                (status, Some(merged))
            };
            let failure = match validation {
                StatusValidation::Invalid(problems) => Some(Failure::InvalidStatusUpdate(problems)),
                _ => failure,
            };
            let is_running = match new_status {
                Some(st) => st.is_running,
                None => false,
            };
            let active_state = settled_exec(active_state, is_running);
            let last_save_state = if is_running {
                last_save_state
            } else {
                None
            };
            let session = Session {
                session_state: SessionState::Active { active_state },
                video,
                status: new_status,
                pending_status: new_pending,
            };
            let s1 = AppState { info_db_build, live: Some(Live { session: Some(session) }), failure, last_save_state };
            if rebuild {
                let (s2, _, effect) = infodb_rebuild_owned(s1, preflight);
                (s2, true, effect)
            } else {
                (s1, true, None)
            }
        },
        other => (AppState { info_db_build, live: other, failure, last_save_state }, false, None),
    }
}

fn session_ended_owned(
    s: AppState,
    result: Result<(), SessionError>,
    preflight: Result<(), Vec<PreflightProblem>>,
) -> (r: (AppState, Flow, Option<AppEffect>))
    ensures
        r == session_ended_spec(s, result, preflight),
{
    let AppState { info_db_build, live, failure: old_failure, last_save_state } = s;
    match live {
        Some(Live { session: Some(sess) }) => {
            let failure = match result {
                Ok(()) => None,
                Err(e) => Some(Failure::SessionError(e)),
            };
            let Session { session_state, video: _, status: _, pending_status: _ } = sess;
            match session_state {
                SessionState::Restarting { start_args } => {
                    let args_made = preflight.is_ok();
                    let failure = preflight_failure(preflight);
                    if args_made {
                        let session = new_session_exec(start_args);
                        (
                            AppState { info_db_build, live: Some(Live { session: Some(session) }), failure, last_save_state },
                            Flow::Continue,
                            Some(AppEffect::StartSession { start_args }),
                        )
                    } else {
                        (
                            AppState { info_db_build, live: Some(Live { session: None }), failure, last_save_state },
                            Flow::Continue,
                            None,
                        )
                    }
                },
                SessionState::ShuttingDown => (
                    AppState { info_db_build, live: Some(Live { session: None }), failure, last_save_state },
                    Flow::Break,
                    None,
                ),
                _ => (
                    AppState { info_db_build, live: Some(Live { session: None }), failure, last_save_state },
                    Flow::Continue,
                    None,
                ),
            }
        },
        other => (AppState { info_db_build, live: other, failure: old_failure, last_save_state }, Flow::Continue, None),
    }
}

fn shutdown_owned(s: AppState) -> (r: (AppState, Flow))
    ensures
        r == shutdown_spec(s),
{
    let AppState { info_db_build, live, failure, last_save_state } = s;
    match live {
        Some(Live { session: Some(Session { session_state: _, video, status, pending_status }) }) => {
            let session = Session { session_state: SessionState::ShuttingDown, video, status, pending_status };
            (AppState { info_db_build, live: Some(Live { session: Some(session) }), failure, last_save_state }, Flow::Continue)
        },
        other => (AppState { info_db_build, live: other, failure, last_save_state }, Flow::Break),
    }
}

impl AppState {
    /// The state at start.
    pub fn new() -> (r: AppState)
        ensures
            r == initial_state(),
    {
        AppState { info_db_build: None, live: None, failure: None, last_save_state: None }
    }

    fn take_all(&mut self) -> (r: AppState)
        ensures
            r == *old(self),
            *final(self) == initial_state(),
    {
        let mut s = AppState::new();
        std::mem::swap(&mut s, self);
        s
    }

    /// Activates the application; see [`activate_spec`]. `preflight` is whether the
    /// arguments for MAME could be made from the preferences (with the problems where
    /// not), and `info_db_loadable` whether an InfoDB could be loaded from disk.
    /// Returns whether the state changed, and the work to do.
    pub fn activate(&mut self, preflight: Result<(), Vec<PreflightProblem>>, info_db_loadable: bool) -> (r: (
        bool,
        Option<AppEffect>,
    ))
        ensures
            (*final(self), r.0, r.1) == activate_spec(*old(self), preflight, info_db_loadable),
    {
        let s = self.take_all();
        let (s2, changed, effect) = activate_owned(s, preflight, info_db_loadable);
        *self = s2;
        (changed, effect)
    }

    /// Rebuilds the InfoDB; see [`infodb_rebuild_spec`].
    pub fn infodb_rebuild(&mut self, preflight: Result<(), Vec<PreflightProblem>>) -> (r: (bool, Option<AppEffect>))
        ensures
            (*final(self), r.0, r.1) == infodb_rebuild_spec(*old(self), preflight),
    {
        let s = self.take_all();
        let (s2, changed, effect) = infodb_rebuild_owned(s, preflight);
        *self = s2;
        (changed, effect)
    }

    /// Resets the session; see [`reset_spec`].
    pub fn reset(&mut self, preflight: Result<(), Vec<PreflightProblem>>, info_db_loadable: bool) -> (r: (
        bool,
        Option<AppEffect>,
    ))
        ensures
            (*final(self), r.0, r.1) == reset_spec(*old(self), preflight, info_db_loadable),
    {
        let s = self.take_all();
        let (s2, changed, effect) = reset_owned(s, preflight, info_db_loadable);
        *self = s2;
        (changed, effect)
    }

    /// Starts an emulation; see [`start_spec`]. `audit_spawn` is whether the audit
    /// could be started (with the error where not); it is read only where the audit is
    /// not skipped.
    pub fn start(&mut self, start_args: StartArgs, skip_audit: bool, audit_spawn: Result<(), String>) -> (r: (
        bool,
        Option<AppEffect>,
    ))
        requires
            is_active(*old(self)),
        ensures
            (*final(self), r.0, r.1) == start_spec(*old(self), start_args, skip_audit, audit_spawn),
    {
        let s = self.take_all();
        let (s2, changed, effect) = start_owned(s, start_args, skip_audit, audit_spawn);
        *self = s2;
        (changed, effect)
    }

    /// Records the asset that the audit has reached, and its index among the `count`
    /// assets.
    pub fn audit_progress(&mut self, asset_name: String, index: usize, count: usize) -> (r: bool)
        requires
            is_auditing(*old(self)),
        ensures
            *final(self) == audit_progress_spec(*old(self), asset_name, index, count),
            r,
    {
        let s = self.take_all();
        *self = audit_progress_owned(s, asset_name, index, count);
        true
    }

    /// Cancels the audit under way: the state is left as it is until the audit ends.
    pub fn audit_cancel(&self) -> (r: (bool, Option<AppEffect>))
        requires
            is_auditing(*self),
        ensures
            r == (true, Some(AppEffect::CancelAudit)),
    {
        (true, Some(AppEffect::CancelAudit))
    }

    /// Takes the end of the audit; see [`audit_complete_spec`].
    pub fn audit_complete(&mut self, outcome: AuditOutcome) -> (r: (bool, Option<AppEffect>))
        requires
            is_auditing(*old(self)),
        ensures
            (*final(self), r.0, r.1) == audit_complete_spec(*old(self), outcome),
    {
        let s = self.take_all();
        let (s2, changed, effect) = audit_complete_owned(s, outcome);
        *self = s2;
        (changed, effect)
    }

    /// Stops the emulation; see [`stop_spec`].
    pub fn stop(&mut self) -> (r: (bool, Option<AppEffect>))
        requires
            has_session(*old(self)),
        ensures
            (*final(self), r.0, r.1) == stop_spec(*old(self)),
    {
        let s = self.take_all();
        let (s2, changed, effect) = stop_owned(s);
        *self = s2;
        (changed, effect)
    }

    /// Whether a command can be sent to MAME now: where the session is active.
    pub fn can_issue_command(&self) -> (r: bool)
        requires
            has_session(*self),
        ensures
            r == is_active(*self),
    {
        match &self.live {
            Some(Live { session: Some(Session { session_state: SessionState::Active { .. }, .. }) }) => true,
            _ => false,
        }
    }

    /// Records the description of the machine that the InfoDB build has reached.
    pub fn infodb_build_progress(&mut self, machine_description: String) -> (r: bool)
        requires
            old(self).info_db_build is Some,
        ensures
            *final(self) == (AppState { info_db_build: Some(Some(machine_description)), ..*old(self) }),
            r,
    {
        self.info_db_build = Some(Some(machine_description));
        true
    }

    /// Cancels the InfoDB build: the state is left as it is until the build ends.
    pub fn infodb_build_cancel(&self) -> (r: (bool, Option<AppEffect>))
        requires
            self.info_db_build is Some,
        ensures
            r == (false, Some(AppEffect::CancelInfoDbBuild)),
    {
        (false, Some(AppEffect::CancelInfoDbBuild))
    }

    /// Takes the end of the InfoDB build; see [`infodb_build_complete_spec`].
    pub fn infodb_build_complete(
        &mut self,
        outcome: InfoDbBuildOutcome,
        validation: StatusValidation,
        preflight: Result<(), Vec<PreflightProblem>>,
    ) -> (r: (bool, Option<AppEffect>))
        requires
            old(self).info_db_build is Some,
        ensures
            (*final(self), r.0, r.1) == infodb_build_complete_spec(*old(self), outcome, validation, preflight),
    {
        let s = self.take_all();
        let (s2, changed, effect) = infodb_build_complete_owned(s, outcome, validation, preflight);
        *self = s2;
        (changed, effect)
    }

    /// Takes a status update from MAME; see [`status_update_spec`].
    pub fn status_update(
        &mut self,
        merged: StatusRecord,
        validation: StatusValidation,
        preflight: Result<(), Vec<PreflightProblem>>,
    ) -> (r: (bool, Option<AppEffect>))
        requires
            has_session(*old(self)),
        ensures
            (*final(self), r.0, r.1) == status_update_spec(*old(self), merged, validation, preflight),
    {
        let s = self.take_all();
        let (s2, changed, effect) = status_update_owned(s, merged, validation, preflight);
        *self = s2;
        (changed, effect)
    }

    /// Takes the end of the MAME session; see [`session_ended_spec`].
    pub fn session_ended(&mut self, result: Result<(), SessionError>, preflight: Result<(), Vec<PreflightProblem>>) -> (r: (
        Flow,
        Option<AppEffect>,
    ))
        requires
            has_session(*old(self)),
        ensures
            (*final(self), r.0, r.1) == session_ended_spec(*old(self), result, preflight),
    {
        let s = self.take_all();
        let (s2, flow, effect) = session_ended_owned(s, result, preflight);
        *self = s2;
        (flow, effect)
    }

    /// Shuts down; see [`shutdown_spec`].
    pub fn shutdown(&mut self) -> (r: Flow)
        ensures
            (*final(self), r) == shutdown_spec(*old(self)),
    {
        let s = self.take_all();
        let (s2, flow) = shutdown_owned(s);
        *self = s2;
        flow
    }

    /// Whether an InfoDB build is under way.
    pub fn is_building_infodb(&self) -> (r: bool)
        ensures
            r == (self.info_db_build is Some),
    {
        self.info_db_build.is_some()
    }

    /// Whether an InfoDB is loaded.
    pub fn has_info_db(&self) -> (r: bool)
        ensures
            r == (self.live is Some),
    {
        self.live.is_some()
    }

    /// The status of the session, where one exists and MAME reported one.
    pub fn status(&self) -> (r: Option<StatusRecord>)
        ensures
            r == (match self.live {
                Some(Live { session: Some(sess) }) => sess.status,
                _ => None,
            }),
    {
        match &self.live {
            Some(Live { session: Some(sess) }) => sess.status,
            _ => None,
        }
    }

    /// The last state saved, if any.
    pub fn last_save_state(&self) -> (r: &Option<String>)
        ensures
            *r == self.last_save_state,
    {
        &self.last_save_state
    }

    /// Records the last state saved.
    pub fn set_last_save_state(&mut self, last_save_state: Option<String>) -> (r: bool)
        ensures
            *final(self) == (AppState { last_save_state, ..*old(self) }),
            r,
    {
        self.last_save_state = last_save_state;
        true
    }
}

/// The video settings of the session, where one exists.
pub open spec fn session_video(s: AppState) -> Option<u64> {
    match s.live {
        Some(Live { session: Some(sess) }) => sess.video,
        _ => None,
    }
}

/// Stopping twice: the second stop changes nothing and asks for nothing.
pub proof fn lemma_stop_twice(s: AppState)
    requires
        has_session(s),
    ensures
        stop_spec(stop_spec(s).0) == (stop_spec(s).0, false, None::<AppEffect>),
{
}

/// Once the application is shut down, the end of its session ends it, however the
/// session ended.
pub proof fn lemma_shutdown_then_session_end(
    s: AppState,
    result: Result<(), SessionError>,
    preflight: Result<(), Vec<PreflightProblem>>,
)
    requires
        has_session(s),
    ensures
        shutdown_spec(s).1 == Flow::Continue,
        session_ended_spec(shutdown_spec(s).0, result, preflight).1 == Flow::Break,
        session_ended_spec(shutdown_spec(s).0, result, preflight).2 is None,
{
}

/// An emulation started with the session's video settings, once its audit succeeds,
/// is sent to MAME, and the session is starting it.
pub proof fn lemma_audited_start_reaches_mame(s: AppState, start_args: StartArgs)
    requires
        is_active(s),
        start_args.video == session_video(s),
    ensures
        audit_complete_spec(start_spec(s, start_args, false, Ok(())).0, AuditOutcome::Success).2 == Some(
            AppEffect::SendStart(start_args),
        ),
        audit_complete_spec(start_spec(s, start_args, false, Ok(())).0, AuditOutcome::Success).0.live matches Some(
            Live {
                session: Some(
                    Session {
                        session_state: SessionState::Active { active_state: SessionActiveState::EmuStarting },
                        ..
                    },
                ),
            },
        ),
{
}

/// An emulation whose audit succeeds, started with other video settings than the
/// session's, is not sent to the running MAME: nothing is sent, and the session
/// restarts with those start arguments (so MAME comes back with the new settings).
pub proof fn lemma_audited_other_video_restarts(s: AppState, start_args: StartArgs)
    requires
        is_active(s),
        start_args.video != session_video(s),
    ensures
        ({
            let done = audit_complete_spec(start_spec(s, start_args, false, Ok(())).0, AuditOutcome::Success);
            &&& done.1
            &&& done.2 is None
            &&& done.0.live matches Some(
                Live {
                    session: Some(
                        Session { session_state: SessionState::Restarting { start_args: Some(a) }, video, .. },
                    ),
                },
            ) && a == start_args && video == session_video(s)
        }),
{
}

/// A failed audit starts nothing: the session is back to normal, and (unless an InfoDB
/// build is under way) the report shows every audited asset with its result and the
/// arguments that start the emulation all the same. A cancelled audit starts nothing
/// either and reports the cancellation.
pub proof fn lemma_failed_audit_reported(
    s: AppState,
    start_args: StartArgs,
    items: Vec<(Asset, AuditResult)>,
    r: Option<Report>,
)
    requires
        is_active(s),
        s.info_db_build is None,
    ensures
        ({
            let done = audit_complete_spec(start_spec(s, start_args, false, Ok(())).0, AuditOutcome::Failed(items));
            &&& done.1
            &&& done.2 is None
            &&& done.0.live matches Some(
                Live {
                    session: Some(
                        Session { session_state: SessionState::Active { active_state: SessionActiveState::Normal }, .. },
                    ),
                },
            )
            &&& state_report(done.0, r) ==> (r matches Some(Report::AuditFailure { items: i, proceed: p }) && i@
                == items@ && p == start_args)
        }),
        ({
            let done = audit_complete_spec(start_spec(s, start_args, false, Ok(())).0, AuditOutcome::Cancelled);
            &&& done.2 is None
            &&& state_report(done.0, r) ==> r matches Some(Report::AuditCancelled)
        }),
{
}

/// An emulation started (without an audit) with other video settings than the
/// session's restarts MAME: once the session ends, a new one starts with those
/// settings and the emulation.
pub proof fn lemma_other_video_restarts(s: AppState, start_args: StartArgs)
    requires
        is_active(s),
        start_args.video != session_video(s),
    ensures
        ({
            let restarted = session_ended_spec(start_spec(s, start_args, true, Ok(())).0, Ok(()), Ok(()));
            &&& restarted.1 == Flow::Continue
            &&& restarted.2 == Some(AppEffect::StartSession { start_args: Some(start_args) })
            &&& restarted.0.live == Some(Live { session: Some(new_session(Some(start_args))) })
            &&& new_session(Some(start_args)).video == start_args.video
        }),
{
}

/// Once a session runs, activating again starts nothing: it only clears the failure.
pub proof fn lemma_activate_with_session(
    s: AppState,
    preflight: Result<(), Vec<PreflightProblem>>,
    info_db_loadable: bool,
)
    requires
        has_session(s),
    ensures
        activate_spec(s, preflight, info_db_loadable) == (AppState { failure: None, ..s }, s.failure is Some, None::<
            AppEffect,
        >),
{
}

/// Activating twice with arguments that can be made and an InfoDB at hand: the first
/// starts a session, the second starts nothing more.
pub proof fn lemma_activate_twice(s: AppState, info_db_loadable: bool)
    requires
        !has_session(s),
        s.live is Some || info_db_loadable,
    ensures
        activate_spec(s, Ok(()), info_db_loadable).2 == Some(AppEffect::StartSession { start_args: None }),
        activate_spec(activate_spec(s, Ok(()), info_db_loadable).0, Ok(()), info_db_loadable).2 is None,
{
}

/// While an InfoDB build is under way, asking for another does nothing.
pub proof fn lemma_rebuild_while_building(s: AppState, preflight: Result<(), Vec<PreflightProblem>>)
    requires
        s.info_db_build is Some,
    ensures
        infodb_rebuild_spec(s, preflight) == (s, false, None::<AppEffect>),
{
}

} // verus!

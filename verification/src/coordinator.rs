//! The course of one login: which choice is waited for, when the
//! credential is checked and when the session is launched.
//!
//! The coordinator takes the events of a login one at a time and answers
//! each with what is to be done next. It keeps what the user has chosen,
//! and the open session once there is one. It never drops a session: one
//! that comes in stays with the coordinator until it leaves again, either
//! to be launched or to be closed.

use crate::auth::{AuthError, AuthErrorView, AuthenticatedSession, Credential, CredentialView};
use crate::launch::{ExitStatus, LaunchError, LaunchOutcome};
use crate::selection::{Selection, SelectionView};
use crate::setup::{Setup, SetupView};
use crate::text::same_text;
use crate::views::opt_view;
use vstd::multiset::Multiset;
use vstd::prelude::*;
use vstd::string::*;

verus! {

/// The exit code of a login that was cancelled, or whose session ended
/// without an exit code of its own.
pub const EXIT_PLAIN: u8 = 0;

/// The exit code where there is no catalog of setups and nothing to fall
/// back on.
pub const EXIT_NO_CATALOG: u8 = 66;

/// The exit code where the account of the user is unknown.
pub const EXIT_UNKNOWN_ACCOUNT: u8 = 67;

/// The exit code where the home directory could not be entered.
pub const EXIT_CHDIR_FAILED: u8 = 69;

/// The exit code where the child could not be waited for.
pub const EXIT_WAIT_FAILED: u8 = 70;

/// The exit code where the program could not be started.
pub const EXIT_SPAWN_FAILED: u8 = 71;

/// The exit code where the user gave up logging in after a rejection.
pub const EXIT_LOGIN_GIVEN_UP: u8 = 77;

/// What the coordinator is waiting for, or how it has ended.
#[derive(Clone, Copy, Debug, PartialEq, Eq, Structural)]
pub enum Phase {
    /// The name of the user is not chosen yet.
    AwaitingUsername,
    /// The user is chosen, but no credential of theirs has been accepted.
    AwaitingCredential,
    /// The setup is not chosen yet.
    AwaitingSetup,
    /// Everything is chosen and the launch has been asked for.
    Ready,
    /// The launch has returned.
    Launched,
    /// The user has cancelled.
    Aborted,
}

/// What the coordinator is busy with.
#[derive(Clone, Copy, Debug, PartialEq, Eq, Structural)]
pub enum Progress {
    /// It collects the user's choices.
    Collecting,
    /// It has asked for a credential to be checked and waits for the
    /// answer.
    Authenticating,
    /// It has asked for the launch and waits for its return.
    Launching,
    /// The launch has returned.
    Launched,
    /// The user has cancelled.
    Aborted,
}

/// How a run of the program ends.
#[derive(Clone, Copy, Debug, PartialEq, Eq, Structural)]
pub enum Ending {
    /// The session was launched and its child ended in this way.
    Exited(ExitStatus),
    /// The launch failed.
    LaunchFailed(LaunchError),
    /// The user cancelled, and no credential stands rejected.
    Cancelled,
    /// There was no catalog of setups and nothing to fall back on.
    NoCatalog,
    /// The user cancelled after a credential was rejected and none was
    /// accepted since.
    LoginGivenUp,
}

/// Something that happened, told to the coordinator.
pub enum Event {
    /// The user gave a name.
    Username(String),
    /// The user gave a secret.
    Secret(String),
    /// The check of a credential has ended.
    Authenticated(Result<AuthenticatedSession, AuthError>),
    /// The user chose a setup.
    Chosen(Setup),
    /// The launch has returned.
    Returned(LaunchOutcome),
    /// The user cancelled.
    Cancel,
}

/// What an [`Event`] holds, as plain values. A session is seen as the name
/// of its user.
pub enum EventView {
    Username(Seq<char>),
    Secret(Seq<char>),
    Authenticated(Result<Seq<char>, AuthErrorView>),
    Chosen(SetupView),
    Returned(LaunchOutcome),
    Cancel,
}

impl View for Event {
    type V = EventView;

    open spec fn view(&self) -> EventView {
        match self {
            Event::Username(name) => EventView::Username(name@),
            Event::Secret(secret) => EventView::Secret(secret@),
            Event::Authenticated(Ok(session)) => EventView::Authenticated(Ok(session@)),
            Event::Authenticated(Err(error)) => EventView::Authenticated(Err(error@)),
            Event::Chosen(setup) => EventView::Chosen(setup@),
            Event::Returned(outcome) => EventView::Returned(*outcome),
            Event::Cancel => EventView::Cancel,
        }
    }
}

/// What is to be done next.
pub enum Directive {
    /// Wait for what the phase names. In a phase that is an end, there is
    /// nothing more to do.
    Ask(Phase),
    /// Check this credential and tell the coordinator what came of it.
    Authenticate(Credential),
    /// Tell the user that the credential was not accepted.
    Refused(AuthError),
    /// Launch the setup, with the session where a login was asked for, and
    /// tell the coordinator when the launch has returned.
    Launch(Option<AuthenticatedSession>, Setup),
    /// Close this session: the coordinator has no use for it.
    Discard(AuthenticatedSession),
    /// Close the session, if one is given, and leave with the exit code.
    Quit(Option<AuthenticatedSession>, u8),
}

/// What a [`Directive`] holds, as plain values. A session is seen as the
/// name of its user.
pub enum DirectiveView {
    Ask(Phase),
    Authenticate(CredentialView),
    Refused(AuthErrorView),
    Launch(Option<Seq<char>>, SetupView),
    Discard(Seq<char>),
    Quit(Option<Seq<char>>, u8),
}

impl View for Directive {
    type V = DirectiveView;

    open spec fn view(&self) -> DirectiveView {
        match self {
            Directive::Ask(phase) => DirectiveView::Ask(*phase),
            Directive::Authenticate(credential) => DirectiveView::Authenticate(credential@),
            Directive::Refused(error) => DirectiveView::Refused(error@),
            Directive::Launch(session, setup) => DirectiveView::Launch(opt_view(*session), setup@),
            Directive::Discard(session) => DirectiveView::Discard(session@),
            Directive::Quit(session, code) => DirectiveView::Quit(opt_view(*session), *code),
        }
    }
}

/// The coordinator of one login.
pub struct Coordinator {
    selection: Selection,
    session: Option<AuthenticatedSession>,
    progress: Progress,
    refused: bool,
}

/// What a [`Coordinator`] holds, as plain values.
pub struct CoordinatorView {
    /// What the user has chosen so far.
    pub selection: SelectionView,
    /// The user of the open session that the coordinator keeps, if it
    /// keeps one.
    pub session: Option<Seq<char>>,
    /// What the coordinator is busy with.
    pub progress: Progress,
    /// Whether the credential that was checked last was not accepted.
    pub refused: bool,
}

impl View for Coordinator {
    type V = CoordinatorView;

    closed spec fn view(&self) -> CoordinatorView {
        CoordinatorView {
            selection: self.selection@,
            session: opt_view(self.session),
            progress: self.progress,
            refused: self.refused,
        }
    }
}

/// The exit code that a run ends with: the child's own where the launch
/// went well and the child left one that an exit code can hold, zero where
/// it left none or the user cancelled, and for each failure a code of its
/// own that is not zero.
pub open spec fn exit_code_of(ending: Ending) -> u8 {
    match ending {
        Ending::Exited(status) => match status.code {
            Some(code) => if 0 <= code <= 255 {
                code as u8
            } else {
                EXIT_PLAIN
            },
            None => EXIT_PLAIN,
        },
        Ending::LaunchFailed(LaunchError::UnknownAccount) => EXIT_UNKNOWN_ACCOUNT,
        Ending::LaunchFailed(LaunchError::ChdirFailed) => EXIT_CHDIR_FAILED,
        Ending::LaunchFailed(LaunchError::SpawnFailed) => EXIT_SPAWN_FAILED,
        Ending::LaunchFailed(LaunchError::ChildWaitFailed) => EXIT_WAIT_FAILED,
        Ending::Cancelled => EXIT_PLAIN,
        Ending::NoCatalog => EXIT_NO_CATALOG,
        Ending::LoginGivenUp => EXIT_LOGIN_GIVEN_UP,
    }
}

/// The ending that the return of a launch stands for.
pub open spec fn ending_of(outcome: LaunchOutcome) -> Ending {
    match outcome {
        Ok(status) => Ending::Exited(status),
        Err(error) => Ending::LaunchFailed(error),
    }
}

/// How a login ends that the user cancels: as given up where the
/// credential that was checked last was not accepted, and as cancelled
/// otherwise.
pub open spec fn cancel_ending(state: CoordinatorView) -> Ending {
    if state.refused {
        Ending::LoginGivenUp
    } else {
        Ending::Cancelled
    }
}

/// Whether a run that ends so has failed.
pub open spec fn is_failure(ending: Ending) -> bool {
    match ending {
        Ending::Exited(_) => false,
        Ending::Cancelled => false,
        _ => true,
    }
}

/// Whether the session can be launched: the setup is chosen, and where a
/// login is asked for, a session is open.
pub open spec fn can_launch(state: CoordinatorView) -> bool {
    state.selection.setup is Some && (state.selection.login ==> state.session is Some)
}

/// What holds of every coordinator. A session is kept only while choices
/// are collected, only where a login is asked for, and it is the session
/// of the user that is chosen; a credential is checked only for a chosen
/// user and while no session is open; while choices are collected or a
/// credential is checked, something is still missing for the launch; and a
/// credential counts as refused only where a login is asked for and no
/// session is open.
pub open spec fn coordinator_wf(state: CoordinatorView) -> bool {
    &&& state.refused ==> state.selection.login && state.session is None
    &&& state.session is Some ==> state.progress == Progress::Collecting && state.selection.login
        && state.selection.username == state.session
    &&& state.progress == Progress::Authenticating ==> state.selection.login
        && state.selection.username is Some
    &&& state.progress == Progress::Collecting || state.progress == Progress::Authenticating
        ==> !can_launch(state)
}

/// The phase that a coordinator is in.
pub open spec fn phase_of(state: CoordinatorView) -> Phase {
    match state.progress {
        Progress::Launched => Phase::Launched,
        Progress::Aborted => Phase::Aborted,
        Progress::Launching => Phase::Ready,
        _ => if state.selection.login && state.selection.username is None {
            Phase::AwaitingUsername
        } else if state.selection.login && state.session is None {
            Phase::AwaitingCredential
        } else {
            Phase::AwaitingSetup
        },
    }
}

/// What follows once a choice has been made or a session has been opened:
/// the launch, where nothing is missing for it, and else the wait for what
/// is missing. The session leaves the coordinator with the launch.
pub open spec fn proceed(state: CoordinatorView) -> (CoordinatorView, DirectiveView) {
    if can_launch(state) {
        (
            CoordinatorView { session: None, progress: Progress::Launching, ..state },
            DirectiveView::Launch(state.session, state.selection.setup->0),
        )
    } else {
        (state, DirectiveView::Ask(phase_of(state)))
    }
}

/// The start of a login with what is chosen beforehand.
pub open spec fn coordinator_begin(selection: SelectionView) -> (CoordinatorView, DirectiveView) {
    proceed(
        CoordinatorView {
            selection,
            session: None,
            progress: Progress::Collecting,
            refused: false,
        },
    )
}

/// The answer to an event that the coordinator has no use for: nothing
/// changes. A session that comes with such an event is handed back to be
/// closed.
pub open spec fn pass_over(state: CoordinatorView, event: EventView) -> (
    CoordinatorView,
    DirectiveView,
) {
    match event {
        EventView::Authenticated(Ok(session)) => (state, DirectiveView::Discard(session)),
        _ => (state, DirectiveView::Ask(phase_of(state))),
    }
}

/// One step of a login.
///
/// While choices are collected: a name is taken as long as no session is
/// open; a secret is taken once the user is chosen and no session is open,
/// and is sent to be checked together with the name; a setup is taken at
/// any time; a cancel ends the login and hands the session back, if one is
/// open. While a credential is checked: a session for the chosen user is
/// kept, a rejection is told to the user and leaves everything that was
/// chosen as it is, a setup is taken, a cancel ends the login. A cancel
/// that follows a rejection, with no credential accepted since, ends the
/// login as given up, which is a failure; any other cancel is none. While
/// the launch runs, its return ends the login with its exit code. Every
/// other event is passed over.
pub open spec fn coordinator_step(state: CoordinatorView, event: EventView) -> (
    CoordinatorView,
    DirectiveView,
) {
    match state.progress {
        Progress::Collecting => match event {
            EventView::Username(name) => if state.selection.login && state.session is None {
                proceed(
                    CoordinatorView {
                        selection: SelectionView { username: Some(name), ..state.selection },
                        ..state
                    },
                )
            } else {
                pass_over(state, event)
            },
            EventView::Secret(secret) => if phase_of(state) == Phase::AwaitingCredential {
                (
                    CoordinatorView { progress: Progress::Authenticating, ..state },
                    DirectiveView::Authenticate(
                        CredentialView { username: state.selection.username->0, secret },
                    ),
                )
            } else {
                pass_over(state, event)
            },
            EventView::Chosen(setup) => proceed(
                CoordinatorView {
                    selection: SelectionView { setup: Some(setup), ..state.selection },
                    ..state
                },
            ),
            EventView::Cancel => (
                CoordinatorView { session: None, progress: Progress::Aborted, ..state },
                DirectiveView::Quit(state.session, exit_code_of(cancel_ending(state))),
            ),
            _ => pass_over(state, event),
        },
        Progress::Authenticating => match event {
            EventView::Authenticated(Ok(session)) => if state.selection.username == Some(session) {
                proceed(
                    CoordinatorView {
                        session: Some(session),
                        progress: Progress::Collecting,
                        refused: false,
                        ..state
                    },
                )
            } else {
                (
                    CoordinatorView { progress: Progress::Collecting, ..state },
                    DirectiveView::Discard(session),
                )
            },
            EventView::Authenticated(Err(error)) => (
                CoordinatorView { progress: Progress::Collecting, refused: true, ..state },
                DirectiveView::Refused(error),
            ),
            EventView::Chosen(setup) => (
                CoordinatorView {
                    selection: SelectionView { setup: Some(setup), ..state.selection },
                    ..state
                },
                DirectiveView::Ask(phase_of(state)),
            ),
            EventView::Cancel => (
                CoordinatorView { progress: Progress::Aborted, ..state },
                DirectiveView::Quit(state.session, exit_code_of(cancel_ending(state))),
            ),
            _ => pass_over(state, event),
        },
        Progress::Launching => match event {
            EventView::Returned(outcome) => (
                CoordinatorView { progress: Progress::Launched, ..state },
                DirectiveView::Quit(None, exit_code_of(ending_of(outcome))),
            ),
            _ => pass_over(state, event),
        },
        _ => pass_over(state, event),
    }
}

/// Gives the exit code that a run ends with.
pub fn exit_code(ending: Ending) -> (r: u8)
    ensures
        r == exit_code_of(ending),
{
    match ending {
        Ending::Exited(status) => match status.code {
            Some(code) => if 0 <= code && code <= 255 {
                code as u8
            } else {
                EXIT_PLAIN
            },
            None => EXIT_PLAIN,
        },
        Ending::LaunchFailed(LaunchError::UnknownAccount) => EXIT_UNKNOWN_ACCOUNT,
        Ending::LaunchFailed(LaunchError::ChdirFailed) => EXIT_CHDIR_FAILED,
        Ending::LaunchFailed(LaunchError::SpawnFailed) => EXIT_SPAWN_FAILED,
        Ending::LaunchFailed(LaunchError::ChildWaitFailed) => EXIT_WAIT_FAILED,
        Ending::Cancelled => EXIT_PLAIN,
        Ending::NoCatalog => EXIT_NO_CATALOG,
        Ending::LoginGivenUp => EXIT_LOGIN_GIVEN_UP,
    }
}

impl Coordinator {
    #[verifier::type_invariant]
    spec fn well_formed(self) -> bool {
        coordinator_wf(self@)
    }

    /// Begins a login with what is chosen beforehand, such as the name of
    /// the user who logged in last.
    pub fn begin(selection: Selection) -> (r: (Coordinator, Directive))
        ensures
            (r.0@, r.1@) == coordinator_begin(selection@),
            coordinator_wf(r.0@),
    {
        Self::settle(selection, None, false)
    }

    /// The phase that the coordinator is in.
    pub fn phase(&self) -> (r: Phase)
        ensures
            r == phase_of(self@),
            coordinator_wf(self@),
    {
        proof {
            use_type_invariant(self);
        }
        match self.progress {
            Progress::Launched => Phase::Launched,
            Progress::Aborted => Phase::Aborted,
            Progress::Launching => Phase::Ready,
            _ => if self.selection.needs_login() && self.selection.username().is_none() {
                Phase::AwaitingUsername
            } else if self.selection.needs_login() && self.session.is_none() {
                Phase::AwaitingCredential
            } else {
                Phase::AwaitingSetup
            },
        }
    }

    /// What the user has chosen so far.
    pub fn selection(&self) -> (r: &Selection)
        ensures
            r@ == self@.selection,
    {
        &self.selection
    }

    /// Goes on with the choices and the session at hand: launches where
    /// nothing is missing, and waits for what is missing otherwise.
    fn settle(selection: Selection, session: Option<AuthenticatedSession>, refused: bool) -> (r: (
        Coordinator,
        Directive,
    ))
        requires
            session is Some ==> selection@.login && selection@.username == opt_view(session),
            refused ==> selection@.login && session is None,
        ensures
            (r.0@, r.1@) == proceed(
                CoordinatorView {
                    selection: selection@,
                    session: opt_view(session),
                    progress: Progress::Collecting,
                    refused,
                },
            ),
            coordinator_wf(r.0@),
    {
        let ready = selection.has_setup() && (!selection.needs_login() || session.is_some());
        if ready {
            let setup = selection.setup().unwrap().clone();
            (
                Coordinator { selection, session: None, progress: Progress::Launching, refused },
                Directive::Launch(session, setup),
            )
        } else {
            let state = Coordinator { selection, session, progress: Progress::Collecting, refused };
            let phase = state.phase();
            (state, Directive::Ask(phase))
        }
    }

    /// Passes over an event that is of no use.
    fn ignore(self, event: Event) -> (r: (Coordinator, Directive))
        ensures
            (r.0@, r.1@) == pass_over(self@, event@),
            coordinator_wf(r.0@),
    {
        proof {
            use_type_invariant(&self);
        }
        match event {
            Event::Authenticated(Ok(session)) => (self, Directive::Discard(session)),
            _ => {
                let phase = self.phase();
                (self, Directive::Ask(phase))
            },
        }
    }

    /// Takes an event and tells what is to be done next.
    pub fn step(self, event: Event) -> (r: (Coordinator, Directive))
        ensures
            (r.0@, r.1@) == coordinator_step(self@, event@),
            coordinator_wf(self@),
            coordinator_wf(r.0@),
    {
        proof {
            use_type_invariant(&self);
        }
        match self.progress {
            Progress::Collecting => match event {
                Event::Username(name) => {
                    if self.selection.needs_login() && self.session.is_none() {
                        let Coordinator { selection, session, progress, refused } = self;
                        let mut selection = selection;
                        selection.set_username(name);
                        Self::settle(selection, None, refused)
                    } else {
                        self.ignore(Event::Username(name))
                    }
                },
                Event::Secret(secret) => {
                    let name = match self.selection.username() {
                        Some(name) => if self.selection.needs_login() && self.session.is_none() {
                            Some(String::from_str(name))
                        } else {
                            None
                        },
                        None => None,
                    };
                    match name {
                        Some(username) => {
                            let Coordinator { selection, session, progress, refused } = self;
                            (
                                Coordinator {
                                    selection,
                                    session,
                                    progress: Progress::Authenticating,
                                    refused,
                                },
                                Directive::Authenticate(Credential { username, secret }),
                            )
                        },
                        None => self.ignore(Event::Secret(secret)),
                    }
                },
                Event::Chosen(setup) => {
                    let Coordinator { selection, session, progress, refused } = self;
                    let mut selection = selection;
                    selection.set_setup(setup);
                    Self::settle(selection, session, refused)
                },
                Event::Cancel => {
                    let Coordinator { selection, session, progress, refused } = self;
                    let ending = if refused {
                        Ending::LoginGivenUp
                    } else {
                        Ending::Cancelled
                    };
                    (
                        Coordinator {
                            selection,
                            session: None,
                            progress: Progress::Aborted,
                            refused,
                        },
                        Directive::Quit(session, exit_code(ending)),
                    )
                },
                other => self.ignore(other),
            },
            Progress::Authenticating => match event {
                Event::Authenticated(Ok(opened)) => {
                    let Coordinator { selection, session, progress, refused } = self;
                    let matches = match selection.username() {
                        Some(name) => same_text(name, opened.username()),
                        None => false,
                    };
                    if matches {
                        Self::settle(selection, Some(opened), false)
                    } else {
                        (
                            Coordinator {
                                selection,
                                session,
                                progress: Progress::Collecting,
                                refused,
                            },
                            Directive::Discard(opened),
                        )
                    }
                },
                Event::Authenticated(Err(error)) => {
                    let Coordinator { selection, session, progress, refused } = self;
                    (
                        Coordinator {
                            selection,
                            session,
                            progress: Progress::Collecting,
                            refused: true,
                        },
                        Directive::Refused(error),
                    )
                },
                Event::Chosen(setup) => {
                    let phase = self.phase();
                    let Coordinator { selection, session, progress, refused } = self;
                    let mut selection = selection;
                    selection.set_setup(setup);
                    (Coordinator { selection, session, progress, refused }, Directive::Ask(phase))
                },
                Event::Cancel => {
                    let Coordinator { selection, session, progress, refused } = self;
                    let ending = if refused {
                        Ending::LoginGivenUp
                    } else {
                        Ending::Cancelled
                    };
                    (
                        Coordinator {
                            selection,
                            session: None,
                            progress: Progress::Aborted,
                            refused,
                        },
                        Directive::Quit(session, exit_code(ending)),
                    )
                },
                other => self.ignore(other),
            },
            Progress::Launching => match event {
                Event::Returned(outcome) => {
                    let Coordinator { selection, session, progress, refused } = self;
                    let ending = match outcome {
                        Ok(status) => Ending::Exited(status),
                        Err(error) => Ending::LaunchFailed(error),
                    };
                    (
                        Coordinator { selection, session, progress: Progress::Launched, refused },
                        Directive::Quit(None, exit_code(ending)),
                    )
                },
                other => self.ignore(other),
            },
            _ => self.ignore(event),
        }
    }
}

/// The session that an event brings, if it brings one.
pub open spec fn session_of_event(event: EventView) -> Option<Seq<char>> {
    match event {
        EventView::Authenticated(Ok(session)) => Some(session),
        _ => None,
    }
}

/// The session that leaves with a directive, if one does.
pub open spec fn session_of_directive(directive: DirectiveView) -> Option<Seq<char>> {
    match directive {
        DirectiveView::Launch(session, _) => session,
        DirectiveView::Discard(session) => Some(session),
        DirectiveView::Quit(session, _) => session,
        _ => None,
    }
}

/// The sessions that `session` stands for: one or none.
pub open spec fn sessions(session: Option<Seq<char>>) -> Multiset<Seq<char>> {
    match session {
        Some(user) => Multiset::singleton(user),
        None => Multiset::empty(),
    }
}

/// Where a login stands after the events `events`, and what it has asked
/// for in answer to each of them.
pub open spec fn coordinator_trace(state: CoordinatorView, events: Seq<EventView>) -> (
    CoordinatorView,
    Seq<DirectiveView>,
)
    decreases events.len(),
{
    if events.len() == 0 {
        (state, Seq::<DirectiveView>::empty())
    } else {
        let first = coordinator_step(state, events[0]);
        let later = coordinator_trace(first.0, events.drop_first());
        (later.0, seq![first.1] + later.1)
    }
}

/// A login that begins, begins well formed, and every step keeps it so.
pub proof fn lemma_coordinator_stays_well_formed(
    selection: SelectionView,
    state: CoordinatorView,
    event: EventView,
)
    requires
        coordinator_wf(state),
    ensures
        coordinator_wf(coordinator_begin(selection).0),
        coordinator_wf(coordinator_step(state, event).0),
{
}

/// No session is lost and none is made up: the sessions that the
/// coordinator keeps after a step, together with the one that leaves with
/// the directive, are those that it kept before, together with the one that
/// the event brought.
pub proof fn lemma_sessions_are_conserved(state: CoordinatorView, event: EventView)
    requires
        coordinator_wf(state),
    ensures
        sessions(coordinator_step(state, event).0.session).add(
            sessions(session_of_directive(coordinator_step(state, event).1)),
        ) == sessions(state.session).add(sessions(session_of_event(event))),
{
    let next = coordinator_step(state, event);
    let after = sessions(next.0.session).add(sessions(session_of_directive(next.1)));
    let before = sessions(state.session).add(sessions(session_of_event(event)));
    assert(after =~= before);
}

/// The launch is asked for only once everything is there for it. Where a
/// login is asked for, the launch gets a session, and it is the session of
/// the user that was chosen; where none is asked for, it gets none. The
/// setup is the one that was chosen.
pub proof fn lemma_launch_is_complete(state: CoordinatorView, event: EventView)
    requires
        coordinator_wf(state),
    ensures
        coordinator_step(state, event).1 matches DirectiveView::Launch(session, setup) ==> {
            let next = coordinator_step(state, event).0;
            &&& next.selection.is_complete()
            &&& next.selection.setup == Some(setup)
            &&& next.selection.login ==> session is Some && session == next.selection.username
            &&& !next.selection.login ==> session is None
            &&& next.session is None
            &&& next.progress == Progress::Launching
        },
{
}

/// A credential is sent to be checked only while no session is open, and
/// it is the credential of the user that is chosen: there is never more
/// than one session for one login.
pub proof fn lemma_one_session_at_most(state: CoordinatorView, event: EventView)
    requires
        coordinator_wf(state),
    ensures
        coordinator_step(state, event).1 matches DirectiveView::Authenticate(credential) ==> {
            let next = coordinator_step(state, event).0;
            &&& state.session is None
            &&& next.session is None
            &&& next.progress == Progress::Authenticating
            &&& next.selection == state.selection
            &&& state.selection.username == Some(credential.username)
            &&& event == EventView::Secret(credential.secret)
        },
{
}

/// Where a login is asked for, nothing is launched before a credential has
/// been accepted: whatever the events, a launch is only ever asked for with
/// a session, and that session was brought by an earlier event that told of
/// an accepted credential.
pub proof fn lemma_launch_needs_authentication(
    state: CoordinatorView,
    events: Seq<EventView>,
    i: int,
)
    requires
        coordinator_wf(state),
        state.selection.login,
        0 <= i < events.len(),
        coordinator_trace(state, events).1[i] is Launch,
    ensures
        coordinator_trace(state, events).1.len() == events.len(),
        coordinator_trace(state, events).1[i] matches DirectiveView::Launch(Some(user), _) && (
        state.session == Some(user) || exists|j: int|
            0 <= j <= i && #[trigger] events[j] == EventView::Authenticated(
                Ok::<Seq<char>, AuthErrorView>(user),
            )),
    decreases events.len(),
{
    let first = coordinator_step(state, events[0]);
    let rest = events.drop_first();
    let later = coordinator_trace(first.0, rest);
    let all = coordinator_trace(state, events).1;
    assert(all == seq![first.1] + later.1);
    lemma_trace_answers_every_event(first.0, rest);
    if i == 0 {
        assert(all[0] == first.1);
        let user = first.1->Launch_0->0;
        if state.session != Some(user) {
            assert(events[0] == EventView::Authenticated(Ok::<Seq<char>, AuthErrorView>(user)));
        }
    } else {
        assert(all[i] == later.1[i - 1]);
        lemma_launch_needs_authentication(first.0, rest, i - 1);
        let user = later.1[i - 1]->Launch_0->0;
        if first.0.session == Some(user) {
            if state.session != Some(user) {
                assert(events[0] == EventView::Authenticated(Ok::<Seq<char>, AuthErrorView>(user)));
            }
        } else {
            let j = choose|j: int|
                0 <= j <= i - 1 && #[trigger] rest[j] == EventView::Authenticated(
                    Ok::<Seq<char>, AuthErrorView>(user),
                );
            assert(events[j + 1] == rest[j]);
        }
    }
}

/// Every event gets its answer: a login asks for as many things as it was
/// told.
pub proof fn lemma_trace_answers_every_event(state: CoordinatorView, events: Seq<EventView>)
    ensures
        coordinator_trace(state, events).1.len() == events.len(),
    decreases events.len(),
{
    if events.len() > 0 {
        lemma_trace_answers_every_event(
            coordinator_step(state, events[0]).0,
            events.drop_first(),
        );
    }
}

/// A login that was cancelled or whose launch has returned is over: no
/// event changes it, and it asks for no check and no launch any more.
pub proof fn lemma_end_is_final(state: CoordinatorView, events: Seq<EventView>, i: int)
    requires
        state.progress == Progress::Aborted || state.progress == Progress::Launched,
        0 <= i < events.len(),
    ensures
        coordinator_trace(state, events).0 == state,
        coordinator_trace(state, events).1.len() == events.len(),
        !(coordinator_trace(state, events).1[i] is Launch),
        !(coordinator_trace(state, events).1[i] is Authenticate),
    decreases events.len(),
{
    let first = coordinator_step(state, events[0]);
    let rest = events.drop_first();
    let later = coordinator_trace(first.0, rest);
    let all = coordinator_trace(state, events).1;
    assert(all == seq![first.1] + later.1);
    assert(first.0 == state);
    lemma_trace_answers_every_event(state, rest);
    if rest.len() > 0 {
        lemma_end_is_final(state, rest, 0);
    }
    if i > 0 {
        lemma_end_is_final(state, rest, i - 1);
        assert(all[i] == later.1[i - 1]);
    }
}

/// A cancel ends a login that is still collecting choices or checking a
/// credential: the launch is not asked for, and the session goes back to be
/// closed if one was open. The exit code tells a login that was given up
/// after a refusal from one that was only cancelled.
pub proof fn lemma_cancel_aborts(state: CoordinatorView)
    requires
        state.progress == Progress::Collecting || state.progress == Progress::Authenticating,
    ensures
        coordinator_step(state, EventView::Cancel).0.progress == Progress::Aborted,
        coordinator_step(state, EventView::Cancel).1 == DirectiveView::Quit(
            state.session,
            if state.refused {
                EXIT_LOGIN_GIVEN_UP
            } else {
                EXIT_PLAIN
            },
        ),
{
}

/// A login that is cancelled after its credential was refused ends as a
/// failure: whatever the user chooses or types in between, as long as no
/// credential is accepted, the cancel is answered with the exit code of a
/// login that was given up, and no session is left open.
pub proof fn lemma_refused_login_is_given_up(
    state: CoordinatorView,
    error: AuthErrorView,
    between: Seq<EventView>,
)
    requires
        coordinator_wf(state),
        state.progress == Progress::Authenticating,
        forall|i: int| 0 <= i < between.len() ==> !(#[trigger] between[i] is Authenticated),
        forall|i: int| 0 <= i < between.len() ==> !(#[trigger] between[i] is Cancel),
    ensures
        ({
            let refused = coordinator_step(state, EventView::Authenticated(Err(error))).0;
            let later = coordinator_trace(refused, between).0;
            coordinator_step(later, EventView::Cancel) == (
                CoordinatorView { progress: Progress::Aborted, ..later },
                DirectiveView::Quit(None, EXIT_LOGIN_GIVEN_UP),
            )
        }),
{
    let refused = coordinator_step(state, EventView::Authenticated(Err(error))).0;
    lemma_refusal_is_remembered(refused, between);
}

/// A refusal is remembered until a credential is accepted or the login
/// ends: events that bring no outcome of a check and no cancel leave a
/// login that was refused as one that was refused, with no session open.
pub proof fn lemma_refusal_is_remembered(state: CoordinatorView, events: Seq<EventView>)
    requires
        coordinator_wf(state),
        state.refused,
        state.progress == Progress::Collecting || state.progress == Progress::Authenticating,
        forall|i: int| 0 <= i < events.len() ==> !(#[trigger] events[i] is Authenticated),
        forall|i: int| 0 <= i < events.len() ==> !(#[trigger] events[i] is Cancel),
    ensures
        coordinator_wf(coordinator_trace(state, events).0),
        coordinator_trace(state, events).0.refused,
        coordinator_trace(state, events).0.session is None,
        coordinator_trace(state, events).0.progress == Progress::Collecting || coordinator_trace(
            state,
            events,
        ).0.progress == Progress::Authenticating,
    decreases events.len(),
{
    if events.len() > 0 {
        let next = coordinator_step(state, events[0]).0;
        let rest = events.drop_first();
        assert forall|i: int| 0 <= i < rest.len() implies !(#[trigger] rest[i] is Authenticated) by {
            assert(rest[i] == events[i + 1]);
        }
        assert forall|i: int| 0 <= i < rest.len() implies !(#[trigger] rest[i] is Cancel) by {
            assert(rest[i] == events[i + 1]);
        }
        lemma_refusal_is_remembered(next, rest);
    }
}

/// A credential that is accepted wipes out the refusals before it: a
/// login that is cancelled with its session open ends as cancelled.
pub proof fn lemma_accepted_credential_clears_refusal(state: CoordinatorView, session: Seq<char>)
    requires
        coordinator_wf(state),
        state.progress == Progress::Authenticating,
        state.selection.username == Some(session),
    ensures
        !coordinator_step(state, EventView::Authenticated(Ok(session))).0.refused,
{
}

/// A credential that is rejected costs the user nothing that was chosen:
/// the name and the setup stay, and the credential is waited for again.
pub proof fn lemma_rejection_keeps_choices(state: CoordinatorView, error: AuthErrorView)
    requires
        coordinator_wf(state),
        state.progress == Progress::Authenticating,
    ensures
        coordinator_step(state, EventView::Authenticated(Err(error))).0.selection
            == state.selection,
        phase_of(coordinator_step(state, EventView::Authenticated(Err(error))).0)
            == Phase::AwaitingCredential,
        coordinator_step(state, EventView::Authenticated(Err(error))).0.refused,
        coordinator_step(state, EventView::Authenticated(Err(error))).1 == DirectiveView::Refused(
            error,
        ),
{
}

/// Every failure has an exit code of its own, and none of them is zero.
pub proof fn lemma_failures_have_their_own_codes(a: Ending, b: Ending)
    requires
        is_failure(a),
        is_failure(b),
    ensures
        exit_code_of(a) != 0,
        exit_code_of(a) == exit_code_of(b) ==> a == b,
{
}

} // verus!

//! Starting the session of a user.
//!
//! The caller owns the machine's side of a launch: the terminal, the
//! account database, the working directory and the child process. This
//! module owns the order. A [`Launch`] hands out one action at a time and
//! takes the report of what came of it; a step that fails ends the launch,
//! and no later step is tried. A launch that was given a session never ends
//! without having asked for the session to be closed.

use crate::auth::AuthenticatedSession;
use crate::setup::{
    direct_invocation, IdentityChange, Invocation, InvocationView, Setup, SetupView,
};
use crate::text::same_text;
use crate::views::{opt_view, views_of};
use vstd::prelude::*;
use vstd::string::*;

verus! {

/// The argument that makes a shell a login shell.
pub const LOGIN_FLAG: &'static str = "-l";

/// An account of the machine, as its account database describes it.
#[derive(Debug, PartialEq, Eq)]
pub struct Account {
    /// The name of the user.
    pub username: String,
    /// The id of the user.
    pub uid: u32,
    /// The id of the user's primary group.
    pub gid: u32,
    /// The user's home directory.
    pub home: String,
    /// The user's login shell.
    pub shell: String,
}

/// What an [`Account`] holds, as plain values.
pub struct AccountView {
    pub username: Seq<char>,
    pub uid: u32,
    pub gid: u32,
    pub home: Seq<char>,
    pub shell: Seq<char>,
}

impl View for Account {
    type V = AccountView;

    open spec fn view(&self) -> AccountView {
        AccountView {
            username: self.username@,
            uid: self.uid,
            gid: self.gid,
            home: self.home@,
            shell: self.shell@,
        }
    }
}

/// Why a launch failed.
#[derive(Clone, Copy, Debug, PartialEq, Eq, Structural)]
pub enum LaunchError {
    /// The account database does not know the user of the session.
    UnknownAccount,
    /// The home directory of the user could not be entered.
    ChdirFailed,
    /// The program could not be started.
    SpawnFailed,
    /// The program was started, but how it ended could not be learned.
    ChildWaitFailed,
}

/// How a child process ended.
#[derive(Clone, Copy, Debug, PartialEq, Eq, Structural)]
pub struct ExitStatus {
    /// The exit code of the child; `None` where a signal ended it.
    pub code: Option<i32>,
}

/// How a launch ends.
pub type LaunchOutcome = Result<ExitStatus, LaunchError>;

/// What the caller is to do next.
#[derive(Debug, PartialEq, Eq)]
pub enum LaunchAction {
    /// Clear the terminal and put the cursor at its origin.
    ClearScreen,
    /// Look the named user up in the account database.
    ResolveAccount(String),
    /// Make the given directory the working directory.
    ChangeDirectory(String),
    /// Start the given program as a child.
    Spawn(Invocation),
    /// Wait until the child has ended.
    Wait,
    /// Close the session of the user.
    CloseSession,
}

/// What a [`LaunchAction`] holds, as plain values.
pub enum LaunchActionView {
    ClearScreen,
    ResolveAccount(Seq<char>),
    ChangeDirectory(Seq<char>),
    Spawn(InvocationView),
    Wait,
    CloseSession,
}

impl View for LaunchAction {
    type V = LaunchActionView;

    open spec fn view(&self) -> LaunchActionView {
        match self {
            LaunchAction::ClearScreen => LaunchActionView::ClearScreen,
            LaunchAction::ResolveAccount(name) => LaunchActionView::ResolveAccount(name@),
            LaunchAction::ChangeDirectory(path) => LaunchActionView::ChangeDirectory(path@),
            LaunchAction::Spawn(invocation) => LaunchActionView::Spawn(invocation@),
            LaunchAction::Wait => LaunchActionView::Wait,
            LaunchAction::CloseSession => LaunchActionView::CloseSession,
        }
    }
}

/// What came of an action.
#[derive(Debug, PartialEq, Eq)]
pub enum LaunchReport {
    /// The action was carried out.
    Done,
    /// The action failed.
    Failed,
    /// The account database holds this account for the user.
    Found(Account),
    /// The child ended in this way.
    Exited(ExitStatus),
}

/// What a [`LaunchReport`] holds, as plain values.
pub enum LaunchReportView {
    Done,
    Failed,
    Found(AccountView),
    Exited(ExitStatus),
}

impl View for LaunchReport {
    type V = LaunchReportView;

    open spec fn view(&self) -> LaunchReportView {
        match self {
            LaunchReport::Done => LaunchReportView::Done,
            LaunchReport::Failed => LaunchReportView::Failed,
            LaunchReport::Found(account) => LaunchReportView::Found(account@),
            LaunchReport::Exited(status) => LaunchReportView::Exited(*status),
        }
    }
}

/// How far a launch has come.
enum Stage {
    Clearing,
    Resolving,
    Entering(Account),
    Spawning,
    Waiting,
    Closing(LaunchOutcome),
}

/// How far a launch has come: what it has asked for last.
pub enum StageView {
    /// The terminal is being cleared.
    Clearing,
    /// The account of the session's user is being looked up.
    Resolving,
    /// The home directory of this account is being entered.
    Entering(AccountView),
    /// The program is being started.
    Spawning,
    /// The child is being waited for.
    Waiting,
    /// The session is being closed; the launch then ends as given.
    Closing(LaunchOutcome),
}

/// A launch under way.
pub struct Launch {
    session: Option<AuthenticatedSession>,
    setup: Setup,
    stage: Stage,
}

/// What a [`Launch`] holds, as plain values.
pub struct LaunchView {
    /// The user of the session that the launch was given, if it was given
    /// one.
    pub session: Option<Seq<char>>,
    /// The setup that is launched.
    pub setup: SetupView,
    /// How far the launch has come.
    pub stage: StageView,
}

impl View for Launch {
    type V = LaunchView;

    closed spec fn view(&self) -> LaunchView {
        LaunchView {
            session: opt_view(self.session),
            setup: self.setup@,
            stage: match self.stage {
                Stage::Clearing => StageView::Clearing,
                Stage::Resolving => StageView::Resolving,
                Stage::Entering(account) => StageView::Entering(account@),
                Stage::Spawning => StageView::Spawning,
                Stage::Waiting => StageView::Waiting,
                Stage::Closing(outcome) => StageView::Closing(outcome),
            },
        }
    }
}

/// What a step of a launch leads to.
pub enum LaunchStep {
    /// The launch goes on: the caller performs the action and reports.
    Next(Launch, LaunchAction),
    /// The launch is over.
    Done(LaunchOutcome),
}

/// What a [`LaunchStep`] holds, as plain values.
pub enum LaunchStepView {
    Next(LaunchView, LaunchActionView),
    Done(LaunchOutcome),
}

impl View for LaunchStep {
    type V = LaunchStepView;

    open spec fn view(&self) -> LaunchStepView {
        match self {
            LaunchStep::Next(state, action) => LaunchStepView::Next(state@, action@),
            LaunchStep::Done(outcome) => LaunchStepView::Done(*outcome),
        }
    }
}

/// The program that starts a setup for an account: the account's login
/// shell, told to be a login shell, with the setup's command as its one
/// further argument where the setup has a command. Before it starts it
/// takes on the account's group and then the account's user, in this order:
/// once the user is given up, the group can no longer be changed.
pub open spec fn shell_invocation(account: AccountView, setup: SetupView) -> InvocationView {
    InvocationView {
        program: account.shell,
        args: match setup.command {
            Some(command) => seq![LOGIN_FLAG@, command],
            None => seq![LOGIN_FLAG@],
        },
        switch: seq![IdentityChange::Group(account.gid), IdentityChange::User(account.uid)],
    }
}

/// The start of a launch: the terminal is cleared before anything else.
pub open spec fn launch_begin(session: Option<Seq<char>>, setup: SetupView) -> (
    LaunchView,
    LaunchActionView,
) {
    (LaunchView { session, setup, stage: StageView::Clearing }, LaunchActionView::ClearScreen)
}

/// How a launch that has come to `outcome` ends: a launch with a session
/// asks for the session to be closed first, a launch without one is over.
pub open spec fn launch_end(state: LaunchView, outcome: LaunchOutcome) -> LaunchStepView {
    if state.session is Some {
        LaunchStepView::Next(
            LaunchView { stage: StageView::Closing(outcome), ..state },
            LaunchActionView::CloseSession,
        )
    } else {
        LaunchStepView::Done(outcome)
    }
}

/// A launch that moves on to `stage` and asks for `action`.
pub open spec fn launch_on(
    state: LaunchView,
    stage: StageView,
    action: LaunchActionView,
) -> LaunchStepView {
    LaunchStepView::Next(LaunchView { stage, ..state }, action)
}

/// One step of a launch.
///
/// With a session, the launch looks up the account of the session's user,
/// enters its home directory, starts its login shell and waits for it.
/// Without one, it starts the setup's own command as it is and waits for
/// it. Each step is taken only when the one before has been reported as
/// done; any other report fails the launch at that step. How the terminal
/// was cleared and how the session was closed is not asked.
pub open spec fn launch_step(state: LaunchView, report: LaunchReportView) -> LaunchStepView {
    match state.stage {
        StageView::Clearing => match state.session {
            Some(username) => launch_on(
                state,
                StageView::Resolving,
                LaunchActionView::ResolveAccount(username),
            ),
            None => match direct_invocation(state.setup) {
                Some(invocation) => launch_on(
                    state,
                    StageView::Spawning,
                    LaunchActionView::Spawn(invocation),
                ),
                None => launch_end(state, Err(LaunchError::SpawnFailed)),
            },
        },
        StageView::Resolving => match report {
            LaunchReportView::Found(account) => if Some(account.username) == state.session {
                launch_on(
                    state,
                    StageView::Entering(account),
                    LaunchActionView::ChangeDirectory(account.home),
                )
            } else {
                launch_end(state, Err(LaunchError::UnknownAccount))
            },
            _ => launch_end(state, Err(LaunchError::UnknownAccount)),
        },
        StageView::Entering(account) => match report {
            LaunchReportView::Done => launch_on(
                state,
                StageView::Spawning,
                LaunchActionView::Spawn(shell_invocation(account, state.setup)),
            ),
            _ => launch_end(state, Err(LaunchError::ChdirFailed)),
        },
        StageView::Spawning => match report {
            LaunchReportView::Done => launch_on(state, StageView::Waiting, LaunchActionView::Wait),
            _ => launch_end(state, Err(LaunchError::SpawnFailed)),
        },
        StageView::Waiting => match report {
            LaunchReportView::Exited(status) => launch_end(state, Ok(status)),
            _ => launch_end(state, Err(LaunchError::ChildWaitFailed)),
        },
        StageView::Closing(outcome) => LaunchStepView::Done(outcome),
    }
}

/// Builds the program that starts a setup for an account.
pub fn login_shell(account: Account, setup: &Setup) -> (r: Invocation)
    ensures
        r@ == shell_invocation(account@, setup@),
{
    let mut args: Vec<String> = Vec::new();
    args.push(String::from_str(LOGIN_FLAG));
    match setup.command_text() {
        Some(command) => {
            args.push(String::from_str(command));
            assert(views_of(args@) =~= seq![LOGIN_FLAG@, command@]);
        },
        None => {
            assert(views_of(args@) =~= seq![LOGIN_FLAG@]);
        },
    }
    let mut switch: Vec<IdentityChange> = Vec::new();
    switch.push(IdentityChange::Group(account.gid));
    switch.push(IdentityChange::User(account.uid));
    assert(switch@ =~= seq![
        IdentityChange::Group(account.gid),
        IdentityChange::User(account.uid),
    ]);
    Invocation { program: account.shell, args, switch }
}

/// Begins the launch of a setup.
///
/// With a session, the setup is started as the session's user, through
/// that user's login shell. With `None`, the caller is trusted to be the
/// right user already, and the setup's command is started as it is.
pub fn launch(session: Option<AuthenticatedSession>, setup: &Setup) -> (r: (Launch, LaunchAction))
    ensures
        (r.0@, r.1@) == launch_begin(opt_view(session), setup@),
{
    (Launch { session, setup: setup.clone(), stage: Stage::Clearing }, LaunchAction::ClearScreen)
}

impl Launch {
    /// Ends the launch: asks for the session to be closed, if there is one.
    fn end(self, outcome: LaunchOutcome) -> (r: LaunchStep)
        ensures
            r@ == launch_end(self@, outcome),
    {
        if self.session.is_some() {
            LaunchStep::Next(
                Launch { session: self.session, setup: self.setup, stage: Stage::Closing(outcome) },
                LaunchAction::CloseSession,
            )
        } else {
            LaunchStep::Done(outcome)
        }
    }

    /// Takes the report on the action that was asked for last.
    pub fn step(self, report: LaunchReport) -> (r: LaunchStep)
        ensures
            r@ == launch_step(self@, report@),
    {
        let Launch { session, setup, stage } = self;
        match stage {
            Stage::Clearing => match &session {
                Some(user) => {
                    let name = String::from_str(user.username());
                    LaunchStep::Next(
                        Launch { session, setup, stage: Stage::Resolving },
                        LaunchAction::ResolveAccount(name),
                    )
                },
                None => match setup.command() {
                    Some(invocation) => LaunchStep::Next(
                        Launch { session, setup, stage: Stage::Spawning },
                        LaunchAction::Spawn(invocation),
                    ),
                    None => (Launch { session, setup, stage: Stage::Clearing }).end(
                        Err(LaunchError::SpawnFailed),
                    ),
                },
            },
            Stage::Resolving => {
                let found = match report {
                    LaunchReport::Found(account) => match &session {
                        Some(user) => if same_text(account.username.as_str(), user.username()) {
                            Some(account)
                        } else {
                            None
                        },
                        None => None,
                    },
                    _ => None,
                };
                match found {
                    Some(account) => {
                        let home = account.home.clone();
                        LaunchStep::Next(
                            Launch { session, setup, stage: Stage::Entering(account) },
                            LaunchAction::ChangeDirectory(home),
                        )
                    },
                    None => (Launch { session, setup, stage: Stage::Resolving }).end(
                        Err(LaunchError::UnknownAccount),
                    ),
                }
            },
            Stage::Entering(account) => match report {
                LaunchReport::Done => {
                    let invocation = login_shell(account, &setup);
                    LaunchStep::Next(
                        Launch { session, setup, stage: Stage::Spawning },
                        LaunchAction::Spawn(invocation),
                    )
                },
                _ => (Launch { session, setup, stage: Stage::Entering(account) }).end(
                    Err(LaunchError::ChdirFailed),
                ),
            },
            Stage::Spawning => match report {
                LaunchReport::Done => LaunchStep::Next(
                    Launch { session, setup, stage: Stage::Waiting },
                    LaunchAction::Wait,
                ),
                _ => (Launch { session, setup, stage: Stage::Spawning }).end(
                    Err(LaunchError::SpawnFailed),
                ),
            },
            Stage::Waiting => match report {
                LaunchReport::Exited(status) => (Launch {
                    session,
                    setup,
                    stage: Stage::Waiting,
                }).end(Ok(status)),
                _ => (Launch { session, setup, stage: Stage::Waiting }).end(
                    Err(LaunchError::ChildWaitFailed),
                ),
            },
            Stage::Closing(outcome) => LaunchStep::Done(outcome),
        }
    }
}

impl Setup {
    /// Begins to run this setup as it is, as the caller's own user: the
    /// launch without a session.
    pub fn run(&self) -> (r: (Launch, LaunchAction))
        ensures
            (r.0@, r.1@) == launch_begin(None, self@),
    {
        launch(None, self)
    }
}

/// The actions that a launch asks for from `state` on, while the reports
/// `reports` come in, one for each action in turn, and how the launch ends
/// if they bring it to its end. The first report answers the action that
/// `state` is waiting for. Reports that come after the end are not read.
pub open spec fn launch_trace(state: LaunchView, reports: Seq<LaunchReportView>) -> (
    Seq<LaunchActionView>,
    Option<LaunchOutcome>,
)
    decreases reports.len(),
{
    if reports.len() == 0 {
        (Seq::<LaunchActionView>::empty(), None)
    } else {
        match launch_step(state, reports[0]) {
            LaunchStepView::Done(outcome) => (Seq::<LaunchActionView>::empty(), Some(outcome)),
            LaunchStepView::Next(next, action) => {
                let later = launch_trace(next, reports.drop_first());
                (seq![action] + later.0, later.1)
            },
        }
    }
}

/// The place of a stage in the order of a launch.
pub open spec fn stage_rank(stage: StageView) -> int {
    match stage {
        StageView::Clearing => 0,
        StageView::Resolving => 1,
        StageView::Entering(_) => 2,
        StageView::Spawning => 3,
        StageView::Waiting => 4,
        StageView::Closing(_) => 5,
    }
}

/// The place of an action in the order of a launch.
pub open spec fn action_rank(action: LaunchActionView) -> int {
    match action {
        LaunchActionView::ClearScreen => 0,
        LaunchActionView::ResolveAccount(_) => 1,
        LaunchActionView::ChangeDirectory(_) => 2,
        LaunchActionView::Spawn(_) => 3,
        LaunchActionView::Wait => 4,
        LaunchActionView::CloseSession => 5,
    }
}

/// The steps of a launch are taken in one order and none is taken twice:
/// the terminal is cleared, the account is looked up, its home directory is
/// entered, the program is started, the child is waited for and the session
/// is closed. A launch may leave steps out, as it does after a failure, but
/// it never goes back.
pub proof fn lemma_launch_keeps_order(state: LaunchView, reports: Seq<LaunchReportView>)
    ensures
        forall|i: int|
            0 <= i < launch_trace(state, reports).0.len() ==> stage_rank(state.stage) < action_rank(
                #[trigger] launch_trace(state, reports).0[i],
            ),
        forall|i: int, j: int|
            0 <= i < j < launch_trace(state, reports).0.len() ==> action_rank(
                launch_trace(state, reports).0[i],
            ) < action_rank(launch_trace(state, reports).0[j]),
    decreases reports.len(),
{
    if reports.len() > 0 {
        match launch_step(state, reports[0]) {
            LaunchStepView::Done(_) => {},
            LaunchStepView::Next(next, action) => {
                let rest = reports.drop_first();
                lemma_launch_keeps_order(next, rest);
                let later = launch_trace(next, rest).0;
                let all = launch_trace(state, reports).0;
                assert(all == seq![action] + later);
                assert(action_rank(action) == stage_rank(next.stage));
                assert forall|i: int| 0 <= i < all.len() implies stage_rank(state.stage)
                    < action_rank(#[trigger] all[i]) by {
                    if i > 0 {
                        assert(all[i] == later[i - 1]);
                    }
                }
                assert forall|i: int, j: int| 0 <= i < j < all.len() implies action_rank(all[i])
                    < action_rank(all[j]) by {
                    assert(all[j] == later[j - 1]);
                    if i > 0 {
                        assert(all[i] == later[i - 1]);
                    }
                }
            },
        }
    }
}

/// A launch that was given a session does not end before it has asked for
/// the session to be closed, whatever was reported to it: where it ends,
/// the last thing it asked for is to close the session.
pub proof fn lemma_session_is_closed(state: LaunchView, reports: Seq<LaunchReportView>)
    requires
        state.session is Some,
        !(state.stage is Closing),
        launch_trace(state, reports).1 is Some,
    ensures
        launch_trace(state, reports).0.len() > 0,
        launch_trace(state, reports).0.last() == LaunchActionView::CloseSession,
    decreases reports.len(),
{
    if reports.len() > 0 {
        match launch_step(state, reports[0]) {
            LaunchStepView::Done(_) => {},
            LaunchStepView::Next(next, action) => {
                let rest = reports.drop_first();
                let later = launch_trace(next, rest).0;
                assert(launch_trace(state, reports).0 == seq![action] + later);
                if next.stage is Closing {
                    assert(action == LaunchActionView::CloseSession);
                    assert(rest.len() > 0);
                    assert(later.len() == 0);
                } else {
                    lemma_session_is_closed(next, rest);
                    assert((seq![action] + later).last() == later.last());
                }
            },
        }
    }
}

/// A launch that was given a session starts nothing but the login shell of
/// the session's user. The program is started third, after the account of
/// that user has been reported and its home directory has been entered; it
/// is the account's shell, and it takes on the account's group and then
/// the account's user before it starts.
pub proof fn lemma_session_launch_runs_as_its_user(
    session: Seq<char>,
    setup: SetupView,
    reports: Seq<LaunchReportView>,
    i: int,
)
    requires
        0 <= i < launch_trace(launch_begin(Some(session), setup).0, reports).0.len(),
        launch_trace(launch_begin(Some(session), setup).0, reports).0[i] is Spawn,
    ensures
        i == 2,
        reports.len() > 2,
        reports[1] matches LaunchReportView::Found(account) && account.username == session && {
            let asked = launch_trace(launch_begin(Some(session), setup).0, reports).0;
            &&& asked[0] == LaunchActionView::ResolveAccount(session)
            &&& asked[1] == LaunchActionView::ChangeDirectory(account.home)
            &&& asked[2] == LaunchActionView::Spawn(shell_invocation(account, setup))
            &&& shell_invocation(account, setup).program == account.shell
            &&& shell_invocation(account, setup).switch == seq![
                IdentityChange::Group(account.gid),
                IdentityChange::User(account.uid),
            ]
        },
{
    let start = launch_begin(Some(session), setup).0;
    let asked = launch_trace(start, reports).0;
    lemma_launch_keeps_order(start, reports);
    assert(reports.len() > 0);
    let first = launch_step(start, reports[0]);
    let resolving = first->Next_0;
    let rest = reports.drop_first();
    assert(asked == seq![first->Next_1] + launch_trace(resolving, rest).0);
    assert(asked[0] == LaunchActionView::ResolveAccount(session));
    assert(i >= 1);
    assert(rest.len() > 0);
    assert(rest[0] == reports[1]);
    let second = launch_step(resolving, rest[0]);
    match second {
        LaunchStepView::Done(_) => {},
        LaunchStepView::Next(entering, action) => {
            let after = rest.drop_first();
            let later = launch_trace(entering, after).0;
            assert(launch_trace(resolving, rest).0 == seq![action] + later);
            assert(asked[1] == action);
            if entering.stage is Closing {
                lemma_launch_keeps_order(entering, after);
                assert(asked[i] == later[i - 2]);
            } else {
                assert(i >= 2);
                assert(after.len() > 0);
                assert(after[0] == reports[2]);
                let third = launch_step(entering, after[0]);
                match third {
                    LaunchStepView::Done(_) => {},
                    LaunchStepView::Next(spawning, started) => {
                        let last = launch_trace(spawning, after.drop_first()).0;
                        assert(later == seq![started] + last);
                        assert(asked[2] == started);
                        lemma_launch_keeps_order(spawning, after.drop_first());
                        if i > 2 {
                            assert(asked[i] == last[i - 3]);
                        }
                    },
                }
            }
        },
    }
}

/// A launch without a session changes no identity and no directory and
/// closes nothing: all it asks for is to start the setup's own command and
/// to wait for it.
pub proof fn lemma_direct_launch_is_plain(state: LaunchView, reports: Seq<LaunchReportView>)
    requires
        state.session is None,
        state.stage is Clearing || state.stage is Spawning || state.stage is Waiting,
    ensures
        forall|i: int|
            0 <= i < launch_trace(state, reports).0.len() ==> match #[trigger] launch_trace(
                state,
                reports,
            ).0[i] {
                LaunchActionView::Spawn(invocation) => Some(invocation) == direct_invocation(
                    state.setup,
                ) && invocation.switch.len() == 0,
                LaunchActionView::Wait => true,
                _ => false,
            },
    decreases reports.len(),
{
    if reports.len() > 0 {
        match launch_step(state, reports[0]) {
            LaunchStepView::Done(_) => {},
            LaunchStepView::Next(next, action) => {
                let rest = reports.drop_first();
                lemma_direct_launch_is_plain(next, rest);
                let later = launch_trace(next, rest).0;
                let all = launch_trace(state, reports).0;
                assert(all == seq![action] + later);
                assert forall|i: int| 0 <= i < all.len() implies match #[trigger] all[i] {
                    LaunchActionView::Spawn(invocation) => Some(invocation) == direct_invocation(
                        state.setup,
                    ) && invocation.switch.len() == 0,
                    LaunchActionView::Wait => true,
                    _ => false,
                } by {
                    if i > 0 {
                        assert(all[i] == later[i - 1]);
                    }
                }
            },
        }
    }
}

/// A launch ends well only with the exit status that was reported for the
/// child it waited for: the report that answers the wait is the one that
/// the launch ends with.
pub proof fn lemma_exit_status_is_the_childs(
    state: LaunchView,
    reports: Seq<LaunchReportView>,
    status: ExitStatus,
)
    requires
        !(state.stage is Closing),
        launch_trace(state, reports).1 == Some(Ok::<ExitStatus, LaunchError>(status)),
    ensures
        exists|i: int|
            0 <= i < reports.len() && #[trigger] reports[i] == LaunchReportView::Exited(status) && (
            if i == 0 {
                state.stage is Waiting
            } else {
                i - 1 < launch_trace(state, reports).0.len() && launch_trace(state, reports).0[i - 1]
                    == LaunchActionView::Wait
            }),
    decreases reports.len(),
{
    if reports.len() > 0 {
        let rest = reports.drop_first();
        match launch_step(state, reports[0]) {
            LaunchStepView::Done(_) => {},
            LaunchStepView::Next(next, action) => {
                let later = launch_trace(next, rest).0;
                let all = launch_trace(state, reports).0;
                assert(all == seq![action] + later);
                if next.stage is Closing {
                    assert(rest.len() > 0);
                    assert(state.stage is Waiting);
                    assert(reports[0] == LaunchReportView::Exited(status));
                } else {
                    lemma_exit_status_is_the_childs(next, rest, status);
                    let k = choose|k: int|
                        0 <= k < rest.len() && #[trigger] rest[k] == LaunchReportView::Exited(status)
                            && (if k == 0 {
                            next.stage is Waiting
                        } else {
                            k - 1 < later.len() && later[k - 1] == LaunchActionView::Wait
                        });
                    assert(reports[k + 1] == rest[k]);
                    if k == 0 {
                        assert(action == LaunchActionView::Wait);
                        assert(all[0] == action);
                    } else {
                        assert(all[k] == later[k - 1]);
                    }
                }
            },
        }
    }
}

} // verus!

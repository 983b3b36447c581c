use moin_dm::auth::{AuthStep, AuthenticatedSession, Authenticator, Credential, Report};
use moin_dm::launch::{
    launch, login_shell, Account, ExitStatus, Launch, LaunchAction, LaunchError, LaunchReport,
    LaunchStep,
};
use moin_dm::setup::{IdentityChange, Invocation, Setup};

fn session(username: &str) -> AuthenticatedSession {
    let credential = Credential { username: String::from(username), secret: String::from("pw") };
    let (auth, _) = Authenticator::begin(String::from("moin-dm"), credential);
    let auth = match auth.step(Report::Passed) {
        AuthStep::Next(auth, _) => auth,
        AuthStep::Done(_) => panic!("the attempt must go on after the verification"),
    };
    match auth.step(Report::Passed) {
        AuthStep::Done(Ok(session)) => session,
        _ => panic!("the attempt must end with a session"),
    }
}

fn alice() -> Account {
    Account {
        username: String::from("alice"),
        uid: 1000,
        gid: 1001,
        home: String::from("/home/alice"),
        shell: String::from("/bin/bash"),
    }
}

fn xterm() -> Setup {
    Setup::new(String::from("XTerm"), Some(String::from("xterm")))
}

fn next(step: LaunchStep) -> (Launch, LaunchAction) {
    match step {
        LaunchStep::Next(state, action) => (state, action),
        LaunchStep::Done(outcome) => panic!("the launch ended early with {:?}", outcome),
    }
}

fn done(step: LaunchStep) -> Result<ExitStatus, LaunchError> {
    match step {
        LaunchStep::Done(outcome) => outcome,
        LaunchStep::Next(_, action) => panic!("the launch went on with {:?}", action),
    }
}

fn exited(code: i32) -> LaunchReport {
    LaunchReport::Exited(ExitStatus { code: Some(code) })
}

#[test]
fn a_setup_with_a_command_is_started_through_the_login_shell() {
    let (state, action) = launch(Some(session("alice")), &xterm());
    assert_eq!(action, LaunchAction::ClearScreen);
    let (state, action) = next(state.step(LaunchReport::Done));
    assert_eq!(action, LaunchAction::ResolveAccount(String::from("alice")));
    let (state, action) = next(state.step(LaunchReport::Found(alice())));
    assert_eq!(action, LaunchAction::ChangeDirectory(String::from("/home/alice")));
    let (state, action) = next(state.step(LaunchReport::Done));
    assert_eq!(
        action,
        LaunchAction::Spawn(Invocation {
            program: String::from("/bin/bash"),
            args: vec![String::from("-l"), String::from("xterm")],
            switch: vec![IdentityChange::Group(1001), IdentityChange::User(1000)],
        })
    );
    let (state, action) = next(state.step(LaunchReport::Done));
    assert_eq!(action, LaunchAction::Wait);
    let (state, action) = next(state.step(exited(3)));
    assert_eq!(action, LaunchAction::CloseSession);
    assert_eq!(done(state.step(LaunchReport::Done)), Ok(ExitStatus { code: Some(3) }));
}

#[test]
fn a_setup_without_command_is_the_bare_login_shell() {
    let (state, _) = launch(Some(session("alice")), &Setup::fallback());
    let (state, _) = next(state.step(LaunchReport::Done));
    let (state, _) = next(state.step(LaunchReport::Found(alice())));
    let (_, action) = next(state.step(LaunchReport::Done));
    assert_eq!(
        action,
        LaunchAction::Spawn(Invocation {
            program: String::from("/bin/bash"),
            args: vec![String::from("-l")],
            switch: vec![IdentityChange::Group(1001), IdentityChange::User(1000)],
        })
    );
}

#[test]
fn the_login_shell_takes_the_command_as_one_argument() {
    let setup = Setup::new(String::from("i3"), Some(String::from("startx /usr/bin/i3 -- :1")));
    let invocation = login_shell(alice(), &setup);
    assert_eq!(invocation.program, "/bin/bash");
    assert_eq!(invocation.args, vec!["-l", "startx /usr/bin/i3 -- :1"]);
}

#[test]
fn the_group_is_taken_on_before_the_user() {
    let invocation = login_shell(alice(), &xterm());
    assert_eq!(
        invocation.switch,
        vec![IdentityChange::Group(1001), IdentityChange::User(1000)]
    );
}

#[test]
fn a_child_that_a_signal_ended_has_no_exit_code() {
    let (state, _) = launch(Some(session("alice")), &xterm());
    let (state, _) = next(state.step(LaunchReport::Done));
    let (state, _) = next(state.step(LaunchReport::Found(alice())));
    let (state, _) = next(state.step(LaunchReport::Done));
    let (state, _) = next(state.step(LaunchReport::Done));
    let (state, action) = next(state.step(LaunchReport::Exited(ExitStatus { code: None })));
    assert_eq!(action, LaunchAction::CloseSession);
    assert_eq!(done(state.step(LaunchReport::Done)), Ok(ExitStatus { code: None }));
}

#[test]
fn the_terminal_is_cleared_whatever_comes_of_it() {
    let (state, _) = launch(Some(session("alice")), &xterm());
    let (_, action) = next(state.step(LaunchReport::Failed));
    assert_eq!(action, LaunchAction::ResolveAccount(String::from("alice")));
}

#[test]
fn an_unknown_account_ends_the_launch() {
    let (state, _) = launch(Some(session("alice")), &xterm());
    let (state, _) = next(state.step(LaunchReport::Done));
    let (state, action) = next(state.step(LaunchReport::Failed));
    assert_eq!(action, LaunchAction::CloseSession);
    assert_eq!(done(state.step(LaunchReport::Done)), Err(LaunchError::UnknownAccount));
}

#[test]
fn the_account_of_another_user_ends_the_launch() {
    let (state, _) = launch(Some(session("alice")), &xterm());
    let (state, _) = next(state.step(LaunchReport::Done));
    let mut root = alice();
    root.username = String::from("root");
    root.uid = 0;
    let (state, action) = next(state.step(LaunchReport::Found(root)));
    assert_eq!(action, LaunchAction::CloseSession);
    assert_eq!(done(state.step(LaunchReport::Done)), Err(LaunchError::UnknownAccount));
}

#[test]
fn a_home_that_cannot_be_entered_ends_the_launch() {
    let (state, _) = launch(Some(session("alice")), &xterm());
    let (state, _) = next(state.step(LaunchReport::Done));
    let (state, _) = next(state.step(LaunchReport::Found(alice())));
    let (state, action) = next(state.step(LaunchReport::Failed));
    assert_eq!(action, LaunchAction::CloseSession);
    assert_eq!(done(state.step(LaunchReport::Failed)), Err(LaunchError::ChdirFailed));
}

#[test]
fn a_program_that_does_not_start_ends_the_launch() {
    let (state, _) = launch(Some(session("alice")), &xterm());
    let (state, _) = next(state.step(LaunchReport::Done));
    let (state, _) = next(state.step(LaunchReport::Found(alice())));
    let (state, _) = next(state.step(LaunchReport::Done));
    let (state, action) = next(state.step(LaunchReport::Failed));
    assert_eq!(action, LaunchAction::CloseSession);
    assert_eq!(done(state.step(LaunchReport::Done)), Err(LaunchError::SpawnFailed));
}

#[test]
fn a_wait_that_fails_ends_the_launch() {
    let (state, _) = launch(Some(session("alice")), &xterm());
    let (state, _) = next(state.step(LaunchReport::Done));
    let (state, _) = next(state.step(LaunchReport::Found(alice())));
    let (state, _) = next(state.step(LaunchReport::Done));
    let (state, _) = next(state.step(LaunchReport::Done));
    let (state, action) = next(state.step(LaunchReport::Failed));
    assert_eq!(action, LaunchAction::CloseSession);
    assert_eq!(done(state.step(LaunchReport::Done)), Err(LaunchError::ChildWaitFailed));
}

#[test]
fn a_report_that_does_not_fit_fails_the_step() {
    let (state, _) = launch(Some(session("alice")), &xterm());
    let (state, _) = next(state.step(LaunchReport::Done));
    let (state, _) = next(state.step(LaunchReport::Found(alice())));
    let (state, action) = next(state.step(exited(0)));
    assert_eq!(action, LaunchAction::CloseSession);
    assert_eq!(done(state.step(LaunchReport::Done)), Err(LaunchError::ChdirFailed));
}

#[test]
fn without_a_session_the_command_is_started_as_it_is() {
    let setup = Setup::new(String::from("i3"), Some(String::from("startx /usr/bin/i3")));
    let (state, action) = launch(None, &setup);
    assert_eq!(action, LaunchAction::ClearScreen);
    let (state, action) = next(state.step(LaunchReport::Done));
    assert_eq!(
        action,
        LaunchAction::Spawn(Invocation {
            program: String::from("startx"),
            args: vec![String::from("/usr/bin/i3")],
            switch: vec![],
        })
    );
    let (state, action) = next(state.step(LaunchReport::Done));
    assert_eq!(action, LaunchAction::Wait);
    assert_eq!(done(state.step(exited(0))), Ok(ExitStatus { code: Some(0) }));
}

#[test]
fn running_a_setup_is_the_launch_without_a_session() {
    let setup = Setup::new(String::from("X"), Some(String::from("xterm -e top")));
    let (state, action) = setup.run();
    assert_eq!(action, LaunchAction::ClearScreen);
    let (state, action) = next(state.step(LaunchReport::Done));
    assert_eq!(
        action,
        LaunchAction::Spawn(Invocation {
            program: String::from("xterm"),
            args: vec![String::from("-e"), String::from("top")],
            switch: vec![],
        })
    );
    let (state, _) = next(state.step(LaunchReport::Done));
    assert_eq!(done(state.step(exited(7))), Ok(ExitStatus { code: Some(7) }));
}

#[test]
fn without_a_session_and_without_a_command_nothing_can_be_started() {
    let (state, _) = Setup::fallback().run();
    assert_eq!(done(state.step(LaunchReport::Done)), Err(LaunchError::SpawnFailed));
}

#[test]
fn without_a_session_a_failure_ends_the_launch_at_once() {
    let (state, _) = xterm().run();
    let (state, _) = next(state.step(LaunchReport::Done));
    assert_eq!(done(state.step(LaunchReport::Failed)), Err(LaunchError::SpawnFailed));
    let (state, _) = xterm().run();
    let (state, _) = next(state.step(LaunchReport::Done));
    let (state, _) = next(state.step(LaunchReport::Done));
    assert_eq!(done(state.step(LaunchReport::Done)), Err(LaunchError::ChildWaitFailed));
}

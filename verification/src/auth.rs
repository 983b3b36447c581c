//! Checking a user's credential against the authentication service.
//!
//! The service itself is reached by the caller. This module holds the
//! order of the attempt: the credential is verified first, the session is
//! opened only once that has passed, and a session that could not be opened
//! is released before the failure is reported. One [`Authenticator`] stands
//! for one attempt. It is used up by the attempt, whatever comes of it: to
//! try again is to begin again.

use vstd::prelude::*;
use vstd::string::*;

verus! {

/// A user's name and secret, for the length of one attempt.
pub struct Credential {
    /// The name of the account.
    pub username: String,
    /// The secret that is to prove the user.
    pub secret: String,
}

/// What a [`Credential`] holds, as plain text.
pub struct CredentialView {
    pub username: Seq<char>,
    pub secret: Seq<char>,
}

impl View for Credential {
    type V = CredentialView;

    open spec fn view(&self) -> CredentialView {
        CredentialView { username: self.username@, secret: self.secret@ }
    }
}

/// Why an attempt failed. The text is what the authentication service said.
#[derive(Debug, PartialEq, Eq)]
pub enum AuthError {
    /// The service did not accept the credential. An unknown account and a
    /// wrong secret are the same failure.
    CredentialRejected(String),
    /// The credential was accepted, but the session could not be opened.
    SessionOpenFailed(String),
}

/// What an [`AuthError`] holds, as plain text.
pub enum AuthErrorView {
    CredentialRejected(Seq<char>),
    SessionOpenFailed(Seq<char>),
}

impl View for AuthError {
    type V = AuthErrorView;

    open spec fn view(&self) -> AuthErrorView {
        match self {
            AuthError::CredentialRejected(detail) => AuthErrorView::CredentialRejected(detail@),
            AuthError::SessionOpenFailed(detail) => AuthErrorView::SessionOpenFailed(detail@),
        }
    }
}

/// The open session of a user whose credential was accepted.
///
/// Only a finished attempt makes one, and there is no way to copy it. Its
/// view is the name of the user.
#[derive(Debug)]
pub struct AuthenticatedSession {
    username: String,
}

impl View for AuthenticatedSession {
    type V = Seq<char>;

    closed spec fn view(&self) -> Seq<char> {
        self.username@
    }
}

impl AuthenticatedSession {
    /// The name of the user that the session belongs to.
    pub fn username(&self) -> (r: &str)
        ensures
            r@ == self@,
    {
        self.username.as_str()
    }
}

/// What the authentication service answered to one step.
#[derive(Debug, PartialEq, Eq)]
pub enum Report {
    /// The step passed.
    Passed,
    /// The step failed, for the reason given.
    Failed(String),
}

/// What a [`Report`] holds, as plain text.
pub enum ReportView {
    Passed,
    Failed(Seq<char>),
}

impl View for Report {
    type V = ReportView;

    open spec fn view(&self) -> ReportView {
        match self {
            Report::Passed => ReportView::Passed,
            Report::Failed(detail) => ReportView::Failed(detail@),
        }
    }
}

/// What the caller is to ask of the authentication service next.
pub enum AuthAction {
    /// Check the secret of the user under the given service name. The
    /// secret is handed over here and kept nowhere else.
    Verify { service: String, username: String, secret: String },
    /// Open the session of the user that was verified.
    OpenSession,
    /// Give up what was taken for the session that did not open.
    Release,
}

/// What an [`AuthAction`] holds, as plain text.
pub enum AuthActionView {
    Verify { service: Seq<char>, username: Seq<char>, secret: Seq<char> },
    OpenSession,
    Release,
}

impl View for AuthAction {
    type V = AuthActionView;

    open spec fn view(&self) -> AuthActionView {
        match self {
            AuthAction::Verify { service, username, secret } => AuthActionView::Verify {
                service: service@,
                username: username@,
                secret: secret@,
            },
            AuthAction::OpenSession => AuthActionView::OpenSession,
            AuthAction::Release => AuthActionView::Release,
        }
    }
}

/// How far an attempt has come.
enum Stage {
    Verifying,
    Opening,
    Releasing(String),
}

/// One attempt to authenticate, under way.
pub struct Authenticator {
    username: String,
    stage: Stage,
}

/// How far an attempt has come, with the name of the user it is for. No
/// stage holds the secret.
pub enum AuthenticatorView {
    /// The service has been asked to verify the credential.
    Verifying { username: Seq<char> },
    /// The credential has passed and the service has been asked to open the
    /// session.
    Opening { username: Seq<char> },
    /// The session did not open, for the reason given, and the service has
    /// been asked to release it.
    Releasing { username: Seq<char>, detail: Seq<char> },
}

impl View for Authenticator {
    type V = AuthenticatorView;

    closed spec fn view(&self) -> AuthenticatorView {
        match self.stage {
            Stage::Verifying => AuthenticatorView::Verifying { username: self.username@ },
            Stage::Opening => AuthenticatorView::Opening { username: self.username@ },
            Stage::Releasing(detail) => AuthenticatorView::Releasing {
                username: self.username@,
                detail: detail@,
            },
        }
    }
}

/// What a step of an attempt leads to.
pub enum AuthStep {
    /// The attempt goes on: the caller performs the action and reports.
    Next(Authenticator, AuthAction),
    /// The attempt is over.
    Done(Result<AuthenticatedSession, AuthError>),
}

/// How an attempt ends: with the name of the user whose session is open, or
/// with the reason of the failure.
pub type AuthOutcome = Result<Seq<char>, AuthErrorView>;

/// What an [`AuthStep`] holds, as plain values.
pub enum AuthStepView {
    Next(AuthenticatorView, AuthActionView),
    Done(AuthOutcome),
}

impl View for AuthStep {
    type V = AuthStepView;

    open spec fn view(&self) -> AuthStepView {
        match self {
            AuthStep::Next(state, action) => AuthStepView::Next(state@, action@),
            AuthStep::Done(Ok(session)) => AuthStepView::Done(Ok(session@)),
            AuthStep::Done(Err(error)) => AuthStepView::Done(Err(error@)),
        }
    }
}

/// The start of an attempt: the service is asked to verify the credential.
pub open spec fn begin_auth(service: Seq<char>, credential: CredentialView) -> (
    AuthenticatorView,
    AuthActionView,
) {
    (
        AuthenticatorView::Verifying { username: credential.username },
        AuthActionView::Verify {
            service,
            username: credential.username,
            secret: credential.secret,
        },
    )
}

/// One step of an attempt.
///
/// A credential that passes leads to the opening of the session, and a
/// session that opens ends the attempt well. A credential that fails ends
/// the attempt at once. A session that does not open is released first, and
/// the attempt ends when the release is reported, whatever the report says.
pub open spec fn auth_step(state: AuthenticatorView, report: ReportView) -> AuthStepView {
    match state {
        AuthenticatorView::Verifying { username } => match report {
            ReportView::Passed => AuthStepView::Next(
                AuthenticatorView::Opening { username },
                AuthActionView::OpenSession,
            ),
            ReportView::Failed(detail) => AuthStepView::Done(
                Err(AuthErrorView::CredentialRejected(detail)),
            ),
        },
        AuthenticatorView::Opening { username } => match report {
            ReportView::Passed => AuthStepView::Done(Ok(username)),
            ReportView::Failed(detail) => AuthStepView::Next(
                AuthenticatorView::Releasing { username, detail },
                AuthActionView::Release,
            ),
        },
        AuthenticatorView::Releasing { username, detail } => AuthStepView::Done(
            Err(AuthErrorView::SessionOpenFailed(detail)),
        ),
    }
}

/// Where an attempt stands after the reports `reports`, one for each
/// action in turn: at its end, or still under way. Reports that come after
/// the end are not read.
pub open spec fn auth_run(state: AuthenticatorView, reports: Seq<ReportView>) -> Option<
    AuthOutcome,
>
    decreases reports.len(),
{
    if reports.len() == 0 {
        None
    } else {
        match auth_step(state, reports[0]) {
            AuthStepView::Done(outcome) => Some(outcome),
            AuthStepView::Next(next, _) => auth_run(next, reports.drop_first()),
        }
    }
}

impl Authenticator {
    /// Begins an attempt. The secret leaves with the action that is
    /// returned; the attempt itself does not keep it.
    pub fn begin(service: String, credential: Credential) -> (r: (Authenticator, AuthAction))
        ensures
            (r.0@, r.1@) == begin_auth(service@, credential@),
    {
        let Credential { username, secret } = credential;
        let state = Authenticator { username: username.clone(), stage: Stage::Verifying };
        (state, AuthAction::Verify { service, username, secret })
    }

    /// Takes the report on the action that was asked for last.
    pub fn step(self, report: Report) -> (r: AuthStep)
        ensures
            r@ == auth_step(self@, report@),
    {
        let Authenticator { username, stage } = self;
        match stage {
            Stage::Verifying => match report {
                Report::Passed => AuthStep::Next(
                    Authenticator { username, stage: Stage::Opening },
                    AuthAction::OpenSession,
                ),
                Report::Failed(detail) => AuthStep::Done(Err(AuthError::CredentialRejected(detail))),
            },
            Stage::Opening => match report {
                Report::Passed => AuthStep::Done(Ok(AuthenticatedSession { username })),
                Report::Failed(detail) => AuthStep::Next(
                    Authenticator { username, stage: Stage::Releasing(detail) },
                    AuthAction::Release,
                ),
            },
            Stage::Releasing(detail) => AuthStep::Done(Err(AuthError::SessionOpenFailed(detail))),
        }
    }
}

/// An attempt ends well exactly when the first two reports are passes, and
/// then the session is that of the credential's user. Nothing else opens a
/// session.
pub proof fn lemma_session_needs_both_steps(
    service: Seq<char>,
    credential: CredentialView,
    reports: Seq<ReportView>,
)
    ensures
        auth_run(begin_auth(service, credential).0, reports) matches Some(Ok(username)) <==> (
        reports.len() >= 2 && reports[0] == ReportView::Passed && reports[1]
            == ReportView::Passed),
        auth_run(begin_auth(service, credential).0, reports) matches Some(Ok(username))
            ==> username == credential.username,
{
    reveal_with_fuel(auth_run, 4);
}

/// A credential that the service does not accept ends the attempt at once,
/// and always with the same kind of error: whether the account is unknown
/// or the secret is wrong shows in the service's own words at most.
pub proof fn lemma_rejection_is_uniform(
    service: Seq<char>,
    credential: CredentialView,
    detail: Seq<char>,
    later: Seq<ReportView>,
)
    ensures
        auth_run(begin_auth(service, credential).0, seq![ReportView::Failed(detail)] + later)
            == Some(Err::<Seq<char>, AuthErrorView>(AuthErrorView::CredentialRejected(detail))),
{
}

/// A session that does not open is released before the attempt ends: the
/// failure is reported only once the release has been asked for and
/// answered.
pub proof fn lemma_failed_opening_is_released(
    username: Seq<char>,
    detail: Seq<char>,
    answer: ReportView,
)
    ensures
        auth_step(AuthenticatorView::Opening { username }, ReportView::Failed(detail))
            == AuthStepView::Next(
            AuthenticatorView::Releasing { username, detail },
            AuthActionView::Release,
        ),
        auth_step(AuthenticatorView::Releasing { username, detail }, answer) == AuthStepView::Done(
            Err(AuthErrorView::SessionOpenFailed(detail)),
        ),
{
}

} // verus!

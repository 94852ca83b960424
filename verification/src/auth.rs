//! Authentication flow: a state machine over the login dialogue. Each
//! step takes the current state and the event that arrived — a server
//! answer or a line the user typed — and decides the next state and the
//! one action to perform. The surrounding loop performs the actions:
//! prompts, HTTP calls, and the saving of credentials.

use vstd::prelude::*;

verus! {

/// Where the authentication dialogue stands.
pub enum AuthState {
    /// Waiting for the stored configuration.
    Start,
    /// A stored JWT is being checked against the account endpoint.
    CheckingJwt,
    /// The user is being asked for an email address.
    EnteringEmail,
    /// A login code was requested for this email.
    RequestingCode { email: String },
    /// The user is being asked for the login code sent by email.
    EnteringLoginCode { email: String },
    /// The login code is being validated.
    ValidatingLoginCode { email: String },
    /// A password is being generated for a fresh account.
    GeneratingPassword { email: String },
    /// The fresh account is being registered.
    Registering { email: String, password: String },
    /// The user is being asked for the emailed verification code.
    EnteringVerifyCode { email: String, password: String },
    /// The verification code is being checked.
    ValidatingEmail { email: String, password: String },
    /// The fresh account is logging in.
    LoggingIn { email: String, password: String },
    /// Authenticated.
    Done,
    /// The dialogue failed.
    Failed,
}

/// What arrived: a server answer or a line the user typed.
pub enum AuthEvent {
    /// The stored configuration, with its JWT if any.
    ConfigLoaded { jwt: Option<String> },
    /// The account endpoint accepted the stored JWT.
    AccountOk,
    /// The account endpoint rejected the stored JWT.
    AccountRejected,
    /// The user entered an email address.
    EmailEntered { email: String },
    /// The login-code request came back OK: an account exists.
    CodeRequestOk,
    /// The login-code request found no account under the email.
    CodeRequestNotFound,
    /// The login-code request failed otherwise.
    CodeRequestOther,
    /// The user entered the login code.
    LoginCodeEntered { code: String },
    /// The login code was accepted, with a fresh token.
    LoginCodeValid { token: String },
    /// The login code was rejected.
    LoginCodeInvalid,
    /// A password was generated for the fresh account.
    PasswordGenerated { password: String },
    /// Registration succeeded.
    RegisterOk,
    /// Registration failed.
    RegisterFailed,
    /// The user entered the verification code.
    VerifyCodeEntered { code: String },
    /// The verification code was accepted.
    VerifyOk,
    /// The verification code was rejected.
    VerifyFailed,
    /// The post-registration login succeeded, with a fresh token.
    LoginOk { token: String },
    /// The post-registration login failed.
    LoginFailed,
}

/// Why the dialogue failed.
pub enum AuthFailure {
    /// The login code was rejected.
    InvalidLoginCode,
    /// Registration was refused.
    RegistrationFailed,
    /// The verification code was rejected.
    InvalidVerificationCode,
    /// The login after registration was refused.
    LoginAfterRegistrationFailed,
    /// The login-code request answered with an unexpected status.
    UnexpectedStatus,
    /// The event does not belong to the state.
    ProtocolMismatch,
}

/// What the loop does next.
pub enum AuthAction {
    /// Check the stored JWT against the account endpoint.
    CheckAccount { jwt: String },
    /// Ask the user for an email address.
    PromptEmail,
    /// Discard the rejected JWT, then ask for an email address.
    ClearJwtAndPromptEmail,
    /// Request a login code for the email held by the new state.
    RequestLoginCode,
    /// Ask the user for the login code.
    PromptLoginCode,
    /// Validate the login code for the email held by the new state.
    ValidateLoginCode { code: String },
    /// Generate a random password for a fresh account.
    GeneratePassword,
    /// Register the fresh account with the email and password held by the
    /// new state.
    Register,
    /// Ask the user for the verification code.
    PromptVerifyCode,
    /// Validate the verification code.
    ValidateEmail { code: String },
    /// Log in with the email and password held by the new state.
    Login,
    /// Persist the token and finish.
    SaveJwtAndFinish { token: String },
    /// Finish: already authenticated.
    Finish,
    /// Give up with this failure.
    Fail { failure: AuthFailure },
}

/// The transition table of the dialogue.
pub open spec fn spec_auth_step(state: AuthState, event: AuthEvent) -> (AuthState, AuthAction) {
    match (state, event) {
        (AuthState::Start, AuthEvent::ConfigLoaded { jwt }) => match jwt {
            Some(j) => (AuthState::CheckingJwt, AuthAction::CheckAccount { jwt: j }),
            None => (AuthState::EnteringEmail, AuthAction::PromptEmail),
        },
        (AuthState::CheckingJwt, AuthEvent::AccountOk) => (AuthState::Done, AuthAction::Finish),
        (AuthState::CheckingJwt, AuthEvent::AccountRejected) => (
            AuthState::EnteringEmail,
            AuthAction::ClearJwtAndPromptEmail,
        ),
        (AuthState::EnteringEmail, AuthEvent::EmailEntered { email }) => (
            AuthState::RequestingCode { email: email },
            AuthAction::RequestLoginCode,
        ),
        (AuthState::RequestingCode { email }, AuthEvent::CodeRequestOk) => (
            AuthState::EnteringLoginCode { email: email },
            AuthAction::PromptLoginCode,
        ),
        (AuthState::RequestingCode { email }, AuthEvent::CodeRequestNotFound) => (
            AuthState::GeneratingPassword { email: email },
            AuthAction::GeneratePassword,
        ),
        (AuthState::RequestingCode { email }, AuthEvent::CodeRequestOther) => (
            AuthState::Failed,
            AuthAction::Fail { failure: AuthFailure::UnexpectedStatus },
        ),
        (AuthState::EnteringLoginCode { email }, AuthEvent::LoginCodeEntered { code }) => (
            AuthState::ValidatingLoginCode { email: email },
            AuthAction::ValidateLoginCode { code: code },
        ),
        (AuthState::ValidatingLoginCode { email }, AuthEvent::LoginCodeValid { token }) => (
            AuthState::Done,
            AuthAction::SaveJwtAndFinish { token: token },
        ),
        (AuthState::ValidatingLoginCode { email }, AuthEvent::LoginCodeInvalid) => (
            AuthState::Failed,
            AuthAction::Fail { failure: AuthFailure::InvalidLoginCode },
        ),
        (AuthState::GeneratingPassword { email }, AuthEvent::PasswordGenerated { password }) => (
            AuthState::Registering { email: email, password: password },
            AuthAction::Register,
        ),
        (AuthState::Registering { email, password }, AuthEvent::RegisterOk) => (
            AuthState::EnteringVerifyCode { email: email, password: password },
            AuthAction::PromptVerifyCode,
        ),
        (AuthState::Registering { email, password }, AuthEvent::RegisterFailed) => (
            AuthState::Failed,
            AuthAction::Fail { failure: AuthFailure::RegistrationFailed },
        ),
        (AuthState::EnteringVerifyCode { email, password }, AuthEvent::VerifyCodeEntered {
            code,
        }) => (
            AuthState::ValidatingEmail { email: email, password: password },
            AuthAction::ValidateEmail { code: code },
        ),
        (AuthState::ValidatingEmail { email, password }, AuthEvent::VerifyOk) => (
            AuthState::LoggingIn { email: email, password: password },
            AuthAction::Login,
        ),
        (AuthState::ValidatingEmail { email, password }, AuthEvent::VerifyFailed) => (
            AuthState::Failed,
            AuthAction::Fail { failure: AuthFailure::InvalidVerificationCode },
        ),
        (AuthState::LoggingIn { email, password }, AuthEvent::LoginOk { token }) => (
            AuthState::Done,
            AuthAction::SaveJwtAndFinish { token: token },
        ),
        (AuthState::LoggingIn { email, password }, AuthEvent::LoginFailed) => (
            AuthState::Failed,
            AuthAction::Fail { failure: AuthFailure::LoginAfterRegistrationFailed },
        ),
        (_, _) => (AuthState::Failed, AuthAction::Fail { failure: AuthFailure::ProtocolMismatch }),
    }
}

/// Performs one step of the dialogue.
pub fn auth_step(state: AuthState, event: AuthEvent) -> (r: (AuthState, AuthAction))
    ensures
        r == spec_auth_step(state, event),
{
    match (state, event) {
        (AuthState::Start, AuthEvent::ConfigLoaded { jwt }) => match jwt {
            Some(j) => (AuthState::CheckingJwt, AuthAction::CheckAccount { jwt: j }),
            None => (AuthState::EnteringEmail, AuthAction::PromptEmail),
        },
        (AuthState::CheckingJwt, AuthEvent::AccountOk) => (AuthState::Done, AuthAction::Finish),
        (AuthState::CheckingJwt, AuthEvent::AccountRejected) => (
            AuthState::EnteringEmail,
            AuthAction::ClearJwtAndPromptEmail,
        ),
        (AuthState::EnteringEmail, AuthEvent::EmailEntered { email }) => (
            AuthState::RequestingCode { email: email },
            AuthAction::RequestLoginCode,
        ),
        (AuthState::RequestingCode { email }, AuthEvent::CodeRequestOk) => (
            AuthState::EnteringLoginCode { email: email },
            AuthAction::PromptLoginCode,
        ),
        (AuthState::RequestingCode { email }, AuthEvent::CodeRequestNotFound) => (
            AuthState::GeneratingPassword { email: email },
            AuthAction::GeneratePassword,
        ),
        (AuthState::RequestingCode { email: _ }, AuthEvent::CodeRequestOther) => (
            AuthState::Failed,
            AuthAction::Fail { failure: AuthFailure::UnexpectedStatus },
        ),
        (AuthState::EnteringLoginCode { email }, AuthEvent::LoginCodeEntered { code }) => (
            AuthState::ValidatingLoginCode { email: email },
            AuthAction::ValidateLoginCode { code: code },
        ),
        (AuthState::ValidatingLoginCode { email: _ }, AuthEvent::LoginCodeValid { token }) => (
            AuthState::Done,
            AuthAction::SaveJwtAndFinish { token: token },
        ),
        (AuthState::ValidatingLoginCode { email: _ }, AuthEvent::LoginCodeInvalid) => (
            AuthState::Failed,
            AuthAction::Fail { failure: AuthFailure::InvalidLoginCode },
        ),
        (AuthState::GeneratingPassword { email }, AuthEvent::PasswordGenerated { password }) => (
            AuthState::Registering { email: email, password: password },
            AuthAction::Register,
        ),
        (AuthState::Registering { email, password }, AuthEvent::RegisterOk) => (
            AuthState::EnteringVerifyCode { email: email, password: password },
            AuthAction::PromptVerifyCode,
        ),
        (AuthState::Registering { email: _, password: _ }, AuthEvent::RegisterFailed) => (
            AuthState::Failed,
            AuthAction::Fail { failure: AuthFailure::RegistrationFailed },
        ),
        (AuthState::EnteringVerifyCode { email, password }, AuthEvent::VerifyCodeEntered {
            code,
        }) => (
            AuthState::ValidatingEmail { email: email, password: password },
            AuthAction::ValidateEmail { code: code },
        ),
        (AuthState::ValidatingEmail { email, password }, AuthEvent::VerifyOk) => (
            AuthState::LoggingIn { email: email, password: password },
            AuthAction::Login,
        ),
        (AuthState::ValidatingEmail { email: _, password: _ }, AuthEvent::VerifyFailed) => (
            AuthState::Failed,
            AuthAction::Fail { failure: AuthFailure::InvalidVerificationCode },
        ),
        (AuthState::LoggingIn { email: _, password: _ }, AuthEvent::LoginOk { token }) => (
            AuthState::Done,
            AuthAction::SaveJwtAndFinish { token: token },
        ),
        (AuthState::LoggingIn { email: _, password: _ }, AuthEvent::LoginFailed) => (
            AuthState::Failed,
            AuthAction::Fail { failure: AuthFailure::LoginAfterRegistrationFailed },
        ),
        (_, _) => (AuthState::Failed, AuthAction::Fail { failure: AuthFailure::ProtocolMismatch }),
    }
}

} // verus!

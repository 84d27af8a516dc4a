//! Authentication decisions. Credential storage and the key-derivation
//! function are external collaborators — a password hash is opaque here —
//! but the decisions the handlers take on their results are plain values,
//! and those are verified: where a login redirects, which error it keeps,
//! and which new passwords the change-password form accepts.

use vstd::prelude::*;
use vstd::string::StrSliceExecFns;

verus! {

/// Why a credential check failed: the credentials were wrong, or the check
/// itself could not be carried out.
#[derive(PartialEq, Eq, Structural, Debug, Clone, Copy)]
pub enum AuthError {
    InvalidCredentials,
    Unexpected,
}

/// Why a login failed, as the login route reports it.
#[derive(PartialEq, Eq, Structural, Debug, Clone, Copy)]
pub enum LoginError {
    Auth,
    Unexpected,
}

/// What the login handler does with the credential check's result.
#[derive(PartialEq, Eq, Structural, Debug, Clone, Copy)]
pub enum LoginAction {
    /// Renew the session, record the user, redirect to the dashboard.
    ProceedToDashboard(u128),
    /// Flash the error and redirect back to the login form.
    RedirectToLogin(LoginError),
}

/// The login handler's branch on the credential check: success opens the
/// session; wrong credentials and internal faults both redirect back, but
/// carry different errors.
pub fn login_decision(result: &Result<u128, AuthError>) -> (r: LoginAction)
    ensures
        r == (match result {
            Ok(user_id) => LoginAction::ProceedToDashboard(*user_id),
            Err(AuthError::InvalidCredentials) => LoginAction::RedirectToLogin(LoginError::Auth),
            Err(AuthError::Unexpected) => LoginAction::RedirectToLogin(LoginError::Unexpected),
        }),
{
    match result {
        Ok(user_id) => LoginAction::ProceedToDashboard(*user_id),
        Err(AuthError::InvalidCredentials) => LoginAction::RedirectToLogin(LoginError::Auth),
        Err(AuthError::Unexpected) => LoginAction::RedirectToLogin(LoginError::Unexpected),
    }
}

/// What the admin scope's middleware does with the session's user: forward
/// the request under that user, or send the visitor to the login form.
#[derive(PartialEq, Eq, Structural, Debug, Clone, Copy)]
pub enum AdminAccess {
    Proceed(u128),
    RedirectToLogin,
}

/// The reject-anonymous-users branch: only a session that carries a user id
/// may reach the admin scope.
pub fn admin_access_decision(session_user: &Option<u128>) -> (r: AdminAccess)
    ensures
        r == (match session_user {
            Some(user_id) => AdminAccess::Proceed(*user_id),
            None => AdminAccess::RedirectToLogin,
        }),
{
    match session_user {
        Some(user_id) => AdminAccess::Proceed(*user_id),
        None => AdminAccess::RedirectToLogin,
    }
}

/// Why a new password was refused by the change-password form.
#[derive(PartialEq, Eq, Structural, Debug, Clone, Copy)]
pub enum PasswordRuleViolation {
    /// The two new-password fields differ.
    Mismatch,
    /// Fewer than 12 characters.
    TooShort,
    /// More than 128 characters.
    TooLong,
}

/// The new-password rules, checked in the form's order: the repeated field
/// must match, and the length must lie between 12 and 128 characters.
pub fn check_new_password(new_password: &String, new_password_check: &String) -> (r: Result<
    (),
    PasswordRuleViolation,
>)
    ensures
        new_password@ != new_password_check@ ==> r == Err::<(), PasswordRuleViolation>(
            PasswordRuleViolation::Mismatch,
        ),
        new_password@ == new_password_check@ && new_password@.len() < 12 ==> r == Err::<
            (),
            PasswordRuleViolation,
        >(PasswordRuleViolation::TooShort),
        new_password@ == new_password_check@ && new_password@.len() > 128 ==> r == Err::<
            (),
            PasswordRuleViolation,
        >(PasswordRuleViolation::TooLong),
        new_password@ == new_password_check@ && 12 <= new_password@.len() <= 128 ==> r == Ok::<
            (),
            PasswordRuleViolation,
        >(()),
{
    if !(*new_password == *new_password_check) {
        return Err(PasswordRuleViolation::Mismatch);
    }
    let n = new_password.as_str().unicode_len();
    if n < 12 {
        Err(PasswordRuleViolation::TooShort)
    } else if n > 128 {
        Err(PasswordRuleViolation::TooLong)
    } else {
        Ok(())
    }
}

} // verus!

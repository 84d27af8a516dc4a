use zero2prod::authentication::{
    admin_access_decision, check_new_password, login_decision, AdminAccess, AuthError,
    LoginAction, LoginError, PasswordRuleViolation,
};

#[test]
fn new_password_fields_must_match() {
    let result = check_new_password(
        &String::from("one-new-password-value"),
        &String::from("another-new-password-value"),
    );
    assert_eq!(result, Err(PasswordRuleViolation::Mismatch));
}

#[test]
fn new_password_is_too_short() {
    let result = check_new_password(&String::from("foo"), &String::from("foo"));
    assert_eq!(result, Err(PasswordRuleViolation::TooShort));
}

#[test]
fn new_password_is_too_long() {
    let long = "x".repeat(200);
    let result = check_new_password(&long, &long.clone());
    assert_eq!(result, Err(PasswordRuleViolation::TooLong));
}

#[test]
fn a_reasonable_new_password_passes() {
    let password = String::from("correct horse battery staple");
    assert_eq!(check_new_password(&password, &password.clone()), Ok(()));
    let twelve = "x".repeat(12);
    assert_eq!(check_new_password(&twelve, &twelve.clone()), Ok(()));
    let max = "x".repeat(128);
    assert_eq!(check_new_password(&max, &max.clone()), Ok(()));
}

#[test]
fn login_opens_the_session_only_on_valid_credentials() {
    assert_eq!(login_decision(&Ok(9)), LoginAction::ProceedToDashboard(9));
    assert_eq!(
        login_decision(&Err(AuthError::InvalidCredentials)),
        LoginAction::RedirectToLogin(LoginError::Auth)
    );
    assert_eq!(
        login_decision(&Err(AuthError::Unexpected)),
        LoginAction::RedirectToLogin(LoginError::Unexpected)
    );
}

#[test]
fn anonymous_users_are_sent_to_the_login_form() {
    assert_eq!(admin_access_decision(&Some(9)), AdminAccess::Proceed(9));
    assert_eq!(admin_access_decision(&None), AdminAccess::RedirectToLogin);
}

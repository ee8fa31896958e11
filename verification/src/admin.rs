use vstd::prelude::*;
use vstd::string::StringSliceAdditionalSpecFns;
use crate::flash::attach_flash_model;
use crate::flash::attach_flashed_message;
use crate::response::HttpResponse;
use crate::response::ResponseModel;
use crate::response::str_equal;

verus! {

// The admin password-change form and the logout button. The credential check
// and the credential update run outside; the decisions — which of the three
// ways a password change can go, whether a logout has a session to destroy —
// and the exact responses are made here.

/// The password-change form: the current password and the new one, typed
/// twice.
pub struct FormData {
    pub current_password: String,
    pub new_password: String,
    pub new_password_check: String,
}

/// The three ways a password-change submission goes.
#[derive(Clone, Copy, Debug, PartialEq, Eq)]
pub enum PasswordChangeOutcome {
    /// The two new-password fields differ; nothing is checked or written.
    MismatchedNewPasswords,
    /// The current password is wrong; nothing is written.
    InvalidCurrentPassword,
    /// The caller must now update the stored credential.
    ChangePassword,
}

/// The redirect back to the form with the outcome's message in the signed
/// flash cookie pair.
pub open spec fn password_form_response(hmac_key: Seq<u8>, msg: Seq<char>) -> ResponseModel {
    attach_flash_model(
        ResponseModel {
            status: 303,
            headers: seq![("Location"@, "/admin/password".spec_bytes())],
            body: Seq::empty(),
        },
        hmac_key,
        msg,
    )
}

/// The message each outcome flashes back to the form.
pub open spec fn password_change_message(outcome: PasswordChangeOutcome) -> Seq<char> {
    match outcome {
        PasswordChangeOutcome::MismatchedNewPasswords => "You entered two different new passwords - the field values must match."@,
        PasswordChangeOutcome::InvalidCurrentPassword => "The current password is incorrect"@,
        PasswordChangeOutcome::ChangePassword => "Your password has been changed."@,
    }
}

/// Decides a password-change submission: the new passwords must match, then
/// the current password must have checked out. Only `ChangePassword` may
/// write anything.
pub fn change_password(form: &FormData, current_password_valid: bool) -> (r:
    PasswordChangeOutcome)
    ensures
        r == PasswordChangeOutcome::MismatchedNewPasswords <==> form.new_password@
            != form.new_password_check@,
        form.new_password@ == form.new_password_check@ ==> (r
            == PasswordChangeOutcome::ChangePassword <==> current_password_valid),
        form.new_password@ == form.new_password_check@ && !current_password_valid ==> r
            == PasswordChangeOutcome::InvalidCurrentPassword,
{
    if !str_equal(form.new_password.as_str(), form.new_password_check.as_str()) {
        PasswordChangeOutcome::MismatchedNewPasswords
    } else if !current_password_valid {
        PasswordChangeOutcome::InvalidCurrentPassword
    } else {
        PasswordChangeOutcome::ChangePassword
    }
}

/// The response each outcome is answered with: back to the form, message
/// flashed.
pub fn change_password_response(outcome: PasswordChangeOutcome, hmac_key: &[u8]) -> (r:
    HttpResponse)
    ensures
        r@ == password_form_response(hmac_key@, password_change_message(outcome)),
        r.wf(),
{
    let mut resp = HttpResponse::see_other("/admin/password");
    match outcome {
        PasswordChangeOutcome::MismatchedNewPasswords => {
            attach_flashed_message(
                &mut resp,
                hmac_key,
                "You entered two different new passwords - the field values must match.",
            );
        },
        PasswordChangeOutcome::InvalidCurrentPassword => {
            attach_flashed_message(&mut resp, hmac_key, "The current password is incorrect");
        },
        PasswordChangeOutcome::ChangePassword => {
            attach_flashed_message(&mut resp, hmac_key, "Your password has been changed.");
        },
    }
    resp
}

/// The logout redirect: to the login form, with a farewell flashed when
/// there was a session to destroy. The boolean tells the caller to destroy
/// it.
pub fn log_out(session_has_user: bool, hmac_key: &[u8]) -> (r: (bool, HttpResponse))
    ensures
        r.0 == session_has_user,
        !session_has_user ==> r.1@ == (ResponseModel {
            status: 303,
            headers: seq![("Location"@, "/login".spec_bytes())],
            body: Seq::empty(),
        }),
        session_has_user ==> r.1@ == attach_flash_model(
            ResponseModel {
                status: 303,
                headers: seq![("Location"@, "/login".spec_bytes())],
                body: Seq::empty(),
            },
            hmac_key@,
            "You have successfully logged out."@,
        ),
        r.1.wf(),
{
    let mut resp = HttpResponse::see_other("/login");
    if session_has_user {
        attach_flashed_message(&mut resp, hmac_key, "You have successfully logged out.");
        (true, resp)
    } else {
        (false, resp)
    }
}

} // verus!

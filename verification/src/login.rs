use vstd::prelude::*;
use vstd::string::StringSliceAdditionalSpecFns;
use crate::flash::attach_flash_model;
use crate::flash::attach_flashed_message;
use crate::flash::cookie_verifies;
use crate::flash::opt_chars;
use crate::response::HttpResponse;
use crate::response::ResponseModel;

verus! {

// The login form's submission: the credential check itself runs outside
// (password hashes live in the database), and its outcome is mapped to a
// response here — a redirect home on success, a redirect back to the form
// with a signed failure message on bad credentials, an error otherwise.

/// The outcome of checking submitted credentials against the stored ones.
#[derive(Clone, Copy, Debug, PartialEq, Eq)]
pub enum AuthError {
    InvalidCredentials,
    UnexpectedError,
}

/// How a login request fails.
#[derive(Clone, Copy, Debug, PartialEq, Eq)]
pub enum LoginError {
    AuthError,
    UnexpectedError,
}

/// The redirect home a successful login answers with.
pub open spec fn login_success_model() -> ResponseModel {
    ResponseModel {
        status: 303,
        headers: seq![("Location"@, "/".spec_bytes())],
        body: Seq::empty(),
    }
}

/// The answer to bad credentials: back to the form, with the failure message
/// in a signed flash cookie pair and a `Location` header appended after
/// them.
pub open spec fn login_failure_model(hmac_key: Seq<u8>) -> ResponseModel {
    let flashed = attach_flash_model(
        ResponseModel { status: 303, headers: Seq::empty(), body: Seq::empty() },
        hmac_key,
        "Authentication failed"@,
    );
    ResponseModel {
        headers: flashed.headers.push(("Location"@, "/login".spec_bytes())),
        ..flashed
    }
}

/// Maps a credential-check outcome to the login endpoint's response.
pub fn login(auth: Result<u128, AuthError>, hmac_key: &[u8]) -> (r: Result<
    HttpResponse,
    LoginError,
>)
    ensures
        auth is Ok ==> (r matches Ok(resp) && resp@ == login_success_model() && resp.wf()),
        auth == Err::<u128, AuthError>(AuthError::InvalidCredentials) ==> (r matches Ok(resp)
            && resp@ == login_failure_model(hmac_key@) && resp.wf()),
        auth == Err::<u128, AuthError>(AuthError::UnexpectedError) ==> r == Err::<
            HttpResponse,
            LoginError,
        >(LoginError::UnexpectedError),
{
    match auth {
        Ok(_) => {
            let resp = HttpResponse::see_other("/");
            proof {
                assert(resp@ =~= login_success_model());
            }
            Ok(resp)
        },
        Err(AuthError::InvalidCredentials) => {
            let mut resp = HttpResponse::new(303);
            attach_flashed_message(&mut resp, hmac_key, "Authentication failed");
            resp.append_header(String::from_str("Location"), "/login".as_bytes_vec());
            proof {
                assert(resp@ =~= login_failure_model(hmac_key@));
            }
            Ok(resp)
        },
        Err(AuthError::UnexpectedError) => Err(LoginError::UnexpectedError),
    }
}

/// Sets the flash cookie pair carrying a login failure message; the same
/// rewrite the flash machinery does everywhere.
pub fn attach_cookie(response: &mut HttpResponse, hmac_key: &[u8], error_msg: &str)
    ensures
        final(response)@ == attach_flash_model(old(response)@, hmac_key@, error_msg@),
{
    attach_flashed_message(response, hmac_key, error_msg);
}

/// Whether the request's `tag` cookie proves that the server set its
/// `_flash` cookie.
pub fn verify_cookie(flash_cookie: Option<&String>, tag_cookie: Option<&String>, hmac_key: &[u8]) -> (r:
    bool)
    ensures
        r == cookie_verifies(opt_chars(flash_cookie), opt_chars(tag_cookie), hmac_key@),
{
    crate::flash::verify_cookie(flash_cookie, tag_cookie, hmac_key)
}

} // verus!

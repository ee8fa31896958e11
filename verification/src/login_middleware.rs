use vstd::prelude::*;
use crate::response::str_equal;

verus! {

// The admin pages sit behind a session check. The middleware looks at the
// request path and the session's user: a protected path without a signed-in
// user is redirected to the login form; with one, the request proceeds with
// the user attached. Reading the session and rewriting the request happen
// outside; the decision is made here.

/// The middleware guarding the admin paths.
#[derive(Default)]
pub struct RequiredLoginMiddleware;

/// The signed-in user a request acts as.
pub struct UserId(pub u128);

/// The paths that require a signed-in user.
pub open spec fn protected_path(path: Seq<char>) -> bool {
    ||| path == "/admin/dashboard"@
    ||| path == "/admin/password"@
    ||| path == "/admin/logout"@
    ||| path == "/admin/newsletters"@
}

/// What the middleware does with one request.
pub enum LoginGate {
    /// A protected path without a signed-in user: answer with a redirect to
    /// the login form instead of running the route.
    RedirectToLogin,
    /// A protected path with a signed-in user: run the route as that user.
    ProceedAuthenticated(UserId),
    /// A path that needs no user: run the route unchanged.
    ProceedAnonymous,
}

impl RequiredLoginMiddleware {
    /// The middleware's decision for one request.
    pub fn handle(&self, req_path: &str, session_user_id: Option<u128>) -> (r: LoginGate)
        ensures
            !protected_path(req_path@) ==> r is ProceedAnonymous,
            protected_path(req_path@) && session_user_id is None ==> r is RedirectToLogin,
            (protected_path(req_path@) && session_user_id is Some) ==> (r matches
                LoginGate::ProceedAuthenticated(uid) && uid.0 == session_user_id->0),
    {
        let protected = str_equal(req_path, "/admin/dashboard") || str_equal(
            req_path,
            "/admin/password",
        ) || str_equal(req_path, "/admin/logout") || str_equal(req_path, "/admin/newsletters");
        if !protected {
            LoginGate::ProceedAnonymous
        } else {
            match session_user_id {
                None => LoginGate::RedirectToLogin,
                Some(u) => LoginGate::ProceedAuthenticated(UserId(u)),
            }
        }
    }
}

} // verus!

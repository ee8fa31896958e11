use zero2prod::admin::FormData;
use zero2prod::admin::PasswordChangeOutcome;
use zero2prod::admin::change_password;
use zero2prod::admin::change_password_response;
use zero2prod::admin::log_out;
use zero2prod::flash::attach_flashed_message;
use zero2prod::flash::gen_hmac_tag;
use zero2prod::flash::get_flashed_message;
use zero2prod::flash::verify_cookie;
use zero2prod::flash::verify_hmac_tag;
use zero2prod::login::AuthError;
use zero2prod::login::LoginError;
use zero2prod::login::login;
use zero2prod::login_middleware::LoginGate;
use zero2prod::login_middleware::RequiredLoginMiddleware;
use zero2prod::newsletters::BasicAuthError;
use zero2prod::newsletters::basic_authentication;
use zero2prod::newsletters::parse_basic_credentials;
use zero2prod::response::HttpResponse;

const HMAC_KEY: &[u8] = b"super-secret-key";

#[test]
fn hmac_tag_matches_the_published_test_vector() {
    // Test case 2 of RFC 4231: HMAC-SHA-256 with key "Jefe".
    let tag = gen_hmac_tag(b"Jefe", b"what do ya want for nothing?");
    assert_eq!(tag, "5bdcc146bf60754e6a042426089575c75a003f089d2739839dec58b964ec3843");
}

#[test]
fn hmac_verification_accepts_the_digest_and_nothing_else() {
    let msg = b"_flash=hello";
    let tag = gen_hmac_tag(HMAC_KEY, msg);
    let mut digest = Vec::new();
    for i in (0..tag.len()).step_by(2) {
        digest.push(u8::from_str_radix(&tag[i..i + 2], 16).unwrap());
    }
    assert!(verify_hmac_tag(HMAC_KEY, msg, &digest));
    let mut tampered = digest.clone();
    tampered[0] ^= 1;
    assert!(!verify_hmac_tag(HMAC_KEY, msg, &tampered));
    assert!(!verify_hmac_tag(b"other-key", msg, &digest));
}

#[test]
fn cookie_round_trip_verifies_and_renders_the_message() {
    let flash = "Authentication failed".to_string();
    let mut msg: Vec<u8> = b"_flash=".to_vec();
    msg.extend_from_slice(flash.as_bytes());
    let tag = gen_hmac_tag(HMAC_KEY, &msg);
    assert!(verify_cookie(Some(&flash), Some(&tag), HMAC_KEY));
    let html = get_flashed_message(Some(&flash), Some(&tag), HMAC_KEY);
    assert_eq!(html, "<p><i>Authentication failed</i></p>");
}

#[test]
fn cookie_verification_rejects_forgeries() {
    let flash = "Authentication failed".to_string();
    let mut msg: Vec<u8> = b"_flash=".to_vec();
    msg.extend_from_slice(flash.as_bytes());
    let tag = gen_hmac_tag(HMAC_KEY, &msg);
    // Missing pieces.
    assert!(!verify_cookie(None, Some(&tag), HMAC_KEY));
    assert!(!verify_cookie(Some(&flash), None, HMAC_KEY));
    // A message the tag does not sign.
    let other = "You are admin now".to_string();
    assert!(!verify_cookie(Some(&other), Some(&tag), HMAC_KEY));
    // A tag that is not even hexadecimal.
    let bad_tag = "not-hex!".to_string();
    assert!(!verify_cookie(Some(&flash), Some(&bad_tag), HMAC_KEY));
    // The right message under the wrong key.
    assert!(!verify_cookie(Some(&flash), Some(&tag), b"other-key"));
    assert_eq!(get_flashed_message(Some(&other), Some(&tag), HMAC_KEY), "");
}

#[test]
fn attaching_a_message_replaces_previous_flash_cookies() {
    let mut resp = HttpResponse { status: 303, headers: Vec::new(), body: Vec::new() };
    attach_flashed_message(&mut resp, HMAC_KEY, "first");
    attach_flashed_message(&mut resp, HMAC_KEY, "second");
    let set_cookies: Vec<&Vec<u8>> = resp
        .headers
        .iter()
        .filter(|h| h.name == "Set-Cookie")
        .map(|h| &h.value)
        .collect();
    assert_eq!(set_cookies.len(), 2);
    assert!(set_cookies[0].starts_with(b"_flash=second"));
    assert!(set_cookies[1].starts_with(b"tag="));
}

#[test]
fn attaching_the_same_message_twice_changes_nothing() {
    let mut once = HttpResponse { status: 303, headers: Vec::new(), body: Vec::new() };
    attach_flashed_message(&mut once, HMAC_KEY, "done");
    let mut twice = HttpResponse { status: 303, headers: Vec::new(), body: Vec::new() };
    attach_flashed_message(&mut twice, HMAC_KEY, "done");
    attach_flashed_message(&mut twice, HMAC_KEY, "done");
    assert_eq!(once.headers.len(), twice.headers.len());
    for (a, b) in once.headers.iter().zip(twice.headers.iter()) {
        assert_eq!(a.name, b.name);
        assert_eq!(a.value, b.value);
    }
}

#[test]
fn basic_authentication_parses_a_proper_header() {
    // base64 of "username:password".
    let creds = basic_authentication("Basic dXNlcm5hbWU6cGFzc3dvcmQ=").unwrap();
    assert_eq!(creds.username, "username");
    assert_eq!(creds.password, "password");
}

#[test]
fn basic_authentication_reports_each_failure_distinctly() {
    assert_eq!(
        basic_authentication("Bearer abc").unwrap_err(),
        BasicAuthError::SchemeNotBasic
    );
    assert_eq!(basic_authentication("Basi").unwrap_err(), BasicAuthError::SchemeNotBasic);
    assert_eq!(
        basic_authentication("Basic !!!not-base64!!!").unwrap_err(),
        BasicAuthError::InvalidBase64
    );
    // base64 of the single byte 0xFF, which is not UTF-8.
    assert_eq!(basic_authentication("Basic /w==").unwrap_err(), BasicAuthError::InvalidUtf8);
    // base64 of "nocolon".
    assert_eq!(
        basic_authentication("Basic bm9jb2xvbg==").unwrap_err(),
        BasicAuthError::MissingPassword
    );
}

#[test]
fn credentials_split_at_the_first_colon_only() {
    let creds = parse_basic_credentials("user:pa:ss:word").unwrap();
    assert_eq!(creds.username, "user");
    assert_eq!(creds.password, "pa:ss:word");
    let empty_user = parse_basic_credentials(":secret").unwrap();
    assert_eq!(empty_user.username, "");
    assert_eq!(empty_user.password, "secret");
    assert!(parse_basic_credentials("nocolon").is_err());
}

#[test]
fn login_maps_each_outcome_to_its_response() {
    let ok = login(Ok(42), HMAC_KEY).unwrap();
    assert_eq!(ok.status, 303);
    assert_eq!(ok.headers[0].name, "Location");
    assert_eq!(ok.headers[0].value, b"/".to_vec());

    let failed = login(Err(AuthError::InvalidCredentials), HMAC_KEY).unwrap();
    assert_eq!(failed.status, 303);
    assert!(failed.headers[0].value.starts_with(b"_flash=Authentication failed"));
    assert_eq!(failed.headers.last().unwrap().name, "Location");
    assert_eq!(failed.headers.last().unwrap().value, b"/login".to_vec());

    let err = login(Err(AuthError::UnexpectedError), HMAC_KEY);
    assert_eq!(err.unwrap_err(), LoginError::UnexpectedError);
}

#[test]
fn middleware_guards_exactly_the_admin_paths() {
    let mw = RequiredLoginMiddleware;
    assert!(matches!(mw.handle("/admin/dashboard", None), LoginGate::RedirectToLogin));
    assert!(matches!(mw.handle("/admin/newsletters", None), LoginGate::RedirectToLogin));
    assert!(matches!(mw.handle("/login", None), LoginGate::ProceedAnonymous));
    assert!(matches!(mw.handle("/health_check", None), LoginGate::ProceedAnonymous));
    match mw.handle("/admin/password", Some(9)) {
        LoginGate::ProceedAuthenticated(uid) => assert_eq!(uid.0, 9),
        _ => panic!("a signed-in user must proceed"),
    }
}

#[test]
fn password_change_decision_checks_the_fields_in_order() {
    let mismatched = FormData {
        current_password: "old".to_string(),
        new_password: "new-one".to_string(),
        new_password_check: "new-two".to_string(),
    };
    assert_eq!(
        change_password(&mismatched, true),
        PasswordChangeOutcome::MismatchedNewPasswords
    );
    let matched = FormData {
        current_password: "old".to_string(),
        new_password: "new".to_string(),
        new_password_check: "new".to_string(),
    };
    assert_eq!(change_password(&matched, false), PasswordChangeOutcome::InvalidCurrentPassword);
    assert_eq!(change_password(&matched, true), PasswordChangeOutcome::ChangePassword);
}

#[test]
fn password_change_responses_flash_the_right_message() {
    let r = change_password_response(PasswordChangeOutcome::ChangePassword, HMAC_KEY);
    assert_eq!(r.status, 303);
    assert_eq!(r.headers[0].value, b"/admin/password".to_vec());
    assert!(r.headers[1].value.starts_with(b"_flash=Your password has been changed."));
    let r = change_password_response(PasswordChangeOutcome::InvalidCurrentPassword, HMAC_KEY);
    assert!(r.headers[1].value.starts_with(b"_flash=The current password is incorrect"));
}

#[test]
fn logout_destroys_a_session_only_when_there_is_one() {
    let (destroy, resp) = log_out(false, HMAC_KEY);
    assert!(!destroy);
    assert_eq!(resp.status, 303);
    assert_eq!(resp.headers.len(), 1);
    assert_eq!(resp.headers[0].value, b"/login".to_vec());
    let (destroy, resp) = log_out(true, HMAC_KEY);
    assert!(destroy);
    assert!(resp.headers[1].value.starts_with(b"_flash=You have successfully logged out."));
}

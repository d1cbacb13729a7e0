//! Login: credentials, the authentication request, the OTP retry machine,
//! address defaults, and the configuration the session is kept in.

use syno_photos_util::cli::{try_parse_duration, DurationError};
use syno_photos_util::conf::{status_line, Conf, DeviceId, Session};
use syno_photos_util::login::{default_port, login_request, provided_value, validate_prompted,
    LoginError, LoginFailure, LoginFlow, LoginPhase, UserCredentials};
use syno_photos_util::update::{latest_non_yanked, update_message, Crate};

#[test]
fn login_without_otp_persists_the_session() {
    // account=bob, password=pw, no OTP required.
    let creds = UserCredentials::new("bob".to_string(), "pw".to_string(), None);
    let request = login_request(&creds, false);
    assert!(request.post);
    assert_eq!(request.query, "api=SYNO.API.Auth");
    assert_eq!(
        request.form,
        [
            ("method".to_string(), "login".to_string()),
            ("version".to_string(), "6".to_string()),
            ("account".to_string(), "bob".to_string()),
            ("passwd".to_string(), "pw".to_string()),
            ("format".to_string(), "cookie".to_string()),
            ("enable_device_token".to_string(), "no".to_string()),
        ]
    );
    let mut flow = LoginFlow::new();
    flow.on_success();
    assert_eq!(flow.phase, LoginPhase::Succeeded);
    let mut conf = Conf::new();
    conf.session = Some(Session {
        url: "http://nas:5000".to_string(),
        cookie: "id=abc".to_string(),
    });
    assert!(conf.is_logged_in());
    assert_eq!(status_line(&conf), "signed in to http://nas:5000");
}

#[test]
fn signed_out_status() {
    let conf = Conf::new();
    assert_eq!(status_line(&conf), "signed out, use the 'login' command to sign-in to DSM");
}

#[test]
fn mfa_retry_happens_once_and_only_with_a_usable_otp() {
    let mut creds = UserCredentials::new("bob".to_string(), "pw".to_string(), None);
    let mut flow = LoginFlow::new();
    flow.on_dsm_error(403);
    assert_eq!(flow.phase, LoginPhase::AwaitingOtp);
    flow.provide_otp(&mut creds, "123456".to_string());
    assert_eq!(flow.phase, LoginPhase::SecondAttempt);
    assert_eq!(creds.otp_code.as_deref(), Some("123456"));
    let retry = login_request(&creds, false);
    assert!(retry.form.contains(&("otp_code".to_string(), "123456".to_string())));
    // A second refusal is final, surfaced verbatim.
    flow.on_dsm_error(404);
    assert_eq!(flow.phase, LoginPhase::Failed(LoginFailure::Dsm(404)));
}

#[test]
fn blank_otp_is_rejected_before_any_second_call() {
    let mut creds = UserCredentials::new("bob".to_string(), "pw".to_string(), None);
    let mut flow = LoginFlow::new();
    flow.on_dsm_error(406);
    assert_eq!(flow.phase, LoginPhase::AwaitingOtp);
    flow.provide_otp(&mut creds, "  ".to_string());
    // The flow fails here: it never reaches the second attempt.
    assert_eq!(flow.phase, LoginPhase::Failed(LoginFailure::BlankOtp));
    assert!(creds.otp_code.is_none());
}

#[test]
fn non_mfa_errors_are_fatal_on_the_first_attempt() {
    let mut flow = LoginFlow::new();
    flow.on_dsm_error(400);
    assert_eq!(flow.phase, LoginPhase::Failed(LoginFailure::Dsm(400)));
}

#[test]
fn remembered_devices_ride_along() {
    let did = DeviceId::new("dev-42".to_string()).unwrap();
    assert_eq!(did.as_str(), "dev-42");
    assert!(DeviceId::new("   ".to_string()).is_none());
    let creds = UserCredentials::new("bob".to_string(), "pw".to_string(), Some(&did));
    let request = login_request(&creds, true);
    assert!(request.form.contains(&("enable_device_token".to_string(), "yes".to_string())));
    assert!(request.form.contains(&("device_id".to_string(), "dev-42".to_string())));
    assert!(request.form.contains(&("device_name".to_string(), "syno_photos_util".to_string())));
}

#[test]
fn device_ids_are_kept_per_address() {
    let mut conf = Conf::new();
    conf.session = Some(Session { url: "http://a:5000".to_string(), cookie: "x".to_string() });
    conf.set_device_id(DeviceId::new("one".to_string()));
    assert_eq!(conf.get_device_id("http://a:5000").map(DeviceId::as_str), Some("one"));
    conf.set_device_id(DeviceId::new("two".to_string()));
    assert_eq!(conf.get_device_id("http://a:5000").map(DeviceId::as_str), Some("two"));
    assert_eq!(conf.device_ids.len(), 1);
    conf.set_device_id(None);
    assert!(conf.get_device_id("http://a:5000").is_none());
    // Signed out, nothing changes.
    let mut out = Conf::new();
    out.set_device_id(DeviceId::new("zzz".to_string()));
    assert!(out.device_ids.is_empty());
}

#[test]
fn sign_out_clears_the_session_and_optionally_the_devices() {
    let mut conf = Conf::new();
    conf.session = Some(Session { url: "http://a:5000".to_string(), cookie: "x".to_string() });
    conf.set_device_id(DeviceId::new("one".to_string()));
    conf.sign_out(false);
    assert!(!conf.is_logged_in());
    assert_eq!(conf.device_ids.len(), 1);
    conf.session = Some(Session { url: "http://a:5000".to_string(), cookie: "x".to_string() });
    conf.sign_out(true);
    assert!(conf.device_ids.is_empty());
}

#[test]
fn bare_addresses_get_the_dsm_default_port() {
    assert_eq!(default_port("http", false, "/"), Ok(Some(5000)));
    assert_eq!(default_port("https", false, "/"), Ok(Some(5001)));
    assert_eq!(default_port("https", true, "/"), Ok(None));
    assert_eq!(default_port("http", false, "/photo"), Ok(None));
    assert_eq!(default_port("ftp", false, "/"), Err(LoginError::InvalidScheme));
}

#[test]
fn supplied_values_count_only_when_not_blank() {
    assert_eq!(provided_value(Some("bob".to_string())), Some("bob".to_string()));
    assert_eq!(provided_value(Some("  ".to_string())), None);
    assert_eq!(provided_value(None), None);
    assert_eq!(validate_prompted("bob".to_string()), Ok("bob".to_string()));
    assert_eq!(validate_prompted("".to_string()), Err(LoginError::MissingInput));
}

#[test]
fn timeout_validation() {
    assert_eq!(try_parse_duration("30"), Ok(30));
    assert_eq!(try_parse_duration("5"), Ok(5));
    assert_eq!(try_parse_duration("4"), Err(DurationError::TooSmall));
    assert_eq!(try_parse_duration("0"), Err(DurationError::TooSmall));
    assert_eq!(try_parse_duration(""), Err(DurationError::NotANumber));
    assert_eq!(try_parse_duration("3x"), Err(DurationError::NotANumber));
    assert_eq!(try_parse_duration("99999999999999999999"), Err(DurationError::NotANumber));
    assert_eq!(try_parse_duration("18446744073709551615"), Ok(u64::MAX));
}

#[test]
fn release_check_picks_the_last_usable_line() {
    let crates = vec![
        Crate { vers: "0.1.0".to_string(), yanked: false },
        Crate { vers: "0.2.0".to_string(), yanked: false },
        Crate { vers: "0.3.0".to_string(), yanked: true },
    ];
    let latest = latest_non_yanked(&crates).unwrap();
    assert_eq!(latest.vers, "0.2.0");
    assert!(latest_non_yanked(&vec![Crate { vers: "1".to_string(), yanked: true }]).is_none());
    assert_eq!(update_message("0.2.0", "0.1.0"), "Version 0.2.0 is available!");
    assert_eq!(update_message("0.2.0", "0.2.0"), "Everything up to date");
}

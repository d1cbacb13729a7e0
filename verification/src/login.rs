//! The login flow: the credentials a login attempt carries, the wire request
//! it becomes, the default port of a bare DSM address, and the state machine
//! that drives the one-time-password retry — one retry, and only after a
//! non-blank OTP code was supplied.

use vstd::prelude::*;
use crate::api::{
    ApiParams, WireRequest, param_views, post_request, spec_form, spec_is_mfa_code,
    spec_post_query,
};
use crate::conf::DeviceId;
use crate::text::{is_blank, str_is_blank};

verus! {

/// What a login attempt sends: the account, its password, the OTP code once
/// one was supplied, and the remembered device id if the address has one.
#[derive(Debug)]
pub struct UserCredentials<'a> {
    pub account: String,
    pub passwd: String,
    pub otp_code: Option<String>,
    pub device_id: Option<&'a DeviceId>,
}

impl<'a> UserCredentials<'a> {
    /// Fresh credentials carry no OTP code.
    pub fn new(account: String, passwd: String, device_id: Option<&'a DeviceId>) -> (r: Self)
        ensures
            r.account@ == account@,
            r.passwd@ == passwd@,
            r.otp_code is None,
            r.device_id == device_id,
    {
        UserCredentials { account, passwd, otp_code: None, device_id }
    }

    /// Attaches an OTP code for the retry. A blank code is rejected and
    /// nothing changes.
    pub fn set_otp(&mut self, otp: String) -> (r: Result<(), LoginError>)
        ensures
            is_blank(otp@) ==> r == Err::<(), LoginError>(LoginError::MissingOtp) && *final(self)
                == *old(self),
            !is_blank(otp@) ==> {
                &&& r == Ok::<(), LoginError>(())
                &&& final(self).otp_code matches Some(o) && o@ == otp@
                &&& final(self).account == old(self).account
                &&& final(self).passwd == old(self).passwd
                &&& final(self).device_id == old(self).device_id
            },
    {
        if str_is_blank(otp.as_str()) {
            Err(LoginError::MissingOtp)
        } else {
            self.otp_code = Some(otp);
            Ok(())
        }
    }
}

/// Why a login cannot proceed before any network call is made.
#[derive(Clone, Copy, Debug, PartialEq, Eq, Structural)]
pub enum LoginError {
    /// The OTP prompt returned a blank code.
    MissingOtp,
    /// A required input (account name) was blank.
    MissingInput,
    /// The DSM address has a scheme other than http or https.
    InvalidScheme,
}

/// A supplied option counts only when it is not blank; otherwise the value
/// must be prompted for.
pub fn provided_value(v: Option<String>) -> (r: Option<String>)
    ensures
        match r {
            Some(s) => v matches Some(w) && s == w && !is_blank(s@),
            None => match v {
                Some(w) => is_blank(w@),
                None => true,
            },
        },
{
    match v {
        Some(s) => {
            if str_is_blank(s.as_str()) {
                None
            } else {
                Some(s)
            }
        },
        None => None,
    }
}

/// A prompted account name must not be blank.
pub fn validate_prompted(input: String) -> (r: Result<String, LoginError>)
    ensures
        match r {
            Ok(s) => s == input && !is_blank(input@),
            Err(e) => e == LoginError::MissingInput && is_blank(input@),
        },
{
    if str_is_blank(input.as_str()) {
        Err(LoginError::MissingInput)
    } else {
        Ok(input)
    }
}

/// The port a bare DSM address defaults to: none when the address already
/// carries a port or sits behind a path prefix; else the scheme's DSM
/// default, 5000 for http and 5001 for https. Any other scheme is a
/// configuration error.
pub fn default_port(scheme: &str, has_port: bool, path: &str) -> (r: Result<
    Option<u16>,
    LoginError,
>)
    ensures
        has_port || path@ != "/"@ ==> r == Ok::<Option<u16>, LoginError>(None),
        !has_port && path@ == "/"@ && scheme@ == "http"@ ==> r == Ok::<Option<u16>, LoginError>(
            Some(5000u16),
        ),
        !has_port && path@ == "/"@ && scheme@ == "https"@ ==> r == Ok::<Option<u16>, LoginError>(
            Some(5001u16),
        ),
        !has_port && path@ == "/"@ && scheme@ != "http"@ && scheme@ != "https"@ ==> r == Err::<
            Option<u16>,
            LoginError,
        >(LoginError::InvalidScheme),
{
    proof {
        reveal_strlit("http");
        reveal_strlit("https");
        assert("http"@.len() == 4);
        assert("https"@.len() == 5);
        assert("http"@ != "https"@);
    }
    let is_root = crate::text::str_eq(path, "/");
    if has_port || !is_root {
        Ok(None)
    } else if crate::text::str_eq(scheme, "http") {
        Ok(Some(5000))
    } else if crate::text::str_eq(scheme, "https") {
        Ok(Some(5001))
    } else {
        Err(LoginError::InvalidScheme)
    }
}

/// The form parameters of one login attempt, in order: account, password, the
/// cookie format, whether a device token is wanted; then, each only when
/// present, the OTP code, the remembered device id, and the client's device
/// name when the device is to be remembered.
pub open spec fn spec_login_params(
    account: Seq<char>,
    passwd: Seq<char>,
    otp: Option<Seq<char>>,
    did: Option<Seq<char>>,
    remember: bool,
) -> Seq<(Seq<char>, Seq<char>)> {
    let base = seq![
        ("account"@, account),
        ("passwd"@, passwd),
        ("format"@, "cookie"@),
        (
            "enable_device_token"@,
            if remember {
                "yes"@
            } else {
                "no"@
            },
        ),
    ];
    let with_otp = match otp {
        Some(o) => base.push(("otp_code"@, o)),
        None => base,
    };
    let with_did = match did {
        Some(d) => with_otp.push(("device_id"@, d)),
        None => with_otp,
    };
    if remember {
        with_did.push(("device_name"@, "syno_photos_util"@))
    } else {
        with_did
    }
}

/// Assembles the authentication request of one login attempt.
pub fn login_request(creds: &UserCredentials<'_>, remember_dev: bool) -> (r: WireRequest)
    ensures
        r.post,
        r.query@ == spec_post_query("SYNO.API.Auth"@),
        param_views(r.form@) == spec_form(
            "login"@,
            6,
            spec_login_params(
                creds.account@,
                creds.passwd@,
                (match creds.otp_code {
                    Some(o) => Some(o@),
                    None => None,
                }),
                (match creds.device_id {
                    Some(d) => Some(d@),
                    None => None,
                }),
                remember_dev,
            ),
        ),
{
    let token = if remember_dev {
        "yes"
    } else {
        "no"
    };
    let mut params = crate::client::params4(
        "account",
        creds.account.clone(),
        "passwd",
        creds.passwd.clone(),
        "format",
        "cookie".to_owned(),
        "enable_device_token",
        token.to_owned(),
    );
    let ghost base = param_views(params@);
    if let Some(otp) = &creds.otp_code {
        crate::client::push_param(&mut params, "otp_code", otp.clone());
    }
    let ghost with_otp = param_views(params@);
    if let Some(did) = &creds.device_id {
        crate::client::push_param(&mut params, "device_id", did.as_str().to_owned());
    }
    let ghost with_did = param_views(params@);
    if remember_dev {
        crate::client::push_param(&mut params, "device_name", "syno_photos_util".to_owned());
    }
    proof {
        let want = spec_login_params(
            creds.account@,
            creds.passwd@,
            (match &creds.otp_code {
                Some(o) => Some(o@),
                None => None::<Seq<char>>,
            }),
            (match &creds.device_id {
                Some(d) => Some(d@),
                None => None::<Seq<char>>,
            }),
            remember_dev,
        );
        assert(base =~= seq![
            ("account"@, creds.account@),
            ("passwd"@, creds.passwd@),
            ("format"@, "cookie"@),
            (
                "enable_device_token"@,
                if remember_dev {
                    "yes"@
                } else {
                    "no"@
                },
            ),
        ]);
        assert(param_views(params@) =~= want);
    }
    post_request(ApiParams::new(crate::api::auth_api(), "login", 6), params)
}

/// Where the login flow stands.
#[derive(Clone, Copy, Debug, PartialEq, Eq, Structural)]
pub enum LoginPhase {
    /// The first attempt, without an OTP code, is out or about to go out.
    FirstAttempt,
    /// The first attempt was refused for a missing second factor: an OTP code
    /// must be read before anything else is sent.
    AwaitingOtp,
    /// The retry with the OTP code attached is out or about to go out.
    SecondAttempt,
    /// Signed in.
    Succeeded,
    /// The flow is over without a session.
    Failed(LoginFailure),
}

/// Why the login flow ended without a session.
#[derive(Clone, Copy, Debug, PartialEq, Eq, Structural)]
pub enum LoginFailure {
    /// The server refused the attempt with this domain error code, surfaced
    /// verbatim.
    Dsm(u16),
    /// The OTP prompt returned a blank code: no retry is sent.
    BlankOtp,
}

/// The authentication exchange as a state machine: one attempt, at most one
/// retry, and the retry only on the two MFA domain errors and only with a
/// non-blank OTP code in hand.
#[derive(Debug)]
pub struct LoginFlow {
    pub phase: LoginPhase,
}

impl LoginFlow {
    /// A login starts with its first attempt.
    pub fn new() -> (r: Self)
        ensures
            r.phase == LoginPhase::FirstAttempt,
    {
        LoginFlow { phase: LoginPhase::FirstAttempt }
    }

    /// The server accepted the outstanding attempt.
    pub fn on_success(&mut self)
        requires
            old(self).phase == LoginPhase::FirstAttempt || old(self).phase
                == LoginPhase::SecondAttempt,
        ensures
            final(self).phase == LoginPhase::Succeeded,
    {
        self.phase = LoginPhase::Succeeded;
    }

    /// The server refused the outstanding attempt with a domain error. On the
    /// first attempt the two MFA codes ask for an OTP code; every other code,
    /// and any code on the retry, ends the flow with that error.
    pub fn on_dsm_error(&mut self, code: u16)
        requires
            old(self).phase == LoginPhase::FirstAttempt || old(self).phase
                == LoginPhase::SecondAttempt,
        ensures
            old(self).phase == LoginPhase::FirstAttempt && spec_is_mfa_code(code) ==> final(self).phase == LoginPhase::AwaitingOtp,
            old(self).phase == LoginPhase::FirstAttempt && !spec_is_mfa_code(code) ==> final(self).phase == LoginPhase::Failed(LoginFailure::Dsm(code)),
            old(self).phase == LoginPhase::SecondAttempt ==> final(self).phase
                == LoginPhase::Failed(LoginFailure::Dsm(code)),
    {
        let first = match self.phase {
            LoginPhase::FirstAttempt => true,
            _ => false,
        };
        if first && crate::api::is_mfa_code(code) {
            self.phase = LoginPhase::AwaitingOtp;
        } else {
            self.phase = LoginPhase::Failed(LoginFailure::Dsm(code));
        }
    }

    /// Hands the prompted OTP code to the flow. A blank code fails the login
    /// on the spot — the retry is never sent — while a usable code is
    /// attached to the credentials and the retry becomes due.
    pub fn provide_otp(&mut self, creds: &mut UserCredentials<'_>, otp: String)
        requires
            old(self).phase == LoginPhase::AwaitingOtp,
        ensures
            is_blank(otp@) ==> final(self).phase == LoginPhase::Failed(LoginFailure::BlankOtp)
                && *final(creds) == *old(creds),
            !is_blank(otp@) ==> {
                &&& final(self).phase == LoginPhase::SecondAttempt
                &&& final(creds).otp_code matches Some(o) && o@ == otp@
                &&& final(creds).account == old(creds).account
                &&& final(creds).passwd == old(creds).passwd
                &&& final(creds).device_id == old(creds).device_id
            },
    {
        match creds.set_otp(otp) {
            Ok(_) => {
                self.phase = LoginPhase::SecondAttempt;
            },
            Err(_) => {
                self.phase = LoginPhase::Failed(LoginFailure::BlankOtp);
            },
        }
    }
}

} // verus!

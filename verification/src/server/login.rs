//! The sign-in rules of the server: which requests an unauthorized
//! connection may make, and the steps of signing in by phone code.
use vstd::prelude::*;
use crate::text::text_eq;

verus! {

/// An error answered to a request: its code and its text.
#[derive(Debug, Clone)]
pub struct RpcFailure {
    pub code: i32,
    pub message: String,
}

/// The failure with the given code and text.
fn failure(code: i32, message: &str) -> (f: RpcFailure)
    ensures
        f.code == code,
        f.message@ == message@,
{
    RpcFailure { code, message: String::from_str(message) }
}

/// The result `r` is the failure with the given code and text.
pub open spec fn fails_with(r: Result<(), RpcFailure>, code: i32, message: Seq<char>) -> bool {
    r matches Err(f) && f.code == code && f.message@ == message
}

/// Requests that need a signed-in user are refused before that.
pub fn require_authorized(authorized: bool) -> (r: Result<(), RpcFailure>)
    ensures
        authorized ==> r is Ok,
        !authorized ==> fails_with(r, 401, "UNAUTHORIZED"@),
{
    if !authorized {
        return Err(failure(401, "UNAUTHORIZED"));
    }
    Ok(())
}

/// The sign-in state of a connection: the phone number given, whether its
/// code was confirmed, and the code sent.
#[derive(Debug)]
pub struct LoginFlow {
    pub phone_number: String,
    pub phone_number_verified: bool,
    pub code: String,
}

/// The model of a [`LoginFlow`].
pub struct LoginView {
    pub phone_number: Seq<char>,
    pub verified: bool,
    pub code: Seq<char>,
}

impl View for LoginFlow {
    type V = LoginView;

    open spec fn view(&self) -> LoginView {
        LoginView { phone_number: self.phone_number@, verified: self.phone_number_verified, code: self.code@ }
    }
}

/// The code every phone number is sent.
pub open spec fn sent_code() -> Seq<char> {
    "12345"@
}

impl LoginFlow {
    /// A connection that has not started signing in.
    pub fn new() -> (f: LoginFlow)
        ensures
            f@ == (LoginView { phone_number: Seq::empty(), verified: false, code: Seq::empty() }),
    {
        LoginFlow { phone_number: String::new(), phone_number_verified: false, code: String::new() }
    }

    /// `auth.sendCode`: refused once signed in; otherwise remembers the
    /// number and sends it the code.
    pub fn send_code(&mut self, authorized: bool, phone_number: String) -> (r: Result<(), RpcFailure>)
        ensures
            authorized ==> fails_with(r, 400, "PHONE_NUMBER_FLOOD"@) && final(self)@ == old(self)@,
            !authorized ==> r is Ok && final(self)@ == (LoginView {
                phone_number: phone_number@,
                code: sent_code(),
                ..old(self)@
            }),
    {
        if authorized {
            return Err(failure(400, "PHONE_NUMBER_FLOOD"));
        }
        self.phone_number = phone_number;
        self.code = String::from_str("12345");
        Ok(())
    }

    /// `auth.signIn`, up to the user lookup: refused once signed in, without
    /// a code, or with another code than the one sent; otherwise the number
    /// is confirmed.
    pub fn check_sign_in(&mut self, authorized: bool, phone_code: Option<String>) -> (r: Result<(), RpcFailure>)
        ensures
            authorized ==> fails_with(r, 500, "SIGN_IN_FAILED"@) && final(self)@ == old(self)@,
            !authorized && phone_code is None ==> fails_with(r, 400, "PHONE_CODE_EMPTY"@) && final(self)@
                == old(self)@,
            !authorized && phone_code is Some && phone_code->0@ != old(self)@.code ==> fails_with(
                r,
                400,
                "PHONE_CODE_INVALID"@,
            ) && final(self)@ == old(self)@,
            !authorized && phone_code is Some && phone_code->0@ == old(self)@.code ==> r is Ok
                && final(self)@ == (LoginView { verified: true, ..old(self)@ }),
    {
        if authorized {
            return Err(failure(500, "SIGN_IN_FAILED"));
        }
        match phone_code {
            Some(code) => {
                if !text_eq(code.as_str(), self.code.as_str()) {
                    return Err(failure(400, "PHONE_CODE_INVALID"));
                }
            },
            None => {
                return Err(failure(400, "PHONE_CODE_EMPTY"));
            },
        }
        self.phone_number_verified = true;
        Ok(())
    }

    /// `auth.signUp`, up to creating the user: refused once signed in, and
    /// before the number was confirmed.
    pub fn check_sign_up(&self, authorized: bool) -> (r: Result<(), RpcFailure>)
        ensures
            authorized ==> fails_with(r, 500, "PHONE_NUMBER_FLOOD"@),
            !authorized && !self@.verified ==> fails_with(r, 406, "PHONE_NUMBER_INVALID"@),
            !authorized && self@.verified ==> r is Ok,
    {
        if authorized {
            return Err(failure(500, "PHONE_NUMBER_FLOOD"));
        }
        if !self.phone_number_verified {
            return Err(failure(406, "PHONE_NUMBER_INVALID"));
        }
        Ok(())
    }
}

} // verus!

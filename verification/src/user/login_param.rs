//! What a user hands in to log in, one type for each way of doing so.

use vstd::prelude::*;
use vstd::string::*;

verus! {

/// The seconds that a login by address or number lasts.
pub const LOGIN_TIME_OUT: u64 = 86400;

/// A way to log in: for how long the login lasts, and what the way is
/// called.
#[derive(Debug)]
pub struct LoginType {
    pub time_out: u64,
    pub name: String,
}

/// A login with an e-mail address and the account's password.
#[derive(Debug)]
pub struct EmailLogin {
    pub email: String,
    pub password: String,
}

/// A login with an e-mail address and a code that was sent to it.
#[derive(Debug)]
pub struct EmailCodeLogin {
    pub email: String,
    pub code: String,
}

/// A login with a mobile number and the account's password.
#[derive(Debug)]
pub struct MobileLogin {
    pub area_code: String,
    pub mobile: String,
    pub password: String,
}

impl EmailLogin {
    /// The login's type, called `name` in the user's language.
    pub fn get_type(&self, name: String) -> (out: LoginType)
        ensures
            out.time_out == LOGIN_TIME_OUT,
            out.name == name,
    {
        LoginType { time_out: LOGIN_TIME_OUT, name }
    }

    /// The name that the user is known by in messages about the login.
    pub fn show_name(&self) -> (out: String)
        ensures
            out@ == self.email@,
    {
        self.email.clone()
    }
}

impl EmailCodeLogin {
    /// The login's type, called `name` in the user's language.
    pub fn get_type(&self, name: String) -> (out: LoginType)
        ensures
            out.time_out == LOGIN_TIME_OUT,
            out.name == name,
    {
        LoginType { time_out: LOGIN_TIME_OUT, name }
    }

    /// The name that the user is known by in messages about the login.
    pub fn show_name(&self) -> (out: String)
        ensures
            out@ == self.email@,
    {
        self.email.clone()
    }

    /// The seconds for which a code that was sent stays good.
    pub fn valid_code_time() -> (out: u64)
        ensures
            out == 300,
    {
        5 * 60
    }
}

impl MobileLogin {
    /// The login's type, called `name` in the user's language.
    pub fn get_type(&self, name: String) -> (out: LoginType)
        ensures
            out.time_out == LOGIN_TIME_OUT,
            out.name == name,
    {
        LoginType { time_out: LOGIN_TIME_OUT, name }
    }

    /// The name that the user is known by in messages about the login: the
    /// number, and the area code in square brackets.
    pub fn show_name(&self) -> (out: String)
        ensures
            out@ == self.mobile@ + "["@ + self.area_code@ + "]"@,
    {
        let mut out = self.mobile.clone();
        out.append("[");
        out.append(self.area_code.as_str());
        out.append("]");
        out
    }
}

} // verus!

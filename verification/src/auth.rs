//! The login flow: phone-code and QR sign-in over a pluggable client, the
//! closed set of outcomes, and the pure decisions the interactive loop
//! follows.

use vstd::prelude::*;

use crate::text::append_str;

verus! {

/// Errors the transport layer surfaces to the core, as plain text by class.
#[derive(Debug, PartialEq, Eq)]
pub enum TelegramError {
    Invocation(String),
    SignIn(String),
    Sqlite(String),
    Io(String),
    UpdatePumpUnavailable,
}

/// The closed set of sign-in outcomes.
#[derive(Debug, Clone, PartialEq, Eq)]
pub enum AuthResult<P> {
    Authorized,
    PasswordRequired(P),
    InvalidCode,
    InvalidPassword,
    SignUpRequired,
}

/// A pending phone login holding the code token.
#[derive(Debug, Clone, PartialEq, Eq)]
pub struct PhoneLogin<T> {
    pub token: T,
}

impl<T> PhoneLogin<T> {
    /// The login token the code must be submitted with.
    pub fn token(&self) -> (r: &T)
        ensures
            *r == self.token,
    {
        &self.token
    }
}

/// A pending QR login: the token to display, and where to poll.
#[derive(Debug, PartialEq, Eq)]
pub struct QrLogin {
    pub token: Vec<u8>,
    pub expires: Option<i32>,
    pub dc_id: Option<i32>,
}

impl Clone for QrLogin {
    fn clone(&self) -> (res: Self)
        ensures
            res.token@ == self.token@,
            res.expires == self.expires,
            res.dc_id == self.dc_id,
    {
        let mut token: Vec<u8> = Vec::new();
        let n = self.token.len();
        let mut i: usize = 0;
        while i < n
            invariant
                i <= n,
                n == self.token@.len(),
                token@.len() == i,
                forall|j: int| 0 <= j < i ==> token@[j] == self.token@[j],
            decreases n - i,
        {
            token.push(self.token[i]);
            i = i + 1;
        }
        proof {
            assert(token@ =~= self.token@);
        }
        QrLogin { token, expires: self.expires, dc_id: self.dc_id }
    }
}

/// What one QR poll yields.
#[derive(Debug, PartialEq, Eq)]
pub enum QrLoginResult {
    Pending(QrLogin),
    Authorized,
}

/// The transport capability the flow signs in over; the interactive shell
/// implements it against the wire, tests implement it in memory.
pub trait AuthClient {
    type LoginToken;

    type PasswordToken;

    fn is_authorized(&self) -> Result<bool, TelegramError>;

    fn request_login_code(&self, phone: &str, api_hash: &str) -> Result<
        Self::LoginToken,
        TelegramError,
    >;

    fn sign_in(&self, token: &Self::LoginToken, code: &str) -> Result<
        AuthResult<Self::PasswordToken>,
        TelegramError,
    >;

    fn check_password(&self, token: Self::PasswordToken, password: &str) -> Result<
        AuthResult<Self::PasswordToken>,
        TelegramError,
    >;

    fn export_login_token(&self, api_id: i32, api_hash: &str, except_ids: &Vec<i64>) -> Result<
        QrLoginResult,
        TelegramError,
    >;

    fn import_login_token(&self, token: &Vec<u8>, dc_id: Option<i32>) -> Result<
        QrLoginResult,
        TelegramError,
    >;
}

/// Drives a login over one client with one identity.
pub struct AuthFlow<C: AuthClient> {
    pub client: C,
    pub api_id: i32,
    pub api_hash: String,
    pub except_ids: Vec<i64>,
}

impl<C: AuthClient> AuthFlow<C> {
    /// A flow over the given client and identity.
    pub fn new(client: C, api_id: i32, api_hash: String, except_ids: Vec<i64>) -> (r: Self)
        ensures
            r.api_id == api_id,
            r.api_hash == api_hash,
            r.except_ids == except_ids,
    {
        AuthFlow { client, api_id, api_hash, except_ids }
    }

    /// Whether the session is already signed in.
    pub fn is_authorized(&self) -> Result<bool, TelegramError> {
        self.client.is_authorized()
    }

    /// Requests a login code for a phone number.
    pub fn begin_phone_login(&self, phone: &str) -> Result<
        PhoneLogin<C::LoginToken>,
        TelegramError,
    > {
        match self.client.request_login_code(phone, self.api_hash.as_str()) {
            Ok(token) => Ok(PhoneLogin { token }),
            Err(e) => Err(e),
        }
    }

    /// Submits the received code.
    pub fn submit_phone_code(&self, login: &PhoneLogin<C::LoginToken>, code: &str) -> Result<
        AuthResult<C::PasswordToken>,
        TelegramError,
    > {
        self.client.sign_in(&login.token, code)
    }

    /// Submits the second-factor password.
    pub fn submit_password(&self, token: C::PasswordToken, password: &str) -> Result<
        AuthResult<C::PasswordToken>,
        TelegramError,
    > {
        self.client.check_password(token, password)
    }

    /// Starts a QR login.
    pub fn begin_qr_login(&self) -> Result<QrLoginResult, TelegramError> {
        self.client.export_login_token(self.api_id, self.api_hash.as_str(), &self.except_ids)
    }

    /// Polls a pending QR login.
    pub fn poll_qr_login(&self, login: &QrLogin) -> Result<QrLoginResult, TelegramError> {
        self.client.import_login_token(&login.token, login.dc_id)
    }
}

/// What the interactive loop does after one code submission.
#[derive(Debug, Clone, Copy, PartialEq, Eq, Structural)]
pub enum PhoneCodeStep {
    Done,
    AskPassword,
    RetryCode,
    Abort,
}

/// The decision after submitting a code: authorized ends the flow, a password
/// demand asks for the second factor, wrong inputs re-prompt, and a sign-up
/// demand aborts.
pub fn phone_code_step<P>(result: &AuthResult<P>) -> (r: PhoneCodeStep)
    ensures
        r == match *result {
            AuthResult::Authorized => PhoneCodeStep::Done,
            AuthResult::PasswordRequired(_) => PhoneCodeStep::AskPassword,
            AuthResult::InvalidCode => PhoneCodeStep::RetryCode,
            AuthResult::InvalidPassword => PhoneCodeStep::RetryCode,
            AuthResult::SignUpRequired => PhoneCodeStep::Abort,
        },
{
    match result {
        AuthResult::Authorized => PhoneCodeStep::Done,
        AuthResult::PasswordRequired(_) => PhoneCodeStep::AskPassword,
        AuthResult::InvalidCode => PhoneCodeStep::RetryCode,
        AuthResult::InvalidPassword => PhoneCodeStep::RetryCode,
        AuthResult::SignUpRequired => PhoneCodeStep::Abort,
    }
}

/// What the interactive loop does after one password submission.
#[derive(Debug, Clone, Copy, PartialEq, Eq, Structural)]
pub enum PasswordStep {
    Done,
    RetryPassword,
    Abort,
    Ignore,
}

/// The decision after submitting the password: authorized ends the flow, a
/// wrong password re-prompts, a sign-up demand aborts, anything else is
/// ignored and the code is asked again.
pub fn password_step<P>(result: &AuthResult<P>) -> (r: PasswordStep)
    ensures
        r == match *result {
            AuthResult::Authorized => PasswordStep::Done,
            AuthResult::InvalidPassword => PasswordStep::RetryPassword,
            AuthResult::SignUpRequired => PasswordStep::Abort,
            AuthResult::InvalidCode => PasswordStep::Ignore,
            AuthResult::PasswordRequired(_) => PasswordStep::Ignore,
        },
{
    match result {
        AuthResult::Authorized => PasswordStep::Done,
        AuthResult::InvalidPassword => PasswordStep::RetryPassword,
        AuthResult::SignUpRequired => PasswordStep::Abort,
        AuthResult::InvalidCode => PasswordStep::Ignore,
        AuthResult::PasswordRequired(_) => PasswordStep::Ignore,
    }
}

/// Whether a freshly polled pending login means the QR code must be shown
/// again: a different token body or a different datacenter.
pub fn qr_needs_redisplay(pending: &QrLogin, fresh: &QrLogin) -> (r: bool)
    ensures
        r == (fresh.token@ != pending.token@ || fresh.dc_id != pending.dc_id),
{
    let mut same_token = fresh.token.len() == pending.token.len();
    if same_token {
        let n = fresh.token.len();
        let mut i: usize = 0;
        while i < n
            invariant
                i <= n,
                n == fresh.token@.len(),
                n == pending.token@.len(),
                same_token ==> forall|j: int| 0 <= j < i ==> fresh.token@[j] == pending.token@[j],
                !same_token ==> fresh.token@ != pending.token@,
            decreases n - i,
        {
            if fresh.token[i] != pending.token[i] {
                proof {
                    assert(fresh.token@[i as int] != pending.token@[i as int]);
                }
                same_token = false;
                i = n;
            } else {
                i = i + 1;
            }
        }
        proof {
            if same_token {
                assert(fresh.token@ =~= pending.token@);
            }
        }
    }
    let same_dc = match (fresh.dc_id, pending.dc_id) {
        (Some(a), Some(b)) => a == b,
        (None, None) => true,
        _ => false,
    };
    !same_token || !same_dc
}

/// What the URL-safe, unpadded base64 encoding of a byte string is: a
/// function of the bytes alone.
pub uninterp spec fn base64url_of(bytes: Seq<u8>) -> Seq<char>;

/// Relies on `base64`'s `URL_SAFE_NO_PAD` engine: the encoding depends on
/// the bytes alone, and no bytes encode to no characters.
#[verifier::external_body]
fn base64url_no_pad(bytes: &Vec<u8>) -> (r: String)
    ensures
        r@ == base64url_of(bytes@),
        bytes@.len() == 0 ==> r@.len() == 0,
{
    base64::Engine::encode(&base64::engine::general_purpose::URL_SAFE_NO_PAD, bytes)
}

/// The login URL a QR token is displayed as.
pub fn qr_login_url(token: &Vec<u8>) -> (r: String)
    ensures
        r@ == "tg://login?token="@ + base64url_of(token@),
{
    let mut out = String::new();
    append_str(&mut out, "tg://login?token=");
    let encoded = base64url_no_pad(token);
    append_str(&mut out, encoded.as_str());
    proof {
        assert(out@ =~= "tg://login?token="@ + base64url_of(token@));
    }
    out
}

} // verus!

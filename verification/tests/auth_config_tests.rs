use std::cell::RefCell;
use std::collections::VecDeque;

use telegram_core::auth::{
    password_step, phone_code_step, qr_login_url, qr_needs_redisplay, AuthClient, AuthFlow,
    AuthResult, PasswordStep, PhoneCodeStep, QrLogin, QrLoginResult, TelegramError,
};
use telegram_core::config::{
    normalize_send_queue_limit, normalize_send_retry_attempts, parse_auth_method, parse_log_format,
    parse_log_rotation, parse_rotation_files, parse_rotation_size_mb, parse_u64, AuthMethod,
    ConfigError, LogFormat, LogRotation,
};

struct MockAuthClient {
    authorized: bool,
    login_token: String,
    sign_in_result: RefCell<Option<AuthResult<String>>>,
    qr_export_result: RefCell<Option<QrLoginResult>>,
    qr_import_results: RefCell<VecDeque<QrLoginResult>>,
}

impl MockAuthClient {
    fn new() -> Self {
        MockAuthClient {
            authorized: false,
            login_token: "token".to_string(),
            sign_in_result: RefCell::new(Some(AuthResult::Authorized)),
            qr_export_result: RefCell::new(Some(QrLoginResult::Authorized)),
            qr_import_results: RefCell::new(VecDeque::new()),
        }
    }
}

impl AuthClient for MockAuthClient {
    type LoginToken = String;
    type PasswordToken = String;

    fn is_authorized(&self) -> Result<bool, TelegramError> {
        Ok(self.authorized)
    }

    fn request_login_code(&self, _phone: &str, _api_hash: &str) -> Result<String, TelegramError> {
        Ok(self.login_token.clone())
    }

    fn sign_in(&self, _token: &String, _code: &str) -> Result<AuthResult<String>, TelegramError> {
        Ok(self.sign_in_result.borrow().clone().unwrap_or(AuthResult::Authorized))
    }

    fn check_password(
        &self,
        _token: String,
        _password: &str,
    ) -> Result<AuthResult<String>, TelegramError> {
        Ok(AuthResult::Authorized)
    }

    fn export_login_token(
        &self,
        _api_id: i32,
        _api_hash: &str,
        _except_ids: &Vec<i64>,
    ) -> Result<QrLoginResult, TelegramError> {
        Ok(self.qr_export_result.borrow_mut().take().unwrap_or(QrLoginResult::Authorized))
    }

    fn import_login_token(
        &self,
        _token: &Vec<u8>,
        _dc_id: Option<i32>,
    ) -> Result<QrLoginResult, TelegramError> {
        Ok(self
            .qr_import_results
            .borrow_mut()
            .pop_front()
            .unwrap_or(QrLoginResult::Authorized))
    }
}

#[test]
fn phone_login_returns_token() {
    let client = MockAuthClient::new();
    let flow = AuthFlow::new(client, 1, "hash".to_string(), vec![]);

    let login = flow.begin_phone_login("+123").unwrap();
    assert_eq!(login.token().as_str(), "token");
}

#[test]
fn phone_login_handles_password_requirement() {
    let client = MockAuthClient::new();
    *client.sign_in_result.borrow_mut() = Some(AuthResult::PasswordRequired("pwd".to_string()));
    let flow = AuthFlow::new(client, 1, "hash".to_string(), vec![]);

    let login = flow.begin_phone_login("+123").unwrap();
    let result = flow.submit_phone_code(&login, "12345").unwrap();
    assert_eq!(result, AuthResult::PasswordRequired("pwd".to_string()));
}

#[test]
fn qr_login_exports_and_polls() {
    let client = MockAuthClient::new();
    *client.qr_export_result.borrow_mut() = Some(QrLoginResult::Pending(QrLogin {
        token: vec![1, 2, 3],
        expires: Some(10),
        dc_id: None,
    }));
    client.qr_import_results.borrow_mut().push_back(QrLoginResult::Authorized);

    let flow = AuthFlow::new(client, 1, "hash".to_string(), vec![]);
    let result = flow.begin_qr_login().unwrap();
    let login = match result {
        QrLoginResult::Pending(login) => login,
        QrLoginResult::Authorized => panic!("expected pending login"),
    };

    let poll = flow.poll_qr_login(&login).unwrap();
    assert_eq!(poll, QrLoginResult::Authorized);
}

#[test]
fn login_steps_follow_the_outcomes() {
    assert_eq!(phone_code_step::<String>(&AuthResult::Authorized), PhoneCodeStep::Done);
    assert_eq!(
        phone_code_step(&AuthResult::PasswordRequired("p".to_string())),
        PhoneCodeStep::AskPassword
    );
    assert_eq!(phone_code_step::<String>(&AuthResult::InvalidCode), PhoneCodeStep::RetryCode);
    assert_eq!(phone_code_step::<String>(&AuthResult::SignUpRequired), PhoneCodeStep::Abort);
    assert_eq!(password_step::<String>(&AuthResult::Authorized), PasswordStep::Done);
    assert_eq!(password_step::<String>(&AuthResult::InvalidPassword), PasswordStep::RetryPassword);
    assert_eq!(password_step::<String>(&AuthResult::SignUpRequired), PasswordStep::Abort);
    assert_eq!(password_step::<String>(&AuthResult::InvalidCode), PasswordStep::Ignore);
}

#[test]
fn qr_redisplay_on_new_token_or_datacenter() {
    let pending = QrLogin { token: vec![1, 2, 3], expires: Some(10), dc_id: None };
    let same = QrLogin { token: vec![1, 2, 3], expires: Some(99), dc_id: None };
    assert!(!qr_needs_redisplay(&pending, &same));
    let new_token = QrLogin { token: vec![9], expires: Some(10), dc_id: None };
    assert!(qr_needs_redisplay(&pending, &new_token));
    let new_dc = QrLogin { token: vec![1, 2, 3], expires: Some(10), dc_id: Some(4) };
    assert!(qr_needs_redisplay(&pending, &new_dc));
}

#[test]
fn qr_url_uses_unpadded_url_safe_base64() {
    let token: Vec<u8> = vec![251, 255, 190];
    assert_eq!(qr_login_url(&token), "tg://login?token=-_--");
    let empty: Vec<u8> = Vec::new();
    assert_eq!(qr_login_url(&empty), "tg://login?token=");
}

#[test]
fn auth_method_parses_case_insensitively() {
    assert_eq!(parse_auth_method(" Phone ".to_string()), Ok(AuthMethod::Phone));
    assert_eq!(parse_auth_method("qr".to_string()), Ok(AuthMethod::Qr));
    assert_eq!(
        parse_auth_method("sms".to_string()),
        Err(ConfigError::InvalidAuthMethod("sms".to_string()))
    );
}

#[test]
fn log_options_parse() {
    assert_eq!(parse_log_format("PLAIN".to_string()), Ok(LogFormat::Plain));
    assert_eq!(
        parse_log_format("json".to_string()),
        Err(ConfigError::InvalidLogFormat("json".to_string()))
    );
    assert_eq!(parse_log_rotation("size".to_string()), Ok(LogRotation::Size));
    assert_eq!(parse_log_rotation("Daily".to_string()), Ok(LogRotation::Daily));
    assert_eq!(
        parse_log_rotation("hourly".to_string()),
        Err(ConfigError::InvalidLogRotation("hourly".to_string()))
    );
}

#[test]
fn rotation_limits_parse_and_reject_zero() {
    assert_eq!(parse_rotation_size_mb("2".to_string()), Ok(2 * 1024 * 1024));
    assert_eq!(
        parse_rotation_size_mb("0".to_string()),
        Err(ConfigError::InvalidLogRotationSize("0".to_string()))
    );
    assert_eq!(
        parse_rotation_size_mb("nope".to_string()),
        Err(ConfigError::InvalidLogRotationSize("nope".to_string()))
    );
    assert_eq!(parse_rotation_files(" 5 ".to_string()), Ok(5));
    assert_eq!(
        parse_rotation_files("0".to_string()),
        Err(ConfigError::InvalidLogRotationFiles("0".to_string()))
    );
}

#[test]
fn decimal_parsing_matches_the_grammar() {
    assert_eq!(parse_u64("1024"), Some(1024));
    assert_eq!(parse_u64("+7"), Some(7));
    assert_eq!(parse_u64(""), None);
    assert_eq!(parse_u64("+"), None);
    assert_eq!(parse_u64("12a"), None);
    assert_eq!(parse_u64("-3"), None);
    assert_eq!(parse_u64("18446744073709551615"), Some(u64::MAX));
    assert_eq!(parse_u64("18446744073709551616"), None);
}

#[test]
fn queue_and_retry_normalization() {
    assert_eq!(normalize_send_queue_limit(0), 256);
    assert_eq!(normalize_send_queue_limit(9), 9);
    assert_eq!(normalize_send_retry_attempts(0), None);
    assert_eq!(normalize_send_retry_attempts(3), Some(3));
}

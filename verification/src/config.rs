//! Configuration values the core recognizes, and the verified parsing and
//! normalization of the options that shape the pipelines. Reading the
//! environment and the configuration file stays outside the library.

use vstd::prelude::*;

use crate::text::{lower_of, str_chars, str_eq, to_lowercase, trim, trimmed_of};

verus! {

/// How the user signs in when unauthorized.
#[derive(Debug, Clone, Copy, PartialEq, Eq, Structural)]
pub enum AuthMethod {
    Phone,
    Qr,
}

/// The one log format the logging setup recognizes.
#[derive(Debug, Clone, Copy, PartialEq, Eq, Structural)]
pub enum LogFormat {
    Plain,
}

/// How log files are rotated.
#[derive(Debug, Clone, Copy, PartialEq, Eq, Structural)]
pub enum LogRotation {
    Size,
    Daily,
}

/// Why the configuration was rejected at startup.
#[derive(Debug, PartialEq, Eq)]
pub enum ConfigError {
    Missing(&'static str),
    InvalidApiId(String),
    InvalidUpdateBuffer(String),
    InvalidAuthMethod(String),
    InvalidLogPath(String),
    InvalidLogLevel(String),
    InvalidLogFormat(String),
    InvalidLogRotation(String),
    InvalidLogRotationSize(String),
    InvalidLogRotationFiles(String),
    ConfigRead(String),
    CurrentDir(String),
}

/// The canonical form an enumerant option is matched in.
pub open spec fn spec_canon(raw: Seq<char>) -> Seq<char> {
    lower_of(trimmed_of(raw))
}

/// Parses the login method: `phone` or `qr`, case-insensitively.
pub fn parse_auth_method(raw: String) -> (r: Result<AuthMethod, ConfigError>)
    ensures
        spec_canon(raw@) == "phone"@ ==> r == Ok::<AuthMethod, ConfigError>(AuthMethod::Phone),
        spec_canon(raw@) == "qr"@ ==> r == Ok::<AuthMethod, ConfigError>(AuthMethod::Qr),
        (spec_canon(raw@) != "phone"@ && spec_canon(raw@) != "qr"@) ==> (r matches Err(e) && e
            matches ConfigError::InvalidAuthMethod(s) && s@ == spec_canon(raw@)),
{
    proof {
        reveal_strlit("phone");
        reveal_strlit("qr");
        assert("phone"@.len() == 5);
        assert("qr"@.len() == 2);
    }
    let canon = to_lowercase(trim(raw.as_str()));
    if str_eq(canon.as_str(), "phone") {
        Ok(AuthMethod::Phone)
    } else if str_eq(canon.as_str(), "qr") {
        Ok(AuthMethod::Qr)
    } else {
        Err(ConfigError::InvalidAuthMethod(canon))
    }
}

/// Parses the log format: only `plain`, case-insensitively.
pub fn parse_log_format(raw: String) -> (r: Result<LogFormat, ConfigError>)
    ensures
        spec_canon(raw@) == "plain"@ ==> r == Ok::<LogFormat, ConfigError>(LogFormat::Plain),
        spec_canon(raw@) != "plain"@ ==> (r matches Err(e) && e
            matches ConfigError::InvalidLogFormat(s) && s@ == spec_canon(raw@)),
{
    let canon = to_lowercase(trim(raw.as_str()));
    if str_eq(canon.as_str(), "plain") {
        Ok(LogFormat::Plain)
    } else {
        Err(ConfigError::InvalidLogFormat(canon))
    }
}

/// Parses the log rotation: `size` or `daily`, case-insensitively.
pub fn parse_log_rotation(raw: String) -> (r: Result<LogRotation, ConfigError>)
    ensures
        spec_canon(raw@) == "size"@ ==> r == Ok::<LogRotation, ConfigError>(LogRotation::Size),
        spec_canon(raw@) == "daily"@ ==> r == Ok::<LogRotation, ConfigError>(LogRotation::Daily),
        (spec_canon(raw@) != "size"@ && spec_canon(raw@) != "daily"@) ==> (r matches Err(e) && e
            matches ConfigError::InvalidLogRotation(s) && s@ == spec_canon(raw@)),
{
    proof {
        reveal_strlit("size");
        reveal_strlit("daily");
        assert("size"@.len() == 4);
        assert("daily"@.len() == 5);
    }
    let canon = to_lowercase(trim(raw.as_str()));
    if str_eq(canon.as_str(), "size") {
        Ok(LogRotation::Size)
    } else if str_eq(canon.as_str(), "daily") {
        Ok(LogRotation::Daily)
    } else {
        Err(ConfigError::InvalidLogRotation(canon))
    }
}

/// The value of a decimal digit character, or -1.
pub open spec fn spec_digit_value(c: char) -> int {
    if c == '0' {
        0
    } else if c == '1' {
        1
    } else if c == '2' {
        2
    } else if c == '3' {
        3
    } else if c == '4' {
        4
    } else if c == '5' {
        5
    } else if c == '6' {
        6
    } else if c == '7' {
        7
    } else if c == '8' {
        8
    } else if c == '9' {
        9
    } else {
        -1
    }
}

/// Folds decimal digits left to right onto an accumulator; a non-digit or a
/// value beyond 64 bits gives nothing.
pub open spec fn spec_fold_digits(s: Seq<char>, acc: int) -> Option<int>
    decreases s.len(),
{
    if s.len() == 0 {
        Some(acc)
    } else if spec_digit_value(s[0]) < 0 {
        None::<int>
    } else {
        let acc2 = acc * 10 + spec_digit_value(s[0]);
        if acc2 > u64::MAX {
            None::<int>
        } else {
            spec_fold_digits(s.drop_first(), acc2)
        }
    }
}

/// The unsigned decimal number a string parses as: an optional leading plus
/// sign, then at least one digit, fitting 64 bits.
pub open spec fn spec_parse_u64(s: Seq<char>) -> Option<int> {
    let body = if s.len() > 0 && s[0] == '+' {
        s.drop_first()
    } else {
        s
    };
    if body.len() == 0 {
        None::<int>
    } else {
        spec_fold_digits(body, 0)
    }
}

fn digit_value(c: char) -> (r: i8)
    ensures
        r as int == spec_digit_value(c),
{
    if c == '0' {
        0
    } else if c == '1' {
        1
    } else if c == '2' {
        2
    } else if c == '3' {
        3
    } else if c == '4' {
        4
    } else if c == '5' {
        5
    } else if c == '6' {
        6
    } else if c == '7' {
        7
    } else if c == '8' {
        8
    } else if c == '9' {
        9
    } else {
        -1
    }
}

/// Parses an unsigned decimal number.
pub fn parse_u64(raw: &str) -> (r: Option<u64>)
    ensures
        match spec_parse_u64(raw@) {
            Some(v) => r == Some(v as u64) && 0 <= v <= u64::MAX,
            None => r is None,
        },
{
    let chars = str_chars(raw);
    let n = chars.len();
    let start: usize = if n > 0 && chars[0] == '+' {
        1
    } else {
        0
    };
    proof {
        if start == 1 {
            assert(chars@.drop_first() =~= chars@.skip(1));
        } else {
            assert(chars@ =~= chars@.skip(0));
        }
    }
    if start >= n {
        return None;
    }
    let ghost body = chars@.skip(start as int);
    proof {
        assert(body.len() > 0);
        assert(spec_parse_u64(raw@) == spec_fold_digits(body, 0));
    }
    let mut acc: u64 = 0;
    let mut i: usize = start;
    while i < n
        invariant
            start <= i <= n,
            n == chars@.len(),
            body == chars@.skip(start as int),
            body.len() == n - start,
            spec_parse_u64(raw@) == spec_fold_digits(body, 0),
            spec_fold_digits(body, 0) == spec_fold_digits(
                chars@.skip(i as int),
                acc as int,
            ),
        decreases n - i,
    {
        let d = digit_value(chars[i]);
        proof {
            assert(chars@.skip(i as int)[0] == chars@[i as int]);
            assert(chars@.skip(i as int).drop_first() =~= chars@.skip(i + 1));
        }
        if d < 0 {
            proof {
                assert(spec_fold_digits(chars@.skip(i as int), acc as int) is None);
                assert(spec_parse_u64(raw@) is None);
            }
            return None;
        }
        let step = match acc.checked_mul(10) {
            Some(v) => v,
            None => {
                proof {
                    assert(acc * 10 + spec_digit_value(chars@[i as int]) > u64::MAX);
                    assert(spec_fold_digits(chars@.skip(i as int), acc as int) is None);
                    assert(spec_parse_u64(raw@) is None);
                }
                return None;
            },
        };
        let next = match step.checked_add(d as u64) {
            Some(v) => v,
            None => {
                proof {
                    assert(spec_fold_digits(chars@.skip(i as int), acc as int) is None);
                    assert(spec_parse_u64(raw@) is None);
                }
                return None;
            },
        };
        acc = next;
        i = i + 1;
    }
    proof {
        assert(chars@.skip(n as int).len() == 0);
    }
    Some(acc)
}

/// Parses the rotation size in mebibytes: a positive number whose byte count
/// still fits 64 bits.
pub fn parse_rotation_size_mb(raw: String) -> (r: Result<u64, ConfigError>)
    ensures
        match spec_parse_u64(trimmed_of(raw@)) {
            Some(v) => if v > 0 && v * 1024 * 1024 <= u64::MAX {
                r == Ok::<u64, ConfigError>((v * 1024 * 1024) as u64)
            } else {
                r matches Err(e) && e matches ConfigError::InvalidLogRotationSize(s) && s@ == raw@
            },
            None => r matches Err(e) && e matches ConfigError::InvalidLogRotationSize(s) && s@
                == raw@,
        },
{
    let trimmed = trim(raw.as_str());
    let value = match parse_u64(trimmed) {
        Some(v) => v,
        None => {
            return Err(ConfigError::InvalidLogRotationSize(raw));
        },
    };
    if value == 0 {
        return Err(ConfigError::InvalidLogRotationSize(raw));
    }
    match value.checked_mul(1024 * 1024) {
        Some(bytes) => Ok(bytes),
        None => Err(ConfigError::InvalidLogRotationSize(raw)),
    }
}

/// Parses the number of rotated files kept: a positive count.
pub fn parse_rotation_files(raw: String) -> (r: Result<usize, ConfigError>)
    ensures
        match spec_parse_u64(trimmed_of(raw@)) {
            Some(v) => if v > 0 && v <= usize::MAX {
                r == Ok::<usize, ConfigError>(v as usize)
            } else {
                r matches Err(e) && e matches ConfigError::InvalidLogRotationFiles(s) && s@
                    == raw@
            },
            None => r matches Err(e) && e matches ConfigError::InvalidLogRotationFiles(s) && s@
                == raw@,
        },
{
    let trimmed = trim(raw.as_str());
    let value = match parse_u64(trimmed) {
        Some(v) => v,
        None => {
            return Err(ConfigError::InvalidLogRotationFiles(raw));
        },
    };
    if value == 0 {
        return Err(ConfigError::InvalidLogRotationFiles(raw));
    }
    if value > usize::MAX as u64 {
        return Err(ConfigError::InvalidLogRotationFiles(raw));
    }
    Ok(value as usize)
}

/// A zero queue limit falls back to the default admission bound.
pub fn normalize_send_queue_limit(value: usize) -> (r: usize)
    ensures
        r == if value == 0 {
            256int
        } else {
            value as int
        },
{
    if value == 0 {
        256
    } else {
        value
    }
}

/// A zero retry budget means unlimited retries.
pub fn normalize_send_retry_attempts(value: u32) -> (r: Option<u32>)
    ensures
        r == if value == 0 {
            None::<u32>
        } else {
            Some(value)
        },
{
    if value == 0 {
        None
    } else {
        Some(value)
    }
}

} // verus!

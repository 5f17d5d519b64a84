use fileshare::config::Config;
use fileshare::dtos::{
    check_expiration, validate_expiration_date, ExpirationError, FilterEmailDto, UserReceiveFileDto,
    UserSendFileDto,
};
use fileshare::error::{ErrorMessage, HttpError};
use fileshare::model::{Id, ReceiveFileDetails, SendFileDetails, Timestamp, User};
use fileshare::pattern::{chars_of, like_match};
use fileshare::text::decimal;

#[test]
fn id_text_is_hyphenated_lower_hex() {
    let v = Id { value: 0xa1a2a3a4b1b2c1c2d1d2d3d4d5d6d7d8 };
    assert_eq!(v.to_text(), "a1a2a3a4-b1b2-c1c2-d1d2-d3d4d5d6d7d8");
    assert_eq!(Id { value: 1 }.to_text(), "00000000-0000-0000-0000-000000000001");
}

#[test]
fn decimal_writes_digits() {
    assert_eq!(decimal(0), "0");
    assert_eq!(decimal(7), "7");
    assert_eq!(decimal(64), "64");
    assert_eq!(decimal(1000), "1000");
    assert_eq!(decimal(usize::MAX), usize::MAX.to_string());
}

#[test]
fn error_messages() {
    assert_eq!(ErrorMessage::WrongCredentials.to_str(), "Email or password is wrong");
    assert_eq!(ErrorMessage::EmailExist.to_string(), "A user with this email already exists");
    assert_eq!(ErrorMessage::UserNoLongerExist.to_str(), "User belonging to this token no longer exists");
    assert_eq!(ErrorMessage::EmptyPassword.to_str(), "Password cannot be empty");
    assert_eq!(ErrorMessage::HashingError.to_str(), "Error while hashing password");
    assert_eq!(ErrorMessage::InvalidHashFormat.to_str(), "Invalid password hash format");
    assert_eq!(
        ErrorMessage::ExceededMaxPasswordLength(64).to_str(),
        "Password must not be more than 64 characters"
    );
    assert_eq!(ErrorMessage::InvalidToken.to_str(), "Authentication token is invalid or expired");
    assert_eq!(ErrorMessage::TokenNotProvided.to_str(), "You are not logged in, please provide a token");
}

#[test]
fn http_error_statuses() {
    assert_eq!(HttpError::server_error("boom".to_string()).status, 500);
    assert_eq!(HttpError::bad_request("bad".to_string()).status, 400);
    assert_eq!(HttpError::unique_constraint_violation("dup".to_string()).status, 409);
    assert_eq!(HttpError::unauthorized("who".to_string()).status, 401);
    let e = HttpError::new("gone".to_string(), 404);
    assert_eq!(e.status, 404);
    assert_eq!(e.message, "gone");
    let body = e.to_error_response();
    assert_eq!(body.status, "fail");
    assert_eq!(body.message, "gone");
}

const NOW: i64 = 1_700_000_000_000_000;

#[test]
fn expiration_date_checks() {
    let now = Timestamp { micros: NOW };
    assert_eq!(validate_expiration_date("", now), Err(ExpirationError::Required));
    assert_eq!(validate_expiration_date("tomorrow", now), Err(ExpirationError::InvalidFormat));
    assert_eq!(validate_expiration_date("2020-01-01T00:00:00Z", now), Err(ExpirationError::NotInFuture));
    assert_eq!(validate_expiration_date("2999-01-01T00:00:00.000000Z", now), Ok(()));
    // 2023-11-14T22:13:20Z is exactly NOW: not in the future.
    assert_eq!(validate_expiration_date("2023-11-14T22:13:20Z", now), Err(ExpirationError::NotInFuture));
    assert_eq!(validate_expiration_date("2023-11-14T22:13:20.000001Z", now), Ok(()));
    assert_eq!(validate_expiration_date("2023-11-15T00:13:20+02:00", now), Err(ExpirationError::NotInFuture));
}

#[test]
fn expiration_verdicts_from_parsed_values() {
    let now = Timestamp { micros: 100 };
    assert_eq!(check_expiration("", Some(500), now), Err(ExpirationError::Required));
    assert_eq!(check_expiration("x", None, now), Err(ExpirationError::InvalidFormat));
    assert_eq!(check_expiration("x", Some(100), now), Err(ExpirationError::NotInFuture));
    assert_eq!(check_expiration("x", Some(101), now), Ok(()));
    assert_eq!(ExpirationError::Required.code(), "expiration_date_required");
    assert_eq!(ExpirationError::InvalidFormat.code(), "invalid_date_format");
    assert_eq!(ExpirationError::NotInFuture.message(), "Expiration date must be in the future.");
}

#[test]
fn listing_rows_as_shown() {
    let sent = SendFileDetails {
        file_id: Id { value: 0xff },
        file_name: "a.txt".to_string(),
        recipient_email: "b@x.com".to_string(),
        expiration_date: Timestamp { micros: 5 },
        created_at: Timestamp { micros: 3 },
    };
    let shown = UserSendFileDto::filter_send_user_file(&sent);
    assert_eq!(shown.file_id, "00000000-0000-0000-0000-0000000000ff");
    assert_eq!(shown.file_name, "a.txt");
    assert_eq!(shown.recipient_email, "b@x.com");
    assert_eq!(shown.expiration_date, Timestamp { micros: 5 });
    assert_eq!(shown.created_at, Timestamp { micros: 3 });
    assert_eq!(UserSendFileDto::filter_send_user_files(&[sent.clone(), sent]).len(), 2);

    let received = ReceiveFileDetails {
        file_id: Id { value: 0x10 },
        file_name: "c.txt".to_string(),
        sender_email: "a@x.com".to_string(),
        expiration_date: Timestamp { micros: 9 },
        created_at: Timestamp { micros: 8 },
    };
    let shown = UserReceiveFileDto::filter_receive_user_files(&[received]);
    assert_eq!(shown.len(), 1);
    assert_eq!(shown[0].file_id, "00000000-0000-0000-0000-000000000010");
    assert_eq!(shown[0].sender_email, "a@x.com");
}

#[test]
fn email_filter_keeps_only_the_email() {
    let u = User {
        id: Id { value: 1 },
        name: "n".to_string(),
        email: "n@x.com".to_string(),
        password: "h".to_string(),
        public_key: None,
        created_at: Timestamp { micros: 0 },
        updated_at: Timestamp { micros: 0 },
    };
    assert_eq!(FilterEmailDto::filter_email(&u).email, "n@x.com");
    assert!(FilterEmailDto::filter_emails(&[]).is_empty());
}

#[test]
fn like_matching() {
    let m = |p: &str, s: &str| like_match(&chars_of(p), &chars_of(s));
    assert!(m("", ""));
    assert!(!m("", "a"));
    assert!(m("%", ""));
    assert!(m("a%c", "abbbc"));
    assert!(!m("a%c", "abbb"));
    assert!(m("_é_", "xéy"));
    assert!(m("%%%a", "bba"));
    assert!(m("a\\%", "a%"));
    assert!(!m("a\\%", "ab"));
    assert!(m("a\\", "a\\"));
}

#[test]
fn config_uses_default_port() {
    let c = Config::from_values("postgres://db".to_string(), "SECRET-REDACTED".to_string(), 3600);
    assert_eq!(c.port, 8000);
    assert_eq!(c.jwt_maxage, 3600);
    assert_eq!(c.database_url, "postgres://db");
}

use vstd::prelude::*;
use vstd::string::StringExecFns;

use crate::text::{decimal, decimal_text};

verus! {

/// The `{status, message}` envelope that carries an error to a client.
#[derive(Clone, Debug)]
pub struct ErrorResponse {
    pub status: String,
    pub message: String,
}

/// The errors that the credential and request layers report to users.
#[derive(Clone, Copy, PartialEq, Eq, Structural, Debug)]
pub enum ErrorMessage {
    EmptyPassword,
    ExceededMaxPasswordLength(usize),
    InvalidHashFormat,
    HashingError,
    InvalidToken,
    WrongCredentials,
    EmailExist,
    UserNoLongerExist,
    TokenNotProvided,
}

/// The text shown to the user for each error.
pub open spec fn message_text(m: ErrorMessage) -> Seq<char> {
    match m {
        ErrorMessage::WrongCredentials => "Email or password is wrong"@,
        ErrorMessage::EmailExist => "A user with this email already exists"@,
        ErrorMessage::UserNoLongerExist => "User belonging to this token no longer exists"@,
        ErrorMessage::EmptyPassword => "Password cannot be empty"@,
        ErrorMessage::HashingError => "Error while hashing password"@,
        ErrorMessage::InvalidHashFormat => "Invalid password hash format"@,
        ErrorMessage::ExceededMaxPasswordLength(max_length) => "Password must not be more than "@
            + decimal_text(max_length as nat) + " characters"@,
        ErrorMessage::InvalidToken => "Authentication token is invalid or expired"@,
        ErrorMessage::TokenNotProvided => "You are not logged in, please provide a token"@,
    }
}

impl ErrorMessage {
    /// The text shown to the user for this error.
    pub fn to_str(&self) -> (r: String)
        ensures
            r@ == message_text(*self),
    {
        match self {
            ErrorMessage::WrongCredentials => String::from_str("Email or password is wrong"),
            ErrorMessage::EmailExist => String::from_str("A user with this email already exists"),
            ErrorMessage::UserNoLongerExist => String::from_str(
                "User belonging to this token no longer exists",
            ),
            ErrorMessage::EmptyPassword => String::from_str("Password cannot be empty"),
            ErrorMessage::HashingError => String::from_str("Error while hashing password"),
            ErrorMessage::InvalidHashFormat => String::from_str("Invalid password hash format"),
            ErrorMessage::ExceededMaxPasswordLength(max_length) => {
                let r = String::from_str("Password must not be more than ");
                let r = r.concat(decimal(*max_length).as_str());
                r.concat(" characters")
            },
            ErrorMessage::InvalidToken => String::from_str(
                "Authentication token is invalid or expired",
            ),
            ErrorMessage::TokenNotProvided => String::from_str(
                "You are not logged in, please provide a token",
            ),
        }
    }

    /// The same text as `to_str`.
    pub fn to_string(&self) -> (r: String)
        ensures
            r@ == message_text(*self),
    {
        self.to_str()
    }
}

/// An error on its way to a client: a message and the HTTP status code that
/// goes with it.
#[derive(Clone, Debug)]
pub struct HttpError {
    pub message: String,
    pub status: u16,
}

impl HttpError {
    pub fn new(message: String, status: u16) -> (r: HttpError)
        ensures
            r.message@ == message@,
            r.status == status,
    {
        HttpError { message, status }
    }

    /// Status 500: an unexpected failure on the server's side.
    pub fn server_error(message: String) -> (r: HttpError)
        ensures
            r.message@ == message@,
            r.status == 500,
    {
        HttpError { message, status: 500 }
    }

    /// Status 400: the request was malformed or failed validation.
    pub fn bad_request(message: String) -> (r: HttpError)
        ensures
            r.message@ == message@,
            r.status == 400,
    {
        HttpError { message, status: 400 }
    }

    /// Status 409: a uniqueness constraint would be violated.
    pub fn unique_constraint_violation(message: String) -> (r: HttpError)
        ensures
            r.message@ == message@,
            r.status == 409,
    {
        HttpError { message, status: 409 }
    }

    /// Status 401: the caller is not authenticated.
    pub fn unauthorized(message: String) -> (r: HttpError)
        ensures
            r.message@ == message@,
            r.status == 401,
    {
        HttpError { message, status: 401 }
    }

    /// The envelope sent to the client: status `fail` and the message.
    pub fn to_error_response(&self) -> (r: ErrorResponse)
        ensures
            r.status@ == "fail"@,
            r.message@ == self.message@,
    {
        ErrorResponse { status: String::from_str("fail"), message: self.message.clone() }
    }
}

} // verus!

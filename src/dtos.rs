use vstd::prelude::*;
use vstd::string::StringExecFns;

use crate::model::{FileRowView, ReceiveFileDetails, SendFileDetails, Timestamp, User};
use crate::text::uuid_text;

verus! {

/// A registration request.
#[derive(Clone, Debug, Default)]
pub struct RegisterUserDto {
    pub name: String,
    pub email: String,
    pub password: String,
    pub password_confirm: String,
}

/// A login request.
#[derive(Clone, Debug, Default)]
pub struct LoginUserDto {
    pub email: String,
    pub password: String,
}

/// Paging parameters of a listing request.
#[derive(Clone, Debug, Default)]
pub struct RequestQueryDto {
    pub page: Option<usize>,
    pub limit: Option<usize>,
}

/// A user as shown to clients: everything but the credential hash.
#[derive(Clone, Debug)]
pub struct FilterUserDto {
    pub id: String,
    pub name: String,
    pub email: String,
    pub public_key: Option<String>,
    pub created_at: Timestamp,
    pub updated_at: Timestamp,
}

#[derive(Clone, Debug)]
pub struct UserData {
    pub user: FilterUserDto,
}

#[derive(Clone, Debug)]
pub struct UserResponseDto {
    pub status: String,
    pub data: UserData,
}

/// One sent file as shown to its sender.
#[derive(Clone, Debug)]
pub struct UserSendFileDto {
    pub file_id: String,
    pub file_name: String,
    pub recipient_email: String,
    pub expiration_date: Timestamp,
    pub created_at: Timestamp,
}

/// The text form of a listing row: the id in UUID form, the rest unchanged.
pub open spec fn shown_row(v: FileRowView) -> (Seq<char>, Seq<char>, Seq<char>, Timestamp, Timestamp) {
    (uuid_text(v.file_id.value), v.file_name, v.email, v.expiration_date, v.created_at)
}

impl UserSendFileDto {
    pub open spec fn shown(&self) -> (Seq<char>, Seq<char>, Seq<char>, Timestamp, Timestamp) {
        (self.file_id@, self.file_name@, self.recipient_email@, self.expiration_date, self.created_at)
    }

    /// The row of a sender's listing, as shown to clients.
    pub fn filter_send_user_file(file_data: &SendFileDetails) -> (r: UserSendFileDto)
        ensures
            r.shown() == shown_row(file_data@),
    {
        UserSendFileDto {
            file_id: file_data.file_id.to_text(),
            file_name: file_data.file_name.clone(),
            recipient_email: file_data.recipient_email.clone(),
            expiration_date: file_data.expiration_date,
            created_at: file_data.created_at,
        }
    }

    /// Every row of a sender's listing, as shown to clients, in order.
    pub fn filter_send_user_files(user: &[SendFileDetails]) -> (r: Vec<UserSendFileDto>)
        ensures
            r@.len() == user@.len(),
            forall|k: int| 0 <= k < r@.len() ==> #[trigger] r@[k].shown() == shown_row(user@[k]@),
    {
        let mut out: Vec<UserSendFileDto> = Vec::new();
        let mut i: usize = 0;
        while i < user.len()
            invariant
                0 <= i <= user@.len(),
                out@.len() == i,
                forall|k: int| 0 <= k < i ==> #[trigger] out@[k].shown() == shown_row(user@[k]@),
            decreases user@.len() - i,
        {
            out.push(UserSendFileDto::filter_send_user_file(&user[i]));
            i = i + 1;
        }
        out
    }
}

#[derive(Clone, Debug)]
pub struct UserSendFileListResponseDto {
    pub status: String,
    pub files: Vec<UserSendFileDto>,
    pub results: i64,
}

/// One received file as shown to its recipient.
#[derive(Clone, Debug)]
pub struct UserReceiveFileDto {
    pub file_id: String,
    pub file_name: String,
    pub sender_email: String,
    pub expiration_date: Timestamp,
    pub created_at: Timestamp,
}

impl UserReceiveFileDto {
    pub open spec fn shown(&self) -> (Seq<char>, Seq<char>, Seq<char>, Timestamp, Timestamp) {
        (self.file_id@, self.file_name@, self.sender_email@, self.expiration_date, self.created_at)
    }

    /// The row of a recipient's listing, as shown to clients.
    pub fn filter_receive_user_file(file_data: &ReceiveFileDetails) -> (r: UserReceiveFileDto)
        ensures
            r.shown() == shown_row(file_data@),
    {
        UserReceiveFileDto {
            file_id: file_data.file_id.to_text(),
            file_name: file_data.file_name.clone(),
            sender_email: file_data.sender_email.clone(),
            expiration_date: file_data.expiration_date,
            created_at: file_data.created_at,
        }
    }

    /// Every row of a recipient's listing, as shown to clients, in order.
    pub fn filter_receive_user_files(user: &[ReceiveFileDetails]) -> (r: Vec<UserReceiveFileDto>)
        ensures
            r@.len() == user@.len(),
            forall|k: int| 0 <= k < r@.len() ==> #[trigger] r@[k].shown() == shown_row(user@[k]@),
    {
        let mut out: Vec<UserReceiveFileDto> = Vec::new();
        let mut i: usize = 0;
        while i < user.len()
            invariant
                0 <= i <= user@.len(),
                out@.len() == i,
                forall|k: int| 0 <= k < i ==> #[trigger] out@[k].shown() == shown_row(user@[k]@),
            decreases user@.len() - i,
        {
            out.push(UserReceiveFileDto::filter_receive_user_file(&user[i]));
            i = i + 1;
        }
        out
    }
}

#[derive(Clone, Debug)]
pub struct UserReceiveFileListResponseDto {
    pub status: String,
    pub files: Vec<UserReceiveFileDto>,
    pub results: i64,
}

#[derive(Clone, Debug)]
pub struct UserLoginResponseDto {
    pub status: String,
    pub token: String,
}

/// A plain status-and-message reply.
#[derive(Clone, Debug)]
pub struct Response {
    pub status: &'static str,
    pub message: String,
}

#[derive(Clone, Debug, Default)]
pub struct NameUpdateDto {
    pub name: String,
}

#[derive(Clone, Debug, Default)]
pub struct UserPasswordUpdateDto {
    pub new_password: String,
    pub new_password_confirm: String,
    pub old_password: String,
}

#[derive(Clone, Debug, Default)]
pub struct SearchQueryByEmailDTO {
    pub query: String,
}

/// A user reduced to the email address.
#[derive(Clone, Debug)]
pub struct FilterEmailDto {
    pub email: String,
}

impl FilterEmailDto {
    /// The email of `user`.
    pub fn filter_email(user: &User) -> (r: FilterEmailDto)
        ensures
            r.email@ == user.email@,
    {
        FilterEmailDto { email: user.email.clone() }
    }

    /// The emails of `user`, in order.
    pub fn filter_emails(user: &[User]) -> (r: Vec<FilterEmailDto>)
        ensures
            r@.len() == user@.len(),
            forall|k: int| 0 <= k < r@.len() ==> #[trigger] r@[k].email@ == user@[k].email@,
    {
        let mut out: Vec<FilterEmailDto> = Vec::new();
        let mut i: usize = 0;
        while i < user.len()
            invariant
                0 <= i <= user@.len(),
                out@.len() == i,
                forall|k: int| 0 <= k < i ==> #[trigger] out@[k].email@ == user@[k].email@,
            decreases user@.len() - i,
        {
            out.push(FilterEmailDto::filter_email(&user[i]));
            i = i + 1;
        }
        out
    }
}

#[derive(Clone, Debug)]
pub struct EmailListResponseDto {
    pub status: String,
    pub emails: Vec<FilterEmailDto>,
}

/// An upload request: who receives the file, the access password, and when
/// the grant expires (RFC 3339 text).
#[derive(Clone, Debug, Default)]
pub struct FileUploadDtos {
    pub recipient_email: String,
    pub password: String,
    pub expiration_date: String,
}

/// A retrieval request: the shared link's id and its access password.
#[derive(Clone, Debug, Default)]
pub struct RetrieveFileDto {
    pub shared_id: String,
    pub password: String,
}

/// Why an expiration date was refused.
#[derive(Clone, Copy, PartialEq, Eq, Structural, Debug)]
pub enum ExpirationError {
    /// The date is empty.
    Required,
    /// The date is not RFC 3339 text.
    InvalidFormat,
    /// The date is not strictly after the current time.
    NotInFuture,
}

impl ExpirationError {
    pub open spec fn code_text(self) -> Seq<char> {
        match self {
            ExpirationError::Required => "expiration_date_required"@,
            ExpirationError::InvalidFormat => "invalid_date_format"@,
            ExpirationError::NotInFuture => "expiration_date_future"@,
        }
    }

    pub open spec fn message_text(self) -> Seq<char> {
        match self {
            ExpirationError::Required => "Expiration date is required."@,
            ExpirationError::InvalidFormat =>
                "Invalid date format. Expected format is YYYY-MM-DDTHH:MM:SS.ssssssZ."@,
            ExpirationError::NotInFuture => "Expiration date must be in the future."@,
        }
    }

    /// The machine-readable code of the error.
    pub fn code(&self) -> (r: String)
        ensures
            r@ == self.code_text(),
    {
        match self {
            ExpirationError::Required => String::from_str("expiration_date_required"),
            ExpirationError::InvalidFormat => String::from_str("invalid_date_format"),
            ExpirationError::NotInFuture => String::from_str("expiration_date_future"),
        }
    }

    /// The text shown to the user.
    pub fn message(&self) -> (r: String)
        ensures
            r@ == self.message_text(),
    {
        match self {
            ExpirationError::Required => String::from_str("Expiration date is required."),
            ExpirationError::InvalidFormat => String::from_str(
                "Invalid date format. Expected format is YYYY-MM-DDTHH:MM:SS.ssssssZ.",
            ),
            ExpirationError::NotInFuture => String::from_str("Expiration date must be in the future."),
        }
    }
}

/// The instant that RFC 3339 text `s` denotes, in microseconds since the
/// epoch, if `s` is such text.
pub uninterp spec fn rfc3339_micros(s: Seq<char>) -> Option<i64>;

/// Relies on chrono's `DateTime::parse_from_rfc3339`, which accepts exactly
/// the RFC 3339 date-times, and on `timestamp_micros`, which gives the
/// instant as microseconds since the epoch (whole microseconds; any finer
/// part is dropped).
#[verifier::external_body]
fn parse_rfc3339(s: &str) -> (r: Option<Timestamp>)
    ensures
        match r {
            Some(t) => rfc3339_micros(s@) == Some(t.micros),
            None => rfc3339_micros(s@) is None,
        },
{
    match chrono::DateTime::parse_from_rfc3339(s) {
        Ok(d) => Some(Timestamp { micros: d.timestamp_micros() }),
        Err(_) => None,
    }
}

/// The verdict on an expiration date: refused if the text is empty, if it
/// does not parse, or if the instant it denotes is not strictly after `now`.
pub open spec fn expiration_verdict(empty: bool, parsed: Option<i64>, now: Timestamp) -> Result<
    (),
    ExpirationError,
> {
    if empty {
        Err(ExpirationError::Required)
    } else {
        match parsed {
            None => Err(ExpirationError::InvalidFormat),
            Some(t) => if t <= now.micros {
                Err(ExpirationError::NotInFuture)
            } else {
                Ok(())
            },
        }
    }
}

/// The verdict on an expiration date given as `text`, which parses to
/// `parsed` (microseconds since the epoch, if it parses), at time `now`.
pub fn check_expiration(text: &str, parsed: Option<i64>, now: Timestamp) -> (r: Result<
    (),
    ExpirationError,
>)
    ensures
        r == expiration_verdict(text@.len() == 0, parsed, now),
{
    if text.is_empty() {
        return Err(ExpirationError::Required);
    }
    match parsed {
        None => Err(ExpirationError::InvalidFormat),
        Some(t) => if t <= now.micros {
            Err(ExpirationError::NotInFuture)
        } else {
            Ok(())
        },
    }
}

/// Checks that `expiration_date` is present, is RFC 3339 text, and lies
/// strictly after `now`.
pub fn validate_expiration_date(expiration_date: &str, now: Timestamp) -> (r: Result<
    (),
    ExpirationError,
>)
    ensures
        r == expiration_verdict(expiration_date@.len() == 0, rfc3339_micros(expiration_date@), now),
{
    let parsed = match parse_rfc3339(expiration_date) {
        Some(t) => Some(t.micros),
        None => None,
    };
    check_expiration(expiration_date, parsed, now)
}

} // verus!

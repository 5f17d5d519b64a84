use vstd::prelude::*;

verus! {

/// A stable identity: the 128 bits of a UUID.
#[derive(Clone, Copy, PartialEq, Eq, Structural, Debug, Hash)]
pub struct Id {
    pub value: u128,
}

/// An instant, as microseconds since the Unix epoch (UTC).
#[derive(Clone, Copy, PartialEq, Eq, Structural, Debug, Hash)]
pub struct Timestamp {
    pub micros: i64,
}

/// A registered account.
#[derive(Clone, Debug)]
pub struct User {
    pub id: Id,
    pub name: String,
    pub email: String,
    /// Credential hash, produced outside this library.
    pub password: String,
    /// Present once the user has enrolled a key for secure key exchange.
    pub public_key: Option<String>,
    pub created_at: Timestamp,
    pub updated_at: Timestamp,
}

pub struct UserView {
    pub id: Id,
    pub name: Seq<char>,
    pub email: Seq<char>,
    pub password: Seq<char>,
    pub public_key: Option<Seq<char>>,
    pub created_at: Timestamp,
    pub updated_at: Timestamp,
}

pub open spec fn opt_text(o: Option<String>) -> Option<Seq<char>> {
    match o {
        Some(s) => Some(s@),
        None => None,
    }
}

fn copy_opt_text(o: &Option<String>) -> (r: Option<String>)
    ensures
        opt_text(r) == opt_text(*o),
{
    match o {
        Some(s) => Some(s.clone()),
        None => None,
    }
}

impl View for User {
    type V = UserView;

    open spec fn view(&self) -> UserView {
        UserView {
            id: self.id,
            name: self.name@,
            email: self.email@,
            password: self.password@,
            public_key: opt_text(self.public_key),
            created_at: self.created_at,
            updated_at: self.updated_at,
        }
    }
}

impl User {
    /// A copy of the record with the same contents.
    pub fn duplicate(&self) -> (r: User)
        ensures
            r@ == self@,
    {
        User {
            id: self.id,
            name: self.name.clone(),
            email: self.email.clone(),
            password: self.password.clone(),
            public_key: copy_opt_text(&self.public_key),
            created_at: self.created_at,
            updated_at: self.updated_at,
        }
    }
}

/// An uploaded file: opaque ciphertext and the encrypted key that opens it.
#[derive(Clone, Debug)]
pub struct File {
    pub id: Id,
    pub user_id: Option<Id>,
    pub file_name: String,
    /// Size of the plaintext in bytes, as reported by the uploader.
    pub file_size: i64,
    pub encrypted_aes_key: Vec<u8>,
    pub encrypted_file: Vec<u8>,
    pub iv: Vec<u8>,
    pub created_at: Timestamp,
}

pub struct FileView {
    pub id: Id,
    pub user_id: Option<Id>,
    pub file_name: Seq<char>,
    pub file_size: i64,
    pub encrypted_aes_key: Seq<u8>,
    pub encrypted_file: Seq<u8>,
    pub iv: Seq<u8>,
    pub created_at: Timestamp,
}

impl View for File {
    type V = FileView;

    open spec fn view(&self) -> FileView {
        FileView {
            id: self.id,
            user_id: self.user_id,
            file_name: self.file_name@,
            file_size: self.file_size,
            encrypted_aes_key: self.encrypted_aes_key@,
            encrypted_file: self.encrypted_file@,
            iv: self.iv@,
            created_at: self.created_at,
        }
    }
}

impl File {
    /// A copy of the record with the same contents.
    pub fn duplicate(&self) -> (r: File)
        ensures
            r@ == self@,
    {
        let encrypted_aes_key = self.encrypted_aes_key.clone();
        let encrypted_file = self.encrypted_file.clone();
        let iv = self.iv.clone();
        proof {
            assert(encrypted_aes_key@ =~= self.encrypted_aes_key@);
            assert(encrypted_file@ =~= self.encrypted_file@);
            assert(iv@ =~= self.iv@);
        }
        File {
            id: self.id,
            user_id: self.user_id,
            file_name: self.file_name.clone(),
            file_size: self.file_size,
            encrypted_aes_key,
            encrypted_file,
            iv,
            created_at: self.created_at,
        }
    }
}

/// A time-boxed, password-gated grant of one file to one recipient.
#[derive(Clone, Debug)]
pub struct ShareLink {
    pub id: Id,
    pub file_id: Id,
    pub recipient_user_id: Id,
    /// Access password, compared verbatim by the caller.
    pub password: String,
    pub expiration_date: Timestamp,
    pub created_at: Timestamp,
}

pub struct ShareLinkView {
    pub id: Id,
    pub file_id: Id,
    pub recipient_user_id: Id,
    pub password: Seq<char>,
    pub expiration_date: Timestamp,
    pub created_at: Timestamp,
}

impl View for ShareLink {
    type V = ShareLinkView;

    open spec fn view(&self) -> ShareLinkView {
        ShareLinkView {
            id: self.id,
            file_id: self.file_id,
            recipient_user_id: self.recipient_user_id,
            password: self.password@,
            expiration_date: self.expiration_date,
            created_at: self.created_at,
        }
    }
}

impl ShareLink {
    /// A copy of the record with the same contents.
    pub fn duplicate(&self) -> (r: ShareLink)
        ensures
            r@ == self@,
    {
        ShareLink {
            id: self.id,
            file_id: self.file_id,
            recipient_user_id: self.recipient_user_id,
            password: self.password.clone(),
            expiration_date: self.expiration_date,
            created_at: self.created_at,
        }
    }
}

/// One row of a sender's listing: a file and the recipient it went to.
#[derive(Clone, Debug)]
pub struct SendFileDetails {
    pub file_id: Id,
    pub file_name: String,
    pub recipient_email: String,
    pub expiration_date: Timestamp,
    pub created_at: Timestamp,
}

pub struct FileRowView {
    pub file_id: Id,
    pub file_name: Seq<char>,
    pub email: Seq<char>,
    pub expiration_date: Timestamp,
    pub created_at: Timestamp,
}

impl View for SendFileDetails {
    type V = FileRowView;

    open spec fn view(&self) -> FileRowView {
        FileRowView {
            file_id: self.file_id,
            file_name: self.file_name@,
            email: self.recipient_email@,
            expiration_date: self.expiration_date,
            created_at: self.created_at,
        }
    }
}

/// One row of a recipient's listing: the link that grants the file, and
/// the sender.  `file_id` holds the id of the shared link, which is what the
/// recipient presents to retrieve the file.
#[derive(Clone, Debug)]
pub struct ReceiveFileDetails {
    pub file_id: Id,
    pub file_name: String,
    pub sender_email: String,
    pub expiration_date: Timestamp,
    pub created_at: Timestamp,
}

impl View for ReceiveFileDetails {
    type V = FileRowView;

    open spec fn view(&self) -> FileRowView {
        FileRowView {
            file_id: self.file_id,
            file_name: self.file_name@,
            email: self.sender_email@,
            expiration_date: self.expiration_date,
            created_at: self.created_at,
        }
    }
}

} // verus!

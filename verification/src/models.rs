//! The records that the mail client stores and shows: accounts, emails,
//! attachments, tags and the results of a synchronisation.
use vstd::prelude::*;

verus! {

/// A point in time, as seconds since the Unix epoch (UTC) and the
/// nanoseconds within that second.
#[derive(Clone, Copy, Debug, PartialEq, Eq, Structural)]
pub struct Timestamp {
    pub seconds: i64,
    pub nanos: u32,
}

/// A mail account as stored.
#[derive(Clone, Debug)]
pub struct Account {
    pub id: i64,
    pub name: String,
    pub email: String,
    pub imap_server: String,
    pub imap_port: u16,
    pub username: String,
    pub password: String,
    pub use_ssl: bool,
    pub created_at: Timestamp,
    pub updated_at: Timestamp,
}

/// The user-editable fields of an account.
#[derive(Clone, Debug)]
pub struct AccountInput {
    pub name: String,
    pub email: String,
    pub imap_server: String,
    pub imap_port: u16,
    pub username: String,
    pub password: String,
    pub use_ssl: bool,
}

/// One email message.
#[derive(Clone, Debug)]
pub struct Email {
    pub id: i64,
    pub account_id: i64,
    pub message_id: String,
    pub subject: String,
    pub sender_name: String,
    pub sender_email: String,
    pub recipients: String,
    pub date: Timestamp,
    pub body_text: String,
    pub body_html: String,
    pub is_read: bool,
    pub is_flagged: bool,
    pub uid: u32,
    pub created_at: Timestamp,
}

/// An email together with its attachments and tags.
#[derive(Clone, Debug)]
pub struct EmailDetail {
    pub email: Email,
    pub attachments: Vec<Attachment>,
    pub tags: Vec<Tag>,
}

/// A file attached to an email, saved on disk.
#[derive(Clone, Debug)]
pub struct Attachment {
    pub id: i64,
    pub email_id: i64,
    pub filename: String,
    pub content_type: String,
    pub size: i64,
    pub content_id: Option<String>,
    pub file_path: String,
}

/// A label that can be put on emails; system tags drive the classifier.
#[derive(Clone, Debug)]
pub struct Tag {
    pub id: i64,
    pub name: String,
    pub color: String,
    pub is_system: bool,
}

/// The link between an email and a tag.
#[derive(Clone, Copy, Debug, PartialEq, Eq, Structural)]
pub struct EmailTag {
    pub email_id: i64,
    pub tag_id: i64,
}

/// One page of an email listing, with the total number of matches.
#[derive(Clone, Debug)]
pub struct EmailListResult {
    pub total: i64,
    pub emails: Vec<EmailWithTags>,
}

/// An email with the tags it carries.
#[derive(Clone, Debug)]
pub struct EmailWithTags {
    pub email: Email,
    pub tags: Vec<Tag>,
}

/// What one account's synchronisation brought in.
#[derive(Debug)]
pub struct SyncResult {
    pub account_id: i64,
    pub account_name: String,
    pub new_emails: usize,
    pub updated_emails: usize,
}

impl Clone for SyncResult {
    fn clone(&self) -> (r: Self)
        ensures
            r == *self,
    {
        SyncResult {
            account_id: self.account_id,
            account_name: self.account_name.clone(),
            new_emails: self.new_emails,
            updated_emails: self.updated_emails,
        }
    }
}

/// Unread emails in total and per account (id, name, count).
#[derive(Clone, Debug)]
pub struct UnreadCount {
    pub total: i64,
    pub by_account: Vec<(i64, String, i64)>,
}

} // verus!

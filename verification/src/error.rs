//! The errors of the mail client and the text shown for each.
use vstd::prelude::*;
use crate::text::concat;

verus! {

broadcast use vstd::string::group_string_axioms;

/// What can go wrong. Errors raised by the database, the IMAP server or
/// the file system carry the text those layers reported.
#[derive(Clone, Debug)]
pub enum AppError {
    Database(String),
    Imap(String),
    Io(String),
    Parse(String),
    AccountLimit,
    AccountNotFound,
    EmailNotFound,
    TagNotFound,
    InvalidInput(String),
}

/// Result of an operation of the mail client.
pub type AppResult<T> = Result<T, AppError>;

/// The text shown for an error.
pub open spec fn error_message(e: AppError) -> Seq<char> {
    match e {
        AppError::Database(m) => "Database error: "@ + m@,
        AppError::Imap(m) => "IMAP error: "@ + m@,
        AppError::Io(m) => "IO error: "@ + m@,
        AppError::Parse(m) => "Parse error: "@ + m@,
        AppError::AccountLimit => "Account limit reached (max 5 accounts)"@,
        AppError::AccountNotFound => "Account not found"@,
        AppError::EmailNotFound => "Email not found"@,
        AppError::TagNotFound => "Tag not found"@,
        AppError::InvalidInput(m) => "Invalid input: "@ + m@,
    }
}

impl AppError {
    /// The text shown for this error.
    pub fn message(&self) -> (r: String)
        ensures
            r@ == error_message(*self),
    {
        match self {
            AppError::Database(m) => concat("Database error: ", m.as_str()),
            AppError::Imap(m) => concat("IMAP error: ", m.as_str()),
            AppError::Io(m) => concat("IO error: ", m.as_str()),
            AppError::Parse(m) => concat("Parse error: ", m.as_str()),
            AppError::AccountLimit => String::from_str("Account limit reached (max 5 accounts)"),
            AppError::AccountNotFound => String::from_str("Account not found"),
            AppError::EmailNotFound => String::from_str("Email not found"),
            AppError::TagNotFound => String::from_str("Tag not found"),
            AppError::InvalidInput(m) => concat("Invalid input: ", m.as_str()),
        }
    }
}

} // verus!

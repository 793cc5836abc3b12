//! Core logic of a local IMAP mail client: classification of incoming
//! mail, the bookkeeping of account synchronisation, the shape of the
//! database queries, and the messages shown to the user.
pub mod text;
pub mod error;
pub mod models;
pub mod classifier;
pub mod mailbox;
pub mod notify;
pub mod sync;
pub mod time;
pub mod store;
pub mod mime;

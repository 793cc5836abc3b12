//! Turning a fetched RFC 5322 message into an email record and the
//! attachments to save. `mail_parser` reads the message; what the client
//! makes of the headers and parts is decided here.
use vstd::prelude::*;
use mail_parser::MimeHeaders;
use crate::error::{AppError, AppResult};
use crate::models::{Email, Timestamp};
use crate::text::{concat, decimal, signed_decimal, i64_to_decimal, u64_to_decimal};
use crate::time::{utc_from_seconds, utc_in_range};

verus! {

broadcast use vstd::string::group_string_axioms;

/// Text of the error for a message in which no header was found.
pub const MIME_PARSE_FAILURE: &'static str = "no headers found in message";

/// Content type of an attachment that does not declare one.
pub const DEFAULT_CONTENT_TYPE: &'static str = "application/octet-stream";

// The names below describe the message that
// `mail_parser::MessageParser::parse` finds in the raw bytes; each is `None`
// (or zero) when it finds none. What mail_parser reads is not stated here.

/// Whether `mail_parser` finds a message (with headers) in the bytes.
pub uninterp spec fn mime_parses(raw: Seq<u8>) -> bool;

/// The Message-ID header as `mail_parser` reads it.
pub uninterp spec fn mime_message_id_of(raw: Seq<u8>) -> Option<Seq<char>>;

/// The Subject header as `mail_parser` reads it.
pub uninterp spec fn mime_subject_of(raw: Seq<u8>) -> Option<Seq<char>>;

/// Display name and address of the first sender in the From header.
pub uninterp spec fn mime_sender_of(raw: Seq<u8>) -> Option<(Option<Seq<char>>, Option<Seq<char>>)>;

/// The addresses of the To header when it is a plain list of addresses.
pub uninterp spec fn mime_recipients_of(raw: Seq<u8>) -> Option<Seq<Option<Seq<char>>>>;

/// The Date header as seconds since the Unix epoch.
pub uninterp spec fn mime_date_of(raw: Seq<u8>) -> Option<i64>;

/// The first plain-text body.
pub uninterp spec fn mime_text_body_of(raw: Seq<u8>) -> Option<Seq<char>>;

/// The first HTML body.
pub uninterp spec fn mime_html_body_of(raw: Seq<u8>) -> Option<Seq<char>>;

/// How many attachments `mail_parser` finds.
pub uninterp spec fn mime_attachment_count_of(raw: Seq<u8>) -> Option<nat>;

/// The number of attachments, zero when no message is found.
pub open spec fn attachment_count(raw: Seq<u8>) -> nat {
    match mime_attachment_count_of(raw) {
        Some(n) => n,
        None => 0,
    }
}

/// The attachment at a position: its file name, its content type (type and
/// subtype), its Content-ID and its decoded contents.
pub uninterp spec fn mime_attachment_of(raw: Seq<u8>, index: int) -> Option<
    (Option<Seq<char>>, Option<(Seq<char>, Option<Seq<char>>)>, Option<Seq<char>>, Seq<u8>),
>;

/// The text of an optional string.
pub open spec fn opt_text(o: Option<String>) -> Option<Seq<char>> {
    match o {
        Some(s) => Some(s@),
        None => None,
    }
}

/// An attachment as `mail_parser` reads it.
#[derive(Clone, Debug)]
pub struct MimeAttachment {
    pub name: Option<String>,
    pub content_type: Option<(String, Option<String>)>,
    pub content_id: Option<String>,
    pub contents: Vec<u8>,
}

/// The plain values of an attachment as read.
pub open spec fn attachment_view(
    a: MimeAttachment,
) -> (Option<Seq<char>>, Option<(Seq<char>, Option<Seq<char>>)>, Option<Seq<char>>, Seq<u8>) {
    (
        opt_text(a.name),
        match a.content_type {
            Some((t, s)) => Some((t@, opt_text(s))),
            None => None,
        },
        opt_text(a.content_id),
        a.contents@,
    )
}

/// Whether `mail_parser::MessageParser::parse` finds a message in `raw`.
#[verifier::external_body]
fn read_parses(raw: &[u8]) -> (r: bool)
    ensures
        r == mime_parses(raw@),
{
    mail_parser::MessageParser::default().parse(raw).is_some()
}

/// `Message::message_id` of the parsed message.
#[verifier::external_body]
fn read_message_id(raw: &[u8]) -> (r: Option<String>)
    ensures
        opt_text(r) == mime_message_id_of(raw@),
{
    let message = mail_parser::MessageParser::default().parse(raw)?;
    message.message_id().map(|s| s.to_string())
}

/// `Message::subject` of the parsed message.
#[verifier::external_body]
fn read_subject(raw: &[u8]) -> (r: Option<String>)
    ensures
        opt_text(r) == mime_subject_of(raw@),
{
    let message = mail_parser::MessageParser::default().parse(raw)?;
    message.subject().map(|s| s.to_string())
}

/// Name and address of `Address::first` of `Message::from`.
#[verifier::external_body]
fn read_sender(raw: &[u8]) -> (r: Option<(Option<String>, Option<String>)>)
    ensures
        match r {
            Some((n, a)) => mime_sender_of(raw@) == Some((opt_text(n), opt_text(a))),
            None => mime_sender_of(raw@) is None,
        },
{
    let message = mail_parser::MessageParser::default().parse(raw)?;
    let first = message.from()?.first()?;
    Some((first.name().map(|s| s.to_string()), first.address().map(|s| s.to_string())))
}

/// The addresses of `Message::to` when it is an `Address::List`.
#[verifier::external_body]
fn read_recipients(raw: &[u8]) -> (r: Option<Vec<Option<String>>>)
    ensures
        match r {
            Some(v) => mime_recipients_of(raw@) == Some(v@.map_values(|o: Option<String>| opt_text(o))),
            None => mime_recipients_of(raw@) is None,
        },
{
    let message = mail_parser::MessageParser::default().parse(raw)?;
    match message.to()? {
        mail_parser::Address::List(addrs) => Some(
            addrs.iter().map(|a| a.address().map(|s| s.to_string())).collect(),
        ),
        mail_parser::Address::Group(_) => None,
    }
}

/// `DateTime::to_timestamp` of `Message::date`.
#[verifier::external_body]
fn read_date(raw: &[u8]) -> (r: Option<i64>)
    ensures
        r == mime_date_of(raw@),
{
    let message = mail_parser::MessageParser::default().parse(raw)?;
    message.date().map(|d| d.to_timestamp())
}

/// `Message::body_text(0)`.
#[verifier::external_body]
fn read_text_body(raw: &[u8]) -> (r: Option<String>)
    ensures
        opt_text(r) == mime_text_body_of(raw@),
{
    let message = mail_parser::MessageParser::default().parse(raw)?;
    message.body_text(0).map(|s| s.to_string())
}

/// `Message::body_html(0)`.
#[verifier::external_body]
fn read_html_body(raw: &[u8]) -> (r: Option<String>)
    ensures
        opt_text(r) == mime_html_body_of(raw@),
{
    let message = mail_parser::MessageParser::default().parse(raw)?;
    message.body_html(0).map(|s| s.to_string())
}

/// `Message::attachment_count`.
#[verifier::external_body]
fn read_attachment_count(raw: &[u8]) -> (r: Option<usize>)
    ensures
        match r {
            Some(n) => mime_attachment_count_of(raw@) == Some(n as nat),
            None => mime_attachment_count_of(raw@) is None,
        },
{
    let message = mail_parser::MessageParser::default().parse(raw)?;
    Some(message.attachment_count())
}

/// Name, content type, Content-ID and contents of `Message::attachment(index)`.
#[verifier::external_body]
fn read_attachment(raw: &[u8], index: usize) -> (r: Option<MimeAttachment>)
    ensures
        match r {
            Some(a) => mime_attachment_of(raw@, index as int) == Some(attachment_view(a)),
            None => mime_attachment_of(raw@, index as int) is None,
        },
{
    let message = mail_parser::MessageParser::default().parse(raw)?;
    let part = message.attachment(index)?;
    Some(MimeAttachment {
        name: part.attachment_name().map(|s| s.to_string()),
        content_type: part.content_type().map(|c| (c.ctype().to_string(), c.subtype().map(|s| s.to_string()))),
        content_id: part.content_id().map(|s| s.to_string()),
        contents: part.contents().to_vec(),
    })
}

/// A flag the IMAP server reports for a message.
#[derive(Clone, Copy, Debug, PartialEq, Eq, Structural)]
pub enum MessageFlag {
    Seen,
    Flagged,
    Other,
}

/// Whether `flag` is among `flags`.
pub fn has_flag(flags: &[MessageFlag], flag: MessageFlag) -> (r: bool)
    ensures
        r == flags@.contains(flag),
{
    let mut i: usize = 0;
    while i < flags.len()
        invariant
            i <= flags.len(),
            forall|j: int| 0 <= j < i ==> flags@[j] != flag,
        decreases flags.len() - i,
    {
        if flags[i] == flag {
            assert(flags@[i as int] == flag);
            return true;
        }
        i = i + 1;
    }
    false
}

/// The addresses that are present, in order.
pub open spec fn present_addresses(list: Seq<Option<Seq<char>>>) -> Seq<Seq<char>>
    decreases list.len(),
{
    if list.len() == 0 {
        Seq::empty()
    } else {
        let rest = present_addresses(list.drop_last());
        match list.last() {
            Some(a) => rest.push(a),
            None => rest,
        }
    }
}

/// Texts joined with a separator between neighbours.
pub open spec fn join_with(items: Seq<Seq<char>>, sep: Seq<char>) -> Seq<char>
    decreases items.len(),
{
    if items.len() == 0 {
        Seq::empty()
    } else if items.len() == 1 {
        items[0]
    } else {
        join_with(items.drop_last(), sep) + sep + items.last()
    }
}

/// The recipients line: the present addresses joined by `", "`.
pub fn join_addresses(list: &Vec<Option<String>>) -> (r: String)
    ensures
        r@ == join_with(
            present_addresses(list@.map_values(|o: Option<String>| opt_text(o))),
            ", "@,
        ),
{
    let ghost views = list@.map_values(|o: Option<String>| opt_text(o));
    let mut r = String::new();
    let mut any = false;
    let mut i: usize = 0;
    while i < list.len()
        invariant
            i <= list.len(),
            views == list@.map_values(|o: Option<String>| opt_text(o)),
            r@ == join_with(present_addresses(views.take(i as int)), ", "@),
            any == (present_addresses(views.take(i as int)).len() > 0),
        decreases list.len() - i,
    {
        assert(views.take(i + 1).drop_last() =~= views.take(i as int));
        assert(views.take(i + 1).last() == opt_text(list@[i as int]));
        match &list[i] {
            Some(a) => {
                let ghost prev = present_addresses(views.take(i as int));
                assert(present_addresses(views.take(i + 1)) == prev.push(a@));
                assert(prev.push(a@).drop_last() =~= prev);
                if any {
                    r.append(", ");
                } else {
                    assert(prev.push(a@) =~= seq![a@]);
                }
                r.append(a.as_str());
                any = true;
            },
            None => {},
        }
        i = i + 1;
    }
    assert(views.take(list.len() as int) =~= views);
    r
}

/// An attachment to save: what is recorded about it, the name of the file
/// to write, and its contents.
#[derive(Clone, Debug)]
pub struct PendingAttachment {
    pub filename: String,
    pub content_type: String,
    pub content_id: Option<String>,
    pub size: i64,
    pub file_name: String,
    pub contents: Vec<u8>,
}

/// The file an attachment is saved to: the time in seconds, a dash, its name.
pub open spec fn attachment_file_text(now_seconds: i64, filename: Seq<char>) -> Seq<char> {
    signed_decimal(now_seconds as int) + "-"@ + filename
}

/// The text of a content type: type, and `/subtype` when there is one;
/// `application/octet-stream` when none is declared.
pub open spec fn content_type_text(ct: Option<(Seq<char>, Option<Seq<char>>)>) -> Seq<char> {
    match ct {
        Some((t, Some(s))) => t + "/"@ + s,
        Some((t, None)) => t,
        None => DEFAULT_CONTENT_TYPE@,
    }
}

/// What the client records of an attachment read from the message; parts
/// without a file name are not attachments to save.
pub open spec fn pending_matches(
    p: PendingAttachment,
    read: (Option<Seq<char>>, Option<(Seq<char>, Option<Seq<char>>)>, Option<Seq<char>>, Seq<u8>),
    now_seconds: i64,
) -> bool {
    &&& read.0 matches Some(name) && p.filename@ == name
    &&& p.content_type@ == content_type_text(read.1)
    &&& opt_text(p.content_id) == read.2
    &&& p.contents@ == read.3
    &&& p.size == read.3.len() as i64
    &&& p.file_name@ == attachment_file_text(now_seconds, p.filename@)
}

/// The named attachments of the message, in order.
pub open spec fn named_attachments(raw: Seq<u8>, upto: int) -> Seq<
    (Option<Seq<char>>, Option<(Seq<char>, Option<Seq<char>>)>, Option<Seq<char>>, Seq<u8>),
>
    decreases upto,
{
    if upto <= 0 {
        Seq::empty()
    } else {
        let rest = named_attachments(raw, upto - 1);
        match mime_attachment_of(raw, upto - 1) {
            Some(a) => if a.0 is Some {
                rest.push(a)
            } else {
                rest
            },
            None => rest,
        }
    }
}

/// Whether the part at `index` is an attachment with a file name.
pub open spec fn is_named_part(raw: Seq<u8>, index: int) -> bool {
    mime_attachment_of(raw, index) matches Some(a) && a.0 is Some
}

/// Every attachment part with a file name among the first `upto` is kept,
/// once and in order, and nothing else is: the result lists exactly the
/// named parts, at the strictly increasing positions `idx`.
pub proof fn lemma_named_attachments_exact(raw: Seq<u8>, upto: int) -> (idx: Seq<int>)
    requires
        upto >= 0,
    ensures
        idx.len() == named_attachments(raw, upto).len(),
        forall|k: int, l: int| 0 <= k < l < idx.len() ==> idx[k] < idx[l],
        forall|k: int|
            0 <= k < idx.len() ==> 0 <= #[trigger] idx[k] < upto && is_named_part(raw, idx[k])
                && mime_attachment_of(raw, idx[k]) == Some(named_attachments(raw, upto)[k]),
        forall|i: int|
            0 <= i < upto && #[trigger] is_named_part(raw, i) ==> exists|k: int|
                0 <= k < idx.len() && idx[k] == i,
    decreases upto,
{
    if upto == 0 {
        Seq::empty()
    } else {
        let prev = lemma_named_attachments_exact(raw, upto - 1);
        if is_named_part(raw, upto - 1) {
            let idx = prev.push(upto - 1);
            assert forall|i: int|
                0 <= i < upto && #[trigger] is_named_part(raw, i) implies exists|k: int|
                0 <= k < idx.len() && idx[k] == i by {
                if i == upto - 1 {
                    assert(idx[prev.len() as int] == i);
                } else {
                    let k = choose|k: int| 0 <= k < prev.len() && prev[k] == i;
                    assert(idx[k] == i);
                }
            }
            idx
        } else {
            prev
        }
    }
}

/// The attachment to save for a part read from the message, if it has a name.
fn pending_from(part: MimeAttachment, now_seconds: i64) -> (r: Option<PendingAttachment>)
    ensures
        match r {
            Some(p) => attachment_view(part).0 is Some && pending_matches(p, attachment_view(part), now_seconds),
            None => attachment_view(part).0 is None,
        },
{
    let filename = match part.name {
        Some(n) => n,
        None => return None,
    };
    let content_type = match part.content_type {
        Some((t, Some(s))) => {
            let with_slash = concat(t.as_str(), "/");
            concat(with_slash.as_str(), s.as_str())
        },
        Some((t, None)) => t,
        None => String::from_str(DEFAULT_CONTENT_TYPE),
    };
    let stamp = i64_to_decimal(now_seconds);
    let stamp_dash = concat(stamp.as_str(), "-");
    let file_name = concat(stamp_dash.as_str(), filename.as_str());
    let size = part.contents.len() as i64;
    Some(
        PendingAttachment {
            filename,
            content_type,
            content_id: part.content_id,
            size,
            file_name,
            contents: part.contents,
        },
    )
}

/// The message id to store: the header's, or the account and UID joined by
/// a dash when the header is missing.
pub open spec fn message_id_text(raw: Seq<u8>, account_id: i64, uid: u32) -> Seq<char> {
    match mime_message_id_of(raw) {
        Some(id) => id,
        None => signed_decimal(account_id as int) + "-"@ + decimal(uid as nat),
    }
}

/// The sender's display name and address, empty when missing.
pub open spec fn sender_texts(raw: Seq<u8>) -> (Seq<char>, Seq<char>) {
    match mime_sender_of(raw) {
        Some((n, a)) => (
            match n {
                Some(t) => t,
                None => Seq::empty(),
            },
            match a {
                Some(t) => t,
                None => Seq::empty(),
            },
        ),
        None => (Seq::empty(), Seq::empty()),
    }
}

/// The recipients line, empty without a plain list of addresses.
pub open spec fn recipients_text(raw: Seq<u8>) -> Seq<char> {
    match mime_recipients_of(raw) {
        Some(list) => join_with(present_addresses(list), ", "@),
        None => Seq::empty(),
    }
}

/// The date of the message, or `now` when it has none chrono can represent.
pub open spec fn message_date(raw: Seq<u8>, now: Timestamp) -> Timestamp {
    match mime_date_of(raw) {
        Some(secs) => if utc_in_range(secs, 0) {
            Timestamp { seconds: secs, nanos: 0 }
        } else {
            now
        },
        None => now,
    }
}

/// An optional text, empty when missing.
pub open spec fn text_or_empty(o: Option<Seq<char>>) -> Seq<char> {
    match o {
        Some(t) => t,
        None => Seq::empty(),
    }
}

/// The email record of a fetched message.
pub open spec fn email_matches(
    e: Email,
    raw: Seq<u8>,
    uid: u32,
    flags: Seq<MessageFlag>,
    account_id: i64,
    now: Timestamp,
) -> bool {
    &&& e.id == 0
    &&& e.account_id == account_id
    &&& e.message_id@ == message_id_text(raw, account_id, uid)
    &&& e.subject@ == text_or_empty(mime_subject_of(raw))
    &&& e.sender_name@ == sender_texts(raw).0
    &&& e.sender_email@ == sender_texts(raw).1
    &&& e.recipients@ == recipients_text(raw)
    &&& e.date == message_date(raw, now)
    &&& e.body_text@ == text_or_empty(mime_text_body_of(raw))
    &&& e.body_html@ == text_or_empty(mime_html_body_of(raw))
    &&& e.is_read == flags.contains(MessageFlag::Seen)
    &&& e.is_flagged == flags.contains(MessageFlag::Flagged)
    &&& e.uid == uid
    &&& e.created_at == now
}

/// Reads an optional text as a string, empty when missing.
fn string_or_empty(o: Option<String>) -> (r: String)
    ensures
        r@ == text_or_empty(opt_text(o)),
{
    match o {
        Some(s) => s,
        None => String::new(),
    }
}

/// The email record and the attachments to save of a fetched message with
/// UID `uid` and flags `flags`, for account `account_id`, at time `now`.
/// Fails with a parse error when no message is found in the bytes.
pub fn parse_email(raw: &[u8], uid: u32, flags: &[MessageFlag], account_id: i64, now: Timestamp) -> (r:
    AppResult<(Email, Vec<PendingAttachment>)>)
    ensures
        !mime_parses(raw@) ==> (r matches Err(AppError::Parse(m)) && m@ == MIME_PARSE_FAILURE@),
        mime_parses(raw@) ==> (r matches Ok((e, atts)) && email_matches(
            e,
            raw@,
            uid,
            flags@,
            account_id,
            now,
        ) && atts@.len() == named_attachments(raw@, attachment_count(raw@) as int).len()
            && forall|k: int|
            0 <= k < atts@.len() ==> pending_matches(
                #[trigger] atts@[k],
                named_attachments(raw@, attachment_count(raw@) as int)[k],
                now.seconds,
            )),
{
    if !read_parses(raw) {
        return Err(AppError::Parse(String::from_str(MIME_PARSE_FAILURE)));
    }
    let message_id = match read_message_id(raw) {
        Some(id) => id,
        None => {
            let acc = i64_to_decimal(account_id);
            let acc_dash = concat(acc.as_str(), "-");
            let uid_text = u64_to_decimal(uid as u64);
            concat(acc_dash.as_str(), uid_text.as_str())
        },
    };
    let subject = string_or_empty(read_subject(raw));
    let (sender_name, sender_email) = match read_sender(raw) {
        Some((n, a)) => (string_or_empty(n), string_or_empty(a)),
        None => (String::new(), String::new()),
    };
    let recipients = match read_recipients(raw) {
        Some(list) => join_addresses(&list),
        None => String::new(),
    };
    let date = match read_date(raw) {
        Some(secs) => match utc_from_seconds(secs) {
            Some(t) => t,
            None => now,
        },
        None => now,
    };
    let body_text = string_or_empty(read_text_body(raw));
    let body_html = string_or_empty(read_html_body(raw));
    let is_read = has_flag(flags, MessageFlag::Seen);
    let is_flagged = has_flag(flags, MessageFlag::Flagged);

    let count = match read_attachment_count(raw) {
        Some(n) => n,
        None => 0,
    };
    let mut attachments: Vec<PendingAttachment> = Vec::new();
    let mut i: usize = 0;
    while i < count
        invariant
            i <= count,
            count == attachment_count(raw@),
            attachments@.len() == named_attachments(raw@, i as int).len(),
            forall|k: int|
                0 <= k < attachments@.len() ==> pending_matches(
                    #[trigger] attachments@[k],
                    named_attachments(raw@, i as int)[k],
                    now.seconds,
                ),
        decreases count - i,
    {
        let ghost before = attachments@;
        match read_attachment(raw, i) {
            Some(part) => {
                assert(mime_attachment_of(raw@, i as int) == Some(attachment_view(part)));
                match pending_from(part, now.seconds) {
                    Some(p) => {
                        attachments.push(p);
                    },
                    None => {},
                }
            },
            None => {},
        }
        assert forall|k: int| 0 <= k < attachments@.len() implies pending_matches(
            #[trigger] attachments@[k],
            named_attachments(raw@, i + 1)[k],
            now.seconds,
        ) by {
            if k < before.len() {
                assert(attachments@[k] == before[k]);
            }
        }
        i = i + 1;
    }
    let email = Email {
        id: 0,
        account_id,
        message_id,
        subject,
        sender_name,
        sender_email,
        recipients,
        date,
        body_text,
        body_html,
        is_read,
        is_flagged,
        uid,
        created_at: now,
    };
    Ok((email, attachments))
}

} // verus!

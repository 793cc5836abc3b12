use mail_client::error::AppError;
use mail_client::mime::{has_flag, join_addresses, parse_email, MessageFlag};
use mail_client::models::Timestamp;

const NOW: Timestamp = Timestamp { seconds: 1_700_000_000, nanos: 123 };

const SIMPLE: &str = "Message-ID: <abc@example.org>\r\n\
From: Alice Smith <alice@example.org>\r\n\
To: bob@example.org, Carol <carol@example.org>\r\n\
Subject: Project meeting\r\n\
Date: Tue, 14 Nov 2023 22:13:20 +0000\r\n\
\r\n\
See you at the meeting.\r\n";

const WITH_ATTACHMENT: &str = "From: <x@example.org>\r\n\
Subject: files\r\n\
Content-Type: multipart/mixed; boundary=\"XX\"\r\n\
\r\n\
--XX\r\n\
Content-Type: text/plain\r\n\
\r\n\
body here\r\n\
--XX\r\n\
Content-Type: application/pdf\r\n\
Content-Disposition: attachment; filename=\"report.pdf\"\r\n\
Content-ID: <part1>\r\n\
\r\n\
PDFDATA\r\n\
--XX--\r\n";

#[test]
fn simple_message() {
    let (e, atts) = parse_email(SIMPLE.as_bytes(), 42, &[MessageFlag::Seen], 7, NOW).unwrap();
    assert_eq!(e.id, 0);
    assert_eq!(e.account_id, 7);
    assert_eq!(e.message_id, "abc@example.org");
    assert_eq!(e.subject, "Project meeting");
    assert_eq!(e.sender_name, "Alice Smith");
    assert_eq!(e.sender_email, "alice@example.org");
    assert_eq!(e.recipients, "bob@example.org, carol@example.org");
    assert_eq!(e.date, Timestamp { seconds: 1_700_000_000, nanos: 0 });
    assert!(e.body_text.starts_with("See you at the meeting."));
    assert!(e.is_read);
    assert!(!e.is_flagged);
    assert_eq!(e.uid, 42);
    assert_eq!(e.created_at, NOW);
    assert!(atts.is_empty());
}

#[test]
fn missing_headers_fall_back() {
    let raw = "Subject: hi\r\n\r\nbody\r\n";
    let (e, _) = parse_email(raw.as_bytes(), 9, &[MessageFlag::Flagged, MessageFlag::Other], -3, NOW).unwrap();
    assert_eq!(e.message_id, "-3-9");
    assert_eq!(e.sender_name, "");
    assert_eq!(e.sender_email, "");
    assert_eq!(e.recipients, "");
    assert_eq!(e.date, NOW);
    assert!(!e.is_read);
    assert!(e.is_flagged);
}

#[test]
fn attachment_is_planned() {
    let (e, atts) = parse_email(WITH_ATTACHMENT.as_bytes(), 1, &[], 2, NOW).unwrap();
    assert_eq!(e.subject, "files");
    assert_eq!(atts.len(), 1);
    let a = &atts[0];
    assert_eq!(a.filename, "report.pdf");
    assert_eq!(a.content_type, "application/pdf");
    assert_eq!(a.content_id.as_deref(), Some("part1"));
    assert_eq!(a.size, a.contents.len() as i64);
    assert_eq!(a.file_name, "1700000000-report.pdf");
}

#[test]
fn unparsable_message() {
    match parse_email(b"", 1, &[], 1, NOW) {
        Err(AppError::Parse(m)) => assert_eq!(m, "no headers found in message"),
        other => panic!("expected a parse error, got {:?}", other.map(|p| p.0.subject)),
    }
}

#[test]
fn flags_and_addresses() {
    assert!(has_flag(&[MessageFlag::Other, MessageFlag::Seen], MessageFlag::Seen));
    assert!(!has_flag(&[], MessageFlag::Seen));
    let list = vec![Some("a@x".to_string()), None, Some("b@y".to_string())];
    assert_eq!(join_addresses(&list), "a@x, b@y");
    assert_eq!(join_addresses(&vec![None]), "");
}

#[test]
fn html_body_is_kept() {
    let raw = "From: a@b.c\r\nSubject: html\r\nContent-Type: text/html\r\n\r\n<p>Hi</p>\r\n";
    let (e, _) = parse_email(raw.as_bytes(), 2, &[], 1, NOW).unwrap();
    assert!(e.body_html.contains("<p>Hi</p>"));
    assert_eq!(e.sender_email, "a@b.c");
}

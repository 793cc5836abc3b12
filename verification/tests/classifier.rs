use mail_client::classifier::{auto_classify_email, pattern_matches, EmailClassifier};
use mail_client::models::{Email, Tag, Timestamp};

fn tag(id: i64, name: &str, system: bool) -> Tag {
    Tag { id, name: name.to_string(), color: "#607D8B".to_string(), is_system: system }
}

fn system_tags() -> Vec<Tag> {
    vec![
        tag(1, "工作", true),
        tag(2, "个人", true),
        tag(3, "订阅", true),
        tag(4, "垃圾", true),
        tag(5, "收藏", false),
    ]
}

fn email(sender: &str, subject: &str, body: &str) -> Email {
    let t = Timestamp { seconds: 0, nanos: 0 };
    Email {
        id: 0,
        account_id: 1,
        message_id: "m1".to_string(),
        subject: subject.to_string(),
        sender_name: "Sender".to_string(),
        sender_email: sender.to_string(),
        recipients: String::new(),
        date: t,
        body_text: body.to_string(),
        body_html: String::new(),
        is_read: false,
        is_flagged: false,
        uid: 1,
        created_at: t,
    }
}

fn classify(sender: &str, subject: &str, body: &str) -> Vec<i64> {
    EmailClassifier::new(&system_tags()).classify(&email(sender, subject, body))
}

#[test]
fn spam_keyword_gives_spam_tag() {
    assert_eq!(classify("a@example.org", "免费领取", "hello"), vec![4]);
    assert_eq!(classify("a@example.org", "Please VERIFY your account", ""), vec![4]);
}

#[test]
fn spam_domain_gives_spam_tag() {
    assert_eq!(classify("a@spam.example.org", "hello", "hi"), vec![4]);
    assert_eq!(classify("a@UNKNOWN-host.net", "hello", "hi"), vec![4]);
}

#[test]
fn subscription_keyword_and_domain() {
    assert_eq!(classify("a@example.org", "Weekly Newsletter", ""), vec![3]);
    assert_eq!(classify("bounce@mailgun.org", "hello", "hi"), vec![3]);
}

#[test]
fn work_domain_and_keyword() {
    assert_eq!(classify("boss@company.com", "hello", "hi"), vec![1]);
    assert_eq!(classify("a@example.org", "Project status", "see you at the meeting"), vec![1]);
}

#[test]
fn personal_domain() {
    assert_eq!(classify("friend@gmail.com", "hello", "hi"), vec![2]);
    assert_eq!(classify("friend@QQ.COM", "hello", "hi"), vec![2]);
}

#[test]
fn no_signal_no_tag() {
    assert_eq!(classify("a@example.org", "hello", "hi"), Vec::<i64>::new());
    assert_eq!(classify("no-at-sign", "hello", "hi"), Vec::<i64>::new());
}

#[test]
fn spam_takes_precedence_over_work() {
    assert_eq!(classify("boss@company.com", "urgent meeting", ""), vec![4]);
}

#[test]
fn missing_system_tag_falls_through() {
    let tags = vec![tag(1, "工作", true), tag(4, "垃圾", false)];
    let c = EmailClassifier::new(&tags);
    assert_eq!(c.classify(&email("boss@company.com", "免费", "")), vec![1]);
}

#[test]
fn no_system_tags_no_label() {
    let tags = vec![tag(1, "工作", false), tag(4, "垃圾", false)];
    let c = EmailClassifier::new(&tags);
    assert_eq!(c.classify(&email("x@spam.com", "免费", "")), Vec::<i64>::new());
    assert_eq!(auto_classify_email(&email("x@spam.com", "免费", ""), &[]), Vec::<i64>::new());
}

#[test]
fn later_system_tag_of_same_name_wins() {
    let tags = vec![tag(4, "垃圾", true), tag(9, "垃圾", true)];
    let c = EmailClassifier::new(&tags);
    assert_eq!(c.tag_id(&"垃圾".to_string()), Some(9));
    assert_eq!(c.tag_id(&"工作".to_string()), None);
}

#[test]
fn auto_classify_matches_classifier() {
    let e = email("friend@163.com", "周末", "一起吃饭");
    let tags = system_tags();
    assert_eq!(auto_classify_email(&e, &tags), EmailClassifier::new(&tags).classify(&e));
    assert_eq!(auto_classify_email(&e, &tags), vec![2]);
}

#[test]
fn extract_domain_cases() {
    let c = EmailClassifier::new(&[]);
    assert_eq!(c.extract_domain("User@Example.COM"), "example.com");
    assert_eq!(c.extract_domain("no-at-sign"), "");
    assert_eq!(c.extract_domain("a@b@C"), "b@c");
    assert_eq!(c.extract_domain("x@MÜNCHEN.de"), "münchen.de");
    assert_eq!(c.extract_domain("trailing@"), "");
}

#[test]
fn signal_functions() {
    let c = EmailClassifier::new(&[]);
    assert!(c.is_spam("中奖了", "example.org"));
    assert!(!c.is_spam("hello", "example.org"));
    assert!(c.is_subscription("", "news.sendgrid.net"));
    assert!(c.is_work("", "corp.io"));
    assert!(!c.is_work("", "corp.io.cn2"));
    assert!(c.is_personal("outlook.com"));
    assert!(!c.is_personal("outlook"));
}

#[test]
fn regex_matching_behaviour() {
    assert!(pattern_matches("a+b", "xxaab"));
    assert!(!pattern_matches("^a+b$", "xxaab"));
    assert!(!pattern_matches("(", "("));
}

#[test]
fn seeded_tags_drive_classification() {
    let tags: Vec<Tag> = mail_client::store::system_tag_seeds()
        .into_iter()
        .enumerate()
        .map(|(i, s)| Tag { id: i as i64 + 10, name: s.name, color: s.color, is_system: s.is_system })
        .collect();
    let c = EmailClassifier::new(&tags);
    assert_eq!(c.classify(&email("boss@corp.com", "hi", "")), vec![10]);
    assert_eq!(c.classify(&email("me@yahoo.com", "hi", "")), vec![11]);
    assert_eq!(c.classify(&email("me@yahoo.com", "unsubscribe", "")), vec![12]);
    assert_eq!(c.classify(&email("me@yahoo.com", "促销", "")), vec![13]);
}

#[test]
fn non_system_tags_are_ignored() {
    let mut tags = system_tags();
    tags.push(tag(99, "垃圾", false));
    assert_eq!(EmailClassifier::new(&tags).classify(&email("a@junk.org", "x", "y")), vec![4]);
}

use mail_client::error::AppError;
use mail_client::models::{Account, Email, SyncResult, Tag, Timestamp};
use mail_client::sync::{
    collect_results, more_batches_after, plan_new_email, AccountSync, SyncControl, SyncStatus,
};

fn result(name: &str, new_emails: usize, updated: usize) -> SyncResult {
    SyncResult { account_id: 7, account_name: name.to_string(), new_emails, updated_emails: updated }
}

fn account() -> Account {
    let t = Timestamp { seconds: 0, nanos: 0 };
    Account {
        id: 7,
        name: "Work".to_string(),
        email: "me@company.com".to_string(),
        imap_server: "imap.company.com".to_string(),
        imap_port: 993,
        username: "me".to_string(),
        password: "SECRET-REDACTED".to_string(),
        use_ssl: true,
        created_at: t,
        updated_at: t,
    }
}

fn is_syncing(s: &SyncStatus) -> bool {
    matches!(s, SyncStatus::Syncing { .. })
}

#[test]
fn manual_sync_refused_while_running() {
    let mut c = SyncControl::new();
    assert!(matches!(c.get_status(), SyncStatus::Idle));
    assert!(c.begin_manual(Some(3)).is_ok());
    assert!(matches!(c.get_status(), SyncStatus::Syncing { account_id: Some(3) }));
    match c.begin_manual(None) {
        Err(AppError::InvalidInput(m)) => assert_eq!(m, "Sync already in progress"),
        _ => panic!("second sync must be refused"),
    }
    assert!(matches!(c.get_status(), SyncStatus::Syncing { account_id: Some(3) }));
    c.finish_manual(&Ok(vec![result("Work", 2, 1)]));
    match c.get_status() {
        SyncStatus::Completed { results } => {
            assert_eq!(results.len(), 1);
            assert_eq!(results[0].new_emails, 2);
        }
        _ => panic!("completed"),
    }
    assert!(c.begin_manual(None).is_ok());
    c.finish_manual(&Err(AppError::Imap("down".to_string())));
    match c.get_status() {
        SyncStatus::Error { message } => assert_eq!(message, "IMAP error: down"),
        _ => panic!("error status"),
    }
    assert!(!is_syncing(&c.get_status()));
}

#[test]
fn background_switch() {
    let mut c = SyncControl::new();
    assert!(!c.begin_tick());
    assert!(matches!(c.get_status(), SyncStatus::Idle));
    assert!(c.start_background());
    assert!(!c.start_background());
    assert!(c.begin_tick());
    assert!(matches!(c.get_status(), SyncStatus::Syncing { account_id: None }));
    c.stop_background();
    assert!(!c.begin_tick());
    assert!(matches!(c.get_status(), SyncStatus::Idle));
}

#[test]
fn scheduled_sync_notices() {
    let mut c = SyncControl::new();
    let none = c.finish_scheduled(Ok(vec![result("Work", 0, 4)]));
    assert!(none.is_none());
    let notice = c.finish_scheduled(Ok(vec![result("Work", 2, 0), result("Home", 1, 0)])).unwrap();
    assert_eq!(notice.title, "邮件同步完成");
    assert_eq!(notice.body, "共收到 3 封新邮件");
    let notice = c.finish_scheduled(Ok(vec![result("Work", 2, 0)])).unwrap();
    assert_eq!(notice.body, "Work 收到 2 封新邮件");
    let notice = c.finish_scheduled(Err(AppError::AccountNotFound)).unwrap();
    assert_eq!(notice.title, "邮件同步失败");
    assert_eq!(notice.body, "错误: Account not found");
    match c.get_status() {
        SyncStatus::Error { message } => assert_eq!(message, "Account not found"),
        _ => panic!("error status"),
    }
}

#[test]
fn account_batches() {
    let mut s = AccountSync::new(&account());
    assert_eq!(s.next_batch(None), Some(None));
    assert_eq!(s.next_batch(Some(200)), Some(Some(200)));
    assert_eq!(s.next_batch(Some(200)), None);
    assert_eq!(s.next_batch(Some(350)), Some(Some(350)));
    s.record_email(true);
    s.record_email(true);
    s.record_email(false);
    let r = s.result();
    assert_eq!(r.account_id, 7);
    assert_eq!(r.account_name, "Work");
    assert_eq!(r.new_emails, 2);
    assert_eq!(r.updated_emails, 1);
    assert!(more_batches_after(200));
    assert!(!more_batches_after(199));
    assert!(!more_batches_after(0));
}

#[test]
fn new_email_plan() {
    let t = Timestamp { seconds: 0, nanos: 0 };
    let mut e = Email {
        id: 0,
        account_id: 7,
        message_id: "<1@x>".to_string(),
        subject: "Weekly newsletter".to_string(),
        sender_name: "News".to_string(),
        sender_email: "news@example.org".to_string(),
        recipients: String::new(),
        date: t,
        body_text: String::new(),
        body_html: String::new(),
        is_read: false,
        is_flagged: false,
        uid: 3,
        created_at: t,
    };
    let tags = vec![Tag { id: 3, name: "订阅".to_string(), color: "#9C27B0".to_string(), is_system: true }];
    let plan = plan_new_email(&e, &tags);
    assert_eq!(plan.tag_ids, vec![3]);
    let n = plan.notice.unwrap();
    assert_eq!(n.title, "新邮件");
    assert_eq!(n.body, "News - Weekly newsletter");
    e.is_read = true;
    assert!(plan_new_email(&e, &tags).notice.is_none());
}

#[test]
fn failed_accounts_are_dropped() {
    let outcomes = vec![
        Ok(result("a", 1, 0)),
        Err(AppError::Imap("x".to_string())),
        Ok(result("b", 0, 2)),
    ];
    let kept = collect_results(outcomes);
    assert_eq!(kept.len(), 2);
    assert_eq!(kept[0].account_name, "a");
    assert_eq!(kept[1].account_name, "b");
}

#[test]
fn one_background_loop_at_a_time() {
    let mut c = SyncControl::new();
    let mut spawned = 0;
    for _ in 0..3 {
        if c.start_background() {
            spawned += 1;
        }
    }
    assert_eq!(spawned, 1);
    c.stop_background();
    assert!(c.start_background());
    assert!(!c.start_background());
}

use mail_client::error::AppError;
use mail_client::models::SyncResult;
use mail_client::notify::{
    count_new_emails, handle_tray_event, new_email_body, sync_done_body, sync_error_body, tray_menu,
    unread_tooltip, TrayAction, TrayEvent, TrayMenuEntry,
};
use mail_client::text::{i64_to_decimal, str_contains, u64_to_decimal};

fn result(name: &str, new_emails: usize) -> SyncResult {
    SyncResult { account_id: 1, account_name: name.to_string(), new_emails, updated_emails: 0 }
}

#[test]
fn decimal_rendering() {
    assert_eq!(u64_to_decimal(0), "0");
    assert_eq!(u64_to_decimal(1234567890), "1234567890");
    assert_eq!(u64_to_decimal(u64::MAX), u64::MAX.to_string());
    assert_eq!(i64_to_decimal(-42), "-42");
    assert_eq!(i64_to_decimal(i64::MIN), i64::MIN.to_string());
    assert_eq!(i64_to_decimal(7), "7");
}

#[test]
fn substring_search() {
    assert!(str_contains("mail.sendgrid.net", "sendgrid"));
    assert!(str_contains("abc", ""));
    assert!(!str_contains("ab", "abc"));
    assert!(str_contains("订阅资讯", "资讯"));
}

#[test]
fn error_messages() {
    assert_eq!(AppError::Database("locked".to_string()).message(), "Database error: locked");
    assert_eq!(AppError::Imap("bye".to_string()).message(), "IMAP error: bye");
    assert_eq!(AppError::Io("denied".to_string()).message(), "IO error: denied");
    assert_eq!(AppError::Parse("bad".to_string()).message(), "Parse error: bad");
    assert_eq!(AppError::AccountLimit.message(), "Account limit reached (max 5 accounts)");
    assert_eq!(AppError::AccountNotFound.message(), "Account not found");
    assert_eq!(AppError::EmailNotFound.message(), "Email not found");
    assert_eq!(AppError::TagNotFound.message(), "Tag not found");
    assert_eq!(AppError::InvalidInput("x".to_string()).message(), "Invalid input: x");
}

#[test]
fn tooltip_text() {
    assert_eq!(unread_tooltip(0), "邮件客户端");
    assert_eq!(unread_tooltip(-3), "邮件客户端");
    assert_eq!(unread_tooltip(12), "邮件客户端 - 12 封未读");
}

#[test]
fn new_email_notification_text() {
    assert_eq!(new_email_body("Hello", "Alice"), "Alice - Hello");
}

#[test]
fn sync_notification_texts() {
    assert_eq!(sync_done_body(0, &[result("Work", 0)]), None);
    assert_eq!(sync_done_body(3, &[result("Work", 3)]), Some("Work 收到 3 封新邮件".to_string()));
    assert_eq!(
        sync_done_body(5, &[result("Work", 3), result("Home", 2)]),
        Some("共收到 5 封新邮件".to_string())
    );
    assert_eq!(sync_error_body("IMAP error: bye"), "错误: IMAP error: bye");
}

#[test]
fn new_email_totals() {
    assert_eq!(count_new_emails(&[]), 0);
    assert_eq!(count_new_emails(&[result("a", 3), result("b", 0), result("c", 4)]), 7);
}

#[test]
fn tray_events() {
    assert_eq!(handle_tray_event(&TrayEvent::LeftClick), TrayAction::ShowMainWindow);
    assert_eq!(handle_tray_event(&TrayEvent::DoubleClick), TrayAction::ShowMainWindow);
    assert_eq!(handle_tray_event(&TrayEvent::RightClick), TrayAction::Nothing);
    let click = |id: &str| handle_tray_event(&TrayEvent::MenuItemClick { id: id.to_string() });
    assert_eq!(click("show"), TrayAction::ShowMainWindow);
    assert_eq!(click("sync"), TrayAction::SyncAllAccounts);
    assert_eq!(click("quit"), TrayAction::Quit);
    assert_eq!(click("other"), TrayAction::Nothing);
}

#[test]
fn tray_menu_layout() {
    let menu = tray_menu();
    assert_eq!(menu.len(), 4);
    match &menu[0] {
        TrayMenuEntry::Item { id, label } => {
            assert_eq!(id, "show");
            assert_eq!(label, "显示主窗口");
        }
        _ => panic!("first entry is an item"),
    }
    assert!(matches!(menu[2], TrayMenuEntry::Separator));
    match &menu[3] {
        TrayMenuEntry::Item { id, label } => {
            assert_eq!(id, "quit");
            assert_eq!(label, "退出");
        }
        _ => panic!("last entry is an item"),
    }
}

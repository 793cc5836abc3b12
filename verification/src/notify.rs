//! What the tray icon and the desktop notifications show, and what a click
//! on the tray icon does.
use vstd::prelude::*;
use crate::models::SyncResult;
use crate::text::{concat, decimal, signed_decimal, i64_to_decimal, u64_to_decimal};

verus! {

broadcast use vstd::string::group_string_axioms;

/// Title of the notification for a newly arrived email.
pub const NEW_EMAIL_TITLE: &'static str = "新邮件";

/// Title of the notification after a synchronisation that brought new mail.
pub const SYNC_DONE_TITLE: &'static str = "邮件同步完成";

/// Title of the notification after a failed synchronisation.
pub const SYNC_FAILED_TITLE: &'static str = "邮件同步失败";

/// Tooltip of the tray icon when nothing is unread.
pub const APP_TOOLTIP: &'static str = "邮件客户端";

/// Id of the tray icon.
pub const TRAY_ID: &'static str = "main";

/// Body of the notification for a new email: sender, a dash, subject.
pub open spec fn new_email_text(subject: Seq<char>, sender: Seq<char>) -> Seq<char> {
    sender + " - "@ + subject
}

/// Body of the notification for a new email from `sender` about `subject`.
pub fn new_email_body(subject: &str, sender: &str) -> (r: String)
    ensures
        r@ == new_email_text(subject@, sender@),
{
    let head = concat(sender, " - ");
    concat(head.as_str(), subject)
}

/// Tooltip of the tray icon for `count` unread emails.
pub open spec fn tooltip_text(count: int) -> Seq<char> {
    if count > 0 {
        APP_TOOLTIP@ + " - "@ + signed_decimal(count) + " 封未读"@
    } else {
        APP_TOOLTIP@
    }
}

/// Tooltip of the tray icon: the unread count when there is any unread mail.
pub fn unread_tooltip(count: i64) -> (r: String)
    ensures
        r@ == tooltip_text(count as int),
{
    if count > 0 {
        let head = concat(APP_TOOLTIP, " - ");
        let digits = i64_to_decimal(count);
        let with_count = concat(head.as_str(), digits.as_str());
        concat(with_count.as_str(), " 封未读")
    } else {
        String::from_str(APP_TOOLTIP)
    }
}

/// Body of the notification after a failed synchronisation.
pub open spec fn sync_error_text(error: Seq<char>) -> Seq<char> {
    "错误: "@ + error
}

/// Body of the notification after a failed synchronisation with `error`.
pub fn sync_error_body(error: &str) -> (r: String)
    ensures
        r@ == sync_error_text(error@),
{
    concat("错误: ", error)
}

/// New emails over all results.
pub open spec fn total_new_emails(results: Seq<SyncResult>) -> int
    decreases results.len(),
{
    if results.len() == 0 {
        0
    } else {
        total_new_emails(results.drop_last()) + results.last().new_emails
    }
}

/// Whether some result brought new email.
pub open spec fn any_new_emails(results: Seq<SyncResult>) -> bool {
    exists|i: int| 0 <= i < results.len() && #[trigger] results[i].new_emails > 0
}

/// Without any account that brought new email, the total is zero; with
/// one, it is positive.
pub proof fn lemma_total_positive_iff_any_new(results: Seq<SyncResult>)
    ensures
        total_new_emails(results) >= 0,
        (total_new_emails(results) > 0) == any_new_emails(results),
    decreases results.len(),
{
    if results.len() > 0 {
        let rest = results.drop_last();
        lemma_total_positive_iff_any_new(rest);
        if any_new_emails(rest) {
            let i = choose|i: int| 0 <= i < rest.len() && #[trigger] rest[i].new_emails > 0;
            assert(results[i] == rest[i]);
        }
        if any_new_emails(results) {
            let i = choose|i: int| 0 <= i < results.len() && #[trigger] results[i].new_emails > 0;
            if i < rest.len() {
                assert(results[i] == rest[i]);
            }
        }
    }
}

/// The sum of the new emails of all results.
pub fn count_new_emails(results: &[SyncResult]) -> (total: usize)
    requires
        total_new_emails(results@) <= usize::MAX,
    ensures
        total == total_new_emails(results@),
{
    let mut total: usize = 0;
    let mut i: usize = 0;
    while i < results.len()
        invariant
            i <= results.len(),
            total == total_new_emails(results@.take(i as int)),
            total_new_emails(results@) <= usize::MAX,
        decreases results.len() - i,
    {
        proof {
            lemma_total_prefix_bounded(results@, i as int + 1);
            assert(results@.take(i + 1).drop_last() =~= results@.take(i as int));
        }
        total = total + results[i].new_emails;
        i = i + 1;
    }
    assert(results@.take(results.len() as int) =~= results@);
    total
}

/// The new emails of a prefix are at most those of the whole list.
pub proof fn lemma_total_prefix_bounded(results: Seq<SyncResult>, n: int)
    requires
        0 <= n <= results.len(),
    ensures
        total_new_emails(results.take(n)) <= total_new_emails(results),
    decreases results.len() - n,
{
    if n < results.len() {
        let front = results.drop_last();
        assert(front.take(n) =~= results.take(n));
        lemma_total_prefix_bounded(front, n);
        lemma_total_positive_iff_any_new(front);
    } else {
        assert(results.take(n) =~= results);
    }
}

/// Body of the notification after a synchronisation: none when nothing new
/// arrived; the account's name and count when one account was synchronised;
/// the overall count otherwise.
pub open spec fn sync_done_text(total_new: int, results: Seq<SyncResult>) -> Option<Seq<char>> {
    if total_new == 0 {
        None
    } else if results.len() == 1 {
        Some(results[0].account_name@ + " 收到 "@ + decimal(results[0].new_emails as nat) + " 封新邮件"@)
    } else {
        Some("共收到 "@ + decimal(total_new as nat) + " 封新邮件"@)
    }
}

/// Body of the notification after a synchronisation that brought
/// `total_new` new emails in `results`.
pub fn sync_done_body(total_new: usize, results: &[SyncResult]) -> (r: Option<String>)
    ensures
        match r {
            Some(s) => sync_done_text(total_new as int, results@) == Some(s@),
            None => sync_done_text(total_new as int, results@) is None,
        },
{
    if total_new == 0 {
        return None;
    }
    if results.len() == 1 {
        let result = &results[0];
        let head = concat(result.account_name.as_str(), " 收到 ");
        let digits = u64_to_decimal(result.new_emails as u64);
        let with_count = concat(head.as_str(), digits.as_str());
        Some(concat(with_count.as_str(), " 封新邮件"))
    } else {
        let digits = u64_to_decimal(total_new as u64);
        let head = concat("共收到 ", digits.as_str());
        Some(concat(head.as_str(), " 封新邮件"))
    }
}

/// Something that happened to the tray icon.
#[derive(Clone, Debug)]
pub enum TrayEvent {
    LeftClick,
    RightClick,
    DoubleClick,
    MenuItemClick { id: String },
}

/// What the application does in response to a tray event.
#[derive(Clone, Copy, Debug, PartialEq, Eq, Structural)]
pub enum TrayAction {
    ShowMainWindow,
    SyncAllAccounts,
    Quit,
    Nothing,
}

/// The response to a tray event: clicks show the window; the menu items
/// `show`, `sync` and `quit` show the window, synchronise every account and
/// quit; anything else is ignored.
pub open spec fn tray_response(event: TrayEvent) -> TrayAction {
    match event {
        TrayEvent::LeftClick => TrayAction::ShowMainWindow,
        TrayEvent::DoubleClick => TrayAction::ShowMainWindow,
        TrayEvent::RightClick => TrayAction::Nothing,
        TrayEvent::MenuItemClick { id } => {
            if id@ == "show"@ {
                TrayAction::ShowMainWindow
            } else if id@ == "sync"@ {
                TrayAction::SyncAllAccounts
            } else if id@ == "quit"@ {
                TrayAction::Quit
            } else {
                TrayAction::Nothing
            }
        },
    }
}

/// What to do for a tray event.
pub fn handle_tray_event(event: &TrayEvent) -> (r: TrayAction)
    ensures
        r == tray_response(*event),
{
    match event {
        TrayEvent::LeftClick => TrayAction::ShowMainWindow,
        TrayEvent::DoubleClick => TrayAction::ShowMainWindow,
        TrayEvent::RightClick => TrayAction::Nothing,
        TrayEvent::MenuItemClick { id } => {
            if *id == String::from_str("show") {
                TrayAction::ShowMainWindow
            } else if *id == String::from_str("sync") {
                TrayAction::SyncAllAccounts
            } else if *id == String::from_str("quit") {
                TrayAction::Quit
            } else {
                TrayAction::Nothing
            }
        },
    }
}

/// An entry of the tray menu.
#[derive(Clone, Debug)]
pub enum TrayMenuEntry {
    Item { id: String, label: String },
    Separator,
}

/// The tray menu: show the window, synchronise, a separator, quit.
pub fn tray_menu() -> (r: Vec<TrayMenuEntry>)
    ensures
        r@.len() == 4,
        r@[0] matches TrayMenuEntry::Item { id, label } && id@ == "show"@ && label@ == "显示主窗口"@,
        r@[1] matches TrayMenuEntry::Item { id, label } && id@ == "sync"@ && label@ == "同步邮件"@,
        r@[2] is Separator,
        r@[3] matches TrayMenuEntry::Item { id, label } && id@ == "quit"@ && label@ == "退出"@,
{
    let mut menu: Vec<TrayMenuEntry> = Vec::new();
    menu.push(
        TrayMenuEntry::Item { id: String::from_str("show"), label: String::from_str("显示主窗口") },
    );
    menu.push(
        TrayMenuEntry::Item { id: String::from_str("sync"), label: String::from_str("同步邮件") },
    );
    menu.push(TrayMenuEntry::Separator);
    menu.push(TrayMenuEntry::Item { id: String::from_str("quit"), label: String::from_str("退出") });
    menu
}

} // verus!

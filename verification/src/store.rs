//! The rules of the local mail store: the account limit, how missing rows
//! become errors, how stored rows become records, and the SQL of the
//! email listing.
use vstd::prelude::*;
use crate::error::{AppError, AppResult};
use crate::models::{Account, Email, Tag, Timestamp};
use crate::text::{concat, decimal, u64_to_decimal};
use crate::time::{parse_rfc3339, rfc3339_parse};
use crate::classifier::{PERSONAL_TAG, SPAM_TAG, SUBSCRIPTION_TAG, WORK_TAG};

verus! {

broadcast use vstd::string::group_string_axioms;

/// At most this many accounts can be configured.
pub const MAX_ACCOUNTS: i64 = 5;

/// Page size of an email listing when none is given.
pub const DEFAULT_PAGE_SIZE: i64 = 50;

/// A tag created with the database.
#[derive(Clone, Debug)]
pub struct TagSeed {
    pub name: String,
    pub color: String,
    pub is_system: bool,
}

/// The system tags every database starts with: work, personal,
/// subscription and spam, the four categories of the classifier.
pub fn system_tag_seeds() -> (r: Vec<TagSeed>)
    ensures
        r@.len() == 4,
        r@[0].name@ == WORK_TAG@ && r@[0].color@ == "#4CAF50"@,
        r@[1].name@ == PERSONAL_TAG@ && r@[1].color@ == "#2196F3"@,
        r@[2].name@ == SUBSCRIPTION_TAG@ && r@[2].color@ == "#9C27B0"@,
        r@[3].name@ == SPAM_TAG@ && r@[3].color@ == "#F44336"@,
        forall|i: int| 0 <= i < r@.len() ==> (#[trigger] r@[i]).is_system,
{
    let mut r: Vec<TagSeed> = Vec::new();
    r.push(TagSeed { name: String::from_str(WORK_TAG), color: String::from_str("#4CAF50"), is_system: true });
    r.push(TagSeed { name: String::from_str(PERSONAL_TAG), color: String::from_str("#2196F3"), is_system: true });
    r.push(TagSeed { name: String::from_str(SUBSCRIPTION_TAG), color: String::from_str("#9C27B0"), is_system: true });
    r.push(TagSeed { name: String::from_str(SPAM_TAG), color: String::from_str("#F44336"), is_system: true });
    r
}

/// A new account may be added while fewer than `MAX_ACCOUNTS` exist; an
/// accepted addition keeps the count within the limit.
pub fn check_account_capacity(existing: i64) -> (r: AppResult<()>)
    ensures
        existing >= MAX_ACCOUNTS ==> r matches Err(AppError::AccountLimit),
        existing < MAX_ACCOUNTS ==> r is Ok,
        r is Ok ==> existing + 1 <= MAX_ACCOUNTS,
        r is Ok <==> accepts_new_account(existing as int),
{
    if existing >= MAX_ACCOUNTS {
        return Err(AppError::AccountLimit);
    }
    Ok(())
}

/// Whether an account may be added to `existing` stored ones.
pub open spec fn accepts_new_account(existing: int) -> bool {
    existing < MAX_ACCOUNTS
}

/// A change to the set of stored accounts.
pub enum AccountChange {
    /// An account is asked to be added; it is stored only when accepted.
    Add,
    /// An account is deleted; `found` tells whether it existed.
    Delete { found: bool },
}

/// The number of stored accounts after a change: an addition counts only
/// when accepted, a deletion only when the account existed.
pub open spec fn accounts_after(existing: int, change: AccountChange) -> int {
    match change {
        AccountChange::Add => if accepts_new_account(existing) {
            existing + 1
        } else {
            existing
        },
        AccountChange::Delete { found } => if found && existing > 0 {
            existing - 1
        } else {
            existing
        },
    }
}

/// The number of stored accounts after a sequence of changes.
pub open spec fn accounts_after_all(existing: int, changes: Seq<AccountChange>) -> int
    decreases changes.len(),
{
    if changes.len() == 0 {
        existing
    } else {
        accounts_after(accounts_after_all(existing, changes.drop_last()), changes.last())
    }
}

/// The account limit holds for ever: starting from at most `MAX_ACCOUNTS`
/// stored accounts, no sequence of additions and deletions ever leads to
/// more, and a refused addition changes nothing.
pub proof fn lemma_account_limit_kept(existing: int, changes: Seq<AccountChange>)
    requires
        0 <= existing <= MAX_ACCOUNTS,
    ensures
        0 <= accounts_after_all(existing, changes) <= MAX_ACCOUNTS,
        forall|n: int|
            !accepts_new_account(n) ==> #[trigger] accounts_after(n, AccountChange::Add) == n,
    decreases changes.len(),
{
    if changes.len() > 0 {
        lemma_account_limit_kept(existing, changes.drop_last());
    }
}

/// What an `INSERT OR IGNORE` of an email did.
#[derive(Clone, Copy, Debug, PartialEq, Eq, Structural)]
pub enum EmailInsert {
    /// The email was already stored: its stored id is looked up, and its
    /// attachments are not stored again.
    Duplicate,
    /// The email is new: the new row's id is used, and its attachments are stored.
    Inserted,
}

/// The outcome of inserting an email, from the number of rows inserted.
pub fn email_insert_outcome(rows: usize) -> (r: EmailInsert)
    ensures
        rows == 0 ==> r == EmailInsert::Duplicate,
        rows > 0 ==> r == EmailInsert::Inserted,
{
    if rows == 0 {
        EmailInsert::Duplicate
    } else {
        EmailInsert::Inserted
    }
}

/// An update or delete that changed no row means the record was missing.
pub fn require_rows_changed(rows: usize, missing: AppError) -> (r: AppResult<()>)
    ensures
        rows == 0 ==> r == Err::<(), AppError>(missing),
        rows > 0 ==> r is Ok,
{
    if rows == 0 {
        return Err(missing);
    }
    Ok(())
}

/// Why a single-row query gave no row.
#[derive(Clone, Debug)]
pub enum QueryFailure {
    /// The query ran and found nothing.
    NoRows,
    /// The database reported an error, with its text.
    Failed(String),
}

/// The error for a single-row query that gave no row: `missing` when there
/// was no such row, a database error otherwise.
pub fn lookup_error(failure: QueryFailure, missing: AppError) -> (r: AppError)
    ensures
        failure is NoRows ==> r == missing,
        failure matches QueryFailure::Failed(m) ==> r == AppError::Database(m),
{
    match failure {
        QueryFailure::NoRows => missing,
        QueryFailure::Failed(m) => AppError::Database(m),
    }
}

/// How a flag is stored: 1 for set, 0 for clear.
pub fn flag_value(flag: bool) -> (v: i64)
    ensures
        v == (if flag { 1i64 } else { 0i64 }),
{
    if flag {
        1
    } else {
        0
    }
}

/// A stored flag reads as set exactly when it is 1.
pub fn flag_is_set(v: i64) -> (flag: bool)
    ensures
        flag == (v == 1),
{
    v == 1
}

/// The highest UID stored for an account, from `COALESCE(MAX(uid), 0)`:
/// none when the query failed or nothing is stored.
pub fn stored_max_uid(max: Option<i64>) -> (r: Option<u32>)
    ensures
        match max {
            Some(v) => if v > 0 {
                r == Some(v as u32)
            } else {
                r is None
            },
            None => r is None,
        },
{
    match max {
        Some(v) => if v > 0 {
            Some(v as u32)
        } else {
            None
        },
        None => None,
    }
}

/// Whether an email is new, from the count of stored emails with its
/// account and message id; a failed count reads as zero.
pub fn email_is_new(count: Option<i64>) -> (r: bool)
    ensures
        r == match count {
            Some(c) => c == 0,
            None => true,
        },
{
    match count {
        Some(c) => c == 0,
        None => true,
    }
}

/// Total of a search; a failed count reads as zero.
pub fn search_total(count: Option<i64>) -> (r: i64)
    ensures
        r == match count {
            Some(c) => c,
            None => 0,
        },
{
    match count {
        Some(c) => c,
        None => 0,
    }
}

/// Page size and offset of a listing, with 50 and 0 when not given.
pub fn page_or_default(limit: Option<i64>, offset: Option<i64>) -> (r: (i64, i64))
    ensures
        r.0 == match limit {
            Some(l) => l,
            None => DEFAULT_PAGE_SIZE,
        },
        r.1 == match offset {
            Some(o) => o,
            None => 0,
        },
{
    let l = match limit {
        Some(l) => l,
        None => DEFAULT_PAGE_SIZE,
    };
    let o = match offset {
        Some(o) => o,
        None => 0,
    };
    (l, o)
}

/// An account as the database returns it.
#[derive(Clone, Debug)]
pub struct AccountRow {
    pub id: i64,
    pub name: String,
    pub email: String,
    pub imap_server: String,
    pub imap_port: u16,
    pub username: String,
    pub password: String,
    pub use_ssl: i64,
    pub created_at: String,
    pub updated_at: String,
}

/// An email as the database returns it.
#[derive(Clone, Debug)]
pub struct EmailRow {
    pub id: i64,
    pub account_id: i64,
    pub message_id: String,
    pub subject: String,
    pub sender_name: String,
    pub sender_email: String,
    pub recipients: String,
    pub date: String,
    pub body_text: String,
    pub body_html: String,
    pub is_read: i64,
    pub is_flagged: i64,
    pub uid: u32,
    pub created_at: String,
}

/// A tag as the database returns it.
#[derive(Clone, Debug)]
pub struct TagRow {
    pub id: i64,
    pub name: String,
    pub color: String,
    pub is_system: i64,
}

/// A stored timestamp, or the parse error it gives.
pub fn stored_timestamp(text: &String) -> (r: AppResult<Timestamp>)
    ensures
        match rfc3339_parse(text@) {
            Ok(t) => r == Ok::<Timestamp, AppError>(t),
            Err(m) => r matches Err(AppError::Parse(e)) && e@ == m,
        },
{
    match parse_rfc3339(text.as_str()) {
        Ok(t) => Ok(t),
        Err(m) => Err(AppError::Parse(m)),
    }
}

/// The account a row describes; the first timestamp that does not parse
/// gives a parse error.
pub fn account_from_row(row: AccountRow) -> (r: AppResult<Account>)
    ensures
        match (rfc3339_parse(row.created_at@), rfc3339_parse(row.updated_at@)) {
            (Ok(c), Ok(u)) => r matches Ok(a) && a.id == row.id && a.name == row.name && a.email
                == row.email && a.imap_server == row.imap_server && a.imap_port == row.imap_port
                && a.username == row.username && a.password == row.password && a.use_ssl == (
            row.use_ssl == 1) && a.created_at == c && a.updated_at == u,
            (Err(m), _) => r matches Err(AppError::Parse(e)) && e@ == m,
            (Ok(_), Err(m)) => r matches Err(AppError::Parse(e)) && e@ == m,
        },
{
    let created_at = match stored_timestamp(&row.created_at) {
        Ok(t) => t,
        Err(e) => return Err(e),
    };
    let updated_at = match stored_timestamp(&row.updated_at) {
        Ok(t) => t,
        Err(e) => return Err(e),
    };
    Ok(
        Account {
            id: row.id,
            name: row.name,
            email: row.email,
            imap_server: row.imap_server,
            imap_port: row.imap_port,
            username: row.username,
            password: row.password,
            use_ssl: flag_is_set(row.use_ssl),
            created_at,
            updated_at,
        },
    )
}

/// The email a row describes; the first timestamp that does not parse
/// gives a parse error.
pub fn email_from_row(row: EmailRow) -> (r: AppResult<Email>)
    ensures
        match (rfc3339_parse(row.date@), rfc3339_parse(row.created_at@)) {
            (Ok(d), Ok(c)) => r matches Ok(e) && e.id == row.id && e.account_id == row.account_id
                && e.message_id == row.message_id && e.subject == row.subject && e.sender_name
                == row.sender_name && e.sender_email == row.sender_email && e.recipients
                == row.recipients && e.date == d && e.body_text == row.body_text && e.body_html
                == row.body_html && e.is_read == (row.is_read == 1) && e.is_flagged == (
            row.is_flagged == 1) && e.uid == row.uid && e.created_at == c,
            (Err(m), _) => r matches Err(AppError::Parse(e)) && e@ == m,
            (Ok(_), Err(m)) => r matches Err(AppError::Parse(e)) && e@ == m,
        },
{
    let date = match stored_timestamp(&row.date) {
        Ok(t) => t,
        Err(e) => return Err(e),
    };
    let created_at = match stored_timestamp(&row.created_at) {
        Ok(t) => t,
        Err(e) => return Err(e),
    };
    Ok(
        Email {
            id: row.id,
            account_id: row.account_id,
            message_id: row.message_id,
            subject: row.subject,
            sender_name: row.sender_name,
            sender_email: row.sender_email,
            recipients: row.recipients,
            date,
            body_text: row.body_text,
            body_html: row.body_html,
            is_read: flag_is_set(row.is_read),
            is_flagged: flag_is_set(row.is_flagged),
            uid: row.uid,
            created_at,
        },
    )
}

/// The tag a row describes.
pub fn tag_from_row(row: TagRow) -> (t: Tag)
    ensures
        t.id == row.id,
        t.name == row.name,
        t.color == row.color,
        t.is_system == (row.is_system == 1),
{
    Tag { id: row.id, name: row.name, color: row.color, is_system: flag_is_set(row.is_system) }
}

/// The join of the email listing: only tagged emails when filtering by tag.
pub open spec fn join_clause(by_tag: bool) -> Seq<char> {
    if by_tag {
        "INNER JOIN email_tags et ON e.id = et.email_id"@
    } else {
        "LEFT JOIN email_tags et ON e.id = et.email_id"@
    }
}

/// The filter of the email listing, numbered from `?1`.
pub open spec fn where_clause(account_id: Option<i64>, tag_id: Option<i64>) -> Seq<char> {
    match (account_id, tag_id) {
        (Some(_), Some(_)) => "WHERE e.account_id = ?1 AND et.tag_id = ?2"@,
        (Some(_), None) => "WHERE e.account_id = ?1"@,
        (None, Some(_)) => "WHERE et.tag_id = ?1"@,
        (None, None) => Seq::empty(),
    }
}

/// The values bound to the filter, in the order of their numbers.
pub open spec fn filter_values(account_id: Option<i64>, tag_id: Option<i64>) -> Seq<i64> {
    match (account_id, tag_id) {
        (Some(a), Some(t)) => seq![a, t],
        (Some(a), None) => seq![a],
        (None, Some(t)) => seq![t],
        (None, None) => Seq::empty(),
    }
}

/// Start of the page query, up to its joins.
pub open spec fn list_head() -> Seq<char> {
    "SELECT DISTINCT e.id, e.account_id, e.message_id, e.subject, e.sender_name, e.sender_email, \n                    e.recipients, e.date, e.body_text, e.body_html, e.is_read, e.is_flagged, e.uid, e.created_at\n             FROM emails e "@
}

/// The query counting the matching emails.
pub open spec fn count_query(account_id: Option<i64>, tag_id: Option<i64>) -> Seq<char> {
    "SELECT COUNT(DISTINCT e.id) FROM emails e "@ + join_clause(tag_id is Some) + " "@
        + where_clause(account_id, tag_id)
}

/// The query of one page, newest first, with the page size and offset
/// bound after the filter values.
pub open spec fn page_query(account_id: Option<i64>, tag_id: Option<i64>) -> Seq<char> {
    let n = filter_values(account_id, tag_id).len();
    list_head() + join_clause(tag_id is Some) + " "@ + where_clause(account_id, tag_id)
        + "\n             ORDER BY e.date DESC LIMIT ?"@ + decimal(n + 1) + " OFFSET ?"@ + decimal(
        n + 2,
    )
}

/// The SQL and values of an email listing.
#[derive(Clone, Debug)]
pub struct EmailListQuery {
    pub count_sql: String,
    pub count_params: Vec<i64>,
    pub page_sql: String,
    pub page_params: Vec<i64>,
}

/// The queries listing the emails of an account and/or a tag, one page of
/// `limit` emails after `offset`.
pub fn email_list_query(account_id: Option<i64>, tag_id: Option<i64>, limit: i64, offset: i64) -> (q: EmailListQuery)
    ensures
        q.count_sql@ == count_query(account_id, tag_id),
        q.count_params@ == filter_values(account_id, tag_id),
        q.page_sql@ == page_query(account_id, tag_id),
        q.page_params@ == filter_values(account_id, tag_id).push(limit).push(offset),
{
    let mut params: Vec<i64> = Vec::new();
    let where_sql = match (account_id, tag_id) {
        (Some(a), Some(t)) => {
            params.push(a);
            params.push(t);
            String::from_str("WHERE e.account_id = ?1 AND et.tag_id = ?2")
        },
        (Some(a), None) => {
            params.push(a);
            String::from_str("WHERE e.account_id = ?1")
        },
        (None, Some(t)) => {
            params.push(t);
            String::from_str("WHERE et.tag_id = ?1")
        },
        (None, None) => String::new(),
    };
    assert(params@ =~= filter_values(account_id, tag_id));
    let join_sql = if tag_id.is_some() {
        "INNER JOIN email_tags et ON e.id = et.email_id"
    } else {
        "LEFT JOIN email_tags et ON e.id = et.email_id"
    };
    let count_head = concat("SELECT COUNT(DISTINCT e.id) FROM emails e ", join_sql);
    let count_mid = concat(count_head.as_str(), " ");
    let count_sql = concat(count_mid.as_str(), where_sql.as_str());

    let n = params.len();
    assert(n <= 2);
    let limit_pos = u64_to_decimal((n + 1) as u64);
    let offset_pos = u64_to_decimal((n + 2) as u64);
    let head = concat(
        "SELECT DISTINCT e.id, e.account_id, e.message_id, e.subject, e.sender_name, e.sender_email, \n                    e.recipients, e.date, e.body_text, e.body_html, e.is_read, e.is_flagged, e.uid, e.created_at\n             FROM emails e ",
        join_sql,
    );
    let p1 = concat(head.as_str(), " ");
    let p2 = concat(p1.as_str(), where_sql.as_str());
    let p3 = concat(p2.as_str(), "\n             ORDER BY e.date DESC LIMIT ?");
    let p4 = concat(p3.as_str(), limit_pos.as_str());
    let p5 = concat(p4.as_str(), " OFFSET ?");
    let page_sql = concat(p5.as_str(), offset_pos.as_str());

    let mut page_params: Vec<i64> = Vec::new();
    let mut i: usize = 0;
    while i < n
        invariant
            n == params.len(),
            i <= n,
            page_params@ == params@.take(i as int),
        decreases n - i,
    {
        page_params.push(params[i]);
        i = i + 1;
        assert(page_params@ =~= params@.take(i as int));
    }
    assert(params@.take(n as int) =~= params@);
    page_params.push(limit);
    page_params.push(offset);
    EmailListQuery { count_sql, count_params: params, page_sql, page_params }
}

/// Whether `pattern` occurs in `text`.
pub open spec fn mentions(text: Seq<char>, pattern: Seq<char>) -> bool {
    exists|i: int| 0 <= i && i + pattern.len() <= text.len() && #[trigger] text.subrange(i, i + pattern.len()) == pattern
}

/// A pattern found at `at` in `w` is found in `x + w`, and stays found when
/// more text follows.
proof fn lemma_mentions_in(x: Seq<char>, w: Seq<char>, y: Seq<char>, pattern: Seq<char>, at: int)
    requires
        0 <= at,
        at + pattern.len() <= w.len(),
        w.subrange(at, at + pattern.len()) == pattern,
    ensures
        mentions(x + w, pattern),
        mentions(x + w + y, pattern),
{
    let i = x.len() + at;
    assert((x + w).subrange(i, i + pattern.len()) =~= pattern);
    assert((x + w + y).subrange(i, i + pattern.len()) =~= pattern);
}

/// The filter of the email listing: an account id given is bound to
/// `?1` and tested against `e.account_id`; a tag id given is bound after it
/// and tested against `et.tag_id` through an inner join; with neither, the
/// count covers every stored email.
pub proof fn lemma_list_query_filters(account_id: Option<i64>, tag_id: Option<i64>)
    ensures
        filter_values(account_id, tag_id).len() == (if account_id is Some { 1int } else { 0 }) + (
        if tag_id is Some { 1int } else { 0 }),
        account_id matches Some(a) ==> filter_values(account_id, tag_id)[0] == a && mentions(
            count_query(account_id, tag_id),
            "WHERE e.account_id = ?1"@,
        ) && mentions(page_query(account_id, tag_id), "WHERE e.account_id = ?1"@),
        tag_id matches Some(t) ==> filter_values(account_id, tag_id).last() == t && mentions(
            count_query(account_id, tag_id),
            "INNER JOIN email_tags et"@,
        ) && mentions(
            count_query(account_id, tag_id),
            if account_id is Some { "AND et.tag_id = ?2"@ } else { "WHERE et.tag_id = ?1"@ },
        ) && mentions(
            page_query(account_id, tag_id),
            if account_id is Some { "AND et.tag_id = ?2"@ } else { "WHERE et.tag_id = ?1"@ },
        ),
        mentions(page_query(account_id, tag_id), "ORDER BY e.date DESC LIMIT ?"@ + decimal(
            filter_values(account_id, tag_id).len() + 1,
        ) + " OFFSET ?"@ + decimal(filter_values(account_id, tag_id).len() + 2)),
        account_id is None && tag_id is None ==> count_query(account_id, tag_id)
            == "SELECT COUNT(DISTINCT e.id) FROM emails e LEFT JOIN email_tags et ON e.id = et.email_id "@,
{
    reveal_strlit("WHERE e.account_id = ?1 AND et.tag_id = ?2");
    reveal_strlit("WHERE e.account_id = ?1");
    reveal_strlit("WHERE et.tag_id = ?1");
    reveal_strlit("AND et.tag_id = ?2");
    reveal_strlit("INNER JOIN email_tags et ON e.id = et.email_id");
    reveal_strlit("INNER JOIN email_tags et");
    reveal_strlit("SELECT COUNT(DISTINCT e.id) FROM emails e ");
    reveal_strlit("LEFT JOIN email_tags et ON e.id = et.email_id");
    reveal_strlit(" ");
    reveal_strlit("SELECT COUNT(DISTINCT e.id) FROM emails e LEFT JOIN email_tags et ON e.id = et.email_id ");
    let w = where_clause(account_id, tag_id);
    let count_head = "SELECT COUNT(DISTINCT e.id) FROM emails e "@ + join_clause(tag_id is Some) + " "@;
    let page_head = list_head() + join_clause(tag_id is Some) + " "@;
    let n = filter_values(account_id, tag_id).len();
    let page_tail = "\n             ORDER BY e.date DESC LIMIT ?"@ + decimal(n + 1) + " OFFSET ?"@ + decimal(
        n + 2,
    );
    assert(count_query(account_id, tag_id) == count_head + w);
    assert(page_query(account_id, tag_id) =~= page_head + w + page_tail);
    if account_id is Some {
        let p = "WHERE e.account_id = ?1"@;
        assert(w.subrange(0, p.len() as int) =~= p);
        lemma_mentions_in(count_head, w, Seq::empty(), p, 0);
        lemma_mentions_in(page_head, w, page_tail, p, 0);
    }
    if tag_id is Some {
        let j = "INNER JOIN email_tags et ON e.id = et.email_id"@;
        let pj = "INNER JOIN email_tags et"@;
        assert(j.subrange(0, pj.len() as int) =~= pj);
        lemma_mentions_in("SELECT COUNT(DISTINCT e.id) FROM emails e "@, j, " "@ + w, pj, 0);
        assert(count_head + w =~= "SELECT COUNT(DISTINCT e.id) FROM emails e "@ + j + (" "@ + w));
        if account_id is Some {
            let p = "AND et.tag_id = ?2"@;
            assert(w.subrange(24, 24 + p.len() as int) =~= p);
            lemma_mentions_in(count_head, w, Seq::empty(), p, 24);
            lemma_mentions_in(page_head, w, page_tail, p, 24);
        } else {
            let p = "WHERE et.tag_id = ?1"@;
            assert(w.subrange(0, p.len() as int) =~= p);
            lemma_mentions_in(count_head, w, Seq::empty(), p, 0);
            lemma_mentions_in(page_head, w, page_tail, p, 0);
        }
    }
    reveal_strlit("\n             ORDER BY e.date DESC LIMIT ?");
    reveal_strlit("ORDER BY e.date DESC LIMIT ?");
    let order = "ORDER BY e.date DESC LIMIT ?"@ + decimal(n + 1) + " OFFSET ?"@ + decimal(n + 2);
    assert(page_tail.subrange(14, 14 + order.len() as int) =~= order);
    lemma_mentions_in(page_head + w, page_tail, Seq::empty(), order, 14);
    if account_id is None && tag_id is None {
        assert(count_query(account_id, tag_id) =~= "SELECT COUNT(DISTINCT e.id) FROM emails e LEFT JOIN email_tags et ON e.id = et.email_id "@);
    }
}

} // verus!

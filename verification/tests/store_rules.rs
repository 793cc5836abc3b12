use mail_client::error::AppError;
use mail_client::mailbox::{select_uids, sort_uids, uid_search_query};
use mail_client::models::Timestamp;
use mail_client::store::{
    account_from_row, check_account_capacity, email_from_row, email_insert_outcome, email_is_new,
    email_list_query, EmailInsert,
    flag_is_set, flag_value, lookup_error, page_or_default, require_rows_changed, search_total,
    stored_max_uid, system_tag_seeds, tag_from_row, AccountRow, EmailRow, QueryFailure, TagRow,
};
use mail_client::time::{timestamp_text, utc_from_seconds, MAX_UTC_SECONDS, MIN_UTC_SECONDS};

#[test]
fn account_limit() {
    assert!(check_account_capacity(0).is_ok());
    assert!(check_account_capacity(4).is_ok());
    assert!(matches!(check_account_capacity(5), Err(AppError::AccountLimit)));
    assert!(matches!(check_account_capacity(9), Err(AppError::AccountLimit)));
}

#[test]
fn missing_rows() {
    assert!(matches!(require_rows_changed(0, AppError::EmailNotFound), Err(AppError::EmailNotFound)));
    assert!(require_rows_changed(1, AppError::EmailNotFound).is_ok());
    assert!(matches!(lookup_error(QueryFailure::NoRows, AppError::TagNotFound), AppError::TagNotFound));
    match lookup_error(QueryFailure::Failed("disk I/O error".to_string()), AppError::TagNotFound) {
        AppError::Database(m) => assert_eq!(m, "disk I/O error"),
        _ => panic!("database error"),
    }
}

#[test]
fn stored_values() {
    assert_eq!(flag_value(true), 1);
    assert_eq!(flag_value(false), 0);
    assert!(flag_is_set(1));
    assert!(!flag_is_set(2));
    assert_eq!(stored_max_uid(Some(0)), None);
    assert_eq!(stored_max_uid(Some(77)), Some(77));
    assert_eq!(stored_max_uid(None), None);
    assert!(email_is_new(Some(0)));
    assert!(!email_is_new(Some(1)));
    assert!(email_is_new(None));
    assert_eq!(search_total(Some(12)), 12);
    assert_eq!(search_total(None), 0);
    assert_eq!(page_or_default(None, None), (50, 0));
    assert_eq!(page_or_default(Some(10), Some(20)), (10, 20));
}

#[test]
fn seeded_tags() {
    let seeds = system_tag_seeds();
    let names: Vec<&str> = seeds.iter().map(|s| s.name.as_str()).collect();
    assert_eq!(names, vec!["工作", "个人", "订阅", "垃圾"]);
    assert_eq!(seeds[3].color, "#F44336");
    assert!(seeds.iter().all(|s| s.is_system));
}

#[test]
fn rows_to_records() {
    let row = AccountRow {
        id: 3,
        name: "Home".to_string(),
        email: "me@qq.com".to_string(),
        imap_server: "imap.qq.com".to_string(),
        imap_port: 993,
        username: "me".to_string(),
        password: "SECRET-REDACTED".to_string(),
        use_ssl: 1,
        created_at: "2024-01-02T03:04:05+00:00".to_string(),
        updated_at: "2024-01-02T04:04:05+01:00".to_string(),
    };
    let a = account_from_row(row.clone()).unwrap();
    assert_eq!(a.id, 3);
    assert!(a.use_ssl);
    assert_eq!(a.created_at, Timestamp { seconds: 1704164645, nanos: 0 });
    assert_eq!(a.updated_at, a.created_at);
    let mut bad = row;
    bad.updated_at = "2024-01-02 03:04:05".to_string();
    assert!(matches!(account_from_row(bad), Err(AppError::Parse(_))));

    let email = EmailRow {
        id: 9,
        account_id: 3,
        message_id: "<a@b>".to_string(),
        subject: "s".to_string(),
        sender_name: "n".to_string(),
        sender_email: "n@b".to_string(),
        recipients: "x@y".to_string(),
        date: "1970-01-01T00:00:10.5Z".to_string(),
        body_text: "t".to_string(),
        body_html: "<p>t</p>".to_string(),
        is_read: 0,
        is_flagged: 1,
        uid: 42,
        created_at: "1970-01-01T00:00:00Z".to_string(),
    };
    let e = email_from_row(email).unwrap();
    assert_eq!(e.date, Timestamp { seconds: 10, nanos: 500_000_000 });
    assert!(!e.is_read);
    assert!(e.is_flagged);
    assert_eq!(e.uid, 42);

    let t = tag_from_row(TagRow { id: 1, name: "工作".to_string(), color: "#4CAF50".to_string(), is_system: 1 });
    assert!(t.is_system);
}

#[test]
fn listing_queries() {
    let q = email_list_query(None, None, 50, 0);
    assert_eq!(q.count_sql, "SELECT COUNT(DISTINCT e.id) FROM emails e LEFT JOIN email_tags et ON e.id = et.email_id ");
    assert!(q.count_params.is_empty());
    assert!(q.page_sql.ends_with("ORDER BY e.date DESC LIMIT ?1 OFFSET ?2"));
    assert_eq!(q.page_params, vec![50, 0]);

    let q = email_list_query(Some(3), Some(4), 20, 40);
    assert_eq!(
        q.count_sql,
        "SELECT COUNT(DISTINCT e.id) FROM emails e INNER JOIN email_tags et ON e.id = et.email_id WHERE e.account_id = ?1 AND et.tag_id = ?2"
    );
    assert_eq!(q.count_params, vec![3, 4]);
    assert!(q.page_sql.contains("FROM emails e INNER JOIN email_tags et ON e.id = et.email_id WHERE e.account_id = ?1 AND et.tag_id = ?2"));
    assert!(q.page_sql.ends_with("LIMIT ?3 OFFSET ?4"));
    assert_eq!(q.page_params, vec![3, 4, 20, 40]);

    let q = email_list_query(None, Some(4), 10, 0);
    assert!(q.count_sql.ends_with("WHERE et.tag_id = ?1"));
    assert_eq!(q.page_params, vec![4, 10, 0]);
    assert!(q.page_sql.starts_with("SELECT DISTINCT e.id, e.account_id"));
}

#[test]
fn timestamps() {
    assert_eq!(utc_from_seconds(0), Some(Timestamp { seconds: 0, nanos: 0 }));
    assert_eq!(utc_from_seconds(i64::MAX), None);
    assert_eq!(timestamp_text(Timestamp { seconds: 0, nanos: 0 }), Some("1970-01-01T00:00:00+00:00".to_string()));
    assert_eq!(timestamp_text(Timestamp { seconds: i64::MAX, nanos: 0 }), None);
}

#[test]
fn uid_selection() {
    assert_eq!(uid_search_query(None), "ALL");
    assert_eq!(uid_search_query(Some(41)), "UID 42:*");
    assert_eq!(uid_search_query(Some(0)), "UID 1:*");
    assert_eq!(sort_uids(&vec![5, 3, 9, 3, 1]), vec![1, 3, 3, 5, 9]);
    assert_eq!(select_uids(&vec![5, 3, 9, 1], 2), vec![1, 3]);
    assert_eq!(select_uids(&vec![5, 3, 9, 1], 0), vec![1, 3, 5, 9]);
    assert_eq!(select_uids(&vec![5, 3], 200), vec![3, 5]);
    assert_eq!(select_uids(&vec![], 5), Vec::<u32>::new());
}

#[test]
fn account_limit_over_many_additions() {
    let mut count: i64 = 0;
    for _ in 0..8 {
        if check_account_capacity(count).is_ok() {
            count += 1;
        }
    }
    assert_eq!(count, 5);
    count -= 1;
    assert!(check_account_capacity(count).is_ok());
}

#[test]
fn ignored_insert_outcome() {
    assert_eq!(email_insert_outcome(0), EmailInsert::Duplicate);
    assert_eq!(email_insert_outcome(1), EmailInsert::Inserted);
}

#[test]
fn timestamp_range_edges() {
    assert_eq!(utc_from_seconds(MIN_UTC_SECONDS), Some(Timestamp { seconds: MIN_UTC_SECONDS, nanos: 0 }));
    assert_eq!(utc_from_seconds(MIN_UTC_SECONDS - 1), None);
    assert_eq!(utc_from_seconds(MAX_UTC_SECONDS), Some(Timestamp { seconds: MAX_UTC_SECONDS, nanos: 0 }));
    assert_eq!(utc_from_seconds(MAX_UTC_SECONDS + 1), None);
    assert!(timestamp_text(Timestamp { seconds: 59, nanos: 1_500_000_000 }).is_some());
    assert_eq!(timestamp_text(Timestamp { seconds: 0, nanos: 1_500_000_000 }), None);
    assert_eq!(timestamp_text(Timestamp { seconds: 59, nanos: 2_000_000_000 }), None);
}

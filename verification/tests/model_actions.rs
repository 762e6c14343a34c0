use find_my_operations::scanner::{thread_sync_write, DbWrite};
use find_my_operations::chan::chan_service::{Item, Post, Thread};
use find_my_operations::chan::model_actions::{
    action_error, db_timestamp, get_operation_name, insert_result, update_result, DBThreadItemsModelAction,
    DBThreadModelAction, DBThreadReplyModelAction,
};
use find_my_operations::chan::models::{DBItem, DBThread, DBThreadReply};

fn words(ws: &[&str]) -> Vec<String> {
    ws.iter().map(|w| String::from(*w)).collect()
}

fn bare_thread(no: Option<i32>, com: Option<&str>, replies: Option<i32>) -> Thread {
    Thread {
        no,
        now: None,
        name: None,
        com: com.map(String::from),
        ext: None,
        w: None,
        h: None,
        tn_w: None,
        tn_h: None,
        tim: None,
        time: None,
        md5: None,
        fsize: None,
        resto: None,
        bumplimit: None,
        imagelimit: None,
        semantic_url: None,
        custom_spoiler: None,
        replies,
        omitted_posts: None,
        omitted_images: None,
        last_replies: None,
        last_modified: None,
    }
}

fn bare_post(no: Option<i32>, com: Option<&str>) -> Post {
    Post {
        no,
        resto: None,
        sticky: None,
        closed: None,
        archived: None,
        archived_on: None,
        now: None,
        time: None,
        name: None,
        trip: None,
        id: None,
        capcode: None,
        country: None,
        country_name: None,
        sub: None,
        com: com.map(String::from),
        tim: None,
        filename: None,
        ext: None,
        fsize: None,
        md5: None,
        w: None,
        h: None,
        tn_w: None,
        tn_h: None,
        filedeleted: None,
        spoiler: None,
        custom_spoiler: None,
        omitted_posts: None,
        omitted_images: None,
        replies: None,
        images: None,
        bumplimit: None,
        imagelimit: None,
        last_modified: None,
        tag: None,
        semantic_url: None,
        since4pass: None,
        thread_no: None,
    }
}

#[test]
fn test_operation_name() {
    assert_eq!(get_operation_name(vec![String::from("check"), String::from("Operation"), String::from("me")]), "Operation me");
    assert_eq!(get_operation_name(vec![String::from("check"), String::from("operation"), String::from("me")]), "operation me");
    assert_eq!(get_operation_name(vec![String::from("OPERATION"), String::from("me")]), "OPERATION me");
    assert_eq!(get_operation_name(vec![String::from("check"), String::from("ation"), String::from("m"), String::from("hi")]), "");
    assert_eq!(get_operation_name(vec![]), "");
}

#[test]
fn operation_name_last_word_stands_alone() {
    assert_eq!(get_operation_name(words(&["start", "#OperationFreedom"])), "#OperationFreedom");
}

#[test]
fn operation_name_takes_first_mention() {
    assert_eq!(get_operation_name(words(&["operations", "one", "operation", "two"])), "operations one");
}

#[test]
fn operation_name_uses_unicode_uppercase() {
    // dotless i uppercases to an ASCII I
    assert_eq!(get_operation_name(words(&["operat\u{131}on", "x"])), "operat\u{131}on x");
}

#[test]
fn thread_row_from_thread() {
    let t = bare_thread(Some(42), Some("join  OPERATION   Sunrise now"), Some(7));
    let row = DBThreadModelAction {}.create_at(&t, String::from("2020-01-02 03:04:05"));
    assert_eq!(row.thread_id, 42);
    assert_eq!(row.operation_name, "OPERATION Sunrise");
    assert_eq!(row.operation_text, "join  OPERATION   Sunrise now");
    assert_eq!(row.replies, 7);
    assert_eq!(row.last_updated, "2020-01-02 03:04:05");
}

#[test]
fn thread_row_from_bare_thread() {
    let t = bare_thread(None, None, None);
    let row = DBThreadModelAction {}.create_at(&t, String::from("t"));
    assert_eq!(row.thread_id, -1);
    assert_eq!(row.operation_name, "");
    assert_eq!(row.operation_text, "");
    assert_eq!(row.replies, -1);
}

#[test]
fn thread_row_is_stamped_with_the_instant() {
    let t = bare_thread(Some(1), Some("operation x"), Some(1));
    let action = DBThreadModelAction {};
    let row = action.create(&t, 1_600_000_000, 0).unwrap();
    assert_eq!(row.last_updated, "2020-09-13 12:26:40");
    assert_eq!(row.operation_name, "operation x");
    let stamp: Vec<char> = row.last_updated.chars().collect();
    for (i, c) in stamp.iter().enumerate() {
        match i {
            4 | 7 => assert_eq!(*c, '-'),
            10 => assert_eq!(*c, ' '),
            13 | 16 => assert_eq!(*c, ':'),
            _ => assert!(c.is_ascii_digit(), "{}", row.last_updated),
        }
    }
    assert_eq!(action.create(&t, 0, 999_999_999).unwrap().last_updated, "1970-01-01 00:00:00");
    assert_eq!(action.create(&t, 253_402_300_799, 0).unwrap().last_updated, "9999-12-31 23:59:59");
    assert!(action.create(&t, 0, 2_000_000_000).is_none());
    assert!(action.create(&t, i64::MAX, 0).is_none());
}

#[test]
fn db_timestamps() {
    assert_eq!(db_timestamp(-1, 0).as_deref(), Some("1969-12-31 23:59:59"));
    assert_eq!(db_timestamp(253_402_300_800, 0).as_deref(), Some("+10000-01-01 00:00:00"));
    assert_eq!(db_timestamp(59, 1_500_000_000).as_deref(), Some("1970-01-01 00:00:60"));
    assert!(db_timestamp(i64::MIN, 0).is_none());
}

#[test]
fn reply_row_from_post() {
    let p = bare_post(Some(9), Some("hello"));
    let row = DBThreadReplyModelAction {}.create_at(&p, String::from("when"));
    assert_eq!(row.reply_id, 9);
    assert_eq!(row.reply_comment, "hello");
    assert_eq!(row.thread, 9);
    assert_eq!(row.last_updated, "when");
    let stamped = DBThreadReplyModelAction {}.create(&bare_post(None, None), 86_400, 5).unwrap();
    assert_eq!(stamped.reply_id, -1);
    assert_eq!(stamped.reply_comment, "");
    assert_eq!(stamped.last_updated, "1970-01-02 00:00:00");
    assert!(DBThreadReplyModelAction {}.create(&p, i64::MIN, 0).is_none());
}

#[test]
fn item_row_round_trip() {
    let item = Item { item_id: 3, key: String::from("URL"), value: String::from("http://a.b"), thread: 8 };
    let action = DBThreadItemsModelAction {};
    let row = action.create(&item);
    assert_eq!(row.item_id, 3);
    assert_eq!(row.key, "URL");
    let fresh = action.new_row(&item);
    assert_eq!(fresh.value, "http://a.b");
    assert_eq!(fresh.thread, 8);
    let back = action.get_by(3, Some(vec![row])).unwrap();
    assert_eq!(back.item_id, 3);
    assert_eq!(back.key, "URL");
    assert_eq!(back.value, "http://a.b");
    assert_eq!(back.thread, 8);
    assert!(action.get_by(3, Some(vec![])).is_none());
    assert!(action.get_by(3, None).is_none());
    let other = DBItem { item_id: 4, key: String::from("URL"), value: String::from("x"), thread: 8 };
    assert!(action.get_by(3, Some(vec![other])).is_none());
}

#[test]
fn thread_read_back_keeps_number_and_replies() {
    let action = DBThreadModelAction {};
    let rows = vec![
        DBThread { thread_id: 5, operation_name: String::new(), operation_text: String::from("x"), replies: 12, last_updated: String::new() },
        DBThread { thread_id: 6, operation_name: String::new(), operation_text: String::new(), replies: 1, last_updated: String::new() },
    ];
    let t = action.get_by(5, Some(rows.clone())).unwrap();
    assert_eq!(t.no, Some(5));
    assert_eq!(t.replies, Some(12));
    assert!(t.com.is_none());
    let t = action.get_by(6, Some(rows.clone())).unwrap();
    assert_eq!(t.no, Some(6));
    assert_eq!(t.replies, Some(1));
    assert!(action.get_by(7, Some(rows)).is_none());
    assert!(action.get_by(5, None).is_none());
}

#[test]
fn reply_read_back() {
    let action = DBThreadReplyModelAction {};
    let rows = vec![
        DBThreadReply { reply_id: 1, reply_comment: String::from("other"), last_updated: String::new(), thread: 77 },
        DBThreadReply { reply_id: 77, reply_comment: String::from("c"), last_updated: String::new(), thread: -1 },
    ];
    let p = action.get_by(77, Some(rows)).unwrap();
    assert_eq!(p.no, Some(77));
    assert_eq!(p.com.as_deref(), Some("c"));
    assert_eq!(p.thread_no, Some(u64::MAX));
    assert!(action.get_by(77, Some(vec![])).is_none());
}

#[test]
fn write_outcomes() {
    assert!(insert_result(true).is_ok());
    assert!(matches!(insert_result(false), Err(action_error::insert_error)));
    assert!(update_result(true).is_ok());
    assert!(matches!(update_result(false), Err(action_error::update_error)));
}

#[test]
fn items_row_type_is_plain() {
    let row = DBItem { item_id: 0, key: String::new(), value: String::new(), thread: 0 };
    assert_eq!(row.thread, 0);
}

#[test]
fn stored_thread_reads_back_and_is_left_alone() {
    let action = DBThreadModelAction {};
    let t = bare_thread(Some(31), Some("operation Dawn"), Some(40));
    let row = action.create_at(&t, String::from("2021-05-06 07:08:09"));
    let stored = action.get_by(31, Some(vec![row]));
    let back = stored.clone().unwrap();
    assert_eq!(back.no, Some(31));
    assert_eq!(back.replies, Some(40));
    assert_eq!(thread_sync_write(&t, &stored), DbWrite::Skip);
    let later = bare_thread(Some(31), Some("operation Dawn"), Some(41));
    assert_eq!(thread_sync_write(&later, &stored), DbWrite::Update);
    assert_eq!(thread_sync_write(&t, &None), DbWrite::Insert);
}

#[test]
fn stored_reply_reads_back() {
    let action = DBThreadReplyModelAction {};
    let p = bare_post(Some(1234), Some("a reply"));
    let row = action.create_at(&p, String::from("now"));
    let back = action.get_by(1234, Some(vec![row])).unwrap();
    assert_eq!(back.no, Some(1234));
    assert_eq!(back.com.as_deref(), Some("a reply"));
    assert_eq!(back.thread_no, Some(1234));
    let silent = bare_post(Some(5), None);
    let row = action.create_at(&silent, String::from("now"));
    assert_eq!(action.get_by(5, Some(vec![row])).unwrap().com.as_deref(), Some(""));
}

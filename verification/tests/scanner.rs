use find_my_operations::chan::chan_service::{Post, Thread};
use find_my_operations::scanner::{
    archive_replies_uri, does_string_have_hashtag, format_for_slack, is_string_url, join_strings,
    replies_increased, reply_upsert_write, should_archive_replies, slack_message_text,
    tag_replies_with_thread, thread_items, thread_lookup_id, thread_sync_write, DbWrite,
};

fn bare_thread(no: Option<i32>, com: Option<&str>, replies: Option<i32>) -> Thread {
    Thread {
        no,
        now: None,
        name: None,
        com: com.map(String::from),
        ext: None,
        w: None,
        h: None,
        tn_w: None,
        tn_h: None,
        tim: None,
        time: None,
        md5: None,
        fsize: None,
        resto: None,
        bumplimit: None,
        imagelimit: None,
        semantic_url: None,
        custom_spoiler: None,
        replies,
        omitted_posts: None,
        omitted_images: None,
        last_replies: None,
        last_modified: None,
    }
}

fn bare_post(no: Option<i32>) -> Post {
    Post {
        no,
        resto: Some(1),
        sticky: None,
        closed: None,
        archived: None,
        archived_on: None,
        now: None,
        time: None,
        name: None,
        trip: None,
        id: None,
        capcode: None,
        country: None,
        country_name: None,
        sub: None,
        com: Some(String::from("text")),
        tim: None,
        filename: None,
        ext: None,
        fsize: None,
        md5: None,
        w: None,
        h: None,
        tn_w: None,
        tn_h: None,
        filedeleted: None,
        spoiler: None,
        custom_spoiler: None,
        omitted_posts: None,
        omitted_images: None,
        replies: None,
        images: None,
        bumplimit: None,
        imagelimit: None,
        last_modified: None,
        tag: None,
        semantic_url: None,
        since4pass: None,
        thread_no: None,
    }
}

#[test]
fn test_if_string_has_hashtag() {
    assert_eq!(does_string_have_hashtag("#doesThisHave"), true);
    assert_eq!(does_string_have_hashtag("#12"), false);
    assert_eq!(does_string_have_hashtag("ndiocnsd#csidcn"), false);
}

#[test]
fn hashtag_edge_cases() {
    assert!(!does_string_have_hashtag(""));
    assert!(!does_string_have_hashtag("#"));
    assert!(does_string_have_hashtag("#\u{e9}t\u{e9}"));
    assert!(!does_string_have_hashtag("##tag"));
}

#[test]
fn links() {
    assert!(is_string_url("https://boards.4chan.org/pol/"));
    assert!(is_string_url("http://example.com/a?b=c"));
    assert!(!is_string_url("http"));
    assert!(!is_string_url("ftp://example.com"));
    assert!(!is_string_url("example.com"));
}

#[test]
fn items_of_a_thread() {
    let t = bare_thread(Some(5), Some("#Op  see http://x.com/y and #1 or www.z.org"), None);
    let items = thread_items(&t);
    assert_eq!(items.len(), 2);
    assert_eq!(items[0].item_id, 0);
    assert_eq!(items[0].key, "TWITTER-HASH");
    assert_eq!(items[0].value, "#Op");
    assert_eq!(items[0].thread, 5);
    assert_eq!(items[1].key, "URL");
    assert_eq!(items[1].value, "http://x.com/y");
    assert_eq!(items[1].thread, 5);
}

#[test]
fn items_need_comment_and_number() {
    assert!(thread_items(&bare_thread(None, Some("#Op"), None)).is_empty());
    assert!(thread_items(&bare_thread(Some(1), None, None)).is_empty());
}

#[test]
fn slack_entry_pieces() {
    let buf = format_for_slack("BY USER", None, "UNKOWN NAME");
    assert_eq!(buf, vec!["BY USER", " : [", "UNKOWN NAME", "] "]);
    let buf = format_for_slack("WITH COMMENT", Some(String::from("hi")), "INVALID COMMENT");
    assert_eq!(join_strings(&buf), "WITH COMMENT : [hi] ");
}

#[test]
fn slack_message() {
    let t = bare_thread(Some(12), Some("hi"), Some(-3));
    assert_eq!(
        slack_message_text(&t),
        "POSTING THREAD WITH ID : [12] BY USER : [UNKOWN NAME] WITH COMMENT : [hi] NUMBER OF REPLIES AND COUNTING : [-3] "
    );
    let bare = bare_thread(None, None, None);
    assert_eq!(
        slack_message_text(&bare),
        "POSTING THREAD WITH ID : [UNKNOWN ID] BY USER : [UNKOWN NAME] WITH COMMENT : [INVALID COMMENT] NUMBER OF REPLIES AND COUNTING : [N\\A] "
    );
}

#[test]
fn thread_sync_decisions() {
    let incoming = bare_thread(Some(1), Some("operation"), Some(10));
    assert_eq!(thread_lookup_id(&incoming), 1);
    assert_eq!(thread_lookup_id(&bare_thread(None, None, None)), -1);
    assert_eq!(thread_sync_write(&incoming, &None), DbWrite::Insert);
    assert_eq!(thread_sync_write(&incoming, &Some(bare_thread(Some(1), None, Some(9)))), DbWrite::Update);
    assert_eq!(thread_sync_write(&incoming, &Some(bare_thread(Some(1), None, Some(10)))), DbWrite::Skip);
    assert_eq!(thread_sync_write(&incoming, &Some(bare_thread(Some(1), None, Some(11)))), DbWrite::Skip);
    assert_eq!(thread_sync_write(&incoming, &Some(bare_thread(Some(1), None, None))), DbWrite::Update);
    assert!(!replies_increased(Some(1), None));
    assert!(!replies_increased(None, None));
}

#[test]
fn reply_upsert_decisions() {
    assert_eq!(reply_upsert_write(&bare_post(None), &None), DbWrite::Skip);
    assert_eq!(reply_upsert_write(&bare_post(Some(4)), &None), DbWrite::Insert);
    assert_eq!(reply_upsert_write(&bare_post(Some(4)), &Some(bare_post(Some(4)))), DbWrite::Update);
}

#[test]
fn archiving_replies() {
    assert!(should_archive_replies(&bare_thread(Some(1), None, Some(176))));
    assert!(!should_archive_replies(&bare_thread(Some(1), None, Some(175))));
    assert!(!should_archive_replies(&bare_thread(Some(1), None, None)));
    assert_eq!(
        archive_replies_uri(&bare_thread(Some(123), None, None)).as_deref(),
        Some("http://a.4cdn.org/pol/thread/123.json")
    );
    assert!(archive_replies_uri(&bare_thread(None, None, None)).is_none());
}

#[test]
fn tagging_replies() {
    let mut posts = vec![bare_post(Some(1)), bare_post(Some(2))];
    tag_replies_with_thread(&mut posts, 99);
    assert_eq!(posts.len(), 2);
    assert_eq!(posts[0].thread_no, Some(99));
    assert_eq!(posts[1].thread_no, Some(99));
    assert_eq!(posts[1].no, Some(2));
    tag_replies_with_thread(&mut posts, -1);
    assert_eq!(posts[0].thread_no, Some(u64::MAX));
}

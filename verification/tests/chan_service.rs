use find_my_operations::chan::chan_service::{
    catalog_uri, filter_thread_by_keywords, get, get_all_operation_threads, get_thread_replies,
    thread_replies_uri, FetchOutcome, PageThread, Posts, Thread,
};

fn bare_thread(no: i32, com: Option<&str>) -> Thread {
    Thread {
        no: Some(no),
        now: None,
        name: None,
        com: com.map(String::from),
        ext: None,
        w: None,
        h: None,
        tn_w: None,
        tn_h: None,
        tim: None,
        time: None,
        md5: None,
        fsize: None,
        resto: None,
        bumplimit: None,
        imagelimit: None,
        semantic_url: None,
        custom_spoiler: None,
        replies: None,
        omitted_posts: None,
        omitted_images: None,
        last_replies: None,
        last_modified: None,
    }
}

#[test]
fn addresses() {
    assert_eq!(thread_replies_uri("pol", "123"), "http://a.4cdn.org/pol/thread/123.json");
    assert_eq!(catalog_uri("pol"), "http://a.4cdn.org/pol/catalog.json");
}

#[test]
fn fetch_fallbacks() {
    assert_eq!(get(FetchOutcome::Decoded(3), 0), 3);
    assert_eq!(get(FetchOutcome::SendFailed, 0), 0);
    assert_eq!(get(FetchOutcome::Unsuccessful(404), 7), 7);
    assert_eq!(get(FetchOutcome::Undecodable, 7), 7);
    assert!(get_thread_replies(FetchOutcome::SendFailed).posts.is_empty());
    let posts = Posts { posts: vec![] };
    assert!(get_thread_replies(FetchOutcome::Decoded(posts)).posts.is_empty());
    assert!(get_all_operation_threads(FetchOutcome::Unsuccessful(500)).is_empty());
    let pages = vec![PageThread { page: Some(1), threads: None }];
    assert_eq!(get_all_operation_threads(FetchOutcome::Decoded(pages))[0].page, Some(1));
}

#[test]
fn keyword_filter() {
    let threads = vec![
        bare_thread(1, Some("Operation Sunrise starts now")),
        bare_thread(2, Some("nothing to see")),
        bare_thread(3, None),
        bare_thread(4, Some("cooperation")),
        bare_thread(5, Some("OPERATION")),
    ];
    let kept = filter_thread_by_keywords(threads);
    let nos: Vec<Option<i32>> = kept.iter().map(|t| t.no).collect();
    assert_eq!(nos, vec![Some(1), Some(4), Some(5)]);
    let again = filter_thread_by_keywords(kept);
    assert_eq!(again.len(), 3);
    assert!(filter_thread_by_keywords(vec![]).is_empty());
}

//! The 4chan read API as the scanner sees it: the records that the board
//! catalog and a thread's reply list decode into, the addresses they are
//! fetched from, what a failed fetch is replaced by, and the keyword filter
//! that picks "operation" threads out of a catalog.
use vstd::prelude::*;
use vstd::string::StringExecFns;
use crate::text::{has_substring, str_contains, to_uppercase, uppercase_of};

verus! {

/// A finding cut out of a thread's comment (a hashtag or a link), as it is
/// stored in the items table.
#[derive(Clone, Debug)]
pub struct Item {
    pub item_id: i32,
    pub key: String,
    pub value: String,
    pub thread: i32,
}

/// One of the latest replies that the catalog lists under a thread.
#[derive(Clone, Debug)]
pub struct LastReplies {
    pub no: Option<u64>,
    pub now: Option<String>,
    pub name: Option<String>,
    pub com: Option<String>,
    pub time: Option<u64>,
    pub resto: Option<u64>,
}

/// A thread as the board catalog lists it.
#[derive(Clone, Debug)]
pub struct Thread {
    pub no: Option<i32>,
    pub now: Option<String>,
    pub name: Option<String>,
    pub com: Option<String>,
    pub ext: Option<String>,
    pub w: Option<i32>,
    pub h: Option<i32>,
    pub tn_w: Option<u32>,
    pub tn_h: Option<u32>,
    pub tim: Option<u64>,
    pub time: Option<u64>,
    pub md5: Option<String>,
    pub fsize: Option<u32>,
    pub resto: Option<u32>,
    pub bumplimit: Option<u32>,
    pub imagelimit: Option<u32>,
    pub semantic_url: Option<String>,
    pub custom_spoiler: Option<u8>,
    pub replies: Option<i32>,
    pub omitted_posts: Option<u16>,
    pub omitted_images: Option<u16>,
    pub last_replies: Option<Vec<LastReplies>>,
    pub last_modified: Option<u64>,
}

/// One page of the board catalog.
#[derive(Clone, Debug)]
pub struct PageThread {
    pub page: Option<u64>,
    pub threads: Option<Vec<Thread>>,
}

/// The posts of one thread.
#[derive(Clone, Debug)]
pub struct Posts {
    pub posts: Vec<Post>,
}

/// One post of a thread.
#[derive(Clone, Debug)]
pub struct Post {
    pub no: Option<i32>,
    pub resto: Option<u64>,
    pub sticky: Option<u64>,
    pub closed: Option<u64>,
    pub archived: Option<u64>,
    pub archived_on: Option<u64>,
    pub now: Option<String>,
    pub time: Option<u64>,
    pub name: Option<String>,
    pub trip: Option<String>,
    pub id: Option<String>,
    pub capcode: Option<String>,
    pub country: Option<String>,
    pub country_name: Option<String>,
    pub sub: Option<String>,
    pub com: Option<String>,
    pub tim: Option<u64>,
    pub filename: Option<String>,
    pub ext: Option<String>,
    pub fsize: Option<u64>,
    pub md5: Option<String>,
    pub w: Option<u64>,
    pub h: Option<u64>,
    pub tn_w: Option<u64>,
    pub tn_h: Option<u64>,
    pub filedeleted: Option<u64>,
    pub spoiler: Option<u64>,
    pub custom_spoiler: Option<u64>,
    pub omitted_posts: Option<u64>,
    pub omitted_images: Option<u64>,
    pub replies: Option<u64>,
    pub images: Option<u64>,
    pub bumplimit: Option<u64>,
    pub imagelimit: Option<u64>,
    pub last_modified: Option<u64>,
    pub tag: Option<String>,
    pub semantic_url: Option<String>,
    pub since4pass: Option<u64>,
    pub thread_no: Option<u64>,
}

/// How a GET of the API went: the request could not be sent, the server
/// answered with a status other than success, the body did not decode, or
/// the decoded body.
pub enum FetchOutcome<T> {
    SendFailed,
    Unsuccessful(u16),
    Undecodable,
    Decoded(T),
}

/// The address of the JSON reply list of a thread on a board.
pub open spec fn thread_replies_uri_of(board: Seq<char>, thread_id: Seq<char>) -> Seq<char> {
    "http://a.4cdn.org/"@ + board + "/thread/"@ + thread_id + ".json"@
}

/// The address of the JSON catalog of a board.
pub open spec fn catalog_uri_of(board: Seq<char>) -> Seq<char> {
    "http://a.4cdn.org/"@ + board + "/"@ + "catalog.json"@
}

/// Whether a text mentions an operation: its uppercase form contains
/// `OPERATION`.
pub open spec fn mentions_operation(s: Seq<char>) -> bool {
    has_substring(uppercase_of(s), "OPERATION"@)
}

/// Whether a catalog thread is an "operation" thread: it has a comment that
/// mentions an operation.
pub open spec fn is_operation_thread(t: Thread) -> bool {
    match t.com {
        Some(c) => mentions_operation(c@),
        None => false,
    }
}

/// The operation threads of a catalog, in their order.
pub open spec fn operation_threads(threads: Seq<Thread>) -> Seq<Thread> {
    threads.filter(|t: Thread| is_operation_thread(t))
}

/// Whether `s` mentions an operation.
pub fn text_mentions_operation(s: &str) -> (b: bool)
    ensures
        b == mentions_operation(s@),
{
    let upper = to_uppercase(s);
    str_contains(upper.as_str(), "OPERATION")
}

/// The address that `get_thread_replies` fetches for `thread_id` on `board`.
pub fn thread_replies_uri(board: &str, thread_id: &str) -> (uri: String)
    ensures
        uri@ == thread_replies_uri_of(board@, thread_id@),
{
    let mut uri = String::from_str("http://a.4cdn.org/");
    uri.append(board);
    uri.append("/thread/");
    uri.append(thread_id);
    uri.append(".json");
    uri
}

/// The address that `get_all_operation_threads` fetches for `board`.
pub fn catalog_uri(board: &str) -> (uri: String)
    ensures
        uri@ == catalog_uri_of(board@),
{
    let mut uri = String::from_str("http://a.4cdn.org/");
    uri.append(board);
    uri.append("/");
    uri.append("catalog.json");
    uri
}

/// The value a GET yields: the decoded body when there is one, and the
/// fallback whenever sending, the status or decoding failed.
pub fn get<T>(outcome: FetchOutcome<T>, on_error: T) -> (r: T)
    ensures
        r == match outcome {
            FetchOutcome::Decoded(v) => v,
            _ => on_error,
        },
{
    match outcome {
        FetchOutcome::Decoded(v) => v,
        _ => on_error,
    }
}

/// The replies of a thread, from what the fetch of its reply list gave:
/// the decoded posts, or no posts at all when the fetch failed.
pub fn get_thread_replies(outcome: FetchOutcome<Posts>) -> (r: Posts)
    ensures
        outcome matches FetchOutcome::Decoded(p) ==> r == p,
        !(outcome is Decoded) ==> r.posts@.len() == 0,
{
    get(outcome, Posts { posts: Vec::new() })
}

/// The catalog pages of a board, from what the fetch of its catalog gave:
/// the decoded pages, or no pages at all when the fetch failed.
pub fn get_all_operation_threads(outcome: FetchOutcome<Vec<PageThread>>) -> (r: Vec<PageThread>)
    ensures
        outcome matches FetchOutcome::Decoded(p) ==> r == p,
        !(outcome is Decoded) ==> r@.len() == 0,
{
    get(outcome, Vec::new())
}

/// Whether `thread` is an operation thread.
pub fn thread_mentions_operation(thread: &Thread) -> (b: bool)
    ensures
        b == is_operation_thread(*thread),
{
    match &thread.com {
        Some(c) => text_mentions_operation(c.as_str()),
        None => false,
    }
}

/// The operation threads among `threads`, in their order.
pub fn filter_thread_by_keywords(threads: Vec<Thread>) -> (kept: Vec<Thread>)
    ensures
        kept@ == operation_threads(threads@),
{
    let ghost all = threads@;
    let ghost pred = |t: Thread| is_operation_thread(t);
    let mut kept: Vec<Thread> = Vec::new();
    for t in it: threads
        invariant
            it.seq() == all,
            pred == (|t: Thread| is_operation_thread(t)),
            kept@ == all.take(it.index() as int).filter(pred),
    {
        let ghost i = it.index();
        proof {
            reveal_with_fuel(Seq::<_>::filter, 1);
            assert(all.take(i + 1).drop_last() =~= all.take(i as int));
        }
        if thread_mentions_operation(&t) {
            kept.push(t);
        }
    }
    proof {
        assert(all.take(all.len() as int) =~= all);
    }
    kept
}

/// Filtering the operation threads out of a catalog keeps exactly them:
/// every kept thread is an operation thread, every operation thread is kept,
/// and filtering the result again changes nothing.
pub proof fn law_filter_keeps_operation_threads(threads: Seq<Thread>)
    ensures
        forall|i: int|
            0 <= i < operation_threads(threads).len() ==> is_operation_thread(
                #[trigger] operation_threads(threads)[i],
            ),
        forall|i: int|
            0 <= i < threads.len() && is_operation_thread(threads[i])
                ==> #[trigger] operation_threads(threads).contains(threads[i]),
        operation_threads(operation_threads(threads)) == operation_threads(threads),
{
    let pred = |t: Thread| is_operation_thread(t);
    broadcast use vstd::seq_lib::group_filter_ensures;
    lemma_filter_again(threads, pred);
}

proof fn lemma_filter_again(s: Seq<Thread>, pred: spec_fn(Thread) -> bool)
    ensures
        s.filter(pred).filter(pred) == s.filter(pred),
    decreases s.len(),
{
    reveal_with_fuel(Seq::<_>::filter, 1);
    if s.len() > 0 {
        lemma_filter_again(s.drop_last(), pred);
        let sub = s.drop_last().filter(pred);
        if pred(s.last()) {
            assert(sub.push(s.last()).drop_last() =~= sub);
        }
    }
}

/// A catalog thread is an operation thread exactly when it has a comment
/// whose uppercase form contains `OPERATION` anywhere; so the filter keeps a
/// thread exactly when its comment has such a mention.
pub proof fn law_operation_thread_is_comment_mention(threads: Seq<Thread>, t: Thread)
    ensures
        is_operation_thread(t) <==> (t.com matches Some(c) && has_substring(uppercase_of(c@), "OPERATION"@)),
        forall|i: int|
            0 <= i < threads.len() && match threads[i].com {
                Some(c) => has_substring(uppercase_of(c@), "OPERATION"@),
                None => false,
            } ==> #[trigger] operation_threads(threads).contains(threads[i]),
        forall|i: int|
            0 <= i < operation_threads(threads).len() ==> match (#[trigger] operation_threads(threads)[i]).com {
                Some(c) => has_substring(uppercase_of(c@), "OPERATION"@),
                None => false,
            },
{
    law_filter_keeps_operation_threads(threads);
}

} // verus!

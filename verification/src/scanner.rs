//! The decisions of the board scanner: which words of a thread's comment
//! are kept as items (hashtags and links), the text announced for a new
//! operation thread, whether a catalog thread is inserted, updated or left
//! alone, and how a thread's replies are archived.
use vstd::prelude::*;
use vstd::string::StringExecFns;
use crate::chan::chan_service::{thread_replies_uri, thread_replies_uri_of, Item, Post, Thread};
use crate::chan::model_actions::{db_thread_of, or_minus_one, thread_from_row};
use crate::chan::models::DBThread;
use crate::text::{
    alphabetic, char_is_alphabetic, chars_of, decimal_of, decimal_string, has_substring,
    split_words, str_contains, string_views, words_of,
};

verus! {

/// Whether `url::Url::parse` accepts the text.
pub uninterp spec fn url_parses(s: Seq<char>) -> bool;

/// Calls `url::Url::parse` and reports whether it returned `Ok`. Which
/// texts the WHATWG URL parser accepts is given by name, not written out.
#[verifier::external_body]
fn url_parse_succeeds(input: &str) -> (ok: bool)
    ensures
        ok == url_parses(input@),
{
    match url::Url::parse(input) {
        Ok(_) => true,
        Err(_) => false,
    }
}

/// A word is a hashtag: `#` followed by a letter (in the Unicode sense).
pub open spec fn is_hashtag(s: Seq<char>) -> bool {
    s.len() >= 2 && s[0] == '#' && alphabetic(s[1])
}

/// A word is a link: it contains `http` and parses as a URL.
pub open spec fn is_link(s: Seq<char>) -> bool {
    has_substring(s, "http"@) && url_parses(s)
}

/// The key under which a word of a comment is kept, if it is kept: hashtags
/// first, then links.
pub open spec fn item_key_of(w: Seq<char>) -> Option<Seq<char>> {
    if is_hashtag(w) {
        Some("TWITTER-HASH"@)
    } else if is_link(w) {
        Some("URL"@)
    } else {
        None
    }
}

/// An item as plain values: id, key, value and thread.
pub open spec fn item_view(i: Item) -> (i32, Seq<char>, Seq<char>, i32) {
    (i.item_id, i.key@, i.value@, i.thread)
}

/// The items kept from the words of a comment of thread `n`, in the order of
/// the words; each has id 0.
pub open spec fn items_of_words(words: Seq<Seq<char>>, n: i32) -> Seq<(i32, Seq<char>, Seq<char>, i32)> {
    words.filter_map(|w: Seq<char>| match item_key_of(w) {
        Some(k) => Some((0i32, k, w, n)),
        None => None,
    })
}

/// The items kept from a thread: those of its comment's words, when it has
/// both a comment and a number, and none otherwise.
pub open spec fn thread_items_of(t: Thread) -> Seq<(i32, Seq<char>, Seq<char>, i32)> {
    match (t.com, t.no) {
        (Some(c), Some(n)) => items_of_words(words_of(c@), n),
        _ => Seq::empty(),
    }
}

/// Whether `word` is a hashtag.
pub fn does_string_have_hashtag(word: &str) -> (b: bool)
    ensures
        b == is_hashtag(word@),
{
    let cs = chars_of(word);
    if cs.len() == 0 {
        return false;
    }
    if cs[0] != '#' {
        return false;
    }
    if cs.len() < 2 {
        return false;
    }
    char_is_alphabetic(cs[1])
}

/// Whether `url` is a link.
pub fn is_string_url(url: &str) -> (b: bool)
    ensures
        b == is_link(url@),
{
    if str_contains(url, "http") {
        url_parse_succeeds(url)
    } else {
        false
    }
}

/// The items kept from the words of `words`, for thread `number`.
pub fn items_from_words(words: Vec<String>, number: i32) -> (items: Vec<Item>)
    ensures
        items@.map_values(|i: Item| item_view(i)) == items_of_words(string_views(words@), number),
{
    let ghost all = words@;
    let ghost f = |w: Seq<char>| match item_key_of(w) {
        Some(k) => Some((0i32, k, w, number)),
        None => None,
    };
    let mut items: Vec<Item> = Vec::new();
    for w in it: words
        invariant
            it.seq() == all,
            f == (|w: Seq<char>| match item_key_of(w) {
                Some(k) => Some((0i32, k, w, number)),
                None => None,
            }),
            items@.map_values(|i: Item| item_view(i)) == string_views(all).take(it.index() as int).filter_map(f),
    {
        let ghost i = it.index();
        let ghost before = items@;
        proof {
            assert(i < all.len());
            string_views(all).lemma_filter_map_take_succ(f, i as int);
            assert(string_views(all)[i as int] == w@);
        }
        if does_string_have_hashtag(w.as_str()) {
            items.push(Item { item_id: 0, key: String::from_str("TWITTER-HASH"), value: w, thread: number });
        } else if is_string_url(w.as_str()) {
            items.push(Item { item_id: 0, key: String::from_str("URL"), value: w, thread: number });
        }
        proof {
            assert(items@.map_values(|i: Item| item_view(i)) =~= string_views(all).take(i + 1).filter_map(f));
        }
    }
    proof {
        assert(string_views(all).take(all.len() as int) =~= string_views(all));
    }
    items
}

/// The items kept from `thread`'s comment: each hashtag and each link among
/// its words, with id 0 and the thread's number.
pub fn thread_items(thread: &Thread) -> (items: Vec<Item>)
    ensures
        items@.map_values(|i: Item| item_view(i)) == thread_items_of(*thread),
{
    match (&thread.com, thread.no) {
        (Some(comment), Some(number)) => {
            let words = split_words(comment.as_str());
            items_from_words(words, number)
        },
        _ => {
            let items: Vec<Item> = Vec::new();
            proof {
                assert(items@.map_values(|i: Item| item_view(i)) =~= Seq::empty());
            }
            items
        },
    }
}

/// The pieces of one entry of the announcement: the prompt, ` : [`, the
/// value (or the message for a missing one) and `] `.
pub open spec fn slack_entry(prompt: Seq<char>, value: Option<Seq<char>>, error_message: Seq<char>) -> Seq<Seq<char>> {
    seq![
        prompt,
        " : ["@,
        match value {
            Some(v) => v,
            None => error_message,
        },
        "] "@,
    ]
}

/// The text of an optional string.
pub open spec fn opt_string_view(o: Option<String>) -> Option<Seq<char>> {
    match o {
        Some(s) => Some(s@),
        None => None,
    }
}

/// The decimal text of an optional number.
pub open spec fn opt_decimal(o: Option<i32>) -> Option<Seq<char>> {
    match o {
        Some(n) => Some(decimal_of(n as int)),
        None => None,
    }
}

/// The pieces of the announcement of a thread: its number, its poster's
/// name, its comment and its reply count.
pub open spec fn slack_pieces_of(t: Thread) -> Seq<Seq<char>> {
    slack_entry("POSTING THREAD WITH ID"@, opt_decimal(t.no), "UNKNOWN ID"@) + slack_entry(
        "BY USER"@,
        opt_string_view(t.name),
        "UNKOWN NAME"@,
    ) + slack_entry("WITH COMMENT"@, opt_string_view(t.com), "INVALID COMMENT"@) + slack_entry(
        "NUMBER OF REPLIES AND COUNTING"@,
        opt_decimal(t.replies),
        "N\\A"@,
    )
}

/// The pieces written one after the other.
pub open spec fn concat_of(parts: Seq<Seq<char>>) -> Seq<char>
    decreases parts.len(),
{
    if parts.len() == 0 {
        Seq::empty()
    } else {
        concat_of(parts.drop_last()) + parts.last()
    }
}

/// The text announced to the channel for a thread.
pub open spec fn slack_message_of(t: Thread) -> Seq<char> {
    concat_of(slack_pieces_of(t))
}

/// One entry of the announcement, as its pieces.
pub fn format_for_slack(prompt: &str, value: Option<String>, error_message: &str) -> (buf: Vec<String>)
    ensures
        string_views(buf@) == slack_entry(prompt@, opt_string_view(value), error_message@),
{
    let ghost shown = opt_string_view(value);
    let mut buf: Vec<String> = Vec::new();
    buf.push(String::from_str(prompt));
    buf.push(String::from_str(" : ["));
    match value {
        Some(v) => buf.push(v),
        None => buf.push(String::from_str(error_message)),
    }
    buf.push(String::from_str("] "));
    proof {
        assert(string_views(buf@) =~= slack_entry(prompt@, shown, error_message@));
    }
    buf
}

/// The pieces written one after the other.
pub fn join_strings(parts: &Vec<String>) -> (joined: String)
    ensures
        joined@ == concat_of(string_views(parts@)),
{
    let ghost views = string_views(parts@);
    let mut joined = String::new();
    let n = parts.len();
    let mut i: usize = 0;
    while i < n
        invariant
            n == parts@.len(),
            views == string_views(parts@),
            i <= n,
            joined@ == concat_of(views.take(i as int)),
        decreases n - i,
    {
        proof {
            assert(views.take(i + 1).drop_last() =~= views.take(i as int));
        }
        joined.append(parts[i].as_str());
        i = i + 1;
    }
    proof {
        assert(views.take(n as int) =~= views);
    }
    joined
}

fn optional_decimal(v: Option<i32>) -> (s: Option<String>)
    ensures
        opt_string_view(s) == opt_decimal(v),
{
    match v {
        Some(n) => Some(decimal_string(n)),
        None => None,
    }
}

/// The text announced to the channel for `thread`: each entry as
/// `format_for_slack` writes it, all run together.
pub fn slack_message_text(thread: &Thread) -> (text: String)
    ensures
        text@ == slack_message_of(*thread),
{
    let mut buf = format_for_slack("POSTING THREAD WITH ID", optional_decimal(thread.no), "UNKNOWN ID");
    let mut by_user = format_for_slack("BY USER", thread.name.clone(), "UNKOWN NAME");
    let mut comment = format_for_slack("WITH COMMENT", thread.com.clone(), "INVALID COMMENT");
    let mut replies = format_for_slack(
        "NUMBER OF REPLIES AND COUNTING",
        optional_decimal(thread.replies),
        "N\\A",
    );
    let ghost b0 = buf@;
    let ghost b1 = by_user@;
    let ghost b2 = comment@;
    let ghost b3 = replies@;
    buf.append(&mut by_user);
    buf.append(&mut comment);
    buf.append(&mut replies);
    proof {
        assert(string_views(buf@) =~= string_views(b0) + string_views(b1) + string_views(b2)
            + string_views(b3));
    }
    join_strings(&buf)
}

/// What to do with a row of a table: insert one, update the one there, or
/// leave the table alone.
#[derive(PartialEq, Eq, Structural, Debug, Clone, Copy)]
pub enum DbWrite {
    Insert,
    Update,
    Skip,
}

/// The reply count of a catalog thread grew past the stored one, comparing
/// as `Option<i32>` does: a missing count is below every count.
pub open spec fn replies_grew(stored: Option<i32>, incoming: Option<i32>) -> bool {
    match (stored, incoming) {
        (None, Some(_)) => true,
        (Some(a), Some(b)) => a < b,
        _ => false,
    }
}

/// What a catalog thread calls for, given the stored thread under its
/// number: a new thread is inserted, a stored one is updated when its reply
/// count grew, and left alone otherwise.
pub open spec fn thread_write_of(incoming: Thread, stored: Option<Thread>) -> DbWrite {
    match stored {
        Some(s) => if replies_grew(s.replies, incoming.replies) {
            DbWrite::Update
        } else {
            DbWrite::Skip
        },
        None => DbWrite::Insert,
    }
}

/// What a reply calls for, given the stored reply under its number: one
/// without a number is left alone; otherwise a stored one is updated and a
/// new one inserted.
pub open spec fn reply_write_of(post: Post, stored: Option<Post>) -> DbWrite {
    match post.no {
        None => DbWrite::Skip,
        Some(_) => match stored {
            Some(_) => DbWrite::Update,
            None => DbWrite::Insert,
        },
    }
}

/// The number under which a catalog thread is looked up: its own, or -1.
pub fn thread_lookup_id(thread: &Thread) -> (id: i32)
    ensures
        id == or_minus_one(thread.no),
{
    match thread.no {
        Some(n) => n,
        None => -1,
    }
}

/// Whether the reply count grew (see `replies_grew`).
pub fn replies_increased(stored: Option<i32>, incoming: Option<i32>) -> (b: bool)
    ensures
        b == replies_grew(stored, incoming),
{
    match (stored, incoming) {
        (None, Some(_)) => true,
        (Some(a), Some(b)) => a < b,
        _ => false,
    }
}

/// What the catalog thread `incoming` calls for, given what the threads
/// table holds under its number.
pub fn thread_sync_write(incoming: &Thread, stored: &Option<Thread>) -> (w: DbWrite)
    ensures
        w == thread_write_of(*incoming, *stored),
{
    match stored {
        Some(s) => if replies_increased(s.replies, incoming.replies) {
            DbWrite::Update
        } else {
            DbWrite::Skip
        },
        None => DbWrite::Insert,
    }
}

/// What the reply `post` calls for, given what the replies table holds
/// under its number.
pub fn reply_upsert_write(post: &Post, stored: &Option<Post>) -> (w: DbWrite)
    ensures
        w == reply_write_of(*post, *stored),
{
    match post.no {
        None => DbWrite::Skip,
        Some(_) => match stored {
            Some(_) => DbWrite::Update,
            None => DbWrite::Insert,
        },
    }
}

/// The reply count above which a thread's replies are archived.
pub open spec fn archive_threshold() -> i32 {
    175
}

/// Whether the replies of `thread` are archived: it has more than 175.
pub fn should_archive_replies(thread: &Thread) -> (b: bool)
    ensures
        b == (thread.replies matches Some(r) && r > archive_threshold()),
        b == (thread.replies matches Some(r) && r > 175),
{
    match thread.replies {
        Some(rep) => rep > 175,
        None => false,
    }
}

/// Where the replies of `thread` are fetched from when they are archived:
/// its reply list on the board `pol`, when it has a number.
pub fn archive_replies_uri(thread: &Thread) -> (uri: Option<String>)
    ensures
        match thread.no {
            Some(n) => uri matches Some(u) && u@ == thread_replies_uri_of("pol"@, decimal_of(n as int)),
            None => uri is None,
        },
{
    match thread.no {
        Some(num) => {
            let id = decimal_string(num);
            Some(thread_replies_uri("pol", id.as_str()))
        },
        None => None,
    }
}

/// The post with its thread number set to `num`, read as unsigned (as the
/// cast `num as u64` reads it).
pub open spec fn tagged_post(p: Post, num: i32) -> Post {
    Post { thread_no: Some(num as u64), ..p }
}

/// Marks each reply as belonging to thread `num`.
pub fn tag_replies_with_thread(posts: &mut Vec<Post>, num: i32)
    ensures
        final(posts)@.len() == old(posts)@.len(),
        forall|i: int| 0 <= i < old(posts)@.len() ==> #[trigger] final(posts)@[i] == tagged_post(old(posts)@[i], num),
{
    let n = posts.len();
    let mut i: usize = 0;
    while i < n
        invariant
            n == old(posts)@.len(),
            posts@.len() == n,
            i <= n,
            forall|k: int| 0 <= k < i ==> #[trigger] posts@[k] == tagged_post(old(posts)@[k], num),
            forall|k: int| i <= k < n ==> #[trigger] posts@[k] == old(posts)@[k],
        decreases n - i,
    {
        posts[i].thread_no = Some(num as u64);
        i = i + 1;
    }
}

/// Scanning a thread that was stored and has not changed since writes
/// nothing; once it has more replies than were stored, it is updated; a
/// thread never stored is inserted.
pub proof fn law_thread_sync(t: Thread, last_updated: Seq<char>, row: DBThread, later: Thread)
    requires
        db_thread_of(t, last_updated, row),
        t.no is Some,
        t.replies is Some,
        later.replies matches Some(r) && t.replies->0 < r,
    ensures
        thread_write_of(t, Some(thread_from_row(row))) == DbWrite::Skip,
        thread_write_of(later, Some(thread_from_row(row))) == DbWrite::Update,
        thread_write_of(t, None) == DbWrite::Insert,
{
}

/// Every item kept from a comment of thread `n` is a hashtag or a link among
/// the comment's words, with id 0, thread `n`, and the key of its kind.
pub proof fn law_items_are_tagged_words(words: Seq<Seq<char>>, n: i32)
    ensures
        forall|i: int|
            0 <= i < items_of_words(words, n).len() ==> {
                let it = #[trigger] items_of_words(words, n)[i];
                &&& it.0 == 0
                &&& it.3 == n
                &&& words.contains(it.2)
                &&& item_key_of(it.2) == Some(it.1)
                &&& (it.1 == "TWITTER-HASH"@ ==> is_hashtag(it.2))
                &&& (it.1 == "URL"@ ==> is_link(it.2))
            },
    decreases words.len(),
{
    reveal_strlit("URL");
    reveal_strlit("TWITTER-HASH");
    if words.len() > 0 {
        let rest = words.drop_last();
        law_items_are_tagged_words(rest, n);
        assert forall|i: int| 0 <= i < items_of_words(words, n).len() implies {
            let it = #[trigger] items_of_words(words, n)[i];
            &&& it.0 == 0
            &&& it.3 == n
            &&& words.contains(it.2)
            &&& item_key_of(it.2) == Some(it.1)
            &&& (it.1 == "TWITTER-HASH"@ ==> is_hashtag(it.2))
            &&& (it.1 == "URL"@ ==> is_link(it.2))
        } by {
            if i < items_of_words(rest, n).len() {
                assert(items_of_words(words, n)[i] == items_of_words(rest, n)[i]);
                let w = items_of_words(rest, n)[i].2;
                let k = choose|k: int| 0 <= k < rest.len() && rest[k] == w;
                assert(words[k] == w);
            } else {
                let last = words.last();
                assert(words[words.len() - 1] == last);
                assert(items_of_words(words, n) == items_of_words(rest, n) + match item_key_of(last) {
                    Some(k) => seq![(0i32, k, last, n)],
                    None => Seq::empty(),
                });
                assert("URL"@.len() != "TWITTER-HASH"@.len());
            }
        }
    }
}

/// How many of `words` are kept as items: hashtags and links.
pub open spec fn kept_word_count(words: Seq<Seq<char>>) -> nat
    decreases words.len(),
{
    if words.len() == 0 {
        0
    } else {
        kept_word_count(words.drop_last()) + if item_key_of(words.last()) is Some {
            1nat
        } else {
            0nat
        }
    }
}

/// A word is kept under "TWITTER-HASH" when it is `#` and a letter, else
/// under "URL" when it contains `http` and parses as a URL, and not at all
/// otherwise.
pub proof fn law_item_key_of_word(w: Seq<char>)
    ensures
        (w.len() >= 2 && w[0] == '#' && alphabetic(w[1])) ==> item_key_of(w) == Some("TWITTER-HASH"@),
        !(w.len() >= 2 && w[0] == '#' && alphabetic(w[1])) && has_substring(w, "http"@) && url_parses(w)
            ==> item_key_of(w) == Some("URL"@),
        !(w.len() >= 2 && w[0] == '#' && alphabetic(w[1])) && !(has_substring(w, "http"@) && url_parses(w))
            ==> item_key_of(w) is None,
{
}

/// Every hashtag and link among the words of a thread's comment, the last
/// word included, becomes an item of that thread with id 0 and its key; and
/// there is one item per such word.
pub proof fn law_thread_items_are_complete(t: Thread, c: String, n: i32)
    requires
        t.com == Some(c),
        t.no == Some(n),
    ensures
        thread_items_of(t).len() == kept_word_count(words_of(c@)),
        forall|i: int|
            0 <= i < words_of(c@).len() && #[trigger] item_key_of(words_of(c@)[i]) is Some
                ==> thread_items_of(t).contains((0i32, item_key_of(words_of(c@)[i])->0, words_of(c@)[i], n)),
{
    lemma_items_complete(words_of(c@), n);
}

proof fn lemma_items_complete(words: Seq<Seq<char>>, n: i32)
    ensures
        items_of_words(words, n).len() == kept_word_count(words),
        forall|i: int|
            0 <= i < words.len() && #[trigger] item_key_of(words[i]) is Some
                ==> items_of_words(words, n).contains((0i32, item_key_of(words[i])->0, words[i], n)),
    decreases words.len(),
{
    if words.len() > 0 {
        let rest = words.drop_last();
        let last = words.last();
        lemma_items_complete(rest, n);
        let tail = match item_key_of(last) {
            Some(k) => seq![(0i32, k, last, n)],
            None => Seq::<(i32, Seq<char>, Seq<char>, i32)>::empty(),
        };
        assert(items_of_words(words, n) == items_of_words(rest, n) + tail);
        assert forall|i: int|
            0 <= i < words.len() && #[trigger] item_key_of(words[i]) is Some
                implies items_of_words(words, n).contains((0i32, item_key_of(words[i])->0, words[i], n)) by {
            let whole = items_of_words(words, n);
            if i < words.len() - 1 {
                assert(words[i] == rest[i]);
                assert(item_key_of(rest[i]) is Some);
                let j = choose|j: int|
                    0 <= j < items_of_words(rest, n).len() && items_of_words(rest, n)[j] == (
                        0i32,
                        item_key_of(rest[i])->0,
                        rest[i],
                        n,
                    );
                assert(whole[j] == items_of_words(rest, n)[j]);
            } else {
                assert(words[i] == last);
                assert(whole[whole.len() - 1] == (0i32, item_key_of(last)->0, last, n));
            }
        }
    }
}

/// The announcement of a thread reads: the thread's number (or UNKNOWN ID),
/// its poster's name (or UNKOWN NAME), its comment (or INVALID COMMENT) and
/// its reply count (or N\A), each after its prompt and inside ` : [` and
/// `] `, in that order.
pub proof fn law_slack_message_shows_thread(t: Thread)
    ensures
        slack_message_of(t) == "POSTING THREAD WITH ID"@ + " : ["@ + match t.no {
            Some(n) => decimal_of(n as int),
            None => "UNKNOWN ID"@,
        } + "] "@ + "BY USER"@ + " : ["@ + match t.name {
            Some(s) => s@,
            None => "UNKOWN NAME"@,
        } + "] "@ + "WITH COMMENT"@ + " : ["@ + match t.com {
            Some(s) => s@,
            None => "INVALID COMMENT"@,
        } + "] "@ + "NUMBER OF REPLIES AND COUNTING"@ + " : ["@ + match t.replies {
            Some(n) => decimal_of(n as int),
            None => "N\\A"@,
        } + "] "@,
{
    let pieces = slack_pieces_of(t);
    assert(pieces.len() == 16);
    reveal_with_fuel(concat_of, 17);
}

/// A thread without a comment or without a number yields no items.
pub proof fn law_no_items_without_comment_or_number(t: Thread)
    requires
        t.com is None || t.no is None,
    ensures
        thread_items_of(t).len() == 0,
{
}

/// A stored thread is updated exactly when the scanned reply count is
/// present and either no count was stored or the stored one is smaller; it
/// is otherwise left alone; a thread never stored is inserted.
pub proof fn law_thread_write_decision(incoming: Thread, stored: Thread)
    ensures
        thread_write_of(incoming, None) == DbWrite::Insert,
        thread_write_of(incoming, Some(stored)) != DbWrite::Insert,
        incoming.replies is None ==> thread_write_of(incoming, Some(stored)) == DbWrite::Skip,
        (stored.replies is None && incoming.replies is Some) ==> thread_write_of(incoming, Some(stored))
            == DbWrite::Update,
        (stored.replies matches Some(a) && incoming.replies matches Some(b) && a < b) ==> thread_write_of(
            incoming,
            Some(stored),
        ) == DbWrite::Update,
        (stored.replies matches Some(a) && incoming.replies matches Some(b) && b <= a) ==> thread_write_of(
            incoming,
            Some(stored),
        ) == DbWrite::Skip,
{
}

/// A reply without a number is never written; one with a number is updated
/// when one is stored under it, and inserted otherwise.
pub proof fn law_reply_write_decision(post: Post, stored: Option<Post>)
    ensures
        post.no is None ==> reply_write_of(post, stored) == DbWrite::Skip,
        (post.no is Some && stored is Some) ==> reply_write_of(post, stored) == DbWrite::Update,
        (post.no is Some && stored is None) ==> reply_write_of(post, stored) == DbWrite::Insert,
{
}

/// Tagging a reply sets its thread number to `num` read as unsigned and
/// changes nothing else.
pub proof fn law_tagging_changes_only_thread_number(p: Post, num: i32)
    ensures
        tagged_post(p, num).thread_no == Some(num as u64),
        (Post { thread_no: p.thread_no, ..tagged_post(p, num) }) == p,
{
}

/// Writing pieces one after the other: the text of two runs of pieces is
/// the text of the first followed by that of the second.
pub proof fn law_concat_of_append(a: Seq<Seq<char>>, b: Seq<Seq<char>>)
    ensures
        concat_of(a + b) == concat_of(a) + concat_of(b),
        concat_of(seq![Seq::<char>::empty()]) == Seq::<char>::empty(),
    decreases b.len(),
{
    reveal_with_fuel(concat_of, 2);
    assert(concat_of(seq![Seq::<char>::empty()]) =~= Seq::<char>::empty());
    if b.len() == 0 {
        assert(a + b =~= a);
        assert(concat_of(a) + concat_of(b) =~= concat_of(a));
    } else {
        law_concat_of_append(a, b.drop_last());
        assert((a + b).drop_last() =~= a + b.drop_last());
        assert((a + b).last() == b.last());
        assert(concat_of(a) + concat_of(b.drop_last()) + b.last() =~= concat_of(a) + (concat_of(
            b.drop_last(),
        ) + b.last()));
    }
}

} // verus!

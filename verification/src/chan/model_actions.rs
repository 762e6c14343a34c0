//! Turning API records into table rows and table rows back into API
//! records, for threads, replies and items; the outcome reported for a
//! write; and the name of the operation a thread announces.
use vstd::prelude::*;
use vstd::string::StringExecFns;
use crate::chan::chan_service::{mentions_operation, text_mentions_operation, Item, Post, Thread};
use crate::chan::models::{DBItem, DBThread, DBThreadReply, NewDBItem};
use crate::scanner::opt_string_view;
use crate::text::{has_substring, split_words, string_views, uppercase_of, words_of};

verus! {

/// Why a table write or read failed.
#[allow(non_camel_case_types)]
#[derive(Debug)]
pub enum action_error {
    insert_error,
    update_error,
    get_error,
}

/// A table write that went through.
#[allow(non_camel_case_types)]
#[derive(Debug)]
pub enum action_success {
    success,
}

/// Rows of the threads table from catalog threads, and back.
pub struct DBThreadModelAction {}

/// Rows of the replies table from thread posts, and back.
pub struct DBThreadReplyModelAction {}

/// Rows of the items table from items, and back.
pub struct DBThreadItemsModelAction {}

/// The operation a list of words announces: from the first word that
/// mentions an operation, that word and the next one (if any), separated by
/// a space; nothing if no word mentions one.
pub open spec fn operation_name_of(words: Seq<Seq<char>>) -> Seq<char>
    decreases words.len(),
{
    if words.len() == 0 {
        Seq::empty()
    } else if mentions_operation(words[0]) {
        if words.len() >= 2 {
            words[0] + seq![' '] + words[1]
        } else {
            words[0]
        }
    } else {
        operation_name_of(words.drop_first())
    }
}

/// The comment of a thread, or nothing.
pub open spec fn comment_of(com: Option<String>) -> Seq<char> {
    match com {
        Some(c) => c@,
        None => Seq::empty(),
    }
}

/// A number that may be missing, with -1 in its place.
pub open spec fn or_minus_one(v: Option<i32>) -> i32 {
    match v {
        Some(n) => n,
        None => -1i32,
    }
}

/// The threads row for a catalog thread, updated at `last_updated`.
pub open spec fn db_thread_of(t: Thread, last_updated: Seq<char>, row: DBThread) -> bool {
    &&& row.thread_id == or_minus_one(t.no)
    &&& row.operation_text@ == comment_of(t.com)
    &&& row.operation_name@ == operation_name_of(words_of(comment_of(t.com)))
    &&& row.replies == or_minus_one(t.replies)
    &&& row.last_updated@ == last_updated
}

/// The replies row for a post, updated at `last_updated`. The row's thread
/// column holds the post's own number, as the stored data has it.
pub open spec fn db_reply_of(p: Post, last_updated: Seq<char>, row: DBThreadReply) -> bool {
    &&& row.reply_id == or_minus_one(p.no)
    &&& row.reply_comment@ == comment_of(p.com)
    &&& row.last_updated@ == last_updated
    &&& row.thread == or_minus_one(p.no)
}

/// The catalog thread that a threads row reads back as: its number and its
/// reply count, nothing else.
pub open spec fn thread_from_row(row: DBThread) -> Thread {
    Thread {
        no: Some(row.thread_id),
        now: None,
        name: None,
        com: None,
        ext: None,
        w: None,
        h: None,
        tn_w: None,
        tn_h: None,
        tim: None,
        time: None,
        md5: None,
        fsize: None,
        resto: None,
        bumplimit: None,
        imagelimit: None,
        semantic_url: None,
        custom_spoiler: None,
        replies: Some(row.replies),
        omitted_posts: None,
        omitted_images: None,
        last_replies: None,
        last_modified: None,
    }
}

/// The post that a replies row read for number `t_id` reads back as: that
/// number, the comment, and the row's thread column as the thread number.
pub open spec fn post_from_row(t_id: i32, row: DBThreadReply) -> Post {
    Post {
        no: Some(t_id),
        resto: None,
        sticky: None,
        closed: None,
        archived: None,
        archived_on: None,
        now: None,
        time: None,
        name: None,
        trip: None,
        id: None,
        capcode: None,
        country: None,
        country_name: None,
        sub: None,
        com: Some(row.reply_comment),
        tim: None,
        filename: None,
        ext: None,
        fsize: None,
        md5: None,
        w: None,
        h: None,
        tn_w: None,
        tn_h: None,
        filedeleted: None,
        spoiler: None,
        custom_spoiler: None,
        omitted_posts: None,
        omitted_images: None,
        replies: None,
        images: None,
        bumplimit: None,
        imagelimit: None,
        last_modified: None,
        tag: None,
        semantic_url: None,
        since4pass: None,
        thread_no: Some(row.thread as u64),
    }
}

/// The item that an items row reads back as.
pub open spec fn item_from_row(row: DBItem) -> Item {
    Item { item_id: row.item_id, key: row.key, value: row.value, thread: row.thread }
}

/// The items row that stands for an item.
pub open spec fn db_item_of(item: Item) -> DBItem {
    DBItem { item_id: item.item_id, key: item.key, value: item.value, thread: item.thread }
}

/// The first of `rows` whose key is `id`.
pub open spec fn first_with_key<R>(rows: Seq<R>, key: spec_fn(R) -> i32, id: i32) -> Option<R>
    decreases rows.len(),
{
    if rows.len() == 0 {
        None
    } else if key(rows[0]) == id {
        Some(rows[0])
    } else {
        first_with_key(rows.drop_first(), key, id)
    }
}

/// What a read of a table under `id` gives: nothing when the query failed or
/// loaded no row with that key, else the first loaded row with that key.
pub open spec fn row_for<R>(loaded: Option<Vec<R>>, key: spec_fn(R) -> i32, id: i32) -> Option<R> {
    match loaded {
        Some(rows) => first_with_key(rows@, key, id),
        None => None,
    }
}

/// The format in which rows record when they were last updated.
pub open spec fn db_time_format() -> Seq<char> {
    "%Y-%m-%d %H:%M:%S"@
}

/// A decimal digit.
pub open spec fn is_digit(c: char) -> bool {
    '0' <= c <= '9'
}

/// The shape of a time stamp written in `db_time_format`: a year (four
/// digits for years 0 to 9999, else a sign and at least four digits), then
/// `-MM-DD HH:MM:SS` with two digits in each field.
pub open spec fn db_timestamp_shaped(s: Seq<char>) -> bool {
    let k = s.len() - 15;
    &&& s.len() >= 19
    &&& (s[0] == '+' || s[0] == '-' || s.len() == 19)
    &&& forall|i: int|
        0 <= i < k ==> (is_digit(#[trigger] s[i]) || (i == 0 && (s[i] == '+' || s[i] == '-')))
    &&& s[k] == '-'
    &&& is_digit(s[k + 1]) && is_digit(s[k + 2])
    &&& s[k + 3] == '-'
    &&& is_digit(s[k + 4]) && is_digit(s[k + 5])
    &&& s[k + 6] == ' '
    &&& is_digit(s[k + 7]) && is_digit(s[k + 8])
    &&& s[k + 9] == ':'
    &&& is_digit(s[k + 10]) && is_digit(s[k + 11])
    &&& s[k + 12] == ':'
    &&& is_digit(s[k + 13]) && is_digit(s[k + 14])
}

/// What `DateTime::<Utc>::from_timestamp(secs, nanos)` rendered in `fmt`
/// gives: nothing when the instant is out of chrono's range.
pub uninterp spec fn utc_rendering(secs: i64, nanos: u32, fmt: Seq<char>) -> Option<Seq<char>>;

/// An instant from the start of 1970 to the end of 9999, with a nanosecond
/// count below one billion (no leap second).
pub open spec fn four_digit_year_instant(secs: i64, nanos: u32) -> bool {
    &&& 0 <= secs
    &&& secs <= 253402300799
    &&& nanos < 1_000_000_000
}

/// Calls `chrono::DateTime::<Utc>::from_timestamp(secs, nanos)` and, on
/// `Some`, renders the instant with `DelayedFormat::to_string` in `fmt`, which
/// is held to the format the tables use (every field of it renders, so the
/// rendering cannot fail). The result is named by `utc_rendering`; the
/// contract also states what chrono's source shows: every rendering has the
/// stamp's shape, instants from 1970 to the end of 9999 with a valid
/// nanosecond count are in range and render in 19 characters, and a
/// nanosecond count of two billion or more is out of range. Where exactly
/// chrono's range ends is not written out.
#[verifier::external_body]
fn render_utc_timestamp(secs: i64, nanos: u32, fmt: &str) -> (stamp: Option<String>)
    requires
        fmt@ == db_time_format(),
    ensures
        opt_string_view(stamp) == utc_rendering(secs, nanos, fmt@),
        stamp matches Some(s) ==> db_timestamp_shaped(s@),
        four_digit_year_instant(secs, nanos) ==> stamp is Some,
        four_digit_year_instant(secs, nanos) && stamp is Some ==> stamp->0@.len() == 19,
        nanos >= 2_000_000_000 ==> stamp is None,
{
    match chrono::DateTime::from_timestamp(secs, nanos) {
        Some(instant) => Some(instant.format(fmt).to_string()),
        None => None,
    }
}

/// The stamp for the instant `secs` seconds and `nanos` nanoseconds after
/// the start of 1970 (UTC), in the tables' format; nothing when the instant
/// is out of range.
pub fn db_timestamp(secs: i64, nanos: u32) -> (stamp: Option<String>)
    ensures
        opt_string_view(stamp) == utc_rendering(secs, nanos, db_time_format()),
        stamp matches Some(s) ==> db_timestamp_shaped(s@),
        four_digit_year_instant(secs, nanos) ==> stamp is Some,
        four_digit_year_instant(secs, nanos) && stamp is Some ==> stamp->0@.len() == 19,
        nanos >= 2_000_000_000 ==> stamp is None,
{
    render_utc_timestamp(secs, nanos, "%Y-%m-%d %H:%M:%S")
}

/// Where the first row with `item_id` equal to `id` stands among `rows`.
fn item_row_position(rows: &Vec<DBItem>, id: i32) -> (at: Option<usize>)
    ensures
        match first_with_key(rows@, |r: DBItem| r.item_id, id) {
            Some(r) => at matches Some(i) && i < rows@.len() && rows@[i as int] == r,
            None => at is None,
        },
{
    let n = rows.len();
    let mut i: usize = 0;
    proof {
        assert(rows@.subrange(0, n as int) =~= rows@);
    }
    while i < n
        invariant
            n == rows@.len(),
            i <= n,
            first_with_key(rows@, |r: DBItem| r.item_id, id) == first_with_key(
                rows@.subrange(i as int, n as int),
                |r: DBItem| r.item_id,
                id,
            ),
        decreases n - i,
    {
        proof {
            assert(rows@.subrange(i as int, n as int).drop_first() =~= rows@.subrange(i + 1, n as int));
            assert(rows@.subrange(i as int, n as int)[0] == rows@[i as int]);
        }
        if rows[i].item_id == id {
            return Some(i);
        }
        i = i + 1;
    }
    None
}

/// Where the first row with `thread_id` equal to `id` stands among `rows`.
fn thread_row_position(rows: &Vec<DBThread>, id: i32) -> (at: Option<usize>)
    ensures
        match first_with_key(rows@, |r: DBThread| r.thread_id, id) {
            Some(r) => at matches Some(i) && i < rows@.len() && rows@[i as int] == r,
            None => at is None,
        },
{
    let n = rows.len();
    let mut i: usize = 0;
    proof {
        assert(rows@.subrange(0, n as int) =~= rows@);
    }
    while i < n
        invariant
            n == rows@.len(),
            i <= n,
            first_with_key(rows@, |r: DBThread| r.thread_id, id) == first_with_key(
                rows@.subrange(i as int, n as int),
                |r: DBThread| r.thread_id,
                id,
            ),
        decreases n - i,
    {
        proof {
            assert(rows@.subrange(i as int, n as int).drop_first() =~= rows@.subrange(i + 1, n as int));
            assert(rows@.subrange(i as int, n as int)[0] == rows@[i as int]);
        }
        if rows[i].thread_id == id {
            return Some(i);
        }
        i = i + 1;
    }
    None
}

/// Where the first row with `reply_id` equal to `id` stands among `rows`.
fn reply_row_position(rows: &Vec<DBThreadReply>, id: i32) -> (at: Option<usize>)
    ensures
        match first_with_key(rows@, |r: DBThreadReply| r.reply_id, id) {
            Some(r) => at matches Some(i) && i < rows@.len() && rows@[i as int] == r,
            None => at is None,
        },
{
    let n = rows.len();
    let mut i: usize = 0;
    proof {
        assert(rows@.subrange(0, n as int) =~= rows@);
    }
    while i < n
        invariant
            n == rows@.len(),
            i <= n,
            first_with_key(rows@, |r: DBThreadReply| r.reply_id, id) == first_with_key(
                rows@.subrange(i as int, n as int),
                |r: DBThreadReply| r.reply_id,
                id,
            ),
        decreases n - i,
    {
        proof {
            assert(rows@.subrange(i as int, n as int).drop_first() =~= rows@.subrange(i + 1, n as int));
            assert(rows@.subrange(i as int, n as int)[0] == rows@[i as int]);
        }
        if rows[i].reply_id == id {
            return Some(i);
        }
        i = i + 1;
    }
    None
}

/// The operation a list of words announces (see `operation_name_of`).
pub fn get_operation_name(word_array: Vec<String>) -> (name: String)
    ensures
        name@ == operation_name_of(string_views(word_array@)),
{
    let ghost ws = string_views(word_array@);
    let n = word_array.len();
    let mut i: usize = 0;
    proof {
        assert(ws.subrange(0, n as int) =~= ws);
    }
    while i < n
        invariant
            n == word_array@.len(),
            ws == string_views(word_array@),
            i <= n,
            operation_name_of(ws) == operation_name_of(ws.subrange(i as int, n as int)),
        decreases n - i,
    {
        proof {
            assert(ws.subrange(i as int, n as int).drop_first() =~= ws.subrange(i + 1, n as int));
            assert(ws.subrange(i as int, n as int)[0] == word_array@[i as int]@);
        }
        if text_mentions_operation(word_array[i].as_str()) {
            let mut name = word_array[i].clone();
            if i + 1 < n {
                proof {
                    reveal_strlit(" ");
                    assert(ws.subrange(i as int, n as int)[1] == word_array@[i + 1]@);
                }
                name.append(" ");
                name.append(word_array[i + 1].as_str());
            }
            return name;
        }
        i = i + 1;
    }
    proof {
        assert(ws.subrange(n as int, n as int).len() == 0);
    }
    String::new()
}

/// The write outcome reported for an insert that the table did or did not take.
pub fn insert_result(executed: bool) -> (r: Result<action_success, action_error>)
    ensures
        executed ==> r is Ok,
        !executed ==> r matches Err(action_error::insert_error),
{
    if executed {
        Ok(action_success::success)
    } else {
        Err(action_error::insert_error)
    }
}

/// The write outcome reported for an update that the table did or did not take.
pub fn update_result(executed: bool) -> (r: Result<action_success, action_error>)
    ensures
        executed ==> r is Ok,
        !executed ==> r matches Err(action_error::update_error),
{
    if executed {
        Ok(action_success::success)
    } else {
        Err(action_error::update_error)
    }
}

impl DBThreadItemsModelAction {
    /// The items row that stands for `to_create`.
    pub fn create(&self, to_create: &Item) -> (row: DBItem)
        ensures
            row == db_item_of(*to_create),
    {
        DBItem {
            item_id: to_create.item_id,
            key: to_create.key.clone(),
            value: to_create.value.clone(),
            thread: to_create.thread,
        }
    }

    /// The row inserted for `to_insert`: its key, value and thread; the
    /// table assigns the id.
    pub fn new_row(&self, to_insert: &Item) -> (row: NewDBItem)
        ensures
            row.key == to_insert.key,
            row.value == to_insert.value,
            row.thread == to_insert.thread,
    {
        NewDBItem {
            key: to_insert.key.clone(),
            value: to_insert.value.clone(),
            thread: to_insert.thread,
        }
    }

    /// The item with id `t_id`, read back from what a query of the items
    /// table loaded.
    pub fn get_by(&self, t_id: i32, loaded: Option<Vec<DBItem>>) -> (found: Option<Item>)
        ensures
            found == match row_for(loaded, |r: DBItem| r.item_id, t_id) {
                Some(row) => Some(item_from_row(row)),
                None => None,
            },
    {
        match loaded {
            Some(rows) => {
                if let Some(at) = item_row_position(&rows, t_id) {
                    let first = &rows[at];
                    Some(
                        Item {
                            item_id: first.item_id,
                            key: first.key.clone(),
                            value: first.value.clone(),
                            thread: first.thread,
                        },
                    )
                } else {
                    None
                }
            },
            None => None,
        }
    }
}

impl DBThreadModelAction {
    /// The threads row for `to_create`, stamped with the instant `secs`
    /// seconds and `nanos` nanoseconds after the start of 1970; nothing when
    /// that instant is out of range.
    pub fn create(&self, to_create: &Thread, secs: i64, nanos: u32) -> (row: Option<DBThread>)
        ensures
            row is Some <==> utc_rendering(secs, nanos, db_time_format()) is Some,
            row matches Some(r) ==> db_thread_of(
                *to_create,
                utc_rendering(secs, nanos, db_time_format())->0,
                r,
            ) && db_timestamp_shaped(r.last_updated@),
            four_digit_year_instant(secs, nanos) ==> row is Some,
    {
        match db_timestamp(secs, nanos) {
            Some(now) => Some(self.create_at(to_create, now)),
            None => None,
        }
    }

    /// The threads row for `to_create`, stamped with `last_updated`: the
    /// thread's number (or -1), its comment (or nothing), the operation its
    /// comment announces, and its reply count (or -1).
    pub fn create_at(&self, to_create: &Thread, last_updated: String) -> (row: DBThread)
        ensures
            db_thread_of(*to_create, last_updated@, row),
    {
        let comment = match &to_create.com {
            Some(thread_com) => thread_com.clone(),
            None => String::new(),
        };
        let words = split_words(comment.as_str());
        let operation_name = get_operation_name(words);
        DBThread {
            thread_id: match to_create.no {
                Some(thread_number) => thread_number,
                None => -1,
            },
            operation_name,
            operation_text: comment,
            replies: match to_create.replies {
                Some(thread_replies) => thread_replies,
                None => -1,
            },
            last_updated,
        }
    }

    /// The thread numbered `t_id`, read back from what a query of the
    /// threads table loaded.
    pub fn get_by(&self, t_id: i32, loaded: Option<Vec<DBThread>>) -> (found: Option<Thread>)
        ensures
            found == match row_for(loaded, |r: DBThread| r.thread_id, t_id) {
                Some(row) => Some(thread_from_row(row)),
                None => None,
            },
    {
        match loaded {
            Some(rows) => {
                if let Some(at) = thread_row_position(&rows, t_id) {
                    let first = &rows[at];
                    Some(
                        Thread {
                            no: Some(first.thread_id),
                            now: None,
                            name: None,
                            com: None,
                            ext: None,
                            w: None,
                            h: None,
                            tn_w: None,
                            tn_h: None,
                            tim: None,
                            time: None,
                            md5: None,
                            fsize: None,
                            resto: None,
                            bumplimit: None,
                            imagelimit: None,
                            semantic_url: None,
                            custom_spoiler: None,
                            replies: Some(first.replies),
                            omitted_posts: None,
                            omitted_images: None,
                            last_replies: None,
                            last_modified: None,
                        },
                    )
                } else {
                    None
                }
            },
            None => None,
        }
    }
}

impl DBThreadReplyModelAction {
    /// The replies row for `to_create`, stamped with the instant `secs`
    /// seconds and `nanos` nanoseconds after the start of 1970; nothing when
    /// that instant is out of range.
    pub fn create(&self, to_create: &Post, secs: i64, nanos: u32) -> (row: Option<DBThreadReply>)
        ensures
            row is Some <==> utc_rendering(secs, nanos, db_time_format()) is Some,
            row matches Some(r) ==> db_reply_of(
                *to_create,
                utc_rendering(secs, nanos, db_time_format())->0,
                r,
            ) && db_timestamp_shaped(r.last_updated@),
            four_digit_year_instant(secs, nanos) ==> row is Some,
    {
        match db_timestamp(secs, nanos) {
            Some(now) => Some(self.create_at(to_create, now)),
            None => None,
        }
    }

    /// The replies row for `to_create`, stamped with `last_updated`.
    pub fn create_at(&self, to_create: &Post, last_updated: String) -> (row: DBThreadReply)
        ensures
            db_reply_of(*to_create, last_updated@, row),
    {
        let comment = match &to_create.com {
            Some(thread_com) => thread_com.clone(),
            None => String::new(),
        };
        DBThreadReply {
            reply_id: match to_create.no {
                Some(thread_number) => thread_number,
                None => -1,
            },
            reply_comment: comment,
            last_updated,
            thread: match to_create.no {
                Some(thread_replies) => thread_replies,
                None => -1,
            },
        }
    }

    /// The post numbered `t_id`, read back from what a query of the replies
    /// table loaded.
    pub fn get_by(&self, t_id: i32, loaded: Option<Vec<DBThreadReply>>) -> (found: Option<Post>)
        ensures
            found == match row_for(loaded, |r: DBThreadReply| r.reply_id, t_id) {
                Some(row) => Some(post_from_row(t_id, row)),
                None => None,
            },
    {
        match loaded {
            Some(rows) => {
                if let Some(at) = reply_row_position(&rows, t_id) {
                    let first = &rows[at];
                    Some(
                        Post {
                            no: Some(t_id),
                            resto: None,
                            sticky: None,
                            closed: None,
                            archived: None,
                            archived_on: None,
                            now: None,
                            time: None,
                            name: None,
                            trip: None,
                            id: None,
                            capcode: None,
                            country: None,
                            country_name: None,
                            sub: None,
                            com: Some(first.reply_comment.clone()),
                            tim: None,
                            filename: None,
                            ext: None,
                            fsize: None,
                            md5: None,
                            w: None,
                            h: None,
                            tn_w: None,
                            tn_h: None,
                            filedeleted: None,
                            spoiler: None,
                            custom_spoiler: None,
                            omitted_posts: None,
                            omitted_images: None,
                            replies: None,
                            images: None,
                            bumplimit: None,
                            imagelimit: None,
                            last_modified: None,
                            tag: None,
                            semantic_url: None,
                            since4pass: None,
                            thread_no: Some(first.thread as u64),
                        },
                    )
                } else {
                    None
                }
            },
            None => None,
        }
    }
}

/// An item stored as a row reads back as the same item.
pub proof fn law_item_round_trip(item: Item)
    ensures
        item_from_row(db_item_of(item)) == item,
{
}

/// A catalog thread with a number and a reply count, stored as a row, reads
/// back with that number and that reply count.
pub proof fn law_thread_round_trip(t: Thread, last_updated: Seq<char>, row: DBThread)
    requires
        db_thread_of(t, last_updated, row),
        t.no is Some,
        t.replies is Some,
    ensures
        thread_from_row(row).no == t.no,
        thread_from_row(row).replies == t.replies,
{
}

/// A reply with a number, stored as a row and read back under that number,
/// keeps its number and its comment (an absent comment reads back empty),
/// and carries its own number as its thread number.
pub proof fn law_reply_round_trip(p: Post, last_updated: Seq<char>, row: DBThreadReply, n: i32)
    requires
        db_reply_of(p, last_updated, row),
        p.no == Some(n),
    ensures
        post_from_row(n, row).no == p.no,
        post_from_row(n, row).com matches Some(c) && c@ == comment_of(p.com),
        post_from_row(n, row).thread_no == Some(n as u64),
{
}

/// Words none of which mentions an operation announce no operation.
pub proof fn law_no_mention_no_name(words: Seq<Seq<char>>)
    requires
        forall|i: int| 0 <= i < words.len() ==> !mentions_operation(#[trigger] words[i]),
    ensures
        operation_name_of(words) == Seq::<char>::empty(),
    decreases words.len(),
{
    if words.len() > 0 {
        assert(!mentions_operation(words[0]));
        let rest = words.drop_first();
        assert forall|i: int| 0 <= i < rest.len() implies !mentions_operation(#[trigger] rest[i]) by {
            assert(rest[i] == words[i + 1]);
        }
        law_no_mention_no_name(rest);
    }
}

/// The operation a list of words announces comes from the first word that
/// mentions an operation, wherever it stands: that word followed by a space
/// and the next word, or that word alone when it is the last; so the name is
/// not empty whenever such a word is not.
pub proof fn law_operation_name_from_first_mention(words: Seq<Seq<char>>, i: int)
    requires
        0 <= i < words.len(),
        has_substring(uppercase_of(words[i]), "OPERATION"@),
        forall|j: int| 0 <= j < i ==> !has_substring(uppercase_of(#[trigger] words[j]), "OPERATION"@),
    ensures
        i + 1 < words.len() ==> operation_name_of(words) == words[i] + seq![' '] + words[i + 1],
        i + 1 == words.len() ==> operation_name_of(words) == words[i],
        words[i].len() > 0 ==> operation_name_of(words).len() > 0,
    decreases i,
{
    if i > 0 {
        let rest = words.drop_first();
        assert(!has_substring(uppercase_of(words[0]), "OPERATION"@));
        assert forall|j: int| 0 <= j < i - 1 implies !has_substring(
            uppercase_of(#[trigger] rest[j]),
            "OPERATION"@,
        ) by {
            assert(rest[j] == words[j + 1]);
        }
        assert(rest[i - 1] == words[i]);
        law_operation_name_from_first_mention(rest, i - 1);
        if i + 1 < words.len() {
            assert(rest[i] == words[i + 1]);
        }
    }
}

/// The threads row of a catalog thread holds the thread's number (or -1),
/// its whole comment (empty when it has none), the operation that comment
/// announces, its reply count (or -1) and the stamp it was given.
pub proof fn law_thread_row_fields(t: Thread, last_updated: Seq<char>, row: DBThread)
    requires
        db_thread_of(t, last_updated, row),
    ensures
        t.com matches Some(c) ==> row.operation_text@ == c@,
        t.com is None ==> row.operation_text@.len() == 0,
        row.operation_name@ == operation_name_of(words_of(row.operation_text@)),
        t.no matches Some(n) ==> row.thread_id == n,
        t.no is None ==> row.thread_id == -1,
        t.replies matches Some(r) ==> row.replies == r,
        t.replies is None ==> row.replies == -1,
        row.last_updated@ == last_updated,
{
}

/// A read under `id` gives the first row whose key is `id`, and nothing
/// when no row has that key.
pub proof fn law_read_finds_first_keyed_row<R>(rows: Seq<R>, key: spec_fn(R) -> i32, id: i32, k: int)
    ensures
        0 <= k < rows.len() && key(rows[k]) == id && (forall|j: int| 0 <= j < k ==> key(#[trigger] rows[j]) != id)
            ==> first_with_key(rows, key, id) == Some(rows[k]),
        (forall|j: int| 0 <= j < rows.len() ==> key(#[trigger] rows[j]) != id) ==> first_with_key(rows, key, id) is None,
    decreases rows.len(),
{
    if rows.len() > 0 {
        let rest = rows.drop_first();
        if key(rows[0]) != id {
            assert forall|j: int| 0 <= j < rest.len() implies rest[j] == rows[j + 1] by {}
            law_read_finds_first_keyed_row(rest, key, id, k - 1);
            if 0 < k < rows.len() && key(rows[k]) == id && (forall|j: int| 0 <= j < k ==> key(#[trigger] rows[j]) != id) {
                assert(rest[k - 1] == rows[k]);
                assert forall|j: int| 0 <= j < k - 1 implies key(#[trigger] rest[j]) != id by {
                    assert(rest[j] == rows[j + 1]);
                }
            }
            if forall|j: int| 0 <= j < rows.len() ==> key(#[trigger] rows[j]) != id {
                assert forall|j: int| 0 <= j < rest.len() implies key(#[trigger] rest[j]) != id by {
                    assert(rest[j] == rows[j + 1]);
                }
            }
        } else {
            if 0 < k < rows.len() {
                assert(key(rows[0]) == id);
            }
        }
    }
}

/// The replies row of a post holds the post's number (or -1) as its id and
/// its thread, its whole comment (empty when it has none), and the stamp it
/// was given.
pub proof fn law_reply_row_fields(p: Post, last_updated: Seq<char>, row: DBThreadReply)
    requires
        db_reply_of(p, last_updated, row),
    ensures
        p.no matches Some(n) ==> row.reply_id == n && row.thread == n,
        p.no is None ==> row.reply_id == -1 && row.thread == -1,
        p.com matches Some(c) ==> row.reply_comment@ == c@,
        p.com is None ==> row.reply_comment@.len() == 0,
        row.last_updated@ == last_updated,
{
}

} // verus!

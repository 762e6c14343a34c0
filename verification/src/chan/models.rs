//! The rows of the three tables the scanner keeps: threads, replies and
//! items (the hashtags and links found in thread comments).
use vstd::prelude::*;

verus! {

/// A row of the threads table.
#[derive(Clone, Debug)]
pub struct DBThread {
    pub thread_id: i32,
    pub operation_name: String,
    pub operation_text: String,
    pub replies: i32,
    pub last_updated: String,
}

/// A row of the replies table.
#[derive(Clone, Debug)]
pub struct DBThreadReply {
    pub reply_id: i32,
    pub reply_comment: String,
    pub last_updated: String,
    pub thread: i32,
}

/// A row of the items table.
#[derive(Clone, Debug)]
pub struct DBItem {
    pub item_id: i32,
    pub key: String,
    pub value: String,
    pub thread: i32,
}

/// An items row to insert; the table assigns its id.
#[derive(Clone, Debug)]
pub struct NewDBItem {
    pub key: String,
    pub value: String,
    pub thread: i32,
}

} // verus!

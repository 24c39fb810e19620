//! Shared helpers: the accounts a message mentions, and the records the chat
//! platform returns about requests, members and users.
use vstd::prelude::*;
use crate::event::{ChatEvent, collect_segment_i64s, segment_i64s};

verus! {

/// The accounts mentioned in a message: for each `at` segment in order,
/// its `qq` field read as an `i64`; segments without a readable number are skipped.
pub fn get_at_targets(e: &ChatEvent) -> (r: Vec<i64>)
    ensures
        r@ == segment_i64s(e.message@, "at"@, "qq"@),
{
    collect_segment_i64s(&e.message, "at", "qq")
}

/// Lookups of members and users on the chat platform (performed by the host
/// application, which hands the records below to the library).
pub struct InfoDwd;

/// A request to join a group or an invitation into one.
pub struct GroupRequestEvent {
    /// When the request was made (Unix time).
    pub time: i64,
    /// The bot's account.
    pub self_id: i64,
    /// Always `"request"`.
    pub post_type: String,
    /// Always `"group"`.
    pub request_type: String,
    /// `"add"` or `"invite"`.
    pub sub_type: String,
    pub group_id: i64,
    /// The account that made the request.
    pub user_id: i64,
    /// The message attached to the request.
    pub comment: String,
    /// The handle used to answer the request.
    pub flag: String,
}

/// A member of a group.
pub struct GroupMemberInfo {
    pub group_id: i64,
    pub user_id: i64,
    pub nickname: String,
    pub card: String,
    /// `male`, `female` or `unknown`.
    pub sex: String,
    pub age: i32,
    pub area: String,
    pub join_time: i32,
    pub last_sent_time: i32,
    /// The member's activity level in the group, as text.
    pub level: String,
    /// `owner`, `admin` or `member`.
    pub role: String,
    pub unfriendly: bool,
    pub title: String,
    pub title_expire_time: i32,
    pub card_changeable: bool,
}

/// An account's public profile.
pub struct UserInfo {
    pub age: i64,
    pub avatar: String,
    pub business: Vec<Business>,
    /// The account level.
    pub level: i64,
    pub nickname: String,
    pub q_id: Option<String>,
    pub register_time: String,
    pub sex: String,
    pub sign: String,
    pub status: StatusClass,
    pub user_id: i64,
}

/// A paid service an account holds.
pub struct Business {
    pub icon: Option<String>,
    pub ispro: i64,
    pub isyear: i64,
    pub level: i64,
    pub name: Option<String>,
    pub business_type: i64,
}

/// An account's current status.
pub struct StatusClass {
    pub face_id: Option<i64>,
    pub message: Option<String>,
    pub status_id: i64,
}

} // verus!

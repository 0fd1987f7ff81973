use vstd::prelude::*;
use crate::store::MembershipStatus;

verus! {

/// Inbound payload for posting a message.
pub struct SendMessageRequest {
    pub user_id: i32,
    pub group_id: i32,
    pub content: String,
    pub message_type: String,
}

/// Outbound payload confirming a posted message; `created_at` carries the
/// timestamp already rendered as text by the boundary layer.
pub struct SendMessageResponse {
    pub message_id: i32,
    pub content: String,
    pub message_type: String,
    pub created_at: String,
}

/// One listed message joined with its author's display name; `created_at`
/// is the storage timestamp.
pub struct MessageResponse {
    pub id: i32,
    pub content: Option<String>,
    pub message_type: String,
    pub created_at: i64,
    pub user_id: i32,
    pub user_name: String,
}

/// Outbound payload carrying a list of messages.
pub struct GetMessagesResponse {
    pub messages: Vec<MessageResponse>,
}

/// A message row joined with its author's display name, as read straight
/// from the store.
pub struct MessageWithUser {
    pub id: i32,
    pub content: Option<String>,
    pub message_type: String,
    pub created_at: i64,
    pub user_id: i32,
    pub user_name: String,
}

/// One group a user belongs to, with the user's membership status in it.
pub struct GroupInfo {
    pub group_id: i32,
    pub group_name: String,
    pub owner_id: i32,
    pub max_member: i32,
    pub status: MembershipStatus,
}

/// Outbound payload describing one group: its capacity, how many members
/// are seated and waiting, its lifetime rendered as text by the boundary
/// layer, and its latest messages.
pub struct GroupDetailResponse {
    pub group_name: String,
    pub user_id: i32,
    pub max_member: i32,
    pub joined_member: i32,
    pub waiting_member: i32,
    pub created_at: String,
    pub expired_at: String,
    pub messages: Vec<MessageWithUser>,
}

} // verus!

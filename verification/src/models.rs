//! The request and response bodies of the surrounding REST layer, as plain
//! data. The layer itself (routing, serialization, persistence) stays
//! outside; these are the values it hands in and takes back.

use vstd::prelude::*;

verus! {

/// A creation or update instant, in seconds since the epoch.
pub type Timestamp = i64;

pub struct GetUserResponse {
    pub id: i64,
    pub name: String,
    pub phone_number: String,
    pub avatar: String,
}

pub struct RefreshAuthTokenRequest {
    pub refresh_token: String,
    pub user_id: i64,
}

pub struct RefreshAuthTokenResponse {
    pub auth_token: String,
    pub refresh_token: String,
}

pub struct CreateRoomRequest {
    pub secondary_user_id: i64,
    pub item_id: i64,
}

pub struct CreateRoomResponse {
    pub secondary_user_id: i64,
    pub item_id: i64,
    pub room_id: i64,
}

pub struct SignInRequest {
    pub phone_number: String,
    pub password: String,
}

pub struct LogoutRequest {
    pub refresh_token: String,
}

pub struct CreateItemImagesRequest {
    pub item_id: i64,
    pub images: Vec<CreateItemImageRequest>,
}

pub struct CreateItemImageRequest {
    pub name: String,
    pub is_cover: Option<bool>,
}

pub struct CreateItemResponse {
    pub id: i64,
    pub created_at: Timestamp,
}

pub struct ItemImagesUpdateStatusToUploadedRequest {
    pub ids: Vec<i64>,
}

pub struct GetItemsResponse {
    pub items: Vec<GetItemResponse>,
}

pub struct GetItemResponse {
    pub id: i64,
    pub title: String,
    pub description: String,
    pub price: i64,
    pub owner_id: i64,
    pub favorite_count: i32,
    pub message_count: i32,
    pub seen_count: i32,
    pub item_status: ItemStatus,
    pub created_at: Timestamp,
    pub thumbnail: String,
}

pub struct UserItems {
    pub items: Vec<UserItem>,
}

pub struct UserItem {
    pub id: i64,
    pub item_name: String,
    pub image: String,
    pub price: i64,
    pub favorite_count: i32,
    pub message_count: i32,
    pub item_status: ItemStatus,
    pub is_hidden: bool,
    pub created_at: Timestamp,
    pub updated_at: Timestamp,
}

/// The lifecycle of a listed item.
#[derive(Clone, Copy, Debug, PartialEq, Eq, Structural)]
pub enum ItemStatus {
    Active,
    Sold,
    Reserved,
}

pub struct UpdateItemStatusRequest {
    pub new_item_status: ItemStatus,
}

pub struct HideUnhideItemRequest {
    pub is_hidden: bool,
}

pub struct CreateCategoryRequest {
    pub name: String,
    pub avatar: String,
}

pub struct CreatePresignedUrlResponse {
    pub url: String,
    pub image_name: String,
}

pub struct UpdateProfileRequest {
    pub image: Option<String>,
    pub name: Option<String>,
}

/// Whether the latest message of a room counts as read for a user: their
/// own messages always do, and another sender's message does exactly when
/// it is not newer than the user's last visit to the room.
pub fn is_message_read(
    sender_id: i64,
    user_id: i64,
    created_at_millis: i64,
    last_joined_at_millis: i64,
) -> (r: bool)
    ensures
        r == (sender_id == user_id || created_at_millis <= last_joined_at_millis),
{
    sender_id == user_id || created_at_millis <= last_joined_at_millis
}

} // verus!

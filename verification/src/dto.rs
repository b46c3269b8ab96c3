//! The request and record shapes of the target HTTP API, and the identity a
//! virtual user runs under. Text fields are held as raw bytes; the
//! application layer converts to and from the wire encoding.

use vstd::prelude::*;

verus! {

/// Lifecycle state of a wish record.
#[derive(Clone, Debug)]
pub enum WishStatus {
    Submitted,
    CreationInProgress,
    InDelivery,
    Delivered,
}

/// Body of a wish-creation request.
#[derive(Clone, Debug)]
pub struct WishCreateRequest {
    pub content: Vec<u8>,
}

/// Role of a stored user.
#[derive(Clone, Debug)]
pub enum UserRole {
    Default,
    Admin,
}

/// Per-virtual-user identity, generated for one run, used immediately for
/// registration and login and not persisted beyond it.
#[derive(Clone, Debug)]
pub struct Credentials {
    pub name: Vec<u8>,
    pub pass: Vec<u8>,
}

/// Content and state of a wish as carried by the API.
#[derive(Clone, Debug)]
pub struct WishContent {
    pub content: Vec<u8>,
    pub status: WishStatus,
}

/// Identity of a stored record: its table and its key within the table.
#[derive(Clone, Debug)]
pub struct RecordKey {
    pub table: Vec<u8>,
    pub key: Vec<u8>,
}

/// A stored wish record.
#[derive(Clone, Debug)]
pub struct Wish {
    pub id: RecordKey,
    pub content: Vec<u8>,
    pub status: WishStatus,
    pub created_by: Option<RecordKey>,
}

/// A stored wish record joined with its creator's name.
#[derive(Clone, Debug)]
pub struct WishWithUsername {
    pub id: RecordKey,
    pub content: Vec<u8>,
    pub status: WishStatus,
    pub created_by: Option<RecordKey>,
    pub username: Option<Vec<u8>>,
}

/// A stored user record.
#[derive(Clone, Debug)]
pub struct User {
    pub id: RecordKey,
    pub name: Vec<u8>,
    pub pass: Vec<u8>,
    pub roles: Vec<UserRole>,
}

/// The server's info response: a message and, when a session exists, the
/// user and session token.
#[derive(Clone, Debug)]
pub struct InfoResponse {
    pub info: Vec<u8>,
    pub user: Option<User>,
    pub session: Option<Vec<u8>>,
}

} // verus!

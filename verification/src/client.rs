//! The wire shapes a command-line client keeps on its side of the
//! API, and the checks it runs on its saved tokens before spending a
//! network call on them.

use vstd::prelude::*;

verus! {

/// Credentials as a client submits them.
pub struct AuthReq<'a> {
    pub username: &'a str,
    pub password: &'a str,
}

/// The token pair as a client reads it back.
pub struct AuthResp {
    pub access_token: String,
    pub refresh_token: String,
}

/// The client's saved session: both tokens, either possibly empty
/// when nothing was saved yet.
pub struct TokenStore {
    pub access_token: String,
    pub refresh_token: String,
}

/// A share grant as a client reads it back.
pub struct ShareResp {
    pub permission_id: u32,
    pub file_id: u32,
    pub user_id: u32,
}

/// A committed upload as a client reads it back.
pub struct UploadResp {
    pub file_id: u32,
    pub filename: String,
    pub size: u64,
    pub is_public: bool,
}

/// One row of a client-side file listing.
pub struct FileListItem {
    pub file_id: u32,
    pub filename: String,
    pub size: u64,
    pub is_public: bool,
    pub uploaded_at: i64,
    pub access: String,
}

/// The saved access token, when one is present.
pub fn require_access(store: &TokenStore) -> (r: Option<&str>)
    ensures
        r is Some <==> store.access_token@.len() > 0,
        r matches Some(t) ==> t@ == store.access_token@,
{
    if store.access_token.as_str().unicode_len() == 0 {
        None
    } else {
        Some(store.access_token.as_str())
    }
}

/// The saved refresh token, when one is present.
pub fn require_refresh(store: &TokenStore) -> (r: Option<&str>)
    ensures
        r is Some <==> store.refresh_token@.len() > 0,
        r matches Some(t) ==> t@ == store.refresh_token@,
{
    if store.refresh_token.as_str().unicode_len() == 0 {
        None
    } else {
        Some(store.refresh_token.as_str())
    }
}

} // verus!

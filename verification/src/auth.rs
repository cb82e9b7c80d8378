//! User registration and token refresh: name validation, fresh opaque
//! tokens, and the responses handed back to the transport layer.

use vstd::prelude::*;

use crate::model::TokenCreatedResponse;
use vstd::string::StrSliceExecFns;

verus! {

/// Relies on `uuid::Uuid::new_v4` and the `Display` of its hyphenated form:
/// a fresh version-4 UUID always prints as 36 characters.
#[verifier::external_body]
pub fn new_token() -> (r: String)
    ensures
        r@.len() == 36,
{
    uuid::Uuid::new_v4().hyphenated().to_string()
}

/// Relies on `uuid::Uuid::new_v4` and the `Display` of its simple form:
/// a fresh version-4 UUID always prints as 32 hexadecimal characters.
#[verifier::external_body]
pub fn new_room_id() -> (r: String)
    ensures
        r@.len() == 32,
{
    uuid::Uuid::new_v4().simple().to_string()
}

/// A display name is accepted when it is non-empty and at most 15 characters.
pub open spec fn spec_name_ok(name: Seq<char>) -> bool {
    1 <= name.len() <= 15
}

/// Registers a user: checks the requested display name and mints a fresh
/// token for the new user id. The caller stores the returned token.
pub fn add_user(name: String, new_id: usize, now: u64) -> (res: Result<TokenCreatedResponse, usize>)
    ensures
        res is Ok <==> spec_name_ok(name@),
        res matches Err(e) ==> e == 0,
        res matches Ok(t) ==> ({
            &&& t.token@.len() == 36
            &&& t.created_at == now
            &&& t.user_id == new_id
            &&& t.user_name@ == name@
        }),
{
    let len = name.as_str().unicode_len();
    if len == 0 || len > 15 {
        return Err(0);
    }
    let token = new_token();
    Ok(TokenCreatedResponse { token, created_at: now, user_id: new_id, user_name: name })
}

/// Mints a fresh token for an already known user.
pub fn refresh_token(user_id: usize, user_name: String, now: u64) -> (t: TokenCreatedResponse)
    ensures
        t.token@.len() == 36,
        t.created_at == now,
        t.user_id == user_id,
        t.user_name@ == user_name@,
{
    let token = new_token();
    TokenCreatedResponse { token, created_at: now, user_id, user_name }
}

} // verus!

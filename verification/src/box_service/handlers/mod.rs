//! The handlers of the box service, and how a request's user is found.
use vstd::prelude::*;
use crate::box_service::error::AppError;
use crate::text::owned;

pub mod box_handlers;
pub mod guardian_handlers;

verus! {

/// The id of the user a request is made for.
#[derive(Debug)]
pub struct UserId(pub String);

/// What the authorizer's claims of a request context hold, as far as the
/// user id is concerned.
#[derive(Debug)]
pub enum ClaimsLookup {
    /// The authorizer holds no "claims" entry.
    NoClaims,
    /// The "claims" entry is not an object.
    ClaimsNotObject,
    /// The claims hold no "sub" entry.
    NoSub,
    /// The "sub" claim is not a string.
    SubNotString,
    /// The "sub" claim.
    Sub(String),
}

/// A header value: its text when it is all visible ASCII, else `None`.
pub type HeaderText = Option<String>;

/// The user id of a request found from the `x-user-id` header.
pub open spec fn user_id_from_header_spec(header: Option<HeaderText>) -> Result<Seq<char>, Seq<char>> {
    match header {
        Some(Some(v)) => Ok(v@),
        Some(None) => Err("Invalid x-user-id header"@),
        None => Err("Missing x-user-id header"@),
    }
}

impl UserId {
    /// The user id named by the `x-user-id` header.
    pub fn from_header(header: Option<HeaderText>) -> (r: Result<UserId, AppError>)
        ensures
            match user_id_from_header_spec(header) {
                Ok(v) => r matches Ok(UserId(u)) && u@ == v,
                Err(m) => r matches Err(AppError::Unauthorized(msg)) && msg@ == m,
            },
    {
        match header {
            Some(Some(v)) => Ok(UserId(v)),
            Some(None) => Err(AppError::Unauthorized(owned("Invalid x-user-id header"))),
            None => Err(AppError::Unauthorized(owned("Missing x-user-id header"))),
        }
    }
}

/// The user a request is made for, or why it is refused (as an
/// unauthorized error with that message): from the authorizer's claims when
/// the request has a gateway context; else from the identity header; else,
/// in development builds only, from the `x-user-id` header.
pub open spec fn resolved_user(
    context: Option<ClaimsLookup>,
    identity_header: Option<HeaderText>,
    user_header: Option<HeaderText>,
    development: bool,
) -> Result<Seq<char>, Seq<char>> {
    match context {
        Some(ClaimsLookup::Sub(s)) => Ok(s@),
        Some(ClaimsLookup::SubNotString) => Err("Invalid user ID format in claims"@),
        Some(ClaimsLookup::NoSub) => Err("Could not extract user ID from authorizer claims"@),
        Some(ClaimsLookup::ClaimsNotObject) => Err("Invalid claims format in authorizer"@),
        Some(ClaimsLookup::NoClaims) => Err("No claims found in authorizer context"@),
        None => match identity_header {
            Some(Some(v)) => Ok(v@),
            Some(None) => Err("Invalid identity header"@),
            None => if development {
                match user_header {
                    Some(Some(v)) => Ok(v@),
                    Some(None) => Err("Invalid x-user-id header"@),
                    None => Err("No authentication information found"@),
                }
            } else {
                Err("No authentication information found"@)
            },
        },
    }
}

/// Finds the user a request is made for (see `resolved_user`).
pub fn resolve_user_id(
    context: Option<ClaimsLookup>,
    identity_header: Option<HeaderText>,
    user_header: Option<HeaderText>,
    development: bool,
) -> (r: Result<String, AppError>)
    ensures
        match resolved_user(context, identity_header, user_header, development) {
            Ok(u) => r matches Ok(s) && s@ == u,
            Err(m) => r matches Err(AppError::Unauthorized(msg)) && msg@ == m,
        },
{
    match context {
        Some(ClaimsLookup::Sub(s)) => Ok(s),
        Some(ClaimsLookup::SubNotString) => Err(
            AppError::Unauthorized(owned("Invalid user ID format in claims")),
        ),
        Some(ClaimsLookup::NoSub) => Err(
            AppError::Unauthorized(owned("Could not extract user ID from authorizer claims")),
        ),
        Some(ClaimsLookup::ClaimsNotObject) => Err(
            AppError::Unauthorized(owned("Invalid claims format in authorizer")),
        ),
        Some(ClaimsLookup::NoClaims) => Err(
            AppError::Unauthorized(owned("No claims found in authorizer context")),
        ),
        None => match identity_header {
            Some(Some(v)) => Ok(v),
            Some(None) => Err(AppError::Unauthorized(owned("Invalid identity header"))),
            None => if development {
                match user_header {
                    Some(Some(v)) => Ok(v),
                    Some(None) => Err(AppError::Unauthorized(owned("Invalid x-user-id header"))),
                    None => Err(AppError::Unauthorized(owned("No authentication information found"))),
                }
            } else {
                Err(AppError::Unauthorized(owned("No authentication information found")))
            },
        },
    }
}

} // verus!

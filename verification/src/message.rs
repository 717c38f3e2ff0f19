//! Requests and replies of the three operations.
//!
//! Every reply carries the rotated refresh token that came with the call and
//! says whether the caller was authorized.

use vstd::prelude::*;

verus! {

/// Asks for the characters of an account.
#[derive(Debug, Clone, PartialEq, Eq)]
pub struct ListCharactersReq {
    pub name: String,
    pub auth_kind: i32,
    pub auth_scope: i32,
}

/// The characters of an account; none where the caller was not authorized.
#[derive(Debug, Clone, PartialEq, Eq)]
pub struct ListCharactersRep {
    pub characters: Vec<String>,
    pub refresh_token: String,
    pub authorized: bool,
}

/// Asks to add characters to an account.
#[derive(Debug, Clone, PartialEq, Eq)]
pub struct AddCharactersReq {
    pub name: String,
    pub auth_kind: i32,
    pub auth_scope: i32,
    pub characters: Vec<String>,
}

/// Answers a request to add characters.
#[derive(Debug, Clone, PartialEq, Eq)]
pub struct AddCharactersRep {
    pub refresh_token: String,
    pub authorized: bool,
}

/// Asks to delete characters from an account.
#[derive(Debug, Clone, PartialEq, Eq)]
pub struct DelCharactersReq {
    pub name: String,
    pub auth_kind: i32,
    pub auth_scope: i32,
    pub characters: Vec<String>,
}

/// Answers a request to delete characters.
#[derive(Debug, Clone, PartialEq, Eq)]
pub struct DelCharactersRep {
    pub refresh_token: String,
    pub authorized: bool,
}

} // verus!

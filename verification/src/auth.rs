//! Account identity: from a request's name and auth codes to the key under
//! which the account's characters are stored.
//!
//! The key is `kind/scope/name`, with the kind and the scope written as
//! words. Equal inputs give equal keys, and different accounts never share a
//! key.

use crate::error::Error;
use vstd::prelude::*;
use vstd::string::StringExecFns;

verus! {

/// How an account proved who it is.
#[derive(Debug, Clone, Copy, PartialEq, Eq, Structural)]
pub enum AuthKind {
    Password,
    Token,
}

/// The realm in which an account name is valid.
#[derive(Debug, Clone, Copy, PartialEq, Eq, Structural)]
pub enum AuthScope {
    User,
    Service,
}

impl AuthKind {
    /// The kind that a wire code stands for, if any.
    pub open spec fn decode(code: int) -> Option<AuthKind> {
        if code == 0 {
            Some(AuthKind::Password)
        } else if code == 1 {
            Some(AuthKind::Token)
        } else {
            None
        }
    }

    /// The word that stands for this kind in a key.
    pub open spec fn word(self) -> Seq<char> {
        match self {
            AuthKind::Password => "password"@,
            AuthKind::Token => "token"@,
        }
    }

    /// Decodes a wire code; `None` for a code outside the closed set.
    pub fn from_i32(code: i32) -> (kind: Option<AuthKind>)
        ensures
            kind == Self::decode(code as int),
    {
        match code {
            0 => Some(AuthKind::Password),
            1 => Some(AuthKind::Token),
            _ => None,
        }
    }

    /// The word that stands for this kind in a key.
    pub fn as_str_name(&self) -> (word: &'static str)
        ensures
            word@ == self.word(),
    {
        match self {
            AuthKind::Password => "password",
            AuthKind::Token => "token",
        }
    }
}

impl AuthScope {
    /// The scope that a wire code stands for, if any.
    pub open spec fn decode(code: int) -> Option<AuthScope> {
        if code == 0 {
            Some(AuthScope::User)
        } else if code == 1 {
            Some(AuthScope::Service)
        } else {
            None
        }
    }

    /// The word that stands for this scope in a key.
    pub open spec fn word(self) -> Seq<char> {
        match self {
            AuthScope::User => "user"@,
            AuthScope::Service => "service"@,
        }
    }

    /// Decodes a wire code; `None` for a code outside the closed set.
    pub fn from_i32(code: i32) -> (scope: Option<AuthScope>)
        ensures
            scope == Self::decode(code as int),
    {
        match code {
            0 => Some(AuthScope::User),
            1 => Some(AuthScope::Service),
            _ => None,
        }
    }

    /// The word that stands for this scope in a key.
    pub fn as_str_name(&self) -> (word: &'static str)
        ensures
            word@ == self.word(),
    {
        match self {
            AuthScope::User => "user",
            AuthScope::Service => "service",
        }
    }
}

/// The key of the account `name` under `kind` and `scope`.
pub open spec fn auth_name(name: Seq<char>, kind: AuthKind, scope: AuthScope) -> Seq<char> {
    kind.word() + seq!['/'] + scope.word() + seq!['/'] + name
}

/// The key of the account that a request names, where both of its auth codes
/// are recognized.
pub open spec fn account_key(name: Seq<char>, kind: int, scope: int) -> Option<Seq<char>> {
    match (AuthKind::decode(kind), AuthScope::decode(scope)) {
        (Some(k), Some(s)) => Some(auth_name(name, k, s)),
        _ => None,
    }
}

/// Writes the key of an account.
pub fn get_auth_name(name: &str, kind: AuthKind, scope: AuthScope) -> (key: String)
    ensures
        key@ == auth_name(name@, kind, scope),
{
    proof {
        reveal_strlit("/");
    }
    let mut key = kind.as_str_name().to_owned();
    key.append("/");
    key.append(scope.as_str_name());
    key.append("/");
    key.append(name);
    assert(key@ =~= auth_name(name@, kind, scope));
    key
}

/// Derives the key of the account that a request names. Fails, and only
/// then, where the auth kind or the auth scope is not a recognized code.
pub fn get_auth_name_repr<E>(name: &str, kind: i32, scope: i32) -> (key: Result<String, Error<E>>)
    ensures
        match account_key(name@, kind as int, scope as int) {
            Some(expected) => key matches Ok(k) && k@ == expected,
            None => key == Err::<String, Error<E>>(Error::InvalidAuthEncoding),
        },
{
    match (AuthKind::from_i32(kind), AuthScope::from_i32(scope)) {
        (Some(k), Some(s)) => Ok(get_auth_name(name, k, s)),
        _ => Err(Error::InvalidAuthEncoding),
    }
}

/// Different accounts have different keys: a key determines the name, the
/// kind and the scope that it was made of.
pub proof fn lemma_auth_name_injective(
    name1: Seq<char>,
    kind1: AuthKind,
    scope1: AuthScope,
    name2: Seq<char>,
    kind2: AuthKind,
    scope2: AuthScope,
)
    requires
        auth_name(name1, kind1, scope1) == auth_name(name2, kind2, scope2),
    ensures
        name1 == name2,
        kind1 == kind2,
        scope1 == scope2,
{
    reveal_strlit("password");
    reveal_strlit("token");
    reveal_strlit("user");
    reveal_strlit("service");
    let key1 = auth_name(name1, kind1, scope1);
    let key2 = auth_name(name2, kind2, scope2);
    let k1 = kind1.word();
    let k2 = kind2.word();
    let s1 = scope1.word();
    let s2 = scope2.word();
    assert(key1[0] == k1[0]);
    assert(key2[0] == k2[0]);
    assert(kind1 == kind2);
    let at = k1.len() as int + 1;
    assert(key1[at] == s1[0]);
    assert(key2[at] == s2[0]);
    assert(scope1 == scope2);
    let from = at + s1.len() as int + 1;
    assert(name1 =~= key1.subrange(from, key1.len() as int));
    assert(name2 =~= key2.subrange(from, key2.len() as int));
}

} // verus!

//! The three operations on an account's characters.
//!
//! An unauthorized call is answered at once. An authorized call needs the
//! store, which this library does not reach: the operation is a function from
//! the request and the store's answers so far to the next step. The caller
//! starts it with `Started`, performs each `Fetch` and `Store` that it is handed,
//! and calls again with the store's answer, until the step is `Done` or
//! `Failed`. A `Store` is only ever the answer to a completed read, so the read
//! comes first, and every failure of the store ends the operation.

use crate::auth::{account_key, get_auth_name_repr};
use crate::error::Error;
use crate::message::{
    AddCharactersRep, AddCharactersReq, DelCharactersRep, DelCharactersReq, ListCharactersRep,
    ListCharactersReq,
};
use crate::roster::{is_union, merge_names, remove_names, without};
use vstd::prelude::*;

verus! {

/// How far an operation that only reads has come.
#[derive(Debug, PartialEq, Eq)]
pub enum ReadProgress<E> {
    /// Nothing has been asked of the store yet.
    Started,
    /// The store has answered the read.
    Fetched(Result<Vec<String>, E>),
}

/// How far an operation that reads and then writes has come.
#[derive(Debug, PartialEq, Eq)]
pub enum Progress<E> {
    /// Nothing has been asked of the store yet.
    Started,
    /// The store has answered the read.
    Fetched(Result<Vec<String>, E>),
    /// The store has answered the write.
    Stored(Result<(), E>),
}

/// What an operation that only reads needs next, or how it ended.
#[derive(Debug, Clone, PartialEq, Eq)]
pub enum ReadStep<R, E> {
    /// Read the characters stored under `key`; an unknown key reads as empty.
    Fetch { key: String },
    /// The operation succeeded with this reply.
    Done(R),
    /// The operation failed; nothing more is to be done for it.
    Failed(Error<E>),
}

/// What an operation that reads and then writes needs next, or how it ended.
#[derive(Debug, Clone, PartialEq, Eq)]
pub enum Step<R, E> {
    /// Read the characters stored under `key`; an unknown key reads as empty.
    Fetch { key: String },
    /// Replace what is stored under `key` by `characters`.
    Store { key: String, characters: Vec<String> },
    /// The operation succeeded with this reply.
    Done(R),
    /// The operation failed; nothing more is to be done for it.
    Failed(Error<E>),
}

/// The service. It holds no state of its own: all that lasts is in the store.
#[derive(Debug, Clone, Copy, PartialEq, Eq)]
pub struct Service {}

impl Service {
    /// The service.
    pub fn new() -> (service: Service)
        ensures
            service == (Service {  }),
    {
        Service {  }
    }

    /// Answers a caller that was not authorized to list: no characters, the
    /// token as it was handed in, and no access to the store.
    pub fn list_characters_unauthorized(&self, new_token: String) -> (rep: ListCharactersRep)
        ensures
            rep.characters@ == Seq::<String>::empty(),
            rep.refresh_token == new_token,
            !rep.authorized,
    {
        ListCharactersRep { characters: Vec::new(), refresh_token: new_token, authorized: false }
    }

    /// Lists the characters of the account that `req` names.
    ///
    /// A request with an unrecognized auth code fails at every step. Else the
    /// operation reads the account's key, and replies with exactly what the
    /// store returned, or fails with the store's error.
    pub fn list_characters_authorized<E>(
        &self,
        req: &ListCharactersReq,
        new_token: &str,
        progress: ReadProgress<E>,
    ) -> (step: ReadStep<ListCharactersRep, E>)
        ensures
            match account_key(req.name@, req.auth_kind as int, req.auth_scope as int) {
                None => step == ReadStep::<ListCharactersRep, E>::Failed(Error::InvalidAuthEncoding),
                Some(expected) => match progress {
                    ReadProgress::Started => step matches ReadStep::Fetch { key } && key@ == expected,
                    ReadProgress::Fetched(Err(e)) => step == ReadStep::<ListCharactersRep, E>::Failed(
                        Error::AccessorFailure(e),
                    ),
                    ReadProgress::Fetched(Ok(stored)) => {
                        &&& step matches ReadStep::Done(rep)
                        &&& rep.characters == stored
                        &&& rep.refresh_token@ == new_token@
                        &&& rep.authorized
                    },
                },
            },
    {
        let key = match get_auth_name_repr(req.name.as_str(), req.auth_kind, req.auth_scope) {
            Ok(key) => key,
            Err(e) => {
                return ReadStep::Failed(e);
            },
        };
        match progress {
            ReadProgress::Started => ReadStep::Fetch { key },
            ReadProgress::Fetched(Err(e)) => ReadStep::Failed(Error::AccessorFailure(e)),
            ReadProgress::Fetched(Ok(stored)) => ReadStep::Done(
                ListCharactersRep {
                    characters: stored,
                    refresh_token: new_token.to_owned(),
                    authorized: true,
                },
            ),
        }
    }

    /// Answers a caller that was not authorized to add: the token as it was
    /// handed in, and no access to the store.
    pub fn add_characters_unauthorized(&self, new_token: String) -> (rep: AddCharactersRep)
        ensures
            rep.refresh_token == new_token,
            !rep.authorized,
    {
        AddCharactersRep { refresh_token: new_token, authorized: false }
    }

    /// Adds the characters of `req` to the account that it names.
    ///
    /// A request with an unrecognized auth code fails at every step. Else the
    /// operation reads the account's key, writes back under the same key the
    /// canonical list of what was read and what is to be added, and replies
    /// once the write succeeded. A failed read or write ends it with the
    /// store's error.
    pub fn add_characters_authorized<E>(
        &self,
        req: &AddCharactersReq,
        new_token: &str,
        progress: Progress<E>,
    ) -> (step: Step<AddCharactersRep, E>)
        ensures
            match account_key(req.name@, req.auth_kind as int, req.auth_scope as int) {
                None => step == Step::<AddCharactersRep, E>::Failed(Error::InvalidAuthEncoding),
                Some(expected) => match progress {
                    Progress::Started => step matches Step::Fetch { key } && key@ == expected,
                    Progress::Fetched(Err(e)) => step == Step::<AddCharactersRep, E>::Failed(
                        Error::AccessorFailure(e),
                    ),
                    Progress::Fetched(Ok(stored)) => {
                        &&& step matches Step::Store { key, characters }
                        &&& key@ == expected
                        &&& is_union(
                            characters.deep_view(),
                            stored.deep_view(),
                            req.characters.deep_view(),
                        )
                    },
                    Progress::Stored(Err(e)) => step == Step::<AddCharactersRep, E>::Failed(
                        Error::AccessorFailure(e),
                    ),
                    Progress::Stored(Ok(_)) => {
                        &&& step matches Step::Done(rep)
                        &&& rep.refresh_token@ == new_token@
                        &&& rep.authorized
                    },
                },
            },
    {
        let key = match get_auth_name_repr(req.name.as_str(), req.auth_kind, req.auth_scope) {
            Ok(key) => key,
            Err(e) => {
                return Step::Failed(e);
            },
        };
        match progress {
            Progress::Started => Step::Fetch { key },
            Progress::Fetched(Err(e)) => Step::Failed(Error::AccessorFailure(e)),
            Progress::Fetched(Ok(stored)) => Step::Store {
                key,
                characters: merge_names(stored, &req.characters),
            },
            Progress::Stored(Err(e)) => Step::Failed(Error::AccessorFailure(e)),
            Progress::Stored(Ok(_)) => Step::Done(
                AddCharactersRep { refresh_token: new_token.to_owned(), authorized: true },
            ),
        }
    }

    /// Answers a caller that was not authorized to delete: the token as it
    /// was handed in, and no access to the store.
    pub fn del_characters_unauthorized(&self, new_token: String) -> (rep: DelCharactersRep)
        ensures
            rep.refresh_token == new_token,
            !rep.authorized,
    {
        DelCharactersRep { refresh_token: new_token, authorized: false }
    }

    /// Deletes the characters of `req` from the account that it names.
    ///
    /// A request with an unrecognized auth code fails at every step. Else the
    /// operation reads the account's key, writes back under the same key what
    /// was read without the characters to delete, in the order read, and
    /// replies once the write succeeded. A failed read or write ends it with
    /// the store's error. A character that is not stored is no error.
    pub fn del_characters_authorized<E>(
        &self,
        req: &DelCharactersReq,
        new_token: &str,
        progress: Progress<E>,
    ) -> (step: Step<DelCharactersRep, E>)
        ensures
            match account_key(req.name@, req.auth_kind as int, req.auth_scope as int) {
                None => step == Step::<DelCharactersRep, E>::Failed(Error::InvalidAuthEncoding),
                Some(expected) => match progress {
                    Progress::Started => step matches Step::Fetch { key } && key@ == expected,
                    Progress::Fetched(Err(e)) => step == Step::<DelCharactersRep, E>::Failed(
                        Error::AccessorFailure(e),
                    ),
                    Progress::Fetched(Ok(stored)) => {
                        &&& step matches Step::Store { key, characters }
                        &&& key@ == expected
                        &&& characters.deep_view() == without(
                            stored.deep_view(),
                            req.characters.deep_view(),
                        )
                    },
                    Progress::Stored(Err(e)) => step == Step::<DelCharactersRep, E>::Failed(
                        Error::AccessorFailure(e),
                    ),
                    Progress::Stored(Ok(_)) => {
                        &&& step matches Step::Done(rep)
                        &&& rep.refresh_token@ == new_token@
                        &&& rep.authorized
                    },
                },
            },
    {
        let key = match get_auth_name_repr(req.name.as_str(), req.auth_kind, req.auth_scope) {
            Ok(key) => key,
            Err(e) => {
                return Step::Failed(e);
            },
        };
        match progress {
            Progress::Started => Step::Fetch { key },
            Progress::Fetched(Err(e)) => Step::Failed(Error::AccessorFailure(e)),
            Progress::Fetched(Ok(stored)) => Step::Store {
                key,
                characters: remove_names(stored, &req.characters),
            },
            Progress::Stored(Err(e)) => Step::Failed(Error::AccessorFailure(e)),
            Progress::Stored(Ok(_)) => Step::Done(
                DelCharactersRep { refresh_token: new_token.to_owned(), authorized: true },
            ),
        }
    }
}

} // verus!

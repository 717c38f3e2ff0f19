//! An account-scoped character list service, written without I/O.
//!
//! The service keeps, for every account, a set of character names in a
//! key-value store that it does not own. Each operation is described here as
//! a pure function: given the request and what the store has answered so far,
//! it says what to ask of the store next, or how the operation ends. The
//! caller performs the store accesses.

pub mod auth;
pub mod error;
pub mod message;
pub mod order;
pub mod roster;
pub mod service;

pub use auth::{get_auth_name, get_auth_name_repr, AuthKind, AuthScope};
pub use error::Error;
pub use message::{
    AddCharactersRep, AddCharactersReq, DelCharactersRep, DelCharactersReq, ListCharactersRep,
    ListCharactersReq,
};
pub use service::{Progress, ReadProgress, ReadStep, Service, Step};

use vstd::prelude::*;

verus! {

/// Failure conditions surfaced by the core.
///
/// `NotFound` is a lookup by id that matched no row; `Forbidden` is a resolved
/// identity that does not own the target row; `Conflict` is a delete refused
/// because other rows still reference the target (restrict-on-delete policy);
/// `InvalidReference` is a consumable reference of an unrecognized kind, or one
/// where not exactly one of food/recipe is given; `CredentialError` is a
/// malformed stored password hash, distinct from a password mismatch.
#[derive(Clone, Copy, PartialEq, Eq, Structural, Debug)]
pub enum Error {
    NotFound,
    Forbidden,
    Conflict,
    InvalidReference,
    CredentialError,
}

impl Error {
    /// A short description of the failure, for the boundary to log or show.
    pub fn message(&self) -> (r: &'static str)
        ensures
            *self is NotFound ==> r@ == "record not found"@,
            *self is Forbidden ==> r@ == "forbidden"@,
            *self is Conflict ==> r@ == "still referenced"@,
            *self is InvalidReference ==> r@ == "invalid consumable reference"@,
            *self is CredentialError ==> r@ == "malformed credential"@,
    {
        match self {
            Error::NotFound => "record not found",
            Error::Forbidden => "forbidden",
            Error::Conflict => "still referenced",
            Error::InvalidReference => "invalid consumable reference",
            Error::CredentialError => "malformed credential",
        }
    }
}

} // verus!

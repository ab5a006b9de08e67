//! What responses tell of failure.

use vstd::prelude::*;

use crate::common::errors::Error;
use crate::proto::coprocessor::Response;
use crate::proto::errorpb;

verus! {

/// The errors, if there are any.
pub open spec fn errors_view<E>(errors: Option<Vec<E>>) -> Option<Seq<E>> {
    match errors {
        Some(errors) => Some(errors@),
        None => None,
    }
}

/// A response that can hold an error of a region.
pub trait HasRegionError: Sized {
    /// The error that the response holds. A kind of response that can hold one says which.
    open spec fn held_region_error(&self) -> Option<errorpb::Error> {
        None
    }

    /// Take the error out of the response.
    fn region_error(&mut self) -> (r: Option<errorpb::Error>)
        ensures
            r == old(self).held_region_error(),
            r is None ==> *final(self) == *old(self),
    ;
}

/// A response that can hold errors of several regions.
pub trait HasRegionErrors: Sized {
    /// The errors that the response holds. A kind of response that can hold some says which.
    open spec fn held_region_errors(&self) -> Option<Seq<errorpb::Error>> {
        None
    }

    /// Take the errors out of the response.
    fn region_errors(&mut self) -> (r: Option<Vec<errorpb::Error>>)
        ensures
            errors_view(r) == old(self).held_region_errors(),
            r is None ==> *final(self) == *old(self),
    ;
}

/// A response that can hold errors of keys.
pub trait HasKeyErrors: Sized {
    /// The errors that the response holds. A kind of response that can hold some says which.
    open spec fn held_key_errors(&self) -> Option<Seq<Error>> {
        None
    }

    /// Take the errors out of the response.
    fn key_errors(&mut self) -> (r: Option<Vec<Error>>)
        ensures
            errors_view(r) == old(self).held_key_errors(),
            r is None ==> *final(self) == *old(self),
    ;
}

/// A response into which an error of a region can be put.
pub trait SetRegionError: HasRegionError {
    /// Put an error into the response.
    fn set_region_error(&mut self, error: errorpb::Error)
        ensures
            final(self).held_region_error() == Some(error),
    ;
}

/// The errors of a response that can hold a single one.
pub open spec fn only_error(error: Option<errorpb::Error>) -> Option<Seq<errorpb::Error>> {
    match error {
        Some(error) => Some(seq![error]),
        None => None,
    }
}

/// Take the error out of a response that can hold a single one.
pub fn take_only_error(error: &mut Option<errorpb::Error>) -> (r: Option<Vec<errorpb::Error>>)
    ensures
        errors_view(r) == only_error(*old(error)),
        *final(error) is None,
{
    match error.take() {
        Some(error) => {
            let mut errors: Vec<errorpb::Error> = Vec::new();
            errors.push(error);
            assert(errors@ =~= seq![error]);
            Some(errors)
        },
        None => None,
    }
}

impl HasRegionError for Response {
    open spec fn held_region_error(&self) -> Option<errorpb::Error> {
        self.region_error
    }

    fn region_error(&mut self) -> (r: Option<errorpb::Error>)
        ensures
            *final(self) == (Response { region_error: None, ..*old(self) }),
    {
        self.region_error.take()
    }
}

impl HasRegionErrors for Response {
    open spec fn held_region_errors(&self) -> Option<Seq<errorpb::Error>> {
        only_error(self.region_error)
    }

    fn region_errors(&mut self) -> (r: Option<Vec<errorpb::Error>>)
        ensures
            *final(self) == (Response { region_error: None, ..*old(self) }),
    {
        take_only_error(&mut self.region_error)
    }
}

impl SetRegionError for Response {
    fn set_region_error(&mut self, error: errorpb::Error)
        ensures
            *final(self) == (Response { region_error: Some(error), ..*old(self) }),
    {
        self.region_error = Some(error);
    }
}

/// What a response tells of failure.
#[derive(Debug, PartialEq)]
pub enum Failure {
    /// There are errors of keys.
    Keys(Vec<Error>),
    /// There is an error of the region.
    Region(errorpb::Error),
    /// There is no error.
    Absent,
}

impl Failure {
    /// This is what a response with the given errors tells. Errors of keys come first.
    pub open spec fn tells(
        self,
        key_errors: Option<Seq<Error>>,
        region_error: Option<errorpb::Error>,
    ) -> bool {
        match key_errors {
            Some(errors) => self is Keys && self->Keys_0@ == errors,
            None => match region_error {
                Some(error) => self == Failure::Region(error),
                None => self is Absent,
            },
        }
    }
}

/// Take what a response tells of failure out of it.
pub fn take_failure<R: HasKeyErrors + HasRegionError>(response: &mut R) -> (r: Failure)
    ensures
        r.tells(old(response).held_key_errors(), old(response).held_region_error()),
        r is Absent ==> *final(response) == *old(response),
{
    match response.key_errors() {
        Some(errors) => Failure::Keys(errors),
        None => match response.region_error() {
            Some(error) => Failure::Region(error),
            None => Failure::Absent,
        },
    }
}

} // verus!

//! A request to the users API, which is sent a second time with a new token where the API
//! rejects the current one.

use crate::search::UsersRequest;
use crate::users::User;
use vstd::prelude::*;

verus! {

/// The status by which the users API rejects a token.
pub const UNAUTHORIZED: u16 = 401;

/// Why a request to the users API gave no users.
#[derive(Debug)]
pub enum ClientRequestError<E> {
    /// The API answered with an error status.
    HelixRequestGetError { status: u16, error: E },
    /// Something else went wrong.
    Other(E),
}

impl<E> ClientRequestError<E> {
    /// The error as it was given.
    pub open spec fn cause(self) -> E {
        match self {
            ClientRequestError::HelixRequestGetError { error, .. } => error,
            ClientRequestError::Other(error) => error,
        }
    }

    /// Whether the API rejected the token.
    pub open spec fn rejects_token(self) -> bool {
        self matches ClientRequestError::HelixRequestGetError { status, .. } && status
            == UNAUTHORIZED
    }

    fn into_cause(self) -> (error: E)
        ensures
            error == self.cause(),
    {
        match self {
            ClientRequestError::HelixRequestGetError { error, .. } => error,
            ClientRequestError::Other(error) => error,
        }
    }
}

/// Whether the API rejected the token.
pub fn is_unauthorized<E>(error: &ClientRequestError<E>) -> (rejected: bool)
    ensures
        rejected == error.rejects_token(),
{
    match error {
        ClientRequestError::HelixRequestGetError { status, .. } => *status == UNAUTHORIZED,
        ClientRequestError::Other(_) => false,
    }
}

/// What a request needs next.
pub enum FetchStep<E> {
    /// Send the request with the current token.
    Send(Sending),
    /// Get a new token in place of the current one.
    RefreshToken(Refreshing),
    /// Nothing: this is the answer.
    Done(Result<Vec<User>, E>),
}

/// A request that is being sent.
pub struct Sending {
    pub request: UsersRequest,
    /// Whether it was sent before, with a token that was rejected.
    pub again: bool,
}

/// A request that waits for a new token.
pub struct Refreshing {
    pub request: UsersRequest,
}

/// Starts a request.
pub fn fetch_users(request: UsersRequest) -> (sending: Sending)
    ensures
        sending == (Sending { request, again: false }),
{
    Sending { request, again: false }
}

impl Sending {
    /// What comes of a reply: a token that is rejected at the first try is replaced, and
    /// anything else is the answer.
    pub open spec fn after<E>(self, reply: Result<Vec<User>, ClientRequestError<E>>) -> FetchStep<
        E,
    > {
        match reply {
            Ok(users) => FetchStep::Done(Ok(users)),
            Err(error) => if !self.again && error.rejects_token() {
                FetchStep::RefreshToken(Refreshing { request: self.request })
            } else {
                FetchStep::Done(Err(error.cause()))
            },
        }
    }

    /// Goes on when the API has answered.
    pub fn resume<E>(self, reply: Result<Vec<User>, ClientRequestError<E>>) -> (step: FetchStep<E>)
        ensures
            step == self.after(reply),
    {
        match reply {
            Ok(users) => FetchStep::Done(Ok(users)),
            Err(error) => if !self.again && is_unauthorized(&error) {
                FetchStep::RefreshToken(Refreshing { request: self.request })
            } else {
                FetchStep::Done(Err(error.into_cause()))
            },
        }
    }
}

impl Refreshing {
    /// What comes of a reply: with a new token the request is sent again.
    pub open spec fn after<E>(self, reply: Result<(), E>) -> FetchStep<E> {
        match reply {
            Ok(_) => FetchStep::Send(Sending { request: self.request, again: true }),
            Err(error) => FetchStep::Done(Err(error)),
        }
    }

    /// Goes on when the token has been replaced.
    pub fn resume<E>(self, reply: Result<(), E>) -> (step: FetchStep<E>)
        ensures
            step == self.after(reply),
    {
        match reply {
            Ok(_) => FetchStep::Send(Sending { request: self.request, again: true }),
            Err(error) => FetchStep::Done(Err(error)),
        }
    }
}

/// A request whose token is rejected is sent once more, unchanged, with a new token; what comes
/// of that is the answer, though the token were rejected again.
pub proof fn law_rejected_request_is_sent_once_more<E>(
    request: UsersRequest,
    rejection: ClientRequestError<E>,
    second_reply: Result<Vec<User>, ClientRequestError<E>>,
)
    requires
        rejection.rejects_token(),
    ensures
        ({
            let first = Sending { request, again: false };
            let waiting = Refreshing { request };
            let second = Sending { request, again: true };
            &&& first.after(Err(rejection)) == FetchStep::<E>::RefreshToken(waiting)
            &&& waiting.after::<E>(Ok(())) == FetchStep::<E>::Send(second)
            &&& second.after(second_reply) == match second_reply {
                Ok(users) => FetchStep::Done(Ok(users)),
                Err(error) => FetchStep::Done(Err(error.cause())),
            }
        }),
{
}

/// A request that is not rejected for its token is answered by the first reply: by its users, or
/// by its error. One whose token cannot be replaced is answered by the error of that.
pub proof fn law_other_replies_are_the_answer<E>(
    request: UsersRequest,
    reply: Result<Vec<User>, ClientRequestError<E>>,
    no_token: E,
)
    requires
        reply matches Err(error) ==> !error.rejects_token(),
    ensures
        (Sending { request, again: false }).after(reply) == match reply {
            Ok(users) => FetchStep::Done(Ok(users)),
            Err(error) => FetchStep::Done(Err(error.cause())),
        },
        (Refreshing { request }).after::<E>(Err(no_token)) == FetchStep::<E>::Done(Err(no_token)),
{
}

/// A token is rejected by the status 401 and by nothing else, and an error is handed on as it was
/// given.
pub proof fn law_only_one_status_rejects_a_token<E>(status: u16, error: E)
    ensures
        ({
            let answered = ClientRequestError::HelixRequestGetError { status, error };
            let failed = ClientRequestError::Other(error);
            &&& answered.rejects_token() <==> status == 401
            &&& !failed.rejects_token()
            &&& answered.cause() == error
            &&& failed.cause() == error
        }),
{
}

} // verus!

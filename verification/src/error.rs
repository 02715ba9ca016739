//! Why a request is not answered.

use std::num::ParseIntError;
use vstd::prelude::*;

verus! {

/// Why the service refuses a request.
#[derive(Debug)]
pub enum Error {
    /// Nothing was found under the given name or in the given range.
    NotFound,
    /// The channel asked for has opted out of being logged.
    ChannelOptedOut,
    /// The user asked for has opted out of being logged.
    UserOptedOut,
    /// A parameter of the request has no meaning; the text says which.
    InvalidParam(String),
    /// A part of a date is not a number.
    ParseInt(ParseIntError),
}

/// What the contracts say of an `Error`.
pub enum Refusal {
    NotFound,
    ChannelOptedOut,
    UserOptedOut,
    InvalidParam(Seq<char>),
    ParseInt(ParseIntError),
}

impl View for Error {
    type V = Refusal;

    open spec fn view(&self) -> Refusal {
        match self {
            Error::NotFound => Refusal::NotFound,
            Error::ChannelOptedOut => Refusal::ChannelOptedOut,
            Error::UserOptedOut => Refusal::UserOptedOut,
            Error::InvalidParam(text) => Refusal::InvalidParam(text@),
            Error::ParseInt(error) => Refusal::ParseInt(*error),
        }
    }
}

/// What a function of the service returned, with an error taken by its view.
pub open spec fn outcome<T>(result: Result<T, Error>) -> Result<T, Refusal> {
    match result {
        Ok(value) => Ok(value),
        Err(error) => Err(error@),
    }
}

/// Why a request that calls on something outside the service ends without an answer.
#[derive(Debug)]
pub enum Failure<E> {
    /// The service itself refuses the request.
    Refused(Error),
    /// A call failed, with the error that it gave.
    Failed(E),
}

/// What the contracts say of a `Failure`.
pub enum FailureView<E> {
    Refused(Refusal),
    Failed(E),
}

impl<E> View for Failure<E> {
    type V = FailureView<E>;

    open spec fn view(&self) -> FailureView<E> {
        match self {
            Failure::Refused(error) => FailureView::Refused(error@),
            Failure::Failed(error) => FailureView::Failed(*error),
        }
    }
}

/// What a step of a request returned, with a failure taken by its view.
pub open spec fn settled<T, E>(result: Result<T, Failure<E>>) -> Result<T, FailureView<E>> {
    match result {
        Ok(value) => Ok(value),
        Err(failure) => Err(failure@),
    }
}

/// An error of an outside call, with what the service was doing when it came, if it says.
#[derive(Debug)]
pub struct ContextError<E> {
    pub context: Option<&'static str>,
    pub error: E,
}

impl<E> ContextError<E> {
    /// Whether this is the given error in the given context.
    pub open spec fn says(self, context: Seq<char>, error: E) -> bool {
        self.context is Some && self.context->0@ == context && self.error == error
    }
}

/// The view of an error keeps its kind and its text, so that no two kinds are taken for each
/// other.
pub proof fn law_refusals_keep_their_kind(text: String, number: ParseIntError)
    ensures
        Error::NotFound@ is NotFound,
        Error::ChannelOptedOut@ is ChannelOptedOut,
        Error::UserOptedOut@ is UserOptedOut,
        Error::InvalidParam(text)@ == Refusal::InvalidParam(text@),
        Error::ParseInt(number)@ == Refusal::ParseInt(number),
{
}

/// Taking an error by its view changes neither a success nor which error it is.
pub proof fn law_outcomes_are_kept<T, E>(value: T, error: Error, cause: E)
    ensures
        outcome(Ok::<T, Error>(value)) == Ok::<T, Refusal>(value),
        outcome(Err::<T, Error>(error)) == Err::<T, Refusal>(error@),
        settled(Ok::<T, Failure<E>>(value)) == Ok::<T, FailureView<E>>(value),
        settled(Err::<T, Failure<E>>(Failure::Refused(error))) == Err::<T, FailureView<E>>(
            FailureView::Refused(error@),
        ),
        settled(Err::<T, Failure<E>>(Failure::Failed(cause))) == Err::<T, FailureView<E>>(
            FailureView::Failed(cause),
        ),
{
}

/// An error that is said to have come in a context carries that context and is that error.
pub proof fn law_context_is_carried<E>(failure: ContextError<E>, context: Seq<char>, error: E)
    ensures
        failure.says(context, error) ==> failure.error == error && failure.context is Some
            && failure.context->0@ == context,
{
}

} // verus!

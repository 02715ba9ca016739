//! The address of the newest logs.

use crate::error::{Error, Failure, FailureView, Refusal};
use vstd::prelude::*;

verus! {

/// A request that is sent on to the newest logs, while those are being looked for.
pub enum Redirection {
    /// To those of a channel. The words are those by which addresses tell names from ids.
    Channel { id_word: String, channel: String, query: Option<String> },
    /// To those of a user in a channel.
    User {
        channel_word: String,
        channel: String,
        user_word: String,
        user: String,
        query: Option<String>,
    },
}

/// An address with one part more.
pub open spec fn extended(address: Seq<char>, part: Seq<char>) -> Seq<char> {
    address + "/"@ + part
}

/// An address with the query of the request, if that had one.
pub open spec fn with_query(address: Seq<char>, query: Option<String>) -> Seq<char> {
    match query {
        Some(query) => address + "?"@ + query@,
        None => address,
    }
}

fn extend(address: &mut String, part: &str)
    ensures
        final(address)@ == extended(old(address)@, part@),
{
    address.append("/");
    address.append(part);
}

fn append_query(address: &mut String, query: &Option<String>)
    ensures
        final(address)@ == with_query(old(address)@, *query),
{
    match query {
        Some(query) => {
            address.append("?");
            address.append(query.as_str());
        },
        None => {},
    }
}

impl Redirection {
    /// The address of the given logs.
    pub open spec fn address(self, logs: Seq<char>) -> Seq<char> {
        let root = Seq::<char>::empty();
        match self {
            Redirection::Channel { id_word, channel, query } => {
                let address = extended(extended(root, id_word@), channel@);
                with_query(extended(address, logs), query)
            },
            Redirection::User { channel_word, channel, user_word, user, query } => {
                let address = extended(extended(root, channel_word@), channel@);
                let address = extended(extended(address, user_word@), user@);
                with_query(extended(address, logs), query)
            },
        }
    }

    fn address_of(&self, logs: &str) -> (address: String)
        ensures
            address@ == self.address(logs@),
    {
        let mut address = String::new();
        match self {
            Redirection::Channel { id_word, channel, query } => {
                extend(&mut address, id_word.as_str());
                extend(&mut address, channel.as_str());
                extend(&mut address, logs);
                append_query(&mut address, query);
            },
            Redirection::User { channel_word, channel, user_word, user, query } => {
                extend(&mut address, channel_word.as_str());
                extend(&mut address, channel.as_str());
                extend(&mut address, user_word.as_str());
                extend(&mut address, user.as_str());
                extend(&mut address, logs);
                append_query(&mut address, query);
            },
        }
        address
    }

    /// Answers when it is known which logs there are, the newest first, each as a part of an
    /// address.
    pub fn resume<E>(self, reply: Result<Vec<String>, E>) -> (address: Result<String, Failure<E>>)
        ensures
            match reply {
                Ok(available) => if available@.len() == 0 {
                    address matches Err(failure) && failure@ == FailureView::<E>::Refused(
                        Refusal::NotFound,
                    )
                } else {
                    address matches Ok(found) && found@ == self.address(available@[0]@)
                },
                Err(error) => address matches Err(failure) && failure@ == FailureView::Failed(
                    error,
                ),
            },
    {
        match reply {
            Ok(available) => if available.len() == 0 {
                Err(Failure::Refused(Error::NotFound))
            } else {
                Ok(self.address_of(available[0].as_str()))
            },
            Err(error) => Err(Failure::Failed(error)),
        }
    }
}

/// The address of the newest logs is the path of the request, part by part, with the logs behind
/// it; a query of the request follows behind a question mark and changes nothing else.
pub proof fn law_addresses_extend_the_path(
    channel_word: String,
    channel: String,
    user_word: String,
    user: String,
    query: String,
    logs: Seq<char>,
)
    ensures
        ({
            let plain = Redirection::Channel { id_word: channel_word, channel, query: None };
            let queried = Redirection::Channel {
                id_word: channel_word,
                channel,
                query: Some(query),
            };
            &&& plain.address(logs) == "/"@ + channel_word@ + "/"@ + channel@ + "/"@ + logs
            &&& queried.address(logs) == plain.address(logs) + "?"@ + query@
        }),
        ({
            let plain = Redirection::User { channel_word, channel, user_word, user, query: None };
            let queried = Redirection::User {
                channel_word,
                channel,
                user_word,
                user,
                query: Some(query),
            };
            &&& plain.address(logs) == "/"@ + channel_word@ + "/"@ + channel@ + "/"@ + user_word@
                + "/"@ + user@ + "/"@ + logs
            &&& queried.address(logs) == plain.address(logs) + "?"@ + query@
        }),
{
    let root = Seq::<char>::empty();
    assert(root + "/"@ =~= "/"@);
}

} // verus!

//! The state of the service and the operations on it.

use crate::collections::{DashStringSet, StringSet};
use crate::error::{ContextError, Error, Failure, Refusal};
use crate::search::{RequestView, UsersRequest};
use crate::users::{CacheView, User, UsersCache};
use vstd::prelude::*;

verus! {

/// The state of the service.
pub struct App {
    /// What is remembered of users.
    pub users: UsersCache,
    /// The ids of the channels that are logged.
    pub channels: StringSet,
    /// The codes by which users may opt out.
    pub optout_codes: DashStringSet,
    /// The ids of the users who have opted out.
    pub optout_users: DashStringSet,
}

/// Why a request for the logs of a channel, or of a user in it, is refused: the channel or the
/// user has opted out.
pub open spec fn opt_out_refusal(
    opted_out: Set<Seq<char>>,
    channel_id: Seq<char>,
    user_id: Option<Seq<char>>,
) -> Option<Refusal> {
    if opted_out.contains(channel_id) {
        Some(Refusal::ChannelOptedOut)
    } else if user_id is Some && opted_out.contains(user_id->0) {
        Some(Refusal::UserOptedOut)
    } else {
        None
    }
}

/// The text of an optional string slice.
pub open spec fn slice_text(slice: Option<&str>) -> Option<Seq<char>> {
    match slice {
        Some(slice) => Some(slice@),
        None => None,
    }
}

/// What a search for the id of a login needs next.
pub enum NameStep {
    /// Send a request.
    Fetch { request: UsersRequest, then: NameLookup },
    /// Nothing: this is the answer.
    Done(Result<String, Error>),
}

/// A search for the id of a login that is under way.
pub struct NameLookup {
    pub name: String,
}

/// What is done with channels.
#[derive(Clone, Copy, Debug)]
pub enum ChannelAction {
    /// Their messages are logged from now on.
    Join,
    /// Their messages are no longer logged.
    Part,
}

/// The texts of strings, as a set.
pub open spec fn texts(items: Seq<String>) -> Set<Seq<char>> {
    Set::new(|s: Seq<char>| exists|i: int| 0 <= i < items.len() && items[i]@ == s)
}

/// Channels that are being joined or parted, while that is being saved in the database.
pub struct SavingChannels {
    pub channels: Vec<String>,
    pub action: ChannelAction,
}

/// A user's opt-out while their logs are being deleted.
pub struct DeletingLogs {
    pub user_id: String,
}

/// A user's opt-out while it is being saved as the given state.
pub struct SavingOptOut {
    pub user_id: String,
    pub state: bool,
}

impl App {
    /// The ids of the users who have opted out.
    pub open spec fn opted_out(self) -> Set<Seq<char>> {
        self.optout_users@
    }

    /// The codes by which users may opt out.
    pub open spec fn codes(self) -> Set<Seq<char>> {
        self.optout_codes@
    }

    /// Searches for the id of the user with a login.
    pub fn get_user_id_by_name(&self, name: &str) -> (step: NameStep)
        ensures
            if !self.users@.ids.contains_key(name@) {
                &&& step matches NameStep::Fetch { request, then }
                &&& request@ matches RequestView::Logins(logins)
                &&& logins.len() == 1 && logins[0]@ == name@
                &&& then.name@ == name@
            } else {
                &&& step matches NameStep::Done(answer)
                &&& match self.users@.ids[name@] {
                    Some(id) => answer matches Ok(found) && found@ == id,
                    None => answer == Err::<String, Error>(Error::NotFound),
                }
            },
    {
        match self.users.get_id(name) {
            Some(Some(id)) => NameStep::Done(Ok(id)),
            Some(None) => NameStep::Done(Err(Error::NotFound)),
            None => {
                let mut logins: Vec<String> = Vec::new();
                logins.push(name.to_owned());
                NameStep::Fetch {
                    request: UsersRequest::Logins(logins),
                    then: NameLookup { name: name.to_owned() },
                }
            },
        }
    }

    /// Starts a user's opt-out: their logs are to be deleted.
    pub fn optout_user(&self, user_id: &str) -> (step: DeletingLogs)
        ensures
            step.user_id@ == user_id@,
    {
        DeletingLogs { user_id: user_id.to_owned() }
    }

    /// Refuses a request for the logs of a channel, or of a user in it, that has opted out.
    pub fn check_opted_out(&self, channel_id: &str, user_id: Option<&str>) -> (allowed: Result<
        (),
        Error,
    >)
        ensures
            match opt_out_refusal(self.opted_out(), channel_id@, slice_text(user_id)) {
                Some(refusal) => allowed matches Err(error) && error@ == refusal,
                None => allowed is Ok,
            },
    {
        if self.optout_users.contains(channel_id) {
            return Err(Error::ChannelOptedOut);
        }
        if let Some(user_id) = user_id {
            if self.optout_users.contains(user_id) {
                return Err(Error::UserOptedOut);
            }
        }
        Ok(())
    }

    /// Starts to join or part channels: that is to be saved in the database.
    pub fn update_channels(&self, channels: &[String], action: ChannelAction) -> (step:
        SavingChannels)
        ensures
            step.channels@ == channels@,
            step.action == action,
    {
        let mut copies: Vec<String> = Vec::new();
        for i in 0..channels.len()
            invariant
                copies@ =~= channels@.take(i as int),
        {
            copies.push(channels[i].clone());
        }
        assert(channels@.take(channels@.len() as int) =~= channels@);
        SavingChannels { channels: copies, action }
    }
}

impl SavingChannels {
    /// The channels that are logged once this is saved.
    pub open spec fn applied(self, logged: Set<Seq<char>>) -> Set<Seq<char>> {
        match self.action {
            ChannelAction::Join => logged.union(texts(self.channels@)),
            ChannelAction::Part => logged.difference(texts(self.channels@)),
        }
    }

    /// Goes on when the database has answered: what it has saved is joined or parted.
    pub fn resume<E>(self, app: &mut App, reply: Result<(), E>) -> (done: Result<(), E>)
        ensures
            done == reply,
            final(app).channels@ == match reply {
                Ok(_) => self.applied(old(app).channels@),
                Err(_) => old(app).channels@,
            },
            final(app).users == old(app).users,
            final(app).optout_codes == old(app).optout_codes,
            final(app).optout_users == old(app).optout_users,
    {
        let nothing = match reply {
            Err(error) => return Err(error),
            Ok(nothing) => nothing,
        };
        let SavingChannels { channels, action } = self;
        let ghost before = app.channels@;
        assert(before =~= before.union(texts(channels@.take(0))));
        assert(before =~= before.difference(texts(channels@.take(0))));
        for i in 0..channels.len()
            invariant
                app.channels@ == match action {
                    ChannelAction::Join => before.union(texts(channels@.take(i as int))),
                    ChannelAction::Part => before.difference(texts(channels@.take(i as int))),
                },
                app.users == old(app).users,
                app.optout_codes == old(app).optout_codes,
                app.optout_users == old(app).optout_users,
        {
            match action {
                ChannelAction::Join => {
                    app.channels.insert(channels[i].clone());
                },
                ChannelAction::Part => {
                    app.channels.remove(&channels[i]);
                },
            }
            proof {
                lemma_texts(channels@, i as int);
                let more = texts(channels@.take(i + 1));
                match action {
                    ChannelAction::Join => {
                        assert(app.channels@ =~= before.union(more));
                    },
                    ChannelAction::Part => {
                        assert(app.channels@ =~= before.difference(more));
                    },
                }
            }
        }
        assert(channels@.take(channels@.len() as int) =~= channels@);
        Ok(nothing)
    }
}

pub(crate) proof fn lemma_texts(items: Seq<String>, i: int)
    requires
        0 <= i < items.len(),
    ensures
        texts(items.take(i + 1)) == texts(items.take(i)).insert(items[i]@),
{
    let shorter = items.take(i);
    let longer = items.take(i + 1);
    assert forall|s: Seq<char>|
        texts(longer).contains(s) == texts(shorter).insert(items[i]@).contains(s) by {
        if texts(longer).contains(s) {
            let k = choose|k: int| 0 <= k < longer.len() && longer[k]@ == s;
            if k < i {
                assert(shorter[k]@ == s);
            }
        }
        if texts(shorter).contains(s) {
            let k = choose|k: int| 0 <= k < shorter.len() && shorter[k]@ == s;
            assert(longer[k]@ == s);
        }
        assert(longer[i]@ == items[i]@);
    }
    assert(texts(longer) =~= texts(shorter).insert(items[i]@));
}

impl NameLookup {
    /// Ends the search when the request has been answered: the first user that came back is the
    /// one, and is remembered; without any, it is remembered that no user has the login.
    pub fn resume<E>(self, app: &mut App, reply: Result<Vec<User>, E>) -> (id: Result<
        String,
        Failure<E>,
    >)
        ensures
            match reply {
                Ok(users) => if users@.len() > 0 {
                    &&& id == Ok::<String, Failure<E>>(users@[0].id)
                    &&& final(app).users@ == old(app).users@.told(
                        Some(users@[0].id@),
                        Some(users@[0].login@),
                    )
                } else {
                    &&& id == Err::<String, Failure<E>>(Failure::Refused(Error::NotFound))
                    &&& final(app).users@ == old(app).users@.told(None, Some(self.name@))
                },
                Err(error) => {
                    &&& id == Err::<String, Failure<E>>(Failure::Failed(error))
                    &&& final(app).users@ == old(app).users@
                },
            },
            old(app).users@.consistent(),
            final(app).users@.consistent(),
            final(app).users@.covers(old(app).users@),
            final(app).channels == old(app).channels,
            final(app).optout_codes == old(app).optout_codes,
            final(app).optout_users == old(app).optout_users,
    {
        proof {
            use_type_invariant(&app.users);
        }
        match reply {
            Ok(users) => if users.len() > 0 {
                let user = &users[0];
                app.users.insert(user.id.clone(), user.login.clone());
                Ok(user.id.clone())
            } else {
                app.users.insert_optional(None, Some(self.name));
                Err(Failure::Refused(Error::NotFound))
            },
            Err(error) => Err(Failure::Failed(error)),
        }
    }
}

impl DeletingLogs {
    /// Goes on when the logs have been deleted: the user counts as opted out from then on, and
    /// that is to be saved.
    pub fn resume<E>(self, app: &mut App, reply: Result<(), E>) -> (step: Result<
        SavingOptOut,
        ContextError<E>,
    >)
        ensures
            match reply {
                Ok(_) => {
                    &&& step == Ok::<_, ContextError<E>>(
                        SavingOptOut { user_id: self.user_id, state: true },
                    )
                    &&& final(app).opted_out() == old(app).opted_out().insert(self.user_id@)
                },
                Err(error) => {
                    &&& step matches Err(failure) && failure.says("Could not delete logs"@, error)
                    &&& final(app).opted_out() == old(app).opted_out()
                },
            },
            final(app).users == old(app).users,
            final(app).channels == old(app).channels,
            final(app).optout_codes == old(app).optout_codes,
    {
        match reply {
            Ok(_) => {
                app.optout_users.insert(self.user_id.clone());
                Ok(SavingOptOut { user_id: self.user_id, state: true })
            },
            Err(error) => Err(ContextError { context: Some("Could not delete logs"), error }),
        }
    }
}

impl SavingOptOut {
    /// Ends the opt-out when it has been saved.
    pub fn resume<E>(self, reply: Result<(), E>) -> (done: Result<(), ContextError<E>>)
        ensures
            match reply {
                Ok(_) => done is Ok,
                Err(error) => done matches Err(failure) && failure.says(
                    "Could not save opt-out state"@,
                    error,
                ),
            },
    {
        match reply {
            Ok(_) => Ok(()),
            Err(error) => Err(
                ContextError { context: Some("Could not save opt-out state"), error },
            ),
        }
    }
}

/// A user who has opted out is refused, as a channel and as a user in any channel; requests that
/// name neither are refused as before.
pub proof fn law_opting_out_is_respected(
    opted_out: Set<Seq<char>>,
    user: Seq<char>,
    channel: Seq<char>,
    other: Option<Seq<char>>,
)
    ensures
        opt_out_refusal(opted_out.insert(user), user, other) == Some(Refusal::ChannelOptedOut),
        opt_out_refusal(opted_out.insert(user), channel, Some(user)) is Some,
        channel != user && other != Some(user) ==> opt_out_refusal(
            opted_out.insert(user),
            channel,
            other,
        ) == opt_out_refusal(opted_out, channel, other),
{
}

/// What a lookup by login finds is remembered: the next one finds the id of a user that came back
/// under their login, and that no user has a login under which none came back.
pub proof fn law_lookups_are_remembered(
    cache: CacheView,
    id: Seq<char>,
    login: Seq<char>,
    name: Seq<char>,
)
    ensures
        cache.told(Some(id), Some(login)).ids.contains_pair(login, Some(id)),
        cache.told(Some(id), Some(login)).logins.contains_pair(id, Some(login)),
        cache.told(None, Some(name)).ids.contains_pair(name, None::<Seq<char>>),
{
}

/// Channels that are joined are among the channels, parting them takes them out again, and no
/// other channel is touched by either.
pub proof fn law_parting_undoes_joining(
    logged: Set<Seq<char>>,
    channels: Vec<String>,
    other: Seq<char>,
)
    ensures
        ({
            let joining = SavingChannels { channels, action: ChannelAction::Join };
            let parting = SavingChannels { channels, action: ChannelAction::Part };
            &&& texts(channels@).subset_of(joining.applied(logged))
            &&& texts(channels@).disjoint(parting.applied(logged))
            &&& parting.applied(joining.applied(logged)) == parting.applied(logged)
            &&& !texts(channels@).contains(other) ==> {
                &&& joining.applied(logged).contains(other) == logged.contains(other)
                &&& parting.applied(logged).contains(other) == logged.contains(other)
            }
        }),
{
    let joining = SavingChannels { channels, action: ChannelAction::Join };
    let parting = SavingChannels { channels, action: ChannelAction::Part };
    assert(parting.applied(joining.applied(logged)) =~= parting.applied(logged));
}

/// A request is refused for an opt-out if and only if the channel or the user has opted out, and
/// for the channel first.
pub proof fn law_only_opt_outs_are_refused(
    opted_out: Set<Seq<char>>,
    channel_id: Seq<char>,
    user_id: Option<Seq<char>>,
)
    ensures
        ({
            let refusal = opt_out_refusal(opted_out, channel_id, user_id);
            let user_is_out = user_id matches Some(id) && opted_out.contains(id);
            &&& refusal == Some(Refusal::ChannelOptedOut) <==> opted_out.contains(channel_id)
            &&& refusal == Some(Refusal::UserOptedOut) <==> !opted_out.contains(channel_id)
                && user_is_out
            &&& refusal is None <==> !opted_out.contains(channel_id) && !user_is_out
        }),
{
}

/// The texts of strings are those of each of them, and no others.
pub proof fn law_texts_hold_each_string(items: Seq<String>)
    ensures
        texts(items) == Seq::new(items.len(), |i: int| items[i]@).to_set(),
{
    let held = Seq::new(items.len(), |i: int| items[i]@);
    assert forall|s: Seq<char>| texts(items).contains(s) == held.to_set().contains(s) by {
        if texts(items).contains(s) {
            let i = choose|i: int| 0 <= i < items.len() && items[i]@ == s;
            assert(held[i] == s);
        }
        if held.contains(s) {
            let i = choose|i: int| 0 <= i < held.len() && held[i] == s;
            assert(items[i]@ == s);
        }
    }
    assert(texts(items) =~= held.to_set());
}

/// The text of an optional slice is that of the slice, where there is one.
pub proof fn law_texts_of_optional_slices(slice: &str)
    ensures
        slice_text(Some(slice)) == Some(slice@),
        slice_text(None) is None,
{
}

/// Who has opted out and which codes hold is what the two sets hold, each for itself.
pub proof fn law_state_is_what_the_sets_hold(app: App)
    ensures
        app.opted_out() == app.optout_users@,
        app.codes() == app.optout_codes@,
{
}

} // verus!

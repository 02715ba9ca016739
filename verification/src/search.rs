//! The search for users, in memory first and then by requests to the users API.

use crate::app::{lemma_texts, texts, App};
use crate::collections::{lemma_all_kept, lemma_none_kept};
use crate::users::{CacheView, User, UserMap};
use vstd::prelude::*;

verus! {

/// How many users one request may ask for.
pub const PAGE: usize = 100;

/// A request for users.
pub enum UsersRequest {
    /// For those with the given ids.
    Ids(Vec<String>),
    /// For those with the given logins.
    Logins(Vec<String>),
}

/// What the contracts say of a `UsersRequest`.
pub enum RequestView {
    Ids(Seq<String>),
    Logins(Seq<String>),
}

impl View for UsersRequest {
    type V = RequestView;

    open spec fn view(&self) -> RequestView {
        match self {
            UsersRequest::Ids(ids) => RequestView::Ids(ids@),
            UsersRequest::Logins(logins) => RequestView::Logins(logins@),
        }
    }
}

/// A search for users that is under way.
pub struct GetUsers {
    users: UserMap,
    ids: Vec<String>,
    names: Vec<String>,
    asked_ids: usize,
    asked_names: usize,
    fetched: Vec<User>,
}

/// What the contracts say of a `GetUsers`.
#[verifier::ext_equal]
pub struct SearchView {
    /// The users that were remembered.
    pub users: Map<Seq<char>, Seq<char>>,
    /// The ids that are asked for.
    pub ids: Seq<String>,
    /// The logins that are asked for.
    pub names: Seq<String>,
    /// The ids that are still to be sent.
    pub ids_left: Seq<String>,
    /// The logins that are still to be sent.
    pub names_left: Seq<String>,
    /// The users that came back.
    pub fetched: Seq<User>,
}

impl View for GetUsers {
    type V = SearchView;

    closed spec fn view(&self) -> SearchView {
        SearchView {
            users: self.users@,
            ids: self.ids@,
            names: self.names@,
            ids_left: self.ids@.skip(self.asked_ids as int),
            names_left: self.names@.skip(self.asked_names as int),
            fetched: self.fetched@,
        }
    }
}

/// What a search for users needs next.
pub enum UsersStep {
    /// Send a request.
    Fetch { request: UsersRequest, then: GetUsers },
    /// Nothing: these are the users.
    Done(UserMap),
}

/// The users whose logins are remembered, out of the given ids.
pub open spec fn known_by_id(cache: CacheView, ids: Seq<String>) -> Map<Seq<char>, Seq<char>> {
    Map::new(
        |id: Seq<char>|
            cache.logins.contains_key(id) && cache.logins[id] is Some && exists|i: int|
                0 <= i < ids.len() && ids[i]@ == id,
        |id: Seq<char>| cache.logins[id]->0,
    )
}

/// The given users and those whose ids are remembered, out of the given logins. Of two logins
/// with one id the later one counts.
pub open spec fn known_by_login(
    cache: CacheView,
    names: Seq<String>,
    users: Map<Seq<char>, Seq<char>>,
) -> Map<Seq<char>, Seq<char>>
    decreases names.len(),
{
    if names.len() == 0 {
        users
    } else {
        let name = names.last()@;
        let others = known_by_login(cache, names.drop_last(), users);
        if cache.ids.contains_key(name) && cache.ids[name] is Some {
            others.insert(cache.ids[name]->0, name)
        } else {
            others
        }
    }
}

/// The search for users with what is remembered of them, which may be ignored.
pub open spec fn planned(
    cache: CacheView,
    ids: Seq<String>,
    names: Seq<String>,
    ignore_cache: bool,
) -> SearchView {
    let new_ids = if ignore_cache {
        ids
    } else {
        ids.filter(|id: String| !cache.logins.contains_key(id@))
    };
    let new_names = if ignore_cache {
        names
    } else {
        names.filter(|name: String| !cache.ids.contains_key(name@))
    };
    SearchView {
        users: if ignore_cache {
            Map::empty()
        } else {
            known_by_login(cache, names, known_by_id(cache, ids))
        },
        ids: new_ids,
        names: new_names,
        ids_left: new_ids,
        names_left: new_names,
        fetched: Seq::empty(),
    }
}

/// The given users with those that came back, of whom the last one with an id counts.
pub open spec fn recorded(users: Map<Seq<char>, Seq<char>>, fetched: Seq<User>) -> Map<
    Seq<char>,
    Seq<char>,
>
    decreases fetched.len(),
{
    if fetched.len() == 0 {
        users
    } else {
        recorded(users, fetched.drop_last()).insert(fetched.last().id@, fetched.last().login@)
    }
}

/// What is remembered once the cache is told of the users that came back.
pub open spec fn learned(cache: CacheView, fetched: Seq<User>) -> CacheView
    decreases fetched.len(),
{
    if fetched.len() == 0 {
        cache
    } else {
        learned(cache, fetched.drop_last()).told(
            Some(fetched.last().id@),
            Some(fetched.last().login@),
        )
    }
}

/// Whether an id was asked for and no user has it.
pub open spec fn id_unanswered(
    ids: Seq<String>,
    users: Map<Seq<char>, Seq<char>>,
    id: Seq<char>,
) -> bool {
    !users.contains_key(id) && exists|i: int| 0 <= i < ids.len() && ids[i]@ == id
}

/// Whether a login was asked for and no user has it.
pub open spec fn name_unanswered(
    names: Seq<String>,
    users: Map<Seq<char>, Seq<char>>,
    name: Seq<char>,
) -> bool {
    !users.contains_value(name) && exists|i: int| 0 <= i < names.len() && names[i]@ == name
}

/// What is remembered once the cache is told of the ids and the logins that no user has.
pub open spec fn marked(
    cache: CacheView,
    ids: Seq<String>,
    names: Seq<String>,
    users: Map<Seq<char>, Seq<char>>,
) -> CacheView {
    CacheView {
        logins: Map::new(
            |id: Seq<char>| cache.logins.contains_key(id) || id_unanswered(ids, users, id),
            |id: Seq<char>|
                if id_unanswered(ids, users, id) {
                    None
                } else {
                    cache.logins[id]
                },
        ),
        ids: Map::new(
            |name: Seq<char>| cache.ids.contains_key(name) || name_unanswered(names, users, name),
            |name: Seq<char>|
                if name_unanswered(names, users, name) {
                    None
                } else {
                    cache.ids[name]
                },
        ),
    }
}

/// The first items, as many as one request may ask for.
pub open spec fn first_page(items: Seq<String>) -> Seq<String> {
    if items.len() <= PAGE {
        items
    } else {
        items.take(PAGE as int)
    }
}

/// The items behind the first page.
pub open spec fn behind_first_page(items: Seq<String>) -> Seq<String> {
    if items.len() <= PAGE {
        Seq::empty()
    } else {
        items.skip(PAGE as int)
    }
}

impl SearchView {
    /// The search once users came back.
    pub open spec fn with(self, users: Seq<User>) -> SearchView {
        SearchView { fetched: self.fetched + users, ..self }
    }

    /// All the users of the search.
    pub open spec fn found(self) -> Map<Seq<char>, Seq<char>> {
        recorded(self.users, self.fetched)
    }

    /// What is remembered when the search is over.
    pub open spec fn remembered(self, cache: CacheView) -> CacheView {
        marked(learned(cache, self.fetched), self.ids, self.names, self.found())
    }

    /// The search once its next request is sent: for a page of ids while there are any left, then
    /// for a page of logins.
    pub open spec fn one_sent(self) -> SearchView {
        if self.ids_left.len() > 0 {
            SearchView { ids_left: behind_first_page(self.ids_left), ..self }
        } else {
            SearchView { names_left: behind_first_page(self.names_left), ..self }
        }
    }

    /// What comes next: a page of ids while there are any left, then a page of logins, and when
    /// none is left the users, of whom the cache is then told.
    pub open spec fn leads_to(self, step: UsersStep, before: CacheView, after: CacheView) -> bool {
        if self.ids_left.len() > 0 {
            &&& step matches UsersStep::Fetch { request, then }
            &&& request@ == RequestView::Ids(first_page(self.ids_left))
            &&& then@ == self.one_sent()
            &&& after == before
        } else if self.names_left.len() > 0 {
            &&& step matches UsersStep::Fetch { request, then }
            &&& request@ == RequestView::Logins(first_page(self.names_left))
            &&& then@ == self.one_sent()
            &&& after == before
        } else {
            &&& step matches UsersStep::Done(users)
            &&& users@ == self.found()
            &&& after == self.remembered(before)
        }
    }
}

fn slice_of(items: &Vec<String>, from: usize, to: usize) -> (slice: Vec<String>)
    requires
        from <= to <= items@.len(),
    ensures
        slice@ == items@.subrange(from as int, to as int),
{
    let mut slice: Vec<String> = Vec::new();
    for i in from..to
        invariant
            from <= i <= to <= items@.len(),
            slice@ =~= items@.subrange(from as int, i as int),
    {
        slice.push(items[i].clone());
    }
    slice
}

/// The end of the page that starts at an index.
fn page_end(from: usize, len: usize) -> (end: usize)
    requires
        from <= len,
    ensures
        end == if len - from <= PAGE { len as int } else { from + PAGE },
{
    if len - from <= PAGE {
        len
    } else {
        from + PAGE
    }
}

impl GetUsers {
    #[verifier::type_invariant]
    spec fn within(self) -> bool {
        self.asked_ids <= self.ids@.len() && self.asked_names <= self.names@.len()
    }

    fn advance(self, app: &mut App) -> (step: UsersStep)
        ensures
            self@.leads_to(step, old(app).users@, final(app).users@),
            old(app).users@.consistent(),
            final(app).users@.consistent(),
            final(app).users@.covers(old(app).users@),
            final(app).channels == old(app).channels,
            final(app).optout_codes == old(app).optout_codes,
            final(app).optout_users == old(app).optout_users,
    {
        proof {
            use_type_invariant(&self);
            use_type_invariant(&app.users);
        }
        let mut search = self;
        if search.asked_ids < search.ids.len() {
            let from = search.asked_ids;
            let to = page_end(from, search.ids.len());
            let page = slice_of(&search.ids, from, to);
            search.asked_ids = to;
            assert(page@ =~= first_page(self@.ids_left));
            assert(search@.ids_left =~= behind_first_page(self@.ids_left));
            return UsersStep::Fetch { request: UsersRequest::Ids(page), then: search };
        }
        if search.asked_names < search.names.len() {
            let from = search.asked_names;
            let to = page_end(from, search.names.len());
            let page = slice_of(&search.names, from, to);
            search.asked_names = to;
            assert(page@ =~= first_page(self@.names_left));
            assert(search@.names_left =~= behind_first_page(self@.names_left));
            return UsersStep::Fetch { request: UsersRequest::Logins(page), then: search };
        }
        let GetUsers { users, ids, names, fetched, .. } = search;
        UsersStep::Done(finish(users, ids, names, fetched, app))
    }

    /// Goes on when a request has been answered.
    pub fn resume<E>(self, app: &mut App, reply: Result<Vec<User>, E>) -> (step: Result<
        UsersStep,
        E,
    >)
        ensures
            match reply {
                Ok(users) => step matches Ok(next) && self@.with(users@).leads_to(
                    next,
                    old(app).users@,
                    final(app).users@,
                ),
                Err(error) => step == Err::<UsersStep, E>(error) && final(app).users@ == old(
                    app,
                ).users@,
            },
            old(app).users@.consistent(),
            final(app).users@.consistent(),
            final(app).users@.covers(old(app).users@),
            final(app).channels == old(app).channels,
            final(app).optout_codes == old(app).optout_codes,
            final(app).optout_users == old(app).optout_users,
    {
        proof {
            use_type_invariant(&self);
            use_type_invariant(&app.users);
        }
        match reply {
            Ok(users) => {
                let GetUsers { users: known, ids, names, asked_ids, asked_names, fetched } = self;
                let mut fetched = fetched;
                let mut users = users;
                fetched.append(&mut users);
                let search = GetUsers {
                    users: known,
                    ids,
                    names,
                    asked_ids,
                    asked_names,
                    fetched,
                };
                Ok(search.advance(app))
            },
            Err(error) => Err(error),
        }
    }
}

fn finish(
    users: UserMap,
    ids: Vec<String>,
    names: Vec<String>,
    fetched: Vec<User>,
    app: &mut App,
) -> (all: UserMap)
    ensures
        all@ == recorded(users@, fetched@),
        final(app).users@ == marked(
            learned(old(app).users@, fetched@),
            ids@,
            names@,
            recorded(users@, fetched@),
        ),
        final(app).users@.consistent(),
        final(app).users@.covers(old(app).users@),
        final(app).channels == old(app).channels,
        final(app).optout_codes == old(app).optout_codes,
        final(app).optout_users == old(app).optout_users,
{
    let mut all = users;
    for i in 0..fetched.len()
        invariant
            all@ == recorded(users@, fetched@.take(i as int)),
            app.users@ == learned(old(app).users@, fetched@.take(i as int)),
            app.channels == old(app).channels,
            app.optout_codes == old(app).optout_codes,
            app.optout_users == old(app).optout_users,
    {
        let user = &fetched[i];
        app.users.insert(user.id.clone(), user.login.clone());
        all.insert(user.id.clone(), user.login.clone());
        assert(fetched@.take(i + 1).drop_last() =~= fetched@.take(i as int));
    }
    assert(fetched@.take(fetched@.len() as int) =~= fetched@);
    let ghost told = app.users@;
    let ghost no_names = Seq::<String>::empty();
    proof {
        lemma_nothing_marked(told, all@);
    }
    for i in 0..ids.len()
        invariant
            app.users@ == marked(told, ids@.take(i as int), no_names, all@),
            no_names.len() == 0,
            app.channels == old(app).channels,
            app.optout_codes == old(app).optout_codes,
            app.optout_users == old(app).optout_users,
    {
        if !all.contains_key(&ids[i]) {
            app.users.insert_optional(Some(ids[i].clone()), None);
        }
        proof {
            lemma_mark_id(told, ids@, i as int, no_names, all@);
        }
    }
    assert(ids@.take(ids@.len() as int) =~= ids@);
    assert(names@.take(0) =~= no_names);
    for i in 0..names.len()
        invariant
            app.users@ == marked(told, ids@, names@.take(i as int), all@),
            app.channels == old(app).channels,
            app.optout_codes == old(app).optout_codes,
            app.optout_users == old(app).optout_users,
    {
        if !all.contains_login(&names[i]) {
            app.users.insert_optional(None, Some(names[i].clone()));
        }
        proof {
            lemma_mark_name(told, ids@, names@, i as int, all@);
        }
    }
    assert(names@.take(names@.len() as int) =~= names@);
    proof {
        lemma_learned(old(app).users@, fetched@);
        use_type_invariant(&app.users);
    }
    all
}

proof fn lemma_nothing_marked(cache: CacheView, users: Map<Seq<char>, Seq<char>>)
    ensures
        marked(cache, Seq::<String>::empty(), Seq::<String>::empty(), users) == cache,
        forall|ids: Seq<String>, names: Seq<String>|
            ids.len() == 0 && names.len() == 0 ==> #[trigger] marked(cache, ids, names, users)
                == cache,
{
    assert forall|ids: Seq<String>, names: Seq<String>|
        ids.len() == 0 && names.len() == 0 implies #[trigger] marked(cache, ids, names, users)
        == cache by {
        assert(marked(cache, ids, names, users).logins =~= cache.logins);
        assert(marked(cache, ids, names, users).ids =~= cache.ids);
    }
}

proof fn lemma_mark_id(
    cache: CacheView,
    ids: Seq<String>,
    i: int,
    names: Seq<String>,
    users: Map<Seq<char>, Seq<char>>,
)
    requires
        0 <= i < ids.len(),
    ensures
        ({
            let before = marked(cache, ids.take(i), names, users);
            let after = marked(cache, ids.take(i + 1), names, users);
            if users.contains_key(ids[i]@) {
                after == before
            } else {
                after == before.told(Some(ids[i]@), None)
            }
        }),
{
    let before = marked(cache, ids.take(i), names, users);
    let after = marked(cache, ids.take(i + 1), names, users);
    assert forall|id: Seq<char>| #[trigger]
        id_unanswered(ids.take(i + 1), users, id) == (id_unanswered(ids.take(i), users, id) || (id
            == ids[i]@ && !users.contains_key(id))) by {
        if id_unanswered(ids.take(i), users, id) {
            let k = choose|k: int| 0 <= k < i && ids.take(i)[k]@ == id;
            assert(ids.take(i + 1)[k]@ == id);
        }
        if id == ids[i]@ {
            assert(ids.take(i + 1)[i]@ == id);
        }
        if id_unanswered(ids.take(i + 1), users, id) {
            let longer = ids.take(i + 1);
            let k = choose|k: int| 0 <= k < longer.len() && longer[k]@ == id;
            if k < i {
                assert(ids.take(i)[k]@ == id);
            }
        }
    }
    if users.contains_key(ids[i]@) {
        assert(after.logins =~= before.logins);
    } else {
        assert(after.logins =~= before.told(Some(ids[i]@), None).logins);
    }
    assert(after.ids =~= before.ids);
}

proof fn lemma_mark_name(
    cache: CacheView,
    ids: Seq<String>,
    names: Seq<String>,
    i: int,
    users: Map<Seq<char>, Seq<char>>,
)
    requires
        0 <= i < names.len(),
    ensures
        ({
            let before = marked(cache, ids, names.take(i), users);
            let after = marked(cache, ids, names.take(i + 1), users);
            if users.contains_value(names[i]@) {
                after == before
            } else {
                after == before.told(None, Some(names[i]@))
            }
        }),
{
    let before = marked(cache, ids, names.take(i), users);
    let after = marked(cache, ids, names.take(i + 1), users);
    assert forall|name: Seq<char>| #[trigger]
        name_unanswered(names.take(i + 1), users, name) == (name_unanswered(
            names.take(i),
            users,
            name,
        ) || (name == names[i]@ && !users.contains_value(name))) by {
        if name_unanswered(names.take(i), users, name) {
            let k = choose|k: int| 0 <= k < i && names.take(i)[k]@ == name;
            assert(names.take(i + 1)[k]@ == name);
        }
        if name == names[i]@ {
            assert(names.take(i + 1)[i]@ == name);
        }
        if name_unanswered(names.take(i + 1), users, name) {
            let longer = names.take(i + 1);
            let k = choose|k: int| 0 <= k < longer.len() && longer[k]@ == name;
            if k < i {
                assert(names.take(i)[k]@ == name);
            }
        }
    }
    if users.contains_value(names[i]@) {
        assert(after.ids =~= before.ids);
    } else {
        assert(after.ids =~= before.told(None, Some(names[i]@)).ids);
    }
    assert(after.logins =~= before.logins);
}

impl App {
    /// Searches for the users with the given ids and those with the given logins.
    pub fn get_users(
        &mut self,
        ids: Vec<String>,
        names: Vec<String>,
        ignore_cache: bool,
    ) -> (step: UsersStep)
        ensures
            planned(old(self).users@, ids@, names@, ignore_cache).leads_to(
                step,
                old(self).users@,
                final(self).users@,
            ),
            old(self).users@.consistent(),
            final(self).users@.consistent(),
            final(self).users@.covers(old(self).users@),
            final(self).channels == old(self).channels,
            final(self).optout_codes == old(self).optout_codes,
            final(self).optout_users == old(self).optout_users,
    {
        proof {
            use_type_invariant(&self.users);
        }
        if ignore_cache {
            let search = GetUsers {
                users: UserMap::new(),
                ids,
                names,
                asked_ids: 0,
                asked_names: 0,
                fetched: Vec::new(),
            };
            assert(search@ =~= planned(self.users@, ids@, names@, ignore_cache));
            return search.advance(self);
        }
        let ghost cache = self.users@;
        let ghost new_id = |id: String| !cache.logins.contains_key(id@);
        let ghost new_name = |name: String| !cache.ids.contains_key(name@);
        let mut users = UserMap::new();
        let mut ids_to_request: Vec<String> = Vec::new();
        let mut names_to_request: Vec<String> = Vec::new();
        proof {
            reveal(Seq::filter);
            assert(users@ =~= known_by_id(cache, ids@.take(0)));
        }
        for i in 0..ids.len()
            invariant
                self.users@ == cache,
                new_id == |id: String| !cache.logins.contains_key(id@),
                users@ == known_by_id(cache, ids@.take(i as int)),
                ids_to_request@ == ids@.take(i as int).filter(new_id),
        {
            proof {
                lemma_known_id(cache, ids@, i as int);
                reveal(Seq::filter);
                assert(ids@.take(i + 1).drop_last() =~= ids@.take(i as int));
            }
            match self.users.get_login(ids[i].as_str()) {
                Some(Some(login)) => {
                    users.insert(ids[i].clone(), login);
                },
                Some(None) => {},
                None => {
                    ids_to_request.push(ids[i].clone());
                },
            }
        }
        assert(ids@.take(ids@.len() as int) =~= ids@);
        proof {
            reveal(Seq::filter);
        }
        for i in 0..names.len()
            invariant
                self.users@ == cache,
                new_name == |name: String| !cache.ids.contains_key(name@),
                users@ == known_by_login(
                    cache,
                    names@.take(i as int),
                    known_by_id(cache, ids@),
                ),
                names_to_request@ == names@.take(i as int).filter(new_name),
        {
            proof {
                reveal(Seq::filter);
                assert(names@.take(i + 1).drop_last() =~= names@.take(i as int));
            }
            match self.users.get_id(names[i].as_str()) {
                Some(Some(id)) => {
                    users.insert(id, names[i].clone());
                },
                Some(None) => {},
                None => {
                    names_to_request.push(names[i].clone());
                },
            }
        }
        assert(names@.take(names@.len() as int) =~= names@);
        let search = GetUsers {
            users,
            ids: ids_to_request,
            names: names_to_request,
            asked_ids: 0,
            asked_names: 0,
            fetched: Vec::new(),
        };
        assert(search@ =~= planned(cache, ids@, names@, ignore_cache));
        search.advance(self)
    }
}

proof fn lemma_known_id(cache: CacheView, ids: Seq<String>, i: int)
    requires
        0 <= i < ids.len(),
    ensures
        known_by_id(cache, ids.take(i + 1)) == if cache.logins.contains_key(ids[i]@)
            && cache.logins[ids[i]@] is Some {
            known_by_id(cache, ids.take(i)).insert(ids[i]@, cache.logins[ids[i]@]->0)
        } else {
            known_by_id(cache, ids.take(i))
        },
{
    lemma_texts(ids, i);
    let shorter = ids.take(i);
    let longer = ids.take(i + 1);
    assert forall|id: Seq<char>| #[trigger]
        known_by_id(cache, longer).contains_key(id) == (cache.logins.contains_key(id)
            && cache.logins[id] is Some && texts(longer).contains(id)) by {}
    assert forall|id: Seq<char>| #[trigger]
        known_by_id(cache, shorter).contains_key(id) == (cache.logins.contains_key(id)
            && cache.logins[id] is Some && texts(shorter).contains(id)) by {}
    if cache.logins.contains_key(ids[i]@) && cache.logins[ids[i]@] is Some {
        assert(known_by_id(cache, longer) =~= known_by_id(cache, shorter).insert(
            ids[i]@,
            cache.logins[ids[i]@]->0,
        ));
    } else {
        assert(known_by_id(cache, longer) =~= known_by_id(cache, shorter));
    }
}

/// The pages of items, each as long as one request allows.
pub open spec fn pages(items: Seq<String>) -> Seq<Seq<String>>
    decreases items.len(),
{
    if items.len() == 0 {
        Seq::empty()
    } else {
        seq![first_page(items)] + pages(behind_first_page(items))
    }
}

/// The requests that a search has still to send.
pub open spec fn requests(search: SearchView) -> Seq<RequestView> {
    pages(search.ids_left).map_values(|page: Seq<String>| RequestView::Ids(page)) + pages(
        search.names_left,
    ).map_values(|page: Seq<String>| RequestView::Logins(page))
}

/// No page is empty or longer than one request allows, and the pages together are the items.
pub proof fn law_pages_hold_the_items(items: Seq<String>)
    ensures
        forall|i: int|
            0 <= i < pages(items).len() ==> 1 <= #[trigger] pages(items)[i].len() <= PAGE,
        pages(items).flatten() == items,
    decreases items.len(),
{
    if items.len() > 0 {
        let rest = behind_first_page(items);
        law_pages_hold_the_items(rest);
        assert(pages(items).drop_first() =~= pages(rest));
        assert(pages(items)[0] == first_page(items));
        assert forall|i: int| 0 <= i < pages(items).len() implies 1 <= #[trigger] pages(
            items,
        )[i].len() <= PAGE by {
            if i > 0 {
                assert(pages(items)[i] == pages(rest)[i - 1]);
            }
        }
        assert(pages(items).flatten() =~= first_page(items) + rest);
        assert(first_page(items) + rest =~= items);
    }
}

/// A search sends its requests one after the other, and keeps meanwhile what it has found and what
/// it asks for; when none is left it ends with the users that were found, and only then is anything
/// remembered. What comes back changes nothing about its requests.
pub proof fn law_search_sends_its_requests(
    search: SearchView,
    step: UsersStep,
    before: CacheView,
    after: CacheView,
    users: Seq<User>,
)
    requires
        search.leads_to(step, before, after),
    ensures
        match step {
            UsersStep::Fetch { request, then } => {
                &&& requests(search) == seq![request@] + requests(then@)
                &&& then@ == search.one_sent()
                &&& then@.users == search.users && then@.fetched == search.fetched
                &&& then@.ids == search.ids && then@.names == search.names
                &&& after == before
            },
            UsersStep::Done(users) => {
                &&& requests(search).len() == 0
                &&& users@ == search.found()
                &&& after == search.remembered(before)
            },
        },
        requests(search.with(users)) == requests(search),
{
    if let UsersStep::Fetch { request, then } = step {
        assert(requests(search) =~= seq![request@] + requests(then@));
    }
}

/// A search once its next requests have been answered.
pub open spec fn answered(search: SearchView, replies: Seq<Seq<User>>) -> SearchView
    decreases replies.len(),
{
    if replies.len() == 0 {
        search
    } else {
        answered(search.one_sent().with(replies[0]), replies.drop_first())
    }
}

/// When all the requests of a search have been answered, nothing is left to send, and the users
/// that came back are those of all the replies, in order.
pub proof fn law_search_collects_the_replies(search: SearchView, replies: Seq<Seq<User>>)
    requires
        replies.len() == requests(search).len(),
    ensures
        ({
            let end = answered(search, replies);
            &&& end.ids_left.len() == 0 && end.names_left.len() == 0
            &&& end.fetched == search.fetched + replies.flatten()
            &&& end.users == search.users && end.ids == search.ids && end.names == search.names
        }),
    decreases replies.len(),
{
    if replies.len() > 0 {
        let next = search.one_sent().with(replies[0]);
        let rest = replies.drop_first();
        assert(requests(search).len() == 1 + requests(next).len());
        law_search_collects_the_replies(next, rest);
        assert(answered(search, replies).fetched =~= search.fetched + replies.flatten());
    } else {
        assert(replies.flatten() =~= Seq::empty());
        assert(search.fetched + replies.flatten() =~= search.fetched);
        assert(pages(search.ids_left).len() == 0);
        assert(pages(search.names_left).len() == 0);
    }
}

/// A search for users all of whom are remembered sends no request.
pub proof fn law_remembered_users_are_not_asked_for(
    cache: CacheView,
    ids: Seq<String>,
    names: Seq<String>,
)
    requires
        forall|i: int| 0 <= i < ids.len() ==> cache.logins.contains_key(#[trigger] ids[i]@),
        forall|i: int| 0 <= i < names.len() ==> cache.ids.contains_key(#[trigger] names[i]@),
    ensures
        requests(planned(cache, ids, names, false)).len() == 0,
{
    lemma_none_kept(ids, |id: String| !cache.logins.contains_key(id@));
    lemma_none_kept(names, |name: String| !cache.ids.contains_key(name@));
}

impl CacheView {
    /// Whether this cache remembers something of every id and every login of which `other` does.
    pub open spec fn covers(self, other: CacheView) -> bool {
        &&& forall|id: Seq<char>| #[trigger]
            other.logins.contains_key(id) ==> self.logins.contains_key(id)
        &&& forall|login: Seq<char>| #[trigger]
            other.ids.contains_key(login) ==> self.ids.contains_key(login)
    }
}

proof fn lemma_learned(cache: CacheView, fetched: Seq<User>)
    ensures
        learned(cache, fetched).covers(cache),
        cache.consistent() ==> learned(cache, fetched).consistent(),
        forall|i: int|
            0 <= i < fetched.len() ==> learned(cache, fetched).logins.contains_key(
                (#[trigger] fetched[i]).id@,
            ) && learned(cache, fetched).ids.contains_key(fetched[i].login@),
    decreases fetched.len(),
{
    if fetched.len() > 0 {
        let others = fetched.drop_last();
        lemma_learned(cache, others);
        assert forall|i: int| 0 <= i < fetched.len() implies learned(
            cache,
            fetched,
        ).logins.contains_key((#[trigger] fetched[i]).id@) && learned(
            cache,
            fetched,
        ).ids.contains_key(fetched[i].login@) by {
            if i < others.len() {
                assert(others[i] == fetched[i]);
            }
        }
    }
}

proof fn lemma_recorded(users: Map<Seq<char>, Seq<char>>, fetched: Seq<User>)
    ensures
        forall|id: Seq<char>| #[trigger]
            recorded(users, fetched).contains_key(id) ==> users.contains_key(id) || exists|i: int|
                0 <= i < fetched.len() && fetched[i].id@ == id,
        forall|login: Seq<char>| #[trigger]
            recorded(users, fetched).contains_value(login) ==> users.contains_value(login)
                || exists|i: int| 0 <= i < fetched.len() && fetched[i].login@ == login,
    decreases fetched.len(),
{
    if fetched.len() > 0 {
        let others = fetched.drop_last();
        let earlier = recorded(users, others);
        let all = recorded(users, fetched);
        lemma_recorded(users, others);
        assert forall|id: Seq<char>| #[trigger] all.contains_key(id) implies users.contains_key(id)
            || exists|i: int| 0 <= i < fetched.len() && fetched[i].id@ == id by {
            if id == fetched.last().id@ {
                assert(fetched[fetched.len() - 1].id@ == id);
            } else {
                assert(earlier.contains_key(id));
                if !users.contains_key(id) {
                    let i = choose|i: int| 0 <= i < others.len() && others[i].id@ == id;
                    assert(fetched[i].id@ == id);
                }
            }
        }
        assert forall|login: Seq<char>| #[trigger]
            all.contains_value(login) implies users.contains_value(login) || exists|i: int|
            0 <= i < fetched.len() && fetched[i].login@ == login by {
            let id = choose|id: Seq<char>| #[trigger] all.contains_key(id) && all[id] == login;
            if id == fetched.last().id@ {
                assert(fetched[fetched.len() - 1].login@ == login);
            } else {
                assert(earlier.contains_key(id) && earlier[id] == login);
                assert(earlier.contains_value(login));
                if !users.contains_value(login) {
                    let i = choose|i: int| 0 <= i < others.len() && others[i].login@ == login;
                    assert(fetched[i].login@ == login);
                }
            }
        }
    }
}

proof fn lemma_known(cache: CacheView, ids: Seq<String>, names: Seq<String>)
    requires
        cache.consistent(),
    ensures
        forall|id: Seq<char>| #[trigger]
            known_by_login(cache, names, known_by_id(cache, ids)).contains_key(id)
                ==> cache.logins.contains_key(id) && cache.ids.contains_key(
                known_by_login(cache, names, known_by_id(cache, ids))[id],
            ),
    decreases names.len(),
{
    let by_id = known_by_id(cache, ids);
    let users = known_by_login(cache, names, by_id);
    if names.len() > 0 {
        lemma_known(cache, ids, names.drop_last());
        let others = known_by_login(cache, names.drop_last(), by_id);
        assert forall|id: Seq<char>| #[trigger] users.contains_key(
            id,
        ) implies cache.logins.contains_key(id) && cache.ids.contains_key(users[id]) by {
            if !others.contains_key(id) || users[id] != others[id] {
                assert(cache.ids[names.last()@] == Some(id));
            }
        }
    } else {
        assert forall|id: Seq<char>| #[trigger] users.contains_key(
            id,
        ) implies cache.logins.contains_key(id) && cache.ids.contains_key(users[id]) by {
            assert(cache.logins[id] == Some(users[id]));
        }
    }
}

proof fn lemma_found(users: Map<Seq<char>, Seq<char>>, cache: CacheView, fetched: Seq<User>)
    ensures
        forall|i: int|
            0 <= i < fetched.len() ==> {
                let id = (#[trigger] fetched[i]).id@;
                &&& recorded(users, fetched).contains_key(id)
                &&& learned(cache, fetched).logins.contains_pair(
                    id,
                    Some(recorded(users, fetched)[id]),
                )
            },
    decreases fetched.len(),
{
    if fetched.len() > 0 {
        let others = fetched.drop_last();
        lemma_found(users, cache, others);
        assert forall|i: int| 0 <= i < fetched.len() implies {
            let id = (#[trigger] fetched[i]).id@;
            &&& recorded(users, fetched).contains_key(id)
            &&& learned(cache, fetched).logins.contains_pair(
                id,
                Some(recorded(users, fetched)[id]),
            )
        } by {
            if i < others.len() {
                assert(others[i] == fetched[i]);
            }
        }
    }
}

/// When a search is over, every user that came back is among its users, and the login that they
/// have there is the one that is remembered.
pub proof fn law_found_users_are_remembered(search: SearchView, cache: CacheView, i: int)
    requires
        0 <= i < search.fetched.len(),
    ensures
        ({
            let id = search.fetched[i].id@;
            &&& search.found().contains_key(id)
            &&& search.remembered(cache).logins.contains_pair(id, Some(search.found()[id]))
        }),
{
    lemma_found(search.users, cache, search.fetched);
}

/// When a search is over, it is remembered of every id that was asked for and is not among its
/// users that no user has it, and likewise of every login; of nothing else is that newly
/// remembered.
pub proof fn law_missing_users_are_remembered(
    search: SearchView,
    cache: CacheView,
    id: Seq<char>,
    name: Seq<char>,
)
    ensures
        texts(search.ids).contains(id) && !search.found().contains_key(id) ==> search.remembered(
            cache,
        ).logins.contains_pair(id, None::<Seq<char>>),
        texts(search.names).contains(name) && !search.found().contains_value(name)
            ==> search.remembered(cache).ids.contains_pair(name, None::<Seq<char>>),
        search.remembered(cache).logins.contains_pair(id, None::<Seq<char>>) ==> (texts(
            search.ids,
        ).contains(id) && !search.found().contains_key(id)) || cache.logins.contains_pair(
            id,
            None::<Seq<char>>,
        ),
        search.remembered(cache).ids.contains_pair(name, None::<Seq<char>>) ==> (texts(
            search.names,
        ).contains(name) && !search.found().contains_value(name)) || cache.ids.contains_pair(
            name,
            None::<Seq<char>>,
        ),
{
    let told = learned(cache, search.fetched);
    lemma_learned_none(cache, search.fetched);
    assert(told.logins.contains_pair(id, None::<Seq<char>>) ==> cache.logins.contains_pair(
        id,
        None::<Seq<char>>,
    ));
    assert(told.ids.contains_pair(name, None::<Seq<char>>) ==> cache.ids.contains_pair(
        name,
        None::<Seq<char>>,
    ));
    assert(id_unanswered(search.ids, search.found(), id) == (texts(search.ids).contains(id)
        && !search.found().contains_key(id)));
    assert(name_unanswered(search.names, search.found(), name) == (texts(search.names).contains(
        name,
    ) && !search.found().contains_value(name)));
}

proof fn lemma_learned_none(cache: CacheView, fetched: Seq<User>)
    ensures
        forall|id: Seq<char>| #[trigger]
            learned(cache, fetched).logins.contains_pair(id, None::<Seq<char>>)
                ==> cache.logins.contains_pair(id, None::<Seq<char>>),
        forall|name: Seq<char>| #[trigger]
            learned(cache, fetched).ids.contains_pair(name, None::<Seq<char>>)
                ==> cache.ids.contains_pair(name, None::<Seq<char>>),
    decreases fetched.len(),
{
    if fetched.len() > 0 {
        let others = learned(cache, fetched.drop_last());
        lemma_learned_none(cache, fetched.drop_last());
        assert forall|id: Seq<char>| #[trigger]
            learned(cache, fetched).logins.contains_pair(
                id,
                None::<Seq<char>>,
            ) implies cache.logins.contains_pair(id, None::<Seq<char>>) by {
            assert(others.logins.contains_pair(id, None::<Seq<char>>));
        }
        assert forall|name: Seq<char>| #[trigger]
            learned(cache, fetched).ids.contains_pair(
                name,
                None::<Seq<char>>,
            ) implies cache.ids.contains_pair(name, None::<Seq<char>>) by {
            assert(others.ids.contains_pair(name, None::<Seq<char>>));
        }
    }
}

/// When a search is over, something is remembered of every id and every login that it was made
/// for, whatever came back and whatever else was remembered meanwhile, so that the same search
/// sends no request any more; and the cache has stayed consistent. Every `UsersCache` is
/// consistent, and `get_users` and `GetUsers::resume` only ever add to what it covers.
pub proof fn law_search_settles(
    cache: CacheView,
    ids: Seq<String>,
    names: Seq<String>,
    ignore_cache: bool,
    fetched: Seq<User>,
    later: CacheView,
)
    requires
        cache.consistent(),
        later.consistent(),
        later.covers(cache),
    ensures
        ({
            let search = planned(cache, ids, names, ignore_cache).with(fetched);
            let end = search.remembered(later);
            &&& end.consistent()
            &&& end.covers(later)
            &&& requests(planned(end, ids, names, false)).len() == 0
        }),
{
    let plan = planned(cache, ids, names, ignore_cache);
    let search = plan.with(fetched);
    assert(search.fetched =~= fetched);
    let told = learned(later, fetched);
    let found = search.found();
    let end = search.remembered(later);
    lemma_learned(later, fetched);
    lemma_recorded(plan.users, fetched);
    lemma_known(cache, ids, names);
    assert(end.covers(told));
    assert forall|i: int| 0 <= i < ids.len() implies end.logins.contains_key(
        #[trigger] ids[i]@,
    ) by {
        let id = ids[i]@;
        if !end.logins.contains_key(id) {
            assert(!told.logins.contains_key(id));
            assert(!later.logins.contains_key(id));
            assert(!cache.logins.contains_key(id));
            assert(exists|k: int| 0 <= k < plan.ids.len() && plan.ids[k]@ == id) by {
                if !ignore_cache {
                    let pred = |id: String| !cache.logins.contains_key(id@);
                    assert(pred(ids[i]));
                    ids.lemma_filter_contains(pred, i);
                    let k = choose|k: int| 0 <= k < plan.ids.len() && plan.ids[k] == ids[i];
                    assert(plan.ids[k]@ == id);
                }
            }
            assert(found.contains_key(id));
            assert(!plan.users.contains_key(id));
            let k = choose|k: int| 0 <= k < fetched.len() && fetched[k].id@ == id;
            assert(told.logins.contains_key(fetched[k].id@));
        }
    }
    assert forall|i: int| 0 <= i < names.len() implies end.ids.contains_key(
        #[trigger] names[i]@,
    ) by {
        let name = names[i]@;
        if !end.ids.contains_key(name) {
            assert(!told.ids.contains_key(name));
            assert(!later.ids.contains_key(name));
            assert(!cache.ids.contains_key(name));
            assert(exists|k: int| 0 <= k < plan.names.len() && plan.names[k]@ == name) by {
                if !ignore_cache {
                    let pred = |name: String| !cache.ids.contains_key(name@);
                    assert(pred(names[i]));
                    names.lemma_filter_contains(pred, i);
                    let k = choose|k: int| 0 <= k < plan.names.len() && plan.names[k] == names[i];
                    assert(plan.names[k]@ == name);
                }
            }
            assert(found.contains_value(name));
            assert(!plan.users.contains_value(name)) by {
                if plan.users.contains_value(name) {
                    let id = choose|id: Seq<char>| #[trigger]
                        plan.users.contains_key(id) && plan.users[id] == name;
                    assert(cache.ids.contains_key(plan.users[id]));
                }
            }
            let k = choose|k: int| 0 <= k < fetched.len() && fetched[k].login@ == name;
            assert(told.ids.contains_key(fetched[k].login@));
        }
    }
    law_remembered_users_are_not_asked_for(end, ids, names);
}

proof fn lemma_not_fetched(
    users: Map<Seq<char>, Seq<char>>,
    cache: CacheView,
    fetched: Seq<User>,
    id: Seq<char>,
)
    requires
        forall|i: int| 0 <= i < fetched.len() ==> (#[trigger] fetched[i]).id@ != id,
    ensures
        recorded(users, fetched).contains_key(id) == users.contains_key(id),
        users.contains_key(id) ==> recorded(users, fetched)[id] == users[id],
        learned(cache, fetched).logins.contains_key(id) == cache.logins.contains_key(id),
        cache.logins.contains_key(id) ==> learned(cache, fetched).logins[id] == cache.logins[id],
    decreases fetched.len(),
{
    if fetched.len() > 0 {
        let others = fetched.drop_last();
        assert forall|i: int| 0 <= i < others.len() implies (#[trigger] others[i]).id@ != id by {
            assert(others[i] == fetched[i]);
        }
        lemma_not_fetched(users, cache, others, id);
        assert(fetched[fetched.len() - 1].id@ != id);
    }
}

/// A search for ids, once it is over, finds the same users when it is made again, if only users
/// that were asked for came back, and nothing that was remembered of them was changed meanwhile.
pub proof fn law_repeated_search_finds_the_same_users(
    cache: CacheView,
    ids: Seq<String>,
    ignore_cache: bool,
    fetched: Seq<User>,
    later: CacheView,
)
    requires
        forall|i: int| 0 <= i < fetched.len() ==> texts(ids).contains((#[trigger] fetched[i]).id@),
        !ignore_cache ==> forall|id: Seq<char>|
            texts(ids).contains(id) && #[trigger] cache.logins.contains_key(id)
                ==> later.logins.contains_pair(id, cache.logins[id]),
    ensures
        ({
            let search = planned(cache, ids, Seq::empty(), ignore_cache).with(fetched);
            planned(search.remembered(later), ids, Seq::empty(), false).users == search.found()
        }),
{
    let plan = planned(cache, ids, Seq::empty(), ignore_cache);
    let search = plan.with(fetched);
    assert(search.fetched =~= fetched);
    let told = learned(later, fetched);
    let found = search.found();
    let end = search.remembered(later);
    let again = known_by_id(end, ids);
    assert(planned(end, ids, Seq::empty(), false).users == again);
    lemma_found(plan.users, later, fetched);
    assert forall|id: Seq<char>|
        #![trigger again.dom().contains(id)]
        #![trigger found.dom().contains(id)]
        again.dom().contains(id) == found.dom().contains(id) && (found.dom().contains(id)
            ==> again[id] == found[id]) by {
        if exists|i: int| 0 <= i < fetched.len() && (#[trigger] fetched[i]).id@ == id {
            let i = choose|i: int| 0 <= i < fetched.len() && (#[trigger] fetched[i]).id@ == id;
            assert(texts(ids).contains(fetched[i].id@));
            assert(told.logins.contains_pair(id, Some(found[id])));
        } else {
            lemma_not_fetched(plan.users, later, fetched, id);
            if texts(ids).contains(id) {
                if ignore_cache {
                    assert(id_unanswered(plan.ids, found, id));
                } else if cache.logins.contains_key(id) {
                    assert(later.logins.contains_pair(id, cache.logins[id]));
                } else {
                    let k = choose|k: int| 0 <= k < ids.len() && ids[k]@ == id;
                    let pred = |id: String| !cache.logins.contains_key(id@);
                    assert(pred(ids[k]));
                    ids.lemma_filter_contains(pred, k);
                    let j = choose|j: int| 0 <= j < plan.ids.len() && plan.ids[j] == ids[k];
                    assert(plan.ids[j]@ == id);
                    assert(id_unanswered(plan.ids, found, id));
                }
            }
        }
    }
    assert(again =~= found);
}

/// A request is for the ids or for the logins that it holds.
pub proof fn law_requests_hold_what_they_ask_for(items: Vec<String>)
    ensures
        UsersRequest::Ids(items)@ == RequestView::Ids(items@),
        UsersRequest::Logins(items)@ == RequestView::Logins(items@),
{
}

/// A search asks for each id and each login of which nothing is remembered, or, where what is
/// remembered is ignored, for each that it was given: the ids that its requests name, one request
/// after the other, are those, in order, and so are the logins. They are also the ones of which it
/// is remembered, when no user came back for them, that there is none. No request is empty or for
/// more than a hundred users, and the requests for ids come first.
pub proof fn law_everything_unknown_is_asked_for(
    cache: CacheView,
    ids: Seq<String>,
    names: Seq<String>,
    ignore_cache: bool,
)
    ensures
        ({
            let search = planned(cache, ids, names, ignore_cache);
            let sent = requests(search);
            let wanted_ids = if ignore_cache {
                ids
            } else {
                ids.filter(|id: String| !cache.logins.contains_key(id@))
            };
            let wanted_names = if ignore_cache {
                names
            } else {
                names.filter(|name: String| !cache.ids.contains_key(name@))
            };
            &&& sent.filter(|request: RequestView| request is Ids).map_values(
                |request: RequestView| request->Ids_0,
            ).flatten() == wanted_ids
            &&& sent.filter(|request: RequestView| request is Logins).map_values(
                |request: RequestView| request->Logins_0,
            ).flatten() == wanted_names
            &&& search.ids == wanted_ids
            &&& search.names == wanted_names
            &&& search.fetched.len() == 0
            &&& forall|i: int|
                0 <= i < sent.len() ==> match #[trigger] sent[i] {
                    RequestView::Ids(page) => 1 <= page.len() <= 100,
                    RequestView::Logins(page) => 1 <= page.len() <= 100,
                }
            &&& forall|i: int, j: int|
                0 <= i < j < sent.len() && #[trigger] sent[j] is Ids ==> #[trigger] sent[i] is Ids
        }),
{
    let search = planned(cache, ids, names, ignore_cache);
    let sent = requests(search);
    let id_pages = pages(search.ids_left);
    let name_pages = pages(search.names_left);
    let for_ids = id_pages.map_values(|page: Seq<String>| RequestView::Ids(page));
    let for_names = name_pages.map_values(|page: Seq<String>| RequestView::Logins(page));
    let is_ids = |request: RequestView| request is Ids;
    let is_names = |request: RequestView| request is Logins;
    law_pages_hold_the_items(search.ids_left);
    law_pages_hold_the_items(search.names_left);
    assert(sent == for_ids + for_names);
    Seq::filter_distributes_over_add(for_ids, for_names, is_ids);
    Seq::filter_distributes_over_add(for_ids, for_names, is_names);
    lemma_all_kept(for_ids, is_ids);
    lemma_none_kept(for_names, is_ids);
    lemma_none_kept(for_ids, is_names);
    lemma_all_kept(for_names, is_names);
    assert(sent.filter(is_ids) =~= for_ids);
    assert(sent.filter(is_names) =~= for_names);
    assert(for_ids.map_values(|request: RequestView| request->Ids_0) =~= id_pages);
    assert(for_names.map_values(|request: RequestView| request->Logins_0) =~= name_pages);
    assert forall|i: int| 0 <= i < sent.len() implies match #[trigger] sent[i] {
        RequestView::Ids(page) => 1 <= page.len() <= 100,
        RequestView::Logins(page) => 1 <= page.len() <= 100,
    } by {
        if i < for_ids.len() {
            assert(1 <= id_pages[i].len() <= PAGE);
        } else {
            let k = i - for_ids.len();
            assert(sent[i] == for_names[k]);
            assert(1 <= name_pages[k].len() <= PAGE);
        }
    }
}

proof fn lemma_not_by_login(
    cache: CacheView,
    names: Seq<String>,
    users: Map<Seq<char>, Seq<char>>,
    id: Seq<char>,
)
    requires
        forall|j: int|
            0 <= j < names.len() ==> !cache.ids.contains_pair((#[trigger] names[j])@, Some(id)),
    ensures
        known_by_login(cache, names, users).contains_key(id) == users.contains_key(id),
        known_by_login(cache, names, users)[id] == users[id],
    decreases names.len(),
{
    if names.len() > 0 {
        let others = names.drop_last();
        assert forall|j: int| 0 <= j < others.len() implies !cache.ids.contains_pair(
            (#[trigger] others[j])@,
            Some(id),
        ) by {
            assert(others[j] == names[j]);
        }
        lemma_not_by_login(cache, others, users, id);
        assert(!cache.ids.contains_pair(names[names.len() - 1]@, Some(id)));
    }
}

proof fn lemma_last_by_login(
    cache: CacheView,
    names: Seq<String>,
    users: Map<Seq<char>, Seq<char>>,
    id: Seq<char>,
    k: int,
)
    requires
        0 <= k < names.len(),
        cache.ids.contains_pair(names[k]@, Some(id)),
        forall|j: int|
            k < j < names.len() ==> !cache.ids.contains_pair((#[trigger] names[j])@, Some(id)),
    ensures
        known_by_login(cache, names, users).contains_pair(id, names[k]@),
    decreases names.len(),
{
    if k < names.len() - 1 {
        let others = names.drop_last();
        assert forall|j: int| k < j < others.len() implies !cache.ids.contains_pair(
            (#[trigger] others[j])@,
            Some(id),
        ) by {
            assert(others[j] == names[j]);
        }
        lemma_last_by_login(cache, others, users, id, k);
        assert(!cache.ids.contains_pair(names[names.len() - 1]@, Some(id)));
    }
}

/// A search starts with the users who are remembered: under the last of its logins that is
/// remembered as that of their id, or else, where it was given the id, under the login that is
/// remembered of it. It starts with nobody else, and with nobody where what is remembered is
/// ignored.
pub proof fn law_search_starts_with_the_remembered_users(
    cache: CacheView,
    ids: Seq<String>,
    names: Seq<String>,
    id: Seq<char>,
    k: int,
)
    ensures
        planned(cache, ids, names, true).users == Map::<Seq<char>, Seq<char>>::empty(),
        0 <= k < names.len() && cache.ids.contains_pair(names[k]@, Some(id)) && (forall|j: int|
            k < j < names.len() ==> !cache.ids.contains_pair((#[trigger] names[j])@, Some(id)))
            ==> planned(cache, ids, names, false).users.contains_pair(id, names[k]@),
        (forall|j: int|
            0 <= j < names.len() ==> !cache.ids.contains_pair((#[trigger] names[j])@, Some(id)))
            ==> {
            let users = planned(cache, ids, names, false).users;
            &&& users.contains_key(id) <==> cache.logins.contains_key(id) && cache.logins[id]
                is Some && exists|i: int| 0 <= i < ids.len() && ids[i]@ == id
            &&& users.contains_key(id) ==> cache.logins[id] == Some(users[id])
        },
{
    let by_id = known_by_id(cache, ids);
    if 0 <= k < names.len() && cache.ids.contains_pair(names[k]@, Some(id)) && (forall|j: int|
        k < j < names.len() ==> !cache.ids.contains_pair((#[trigger] names[j])@, Some(id))) {
        lemma_last_by_login(cache, names, by_id, id, k);
    }
    if forall|j: int|
        0 <= j < names.len() ==> !cache.ids.contains_pair((#[trigger] names[j])@, Some(id)) {
        lemma_not_by_login(cache, names, by_id, id);
    }
}

proof fn lemma_last_fetched(
    users: Map<Seq<char>, Seq<char>>,
    cache: CacheView,
    fetched: Seq<User>,
    k: int,
)
    requires
        0 <= k < fetched.len(),
    ensures
        (forall|j: int| k < j < fetched.len() ==> (#[trigger] fetched[j]).id@ != fetched[k].id@)
            ==> recorded(users, fetched).contains_pair(fetched[k].id@, fetched[k].login@),
        (forall|j: int|
            k < j < fetched.len() ==> (#[trigger] fetched[j]).login@ != fetched[k].login@)
            ==> learned(cache, fetched).ids.contains_pair(
            fetched[k].login@,
            Some(fetched[k].id@),
        ),
    decreases fetched.len(),
{
    if k < fetched.len() - 1 {
        let others = fetched.drop_last();
        let last = fetched[fetched.len() - 1];
        lemma_last_fetched(users, cache, others, k);
        if forall|j: int| k < j < fetched.len() ==> (#[trigger] fetched[j]).id@ != fetched[k].id@ {
            assert forall|j: int| k < j < others.len() implies (#[trigger] others[j]).id@
                != others[k].id@ by {
                assert(others[j] == fetched[j]);
            }
            assert(last.id@ != fetched[k].id@);
        }
        if forall|j: int|
            k < j < fetched.len() ==> (#[trigger] fetched[j]).login@ != fetched[k].login@ {
            assert forall|j: int| k < j < others.len() implies (#[trigger] others[j]).login@
                != others[k].login@ by {
                assert(others[j] == fetched[j]);
            }
            assert(last.login@ != fetched[k].login@);
        }
    }
}

proof fn lemma_login_not_fetched(cache: CacheView, fetched: Seq<User>, login: Seq<char>)
    requires
        forall|i: int| 0 <= i < fetched.len() ==> (#[trigger] fetched[i]).login@ != login,
    ensures
        learned(cache, fetched).ids.contains_key(login) == cache.ids.contains_key(login),
        learned(cache, fetched).ids[login] == cache.ids[login],
    decreases fetched.len(),
{
    if fetched.len() > 0 {
        let others = fetched.drop_last();
        assert forall|i: int| 0 <= i < others.len() implies (#[trigger] others[i]).login@
            != login by {
            assert(others[i] == fetched[i]);
        }
        lemma_login_not_fetched(cache, others, login);
        assert(fetched[fetched.len() - 1].login@ != login);
    }
}

/// The users of a search are those that it started with and those that came back, the last one
/// with an id under the login that came back with it; nobody is lost and nobody else is there.
pub proof fn law_search_finds_who_came_back(search: SearchView, id: Seq<char>, k: int)
    ensures
        0 <= k < search.fetched.len() && search.fetched[k].id@ == id && (forall|j: int|
            k < j < search.fetched.len() ==> (#[trigger] search.fetched[j]).id@ != id)
            ==> search.found().contains_pair(id, search.fetched[k].login@),
        (forall|j: int|
            0 <= j < search.fetched.len() ==> (#[trigger] search.fetched[j]).id@ != id) ==> (
        search.found().contains_key(id) <==> search.users.contains_key(id)) && (
        search.users.contains_key(id) ==> search.found()[id] == search.users[id]),
{
    if 0 <= k < search.fetched.len() {
        lemma_last_fetched(search.users, CacheView::empty(), search.fetched, k);
    }
    if forall|j: int|
        0 <= j < search.fetched.len() ==> (#[trigger] search.fetched[j]).id@ != id {
        lemma_not_fetched(search.users, CacheView::empty(), search.fetched, id);
    }
}

/// When a search is over, the id of a login that came back, unless that login was asked for and is
/// not among the users, is the one that came back with it last. Of an id that did not come back and
/// was not asked for in vain, and of such a login, what was remembered before is remembered still.
pub proof fn law_search_changes_nothing_else(
    search: SearchView,
    cache: CacheView,
    id: Seq<char>,
    login: Seq<char>,
    k: int,
)
    ensures
        ({
            let end = search.remembered(cache);
            let id_in_vain = texts(search.ids).contains(id) && !search.found().contains_key(id);
            let login_in_vain = texts(search.names).contains(login)
                && !search.found().contains_value(login);
            &&& !id_in_vain && (forall|j: int|
                0 <= j < search.fetched.len() ==> (#[trigger] search.fetched[j]).id@ != id) ==> {
                &&& end.logins.contains_key(id) == cache.logins.contains_key(id)
                &&& cache.logins.contains_key(id) ==> end.logins[id] == cache.logins[id]
            }
            &&& !login_in_vain && (forall|j: int|
                0 <= j < search.fetched.len() ==> (#[trigger] search.fetched[j]).login@ != login)
                ==> {
                &&& end.ids.contains_key(login) == cache.ids.contains_key(login)
                &&& cache.ids.contains_key(login) ==> end.ids[login] == cache.ids[login]
            }
            &&& !login_in_vain && 0 <= k < search.fetched.len() && search.fetched[k].login@
                == login && (forall|j: int|
                k < j < search.fetched.len() ==> (#[trigger] search.fetched[j]).login@ != login)
                ==> end.ids.contains_pair(login, Some(search.fetched[k].id@))
        }),
{
    let end = search.remembered(cache);
    let found = search.found();
    assert(id_unanswered(search.ids, found, id) == (texts(search.ids).contains(id)
        && !found.contains_key(id)));
    assert(name_unanswered(search.names, found, login) == (texts(search.names).contains(login)
        && !found.contains_value(login)));
    if forall|j: int|
        0 <= j < search.fetched.len() ==> (#[trigger] search.fetched[j]).id@ != id {
        lemma_not_fetched(search.users, cache, search.fetched, id);
    }
    if forall|j: int|
        0 <= j < search.fetched.len() ==> (#[trigger] search.fetched[j]).login@ != login {
        lemma_login_not_fetched(cache, search.fetched, login);
    }
    if 0 <= k < search.fetched.len() {
        lemma_last_fetched(search.users, cache, search.fetched, k);
    }
}

impl CacheView {
    /// Whether all that is remembered is true of the users of a directory, logins by id.
    pub open spec fn is_true_of(self, directory: Map<Seq<char>, Seq<char>>) -> bool {
        &&& forall|id: Seq<char>| #[trigger]
            self.logins.contains_key(id) ==> match self.logins[id] {
                Some(login) => directory.contains_pair(id, login),
                None => !directory.contains_key(id),
            }
        &&& forall|login: Seq<char>| #[trigger]
            self.ids.contains_key(login) ==> match self.ids[login] {
                Some(id) => directory.contains_pair(id, login),
                None => !directory.contains_value(login),
            }
    }
}

/// Whether a request asks for a user.
pub open spec fn asks_for(request: RequestView, id: Seq<char>, login: Seq<char>) -> bool {
    match request {
        RequestView::Ids(page) => texts(page).contains(id),
        RequestView::Logins(page) => texts(page).contains(login),
    }
}

/// Whether a reply holds exactly the users of a directory that a request asks for.
pub open spec fn answers(
    directory: Map<Seq<char>, Seq<char>>,
    request: RequestView,
    reply: Seq<User>,
) -> bool {
    &&& forall|i: int|
        0 <= i < reply.len() ==> directory.contains_pair(
            (#[trigger] reply[i]).id@,
            reply[i].login@,
        ) && asks_for(request, reply[i].id@, reply[i].login@)
    &&& forall|id: Seq<char>| #[trigger]
        directory.contains_key(id) && asks_for(request, id, directory[id]) ==> exists|i: int|
            0 <= i < reply.len() && (#[trigger] reply[i]).id@ == id
}

proof fn lemma_flat<A>(parts: Seq<Seq<A>>)
    ensures
        forall|k: int, i: int|
            0 <= k < parts.len() && 0 <= i < parts[k].len() ==> parts.flatten().contains(
                #[trigger] parts[k][i],
            ),
        forall|n: int|
            0 <= n < parts.flatten().len() ==> exists|k: int|
                0 <= k < parts.len() && (#[trigger] parts[k]).contains(
                    #[trigger] parts.flatten()[n],
                ),
    decreases parts.len(),
{
    if parts.len() > 0 {
        let rest = parts.drop_first();
        let flat = parts.flatten();
        lemma_flat(rest);
        assert(flat == parts[0] + rest.flatten());
        assert forall|k: int, i: int|
            0 <= k < parts.len() && 0 <= i < parts[k].len() implies flat.contains(
            #[trigger] parts[k][i],
        ) by {
            if k == 0 {
                assert(flat[i] == parts[0][i]);
            } else {
                assert(rest[k - 1] == parts[k]);
                assert(rest.flatten().contains(rest[k - 1][i]));
                let n = choose|n: int|
                    0 <= n < rest.flatten().len() && rest.flatten()[n] == parts[k][i];
                assert(flat[parts[0].len() + n] == parts[k][i]);
            }
        }
        assert forall|n: int| 0 <= n < flat.len() implies exists|k: int|
            0 <= k < parts.len() && (#[trigger] parts[k]).contains(#[trigger] flat[n]) by {
            if n < parts[0].len() {
                assert(parts[0].contains(flat[n]));
            } else {
                let m = n - parts[0].len();
                assert(flat[n] == rest.flatten()[m]);
                let k = choose|k: int|
                    0 <= k < rest.len() && (#[trigger] rest[k]).contains(rest.flatten()[m]);
                assert(parts[k + 1] == rest[k]);
                assert(parts[k + 1].contains(flat[n]));
            }
        }
    }
}

/// What the requests of a search ask for is what it asks for.
proof fn lemma_requests_ask(search: SearchView, id: Seq<char>, login: Seq<char>)
    requires
        search.ids_left == search.ids,
        search.names_left == search.names,
    ensures
        (exists|r: int|
            0 <= r < requests(search).len() && asks_for(
                #[trigger] requests(search)[r],
                id,
                login,
            )) <==> texts(search.ids).contains(id) || texts(search.names).contains(login),
{
    let sent = requests(search);
    let id_pages = pages(search.ids);
    let name_pages = pages(search.names);
    law_pages_hold_the_items(search.ids);
    law_pages_hold_the_items(search.names);
    lemma_flat(id_pages);
    lemma_flat(name_pages);
    if exists|r: int| 0 <= r < sent.len() && asks_for(#[trigger] sent[r], id, login) {
        let r = choose|r: int| 0 <= r < sent.len() && asks_for(#[trigger] sent[r], id, login);
        if r < id_pages.len() {
            assert(sent[r] == RequestView::Ids(id_pages[r]));
            let i = choose|i: int| 0 <= i < id_pages[r].len() && id_pages[r][i]@ == id;
            assert(search.ids.contains(id_pages[r][i]));
        } else {
            let k = r - id_pages.len();
            assert(sent[r] == RequestView::Logins(name_pages[k]));
            let i = choose|i: int| 0 <= i < name_pages[k].len() && name_pages[k][i]@ == login;
            assert(search.names.contains(name_pages[k][i]));
        }
    }
    if texts(search.ids).contains(id) {
        let n = choose|n: int| 0 <= n < search.ids.len() && search.ids[n]@ == id;
        assert(id_pages.flatten()[n]@ == id);
        let k = choose|k: int|
            0 <= k < id_pages.len() && (#[trigger] id_pages[k]).contains(id_pages.flatten()[n]);
        let i = choose|i: int|
            0 <= i < id_pages[k].len() && id_pages[k][i] == id_pages.flatten()[n];
        assert(id_pages[k][i]@ == id);
        let page = id_pages[k];
        assert(page[i]@ == id);
        assert(sent[k] == RequestView::Ids(page));
        assert(asks_for(RequestView::Ids(page), id, login));
    }
    if texts(search.names).contains(login) {
        let n = choose|n: int| 0 <= n < search.names.len() && search.names[n]@ == login;
        assert(name_pages.flatten()[n]@ == login);
        let k = choose|k: int|
            0 <= k < name_pages.len() && (#[trigger] name_pages[k]).contains(
                name_pages.flatten()[n],
            );
        let i = choose|i: int|
            0 <= i < name_pages[k].len() && name_pages[k][i] == name_pages.flatten()[n];
        assert(name_pages[k][i]@ == login);
        let r = id_pages.len() + k;
        let page = name_pages[k];
        assert(page[i]@ == login);
        assert(sent[r] == RequestView::Logins(page));
        assert(asks_for(RequestView::Logins(page), id, login));
    }
}

proof fn lemma_true_users(
    users: Map<Seq<char>, Seq<char>>,
    cache: CacheView,
    fetched: Seq<User>,
    directory: Map<Seq<char>, Seq<char>>,
)
    requires
        forall|id: Seq<char>| #[trigger]
            users.contains_key(id) ==> directory.contains_pair(id, users[id]),
        forall|i: int|
            0 <= i < fetched.len() ==> directory.contains_pair(
                (#[trigger] fetched[i]).id@,
                fetched[i].login@,
            ),
        cache.is_true_of(directory),
    ensures
        forall|id: Seq<char>| #[trigger]
            recorded(users, fetched).contains_key(id) ==> directory.contains_pair(
                id,
                recorded(users, fetched)[id],
            ),
        forall|id: Seq<char>|
            users.contains_key(id) ==> #[trigger] recorded(users, fetched).contains_key(id),
        learned(cache, fetched).is_true_of(directory),
    decreases fetched.len(),
{
    if fetched.len() > 0 {
        let others = fetched.drop_last();
        assert forall|i: int| 0 <= i < others.len() implies directory.contains_pair(
            (#[trigger] others[i]).id@,
            others[i].login@,
        ) by {
            assert(others[i] == fetched[i]);
        }
        lemma_true_users(users, cache, others, directory);
        let last = fetched[fetched.len() - 1];
        let earlier = recorded(users, others);
        let all = recorded(users, fetched);
        assert(directory.contains_pair(last.id@, last.login@));
        assert forall|id: Seq<char>| #[trigger] all.contains_key(id) implies
            directory.contains_pair(id, all[id]) by {
            if id != last.id@ {
                assert(earlier.contains_key(id));
            }
        }
        assert forall|id: Seq<char>| users.contains_key(id) implies #[trigger] all.contains_key(
            id,
        ) by {
            assert(earlier.contains_key(id));
        }
    }
}

/// A search whose requests are answered truly, each by exactly the users of a directory that it
/// asks for, ends with exactly those users of the directory who were asked for by their id or by
/// their login, each under their login. What it had remembered of them may be used or ignored, if
/// it is true. What is remembered afterwards is true as well, and says of each id and each login
/// whether there is such a user.
pub proof fn law_search_finds_who_exists(
    directory: Map<Seq<char>, Seq<char>>,
    cache: CacheView,
    ids: Seq<String>,
    names: Seq<String>,
    ignore_cache: bool,
    replies: Seq<Seq<User>>,
    step: UsersStep,
    after: CacheView,
)
    requires
        directory.is_injective(),
        cache.is_true_of(directory),
        ({
            let search = planned(cache, ids, names, ignore_cache);
            &&& replies.len() == requests(search).len()
            &&& forall|r: int|
                0 <= r < replies.len() ==> answers(
                    directory,
                    #[trigger] requests(search)[r],
                    replies[r],
                )
            &&& answered(search, replies).leads_to(step, cache, after)
        }),
    ensures
        step matches UsersStep::Done(users) && forall|id: Seq<char>|
            (#[trigger] users@.contains_key(id) <==> directory.contains_key(id) && (texts(
                ids,
            ).contains(id) || texts(names).contains(directory[id]))) && (users@.contains_key(id)
                ==> users@[id] == directory[id]),
        after.is_true_of(directory),
        forall|id: Seq<char>| #[trigger]
            texts(ids).contains(id) ==> after.logins.contains_key(id),
        forall|name: Seq<char>| #[trigger]
            texts(names).contains(name) ==> after.ids.contains_key(name),
{
    let plan = planned(cache, ids, names, ignore_cache);
    let end = answered(plan, replies);
    let fetched = end.fetched;
    law_search_collects_the_replies(plan, replies);
    assert(fetched =~= replies.flatten());
    lemma_flat(replies);
    assert forall|n: int| 0 <= n < fetched.len() implies directory.contains_pair(
        (#[trigger] fetched[n]).id@,
        fetched[n].login@,
    ) && (texts(plan.ids).contains(fetched[n].id@) || texts(plan.names).contains(
        fetched[n].login@,
    )) by {
        let r = choose|r: int|
            0 <= r < replies.len() && (#[trigger] replies[r]).contains(replies.flatten()[n]);
        let i = choose|i: int| 0 <= i < replies[r].len() && replies[r][i] == fetched[n];
        assert(answers(directory, requests(plan)[r], replies[r]));
        assert(directory.contains_pair(replies[r][i].id@, replies[r][i].login@));
        lemma_requests_ask(plan, fetched[n].id@, fetched[n].login@);
    }
    assert forall|id: Seq<char>|
        directory.contains_key(id) && (texts(plan.ids).contains(id) || texts(plan.names).contains(
            directory[id],
        )) implies exists|n: int| 0 <= n < fetched.len() && (#[trigger] fetched[n]).id@ == id by {
        lemma_requests_ask(plan, id, directory[id]);
        let r = choose|r: int|
            0 <= r < requests(plan).len() && asks_for(
                #[trigger] requests(plan)[r],
                id,
                directory[id],
            );
        assert(answers(directory, requests(plan)[r], replies[r]));
        let i = choose|i: int| 0 <= i < replies[r].len() && (#[trigger] replies[r][i]).id@ == id;
        assert(replies.flatten().contains(replies[r][i]));
        let n = choose|n: int| 0 <= n < fetched.len() && fetched[n] == replies[r][i];
        assert(fetched[n].id@ == id);
    }
    lemma_plan_is_true(directory, cache, ids, names, ignore_cache);
    lemma_true_users(plan.users, cache, fetched, directory);
    lemma_recorded(plan.users, fetched);
    lemma_found(plan.users, cache, fetched);
    let found = end.found();
    let told = learned(cache, fetched);
    assert(found == recorded(plan.users, fetched));
    assert forall|id: Seq<char>|
        (#[trigger] found.contains_key(id) <==> directory.contains_key(id) && (texts(ids).contains(
            id,
        ) || texts(names).contains(directory[id]))) && (found.contains_key(id) ==> found[id]
            == directory[id]) by {
        if found.contains_key(id) {
            assert(directory.contains_pair(id, found[id]));
            if !plan.users.contains_key(id) {
                let n = choose|n: int| 0 <= n < fetched.len() && fetched[n].id@ == id;
                assert(directory.contains_pair(fetched[n].id@, fetched[n].login@));
                lemma_plan_asks(cache, ids, names, ignore_cache, id);
                lemma_plan_asks(cache, ids, names, ignore_cache, directory[id]);
            }
        }
        if directory.contains_key(id) && (texts(ids).contains(id) || texts(names).contains(
            directory[id],
        )) {
            if !plan.users.contains_key(id) {
                lemma_plan_asks(cache, ids, names, ignore_cache, id);
                lemma_plan_asks(cache, ids, names, ignore_cache, directory[id]);
                let n = choose|n: int| 0 <= n < fetched.len() && (#[trigger] fetched[n]).id@ == id;
                assert(found.contains_key(fetched[n].id@));
            }
        }
    }
    assert forall|id: Seq<char>| id_unanswered(plan.ids, found, id) implies
        !directory.contains_key(id) by {
        if directory.contains_key(id) {
            assert(texts(plan.ids).contains(id));
            let n = choose|n: int| 0 <= n < fetched.len() && (#[trigger] fetched[n]).id@ == id;
            assert(found.contains_key(fetched[n].id@));
        }
    }
    assert forall|name: Seq<char>| name_unanswered(plan.names, found, name) implies
        !directory.contains_value(name) by {
        if directory.contains_value(name) {
            let id = choose|id: Seq<char>| #[trigger]
                directory.contains_key(id) && directory[id] == name;
            assert(texts(plan.names).contains(name));
            let n = choose|n: int| 0 <= n < fetched.len() && (#[trigger] fetched[n]).id@ == id;
            assert(found.contains_key(fetched[n].id@));
            assert(found[id] == name);
            assert(found.contains_value(name));
        }
    }
    assert(after == marked(told, plan.ids, plan.names, found));
    assert forall|id: Seq<char>| #[trigger] texts(ids).contains(
        id,
    ) implies after.logins.contains_key(id) by {
        lemma_plan_asks(cache, ids, names, ignore_cache, id);
        lemma_learned(cache, fetched);
        if texts(plan.ids).contains(id) && found.contains_key(id) {
            assert(directory.contains_key(id));
            let n = choose|n: int| 0 <= n < fetched.len() && (#[trigger] fetched[n]).id@ == id;
            assert(told.logins.contains_key(fetched[n].id@));
        }
    }
    assert forall|name: Seq<char>| #[trigger] texts(names).contains(
        name,
    ) implies after.ids.contains_key(name) by {
        lemma_plan_asks(cache, ids, names, ignore_cache, name);
        lemma_learned(cache, fetched);
        if texts(plan.names).contains(name) && found.contains_value(name) {
            let id = choose|id: Seq<char>| #[trigger]
                found.contains_key(id) && found[id] == name;
            assert(directory.contains_pair(id, name));
            let n = choose|n: int| 0 <= n < fetched.len() && (#[trigger] fetched[n]).id@ == id;
            assert(directory.contains_pair(fetched[n].id@, fetched[n].login@));
            assert(told.ids.contains_key(fetched[n].login@));
        }
    }
}

/// What a search asks for is what it was given and does not know.
proof fn lemma_plan_asks(
    cache: CacheView,
    ids: Seq<String>,
    names: Seq<String>,
    ignore_cache: bool,
    s: Seq<char>,
)
    ensures
        ({
            let plan = planned(cache, ids, names, ignore_cache);
            &&& texts(plan.ids).contains(s) <==> texts(ids).contains(s) && (ignore_cache
                || !cache.logins.contains_key(s))
            &&& texts(plan.names).contains(s) <==> texts(names).contains(s) && (ignore_cache
                || !cache.ids.contains_key(s))
        }),
{
    if !ignore_cache {
        lemma_filtered_texts(ids, |id: String| !cache.logins.contains_key(id@), s);
        lemma_filtered_texts(names, |name: String| !cache.ids.contains_key(name@), s);
        let plan = planned(cache, ids, names, ignore_cache);
        if texts(ids).contains(s) && !cache.logins.contains_key(s) {
            let i = choose|i: int| 0 <= i < ids.len() && ids[i]@ == s;
            assert(plan.ids.contains(ids[i]));
            let k = choose|k: int| 0 <= k < plan.ids.len() && plan.ids[k] == ids[i];
            assert(plan.ids[k]@ == s);
        }
        if texts(names).contains(s) && !cache.ids.contains_key(s) {
            let i = choose|i: int| 0 <= i < names.len() && names[i]@ == s;
            assert(plan.names.contains(names[i]));
            let k = choose|k: int| 0 <= k < plan.names.len() && plan.names[k] == names[i];
            assert(plan.names[k]@ == s);
        }
    }
}

proof fn lemma_filtered_texts(items: Seq<String>, pred: spec_fn(String) -> bool, s: Seq<char>)
    ensures
        forall|i: int|
            0 <= i < items.len() && pred(#[trigger] items[i]) ==> items.filter(pred).contains(
                items[i],
            ),
        forall|k: int|
            0 <= k < items.filter(pred).len() ==> pred(#[trigger] items.filter(pred)[k])
                && items.contains(items.filter(pred)[k]),
        texts(items.filter(pred)).contains(s) ==> texts(items).contains(s),
    decreases items.len(),
{
    reveal(Seq::filter);
    let kept = items.filter(pred);
    if items.len() > 0 {
        let others = items.drop_last();
        lemma_filtered_texts(others, pred, s);
        let kept_others = others.filter(pred);
        assert forall|i: int| 0 <= i < items.len() && pred(#[trigger] items[i]) implies
            kept.contains(items[i]) by {
            if i < others.len() {
                assert(others[i] == items[i]);
                let k = choose|k: int| 0 <= k < kept_others.len() && kept_others[k] == items[i];
                assert(kept[k] == items[i]);
            } else {
                assert(kept[kept.len() - 1] == items[i]);
            }
        }
        assert forall|k: int| 0 <= k < kept.len() implies pred(#[trigger] kept[k])
            && items.contains(kept[k]) by {
            if k < kept_others.len() {
                assert(kept[k] == kept_others[k]);
                let i = choose|i: int| 0 <= i < others.len() && others[i] == kept_others[k];
                assert(items[i] == kept[k]);
            } else {
                assert(items[items.len() - 1] == kept[k]);
            }
        }
    }
    if texts(kept).contains(s) {
        let k = choose|k: int| 0 <= k < kept.len() && kept[k]@ == s;
        assert(items.contains(kept[k]));
        let i = choose|i: int| 0 <= i < items.len() && items[i] == kept[k];
        assert(items[i]@ == s);
    }
}

/// The users that a search starts with are those of the directory that are remembered.
proof fn lemma_plan_is_true(
    directory: Map<Seq<char>, Seq<char>>,
    cache: CacheView,
    ids: Seq<String>,
    names: Seq<String>,
    ignore_cache: bool,
)
    requires
        directory.is_injective(),
        cache.is_true_of(directory),
    ensures
        ({
            let plan = planned(cache, ids, names, ignore_cache);
            &&& forall|id: Seq<char>| #[trigger]
                plan.users.contains_key(id) ==> directory.contains_pair(id, plan.users[id]) && (
                texts(ids).contains(id) || texts(names).contains(directory[id]))
            &&& forall|id: Seq<char>|
                !ignore_cache && directory.contains_key(id) && ((texts(ids).contains(id)
                    && cache.logins.contains_key(id)) || (texts(names).contains(directory[id])
                    && cache.ids.contains_key(directory[id])))
                    ==> #[trigger] plan.users.contains_key(id)
        }),
{
    if !ignore_cache {
        let by_id = known_by_id(cache, ids);
        assert forall|id: Seq<char>| #[trigger] by_id.contains_key(id) implies
            directory.contains_pair(id, by_id[id]) && texts(ids).contains(id) by {
            assert(cache.logins.contains_key(id));
        }
        assert forall|id: Seq<char>|
            directory.contains_key(id) && texts(ids).contains(id) && cache.logins.contains_key(
                id,
            ) implies #[trigger] by_id.contains_key(id) by {}
        lemma_logins_are_true(directory, cache, names, by_id);
        let users = known_by_login(cache, names, by_id);
        assert(planned(cache, ids, names, ignore_cache).users == users);
    }
}

proof fn lemma_logins_are_true(
    directory: Map<Seq<char>, Seq<char>>,
    cache: CacheView,
    names: Seq<String>,
    by_id: Map<Seq<char>, Seq<char>>,
)
    requires
        directory.is_injective(),
        cache.is_true_of(directory),
        forall|id: Seq<char>| #[trigger]
            by_id.contains_key(id) ==> directory.contains_pair(id, by_id[id]),
    ensures
        ({
            let users = known_by_login(cache, names, by_id);
            &&& forall|id: Seq<char>| #[trigger]
                users.contains_key(id) ==> directory.contains_pair(id, users[id]) && (
                by_id.contains_key(id) || texts(names).contains(directory[id]))
            &&& forall|id: Seq<char>|
                by_id.contains_key(id) || (directory.contains_key(id) && texts(names).contains(
                    directory[id],
                ) && cache.ids.contains_key(directory[id])) ==> #[trigger] users.contains_key(id)
        }),
    decreases names.len(),
{
    let users = known_by_login(cache, names, by_id);
    if names.len() > 0 {
        let others = names.drop_last();
        let last = names[names.len() - 1]@;
        let earlier = known_by_login(cache, others, by_id);
        lemma_logins_are_true(directory, cache, others, by_id);
        lemma_texts(names, names.len() - 1);
        assert(names.take(names.len() as int) =~= names);
        assert(names.take(names.len() - 1) =~= others);
        assert(texts(names) == texts(others).insert(last));
        assert forall|id: Seq<char>| #[trigger] users.contains_key(id) implies
            directory.contains_pair(id, users[id]) && (by_id.contains_key(id) || texts(
            names,
        ).contains(directory[id])) by {
            if cache.ids.contains_key(last) && cache.ids[last] == Some(id) {
                assert(directory.contains_pair(id, last));
            } else {
                assert(earlier.contains_key(id));
            }
        }
        assert forall|id: Seq<char>|
            by_id.contains_key(id) || (directory.contains_key(id) && texts(names).contains(
                directory[id],
            ) && cache.ids.contains_key(directory[id])) implies #[trigger] users.contains_key(
            id,
        ) by {
            if directory.contains_key(id) && directory[id] == last && cache.ids.contains_key(
                last,
            ) {
                assert(directory.contains_value(last));
                assert(cache.ids[last] is Some);
                let known = cache.ids[last]->0;
                assert(directory.contains_pair(known, last));
                assert(known == id);
            } else {
                assert(earlier.contains_key(id));
            }
        }
    } else {
        assert(texts(names) =~= Set::empty());
    }
}

} // verus!

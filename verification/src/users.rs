//! Users by id and by login, and what is remembered of them.

use vstd::hash_map::StringHashMap;
use vstd::prelude::*;

verus! {

/// A user as the users API gives them.
#[derive(Debug)]
pub struct User {
    pub id: String,
    pub login: String,
}

/// Logins by user id, in the order in which the ids came.
pub struct UserMap {
    entries: Vec<User>,
}

impl View for UserMap {
    type V = Map<Seq<char>, Seq<char>>;

    closed spec fn view(&self) -> Map<Seq<char>, Seq<char>> {
        Map::new(
            |id: Seq<char>| exists|i: int| 0 <= i < self.entries@.len() && self.entries@[i].id@ == id,
            |id: Seq<char>|
                self.entries@[choose|i: int|
                    0 <= i < self.entries@.len() && self.entries@[i].id@ == id].login@,
        )
    }
}

/// Whether a sequence holds the users of a map, each once.
pub open spec fn lists_users(users: Seq<User>, map: Map<Seq<char>, Seq<char>>) -> bool {
    &&& forall|i: int, j: int| 0 <= i < j < users.len() ==> users[i].id@ != users[j].id@
    &&& forall|i: int|
        0 <= i < users.len() ==> map.contains_pair((#[trigger] users[i]).id@, users[i].login@)
    &&& forall|id: Seq<char>| #[trigger]
        map.contains_key(id) ==> exists|i: int| 0 <= i < users.len() && users[i].id@ == id
}

impl UserMap {
    #[verifier::type_invariant]
    spec fn distinct(self) -> bool {
        forall|i: int, j: int|
            0 <= i < j < self.entries@.len() ==> self.entries@[i].id@ != self.entries@[j].id@
    }

    proof fn lemma_entry(self, i: int)
        requires
            self.distinct(),
            0 <= i < self.entries@.len(),
        ensures
            self@.contains_pair(self.entries@[i].id@, self.entries@[i].login@),
    {
        let id = self.entries@[i].id@;
        let j = choose|j: int| 0 <= j < self.entries@.len() && self.entries@[j].id@ == id;
        assert(j == i) by {
            if j < i {
            } else if i < j {
            }
        }
    }

    proof fn lemma_lists(self)
        requires
            self.distinct(),
        ensures
            lists_users(self.entries@, self@),
    {
        assert forall|i: int| 0 <= i < self.entries@.len() implies self@.contains_pair(
            (#[trigger] self.entries@[i]).id@,
            self.entries@[i].login@,
        ) by {
            self.lemma_entry(i);
        }
    }

    /// The map without users.
    pub fn new() -> (map: UserMap)
        ensures
            map@ == Map::<Seq<char>, Seq<char>>::empty(),
    {
        let map = UserMap { entries: Vec::new() };
        assert(map@ =~= Map::<Seq<char>, Seq<char>>::empty());
        map
    }

    fn position(&self, id: &String) -> (found: Option<usize>)
        ensures
            match found {
                Some(i) => i < self.entries@.len() && self.entries@[i as int].id@ == id@,
                None => !self@.contains_key(id@),
            },
    {
        for i in 0..self.entries.len()
            invariant
                forall|j: int| 0 <= j < i ==> self.entries@[j].id@ != id@,
        {
            if self.entries[i].id == *id {
                return Some(i);
            }
        }
        None
    }

    /// Whether the map has a login for an id.
    pub fn contains_key(&self, id: &String) -> (found: bool)
        ensures
            found == self@.contains_key(id@),
    {
        self.position(id).is_some()
    }

    /// The login of an id.
    pub fn get(&self, id: &String) -> (login: Option<&String>)
        ensures
            match login {
                Some(login) => self@.contains_pair(id@, login@),
                None => !self@.contains_key(id@),
            },
    {
        proof {
            use_type_invariant(self);
        }
        match self.position(id) {
            Some(i) => {
                proof {
                    self.lemma_entry(i as int);
                }
                Some(&self.entries[i].login)
            },
            None => None,
        }
    }

    /// Whether some id of the map has the given login.
    pub fn contains_login(&self, login: &String) -> (found: bool)
        ensures
            found == self@.contains_value(login@),
    {
        proof {
            use_type_invariant(self);
            self.lemma_lists();
        }
        for i in 0..self.entries.len()
            invariant
                lists_users(self.entries@, self@),
                forall|j: int| 0 <= j < i ==> self.entries@[j].login@ != login@,
        {
            if self.entries[i].login == *login {
                assert(self@.contains_pair(self.entries@[i as int].id@, login@));
                return true;
            }
        }
        assert forall|id: Seq<char>| #[trigger] self@.contains_key(id) implies self@[id]
            != login@ by {
            let i = choose|i: int| 0 <= i < self.entries@.len() && self.entries@[i].id@ == id;
            assert(self@.contains_pair(self.entries@[i].id@, self.entries@[i].login@));
        }
        false
    }

    /// Gives an id a login, in place of the one that it has.
    pub fn insert(&mut self, id: String, login: String)
        ensures
            final(self)@ == old(self)@.insert(id@, login@),
    {
        proof {
            use_type_invariant(&*self);
            self.lemma_lists();
        }
        let found = self.position(&id);
        let mut entries: Vec<User> = Vec::new();
        std::mem::swap(&mut entries, &mut self.entries);
        match found {
            Some(i) => {
                entries.set(i, User { id, login });
            },
            None => {
                entries.push(User { id, login });
            },
        }
        self.entries = entries;
        proof {
            let before = old(self).entries@;
            let at = match found {
                Some(i) => i as int,
                None => before.len() as int,
            };
            self.lemma_lists();
            assert(self.entries@[at].id@ == id@);
            assert forall|other: Seq<char>| #[trigger] old(self)@.contains_key(other) && other
                != id@ implies self@.contains_pair(other, old(self)@[other]) by {
                let i = choose|i: int| 0 <= i < before.len() && before[i].id@ == other;
                assert(old(self)@.contains_pair(before[i].id@, before[i].login@));
                assert(self.entries@[i] == before[i]);
            }
            assert forall|other: Seq<char>| #[trigger] self@.contains_key(other) && other
                != id@ implies old(self)@.contains_key(other) by {
                let i = choose|i: int|
                    0 <= i < self.entries@.len() && self.entries@[i].id@ == other;
                assert(before[i].id@ == other);
            }
            assert(self@ =~= old(self)@.insert(id@, login@));
        }
    }

    /// Takes an id out of the map, and gives its login.
    pub fn remove(&mut self, id: &String) -> (login: Option<String>)
        ensures
            final(self)@ == old(self)@.remove(id@),
            match login {
                Some(login) => old(self)@.contains_pair(id@, login@),
                None => !old(self)@.contains_key(id@),
            },
    {
        proof {
            use_type_invariant(&*self);
            self.lemma_lists();
        }
        match self.position(id) {
            None => {
                assert(self@ =~= old(self)@.remove(id@));
                None
            },
            Some(at) => {
                let mut entries: Vec<User> = Vec::new();
                std::mem::swap(&mut entries, &mut self.entries);
                let user = entries.remove(at);
                self.entries = entries;
                proof {
                    let before = old(self).entries@;
                    self.lemma_lists();
                    assert(before[at as int].id@ == id@);
                    assert forall|other: Seq<char>| #[trigger] old(self)@.contains_key(other)
                        && other != id@ implies self@.contains_pair(other, old(self)@[other]) by {
                        let i = choose|i: int| 0 <= i < before.len() && before[i].id@ == other;
                        assert(old(self)@.contains_pair(before[i].id@, before[i].login@));
                        let j = if i < at { i } else { i - 1 };
                        assert(self.entries@[j] == before[i]);
                    }
                    assert forall|other: Seq<char>| #[trigger] self@.contains_key(
                        other,
                    ) implies old(self)@.contains_key(other) && other != id@ by {
                        let j = choose|j: int|
                            0 <= j < self.entries@.len() && self.entries@[j].id@ == other;
                        let i = if j < at { j } else { j + 1 };
                        assert(before[i].id@ == other);
                    }
                    assert(self@ =~= old(self)@.remove(id@));
                }
                Some(user.login)
            },
        }
    }

    /// The users of the map, each once.
    pub fn into_users(self) -> (users: Vec<User>)
        ensures
            lists_users(users@, self@),
    {
        proof {
            use_type_invariant(&self);
            self.lemma_lists();
        }
        self.entries
    }
}

/// What is remembered of users: for an id a login, or that there is no such user; for a login
/// an id, or that there is no such user.
pub struct CacheView {
    pub logins: Map<Seq<char>, Option<Seq<char>>>,
    pub ids: Map<Seq<char>, Option<Seq<char>>>,
}

/// Remembers users, so that they are not asked for again.
pub struct UsersCache {
    logins: StringHashMap<Option<String>>,
    ids: StringHashMap<Option<String>>,
}

/// The text of an optional string.
pub open spec fn text(string: Option<String>) -> Option<Seq<char>> {
    match string {
        Some(string) => Some(string@),
        None => None,
    }
}

impl View for UsersCache {
    type V = CacheView;

    closed spec fn view(&self) -> CacheView {
        CacheView {
            logins: self.logins@.map_values(|login: Option<String>| text(login)),
            ids: self.ids@.map_values(|id: Option<String>| text(id)),
        }
    }
}

impl CacheView {
    /// The cache that remembers nothing.
    pub open spec fn empty() -> CacheView {
        CacheView { logins: Map::empty(), ids: Map::empty() }
    }

    /// The cache once it is told of an id, of a login, or of both as those of one user.
    pub open spec fn told(self, id: Option<Seq<char>>, login: Option<Seq<char>>) -> CacheView {
        CacheView {
            logins: match id {
                Some(id) => self.logins.insert(id, login),
                None => self.logins,
            },
            ids: match login {
                Some(login) => self.ids.insert(login, id),
                None => self.ids,
            },
        }
    }

    /// Whether every login that an id has is itself remembered, and every id that a login has.
    pub open spec fn consistent(self) -> bool {
        &&& forall|id: Seq<char>|
            #![trigger self.logins[id]]
            self.logins.contains_key(id) && self.logins[id] is Some ==> self.ids.contains_key(
                self.logins[id]->0,
            )
        &&& forall|login: Seq<char>|
            #![trigger self.ids[login]]
            self.ids.contains_key(login) && self.ids[login] is Some ==> self.logins.contains_key(
                self.ids[login]->0,
            )
    }
}

/// A cache in which every login of an id, and every id of a login, is itself remembered stays so,
/// whatever it is told.
pub proof fn law_cache_stays_consistent(
    cache: CacheView,
    id: Option<Seq<char>>,
    login: Option<Seq<char>>,
)
    requires
        cache.consistent(),
    ensures
        cache.told(id, login).consistent(),
        CacheView::empty().consistent(),
{
}

impl UsersCache {
    /// Whether every login and every id that is remembered of a user is itself remembered.
    #[verifier::type_invariant]
    pub open spec fn consistent(self) -> bool {
        self@.consistent()
    }

    /// A cache that remembers nothing.
    pub fn new() -> (cache: UsersCache)
        ensures
            cache@ == CacheView::empty(),
    {
        let logins: StringHashMap<Option<String>> = StringHashMap::new();
        let ids: StringHashMap<Option<String>> = StringHashMap::new();
        let cache = UsersCache { logins, ids };
        assert(cache@.logins =~= Map::empty());
        assert(cache@.ids =~= Map::empty());
        cache
    }

    /// What is remembered of an id: its login, that there is no such user, or nothing.
    pub fn get_login(&self, id: &str) -> (login: Option<Option<String>>)
        ensures
            match login {
                Some(login) => self@.logins.contains_pair(id@, text(login)),
                None => !self@.logins.contains_key(id@),
            },
            self@.consistent(),
    {
        proof {
            use_type_invariant(self);
        }
        match self.logins.get(id) {
            Some(login) => Some(login.clone()),
            None => None,
        }
    }

    /// What is remembered of a login: its id, that there is no such user, or nothing.
    pub fn get_id(&self, login: &str) -> (id: Option<Option<String>>)
        ensures
            match id {
                Some(id) => self@.ids.contains_pair(login@, text(id)),
                None => !self@.ids.contains_key(login@),
            },
            self@.consistent(),
    {
        proof {
            use_type_invariant(self);
        }
        match self.ids.get(login) {
            Some(id) => Some(id.clone()),
            None => None,
        }
    }

    /// Remembers the id and the login of a user.
    pub fn insert(&mut self, id: String, login: String)
        ensures
            final(self)@ == old(self)@.told(Some(id@), Some(login@)),
            old(self)@.consistent(),
            final(self)@.consistent(),
    {
        self.insert_optional(Some(id), Some(login));
    }

    /// Remembers the id and the login of a user, or, where only one of them is given, that no
    /// user has it.
    pub fn insert_optional(&mut self, id: Option<String>, login: Option<String>)
        ensures
            final(self)@ == old(self)@.told(text(id), text(login)),
            old(self)@.consistent(),
            final(self)@.consistent(),
    {
        proof {
            use_type_invariant(&*self);
            law_cache_stays_consistent(self@, text(id), text(login));
        }
        let mut cache = UsersCache::new();
        std::mem::swap(self, &mut cache);
        let UsersCache { logins, ids } = cache;
        let mut logins = logins;
        let mut ids = ids;
        match &id {
            Some(known) => {
                logins.insert(known.clone(), login.clone());
            },
            None => {},
        }
        match &login {
            Some(known) => {
                ids.insert(known.clone(), id.clone());
            },
            None => {},
        }
        let ghost told = old(self)@.told(text(id), text(login));
        assert(logins@.map_values(|login: Option<String>| text(login)) =~= told.logins);
        assert(ids@.map_values(|id: Option<String>| text(id)) =~= told.ids);
        *self = UsersCache { logins, ids };
    }
}

/// The users of a map are listed by exactly those sequences that hold a user if and only if the
/// map has their id with their login, and no id twice.
pub proof fn law_lists_of_users_are_complete(users: Seq<User>, map: Map<Seq<char>, Seq<char>>)
    ensures
        ({
            let ids = Seq::new(users.len(), |i: int| users[i].id@);
            lists_users(users, map) <==> ids.no_duplicates() && ids.to_set() == map.dom()
                && forall|i: int|
                0 <= i < users.len() ==> map[(#[trigger] users[i]).id@] == users[i].login@
        }),
{
    let ids = Seq::new(users.len(), |i: int| users[i].id@);
    if lists_users(users, map) {
        assert forall|id: Seq<char>| map.dom().contains(id) == ids.contains(id) by {
            if map.contains_key(id) {
                let i = choose|i: int| 0 <= i < users.len() && users[i].id@ == id;
                assert(ids[i] == id);
            }
            if ids.contains(id) {
                let i = choose|i: int| 0 <= i < ids.len() && ids[i] == id;
                assert(map.contains_pair(users[i].id@, users[i].login@));
            }
        }
        assert(ids.to_set() =~= map.dom());
        assert forall|i: int| 0 <= i < users.len() implies map[(#[trigger] users[i]).id@]
            == users[i].login@ by {
            assert(map.contains_pair(users[i].id@, users[i].login@));
        }
    }
    if ids.no_duplicates() && ids.to_set() == map.dom() && (forall|i: int|
        0 <= i < users.len() ==> map[(#[trigger] users[i]).id@] == users[i].login@) {
        assert forall|i: int, j: int| 0 <= i < j < users.len() implies users[i].id@
            != users[j].id@ by {
            assert(ids[i] != ids[j]);
        }
        assert forall|i: int| 0 <= i < users.len() implies map.contains_pair(
            (#[trigger] users[i]).id@,
            users[i].login@,
        ) by {
            assert(ids.to_set().contains(ids[i]));
        }
        assert forall|id: Seq<char>| #[trigger] map.contains_key(id) implies exists|i: int|
            0 <= i < users.len() && users[i].id@ == id by {
            assert(ids.contains(id));
            let i = choose|i: int| 0 <= i < ids.len() && ids[i] == id;
            assert(users[i].id@ == id);
        }
    }
}

/// What a cache is told it remembers, of an id and a login as those of one user, and of one of
/// them alone as that of nobody; of every other id and every other login it remembers what it
/// did.
pub proof fn law_what_is_told_is_remembered(
    cache: CacheView,
    id: Seq<char>,
    login: Seq<char>,
    other_id: Seq<char>,
    other_login: Seq<char>,
)
    requires
        other_id != id,
        other_login != login,
    ensures
        ({
            let both = cache.told(Some(id), Some(login));
            let no_login = cache.told(Some(id), None);
            let no_id = cache.told(None, Some(login));
            &&& both.logins.contains_pair(id, Some(login)) && both.ids.contains_pair(
                login,
                Some(id),
            )
            &&& no_login.logins.contains_pair(id, None::<Seq<char>>) && no_login.ids == cache.ids
            &&& no_id.ids.contains_pair(login, None::<Seq<char>>) && no_id.logins == cache.logins
            &&& cache.told(None, None) == cache
            &&& both.logins.contains_key(other_id) == cache.logins.contains_key(other_id)
            &&& both.logins[other_id] == cache.logins[other_id]
            &&& both.ids.contains_key(other_login) == cache.ids.contains_key(other_login)
            &&& both.ids[other_login] == cache.ids[other_login]
            &&& no_login.logins.contains_key(other_id) == cache.logins.contains_key(other_id)
            &&& no_login.logins[other_id] == cache.logins[other_id]
            &&& no_id.ids.contains_key(other_login) == cache.ids.contains_key(other_login)
            &&& no_id.ids[other_login] == cache.ids[other_login]
        }),
{
}

/// The text of an optional string is that of the string, where there is one.
pub proof fn law_texts_of_optional_strings(string: String)
    ensures
        text(Some(string)) == Some(string@),
        text(None) is None,
{
}

/// An empty cache remembers nothing of anyone.
pub proof fn law_empty_caches_remember_nothing(text: Seq<char>)
    ensures
        !CacheView::empty().logins.contains_key(text),
        !CacheView::empty().ids.contains_key(text),
{
}

} // verus!

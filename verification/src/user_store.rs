//! The server's table of registered users.

use vstd::prelude::*;
use dashmap::DashMap;
use crate::text::str_eq;

verus! {

#[verifier::external_type_specification]
#[verifier::external_body]
#[verifier::reject_recursive_types(K)]
#[verifier::reject_recursive_types(V)]
#[verifier::reject_recursive_types(S)]
pub struct ExDashMap<K, V, S>(DashMap<K, V, S>);

/// A registered user.
pub struct User {
    pub id: u64,
    pub username: String,
    pub password: String,
}

impl View for User {
    /// Id, name and password.
    type V = (u64, Seq<char>, Seq<char>);

    open spec fn view(&self) -> (u64, Seq<char>, Seq<char>) {
        (self.id, self.username@, self.password@)
    }
}

impl Clone for User {
    fn clone(&self) -> (r: Self)
        ensures
            r@ == self@,
    {
        User { id: self.id, username: self.username.clone(), password: self.password.clone() }
    }
}

/// What a map of users holds: each user by name, as id, name and password.
pub uninterp spec fn user_entries(m: DashMap<String, User>) -> Map<Seq<char>, (u64, Seq<char>, Seq<char>)>;

/// The table with no users.
pub open spec fn no_users() -> Map<Seq<char>, (u64, Seq<char>, Seq<char>)> {
    Map::empty()
}

/// `DashMap::new`: an empty map.
#[verifier::external_body]
fn user_map_new() -> (r: DashMap<String, User>)
    ensures
        user_entries(r) == no_users(),
{
    DashMap::new()
}

/// `DashMap::get`: the id, name and password of the user stored under
/// `key`, if any, with the two strings copied out.
#[verifier::external_body]
fn user_map_get(m: &DashMap<String, User>, key: &str) -> (r: Option<(u64, String, String)>)
    ensures
        r is Some <==> user_entries(*m).dom().contains(key@),
        r matches Some((id, name, password)) ==> (id, name@, password@) == user_entries(*m)[key@],
{
    match m.get(key) {
        Some(entry) => Some((entry.id, entry.username.clone(), entry.password.clone())),
        None => None,
    }
}

/// `DashMap::len`: the number of keys.
#[verifier::external_body]
fn user_map_len(m: &DashMap<String, User>) -> (r: usize)
    ensures
        r == user_entries(*m).dom().len(),
{
    m.len()
}

/// `DashMap::contains_key`: whether `key` is in the map.
#[verifier::external_body]
fn user_map_contains(m: &DashMap<String, User>, key: &str) -> (r: bool)
    ensures
        r == user_entries(*m).dom().contains(key@),
{
    m.contains_key(key)
}

/// The table that inserting `users` in order into `start` gives; a later
/// user replaces an earlier one of the same name.
pub open spec fn insert_all(
    start: Map<Seq<char>, (u64, Seq<char>, Seq<char>)>,
    users: Seq<(u64, Seq<char>, Seq<char>)>,
) -> Map<Seq<char>, (u64, Seq<char>, Seq<char>)>
    decreases users.len(),
{
    if users.len() == 0 {
        start
    } else {
        insert_all(start, users.drop_last()).insert(users.last().1, users.last())
    }
}

/// Registered users by name.
pub struct UserRegistry {
    users: DashMap<String, User>,
}

impl UserRegistry {
    #[verifier::type_invariant]
    spec fn finitely_many(&self) -> bool {
        user_entries(self.users).dom().finite()
    }

    /// The users by name.
    pub closed spec fn table(&self) -> Map<Seq<char>, (u64, Seq<char>, Seq<char>)> {
        user_entries(self.users)
    }

    /// A registry holding `users`, entered in order, so that of two users
    /// with one name the later one stays.
    pub fn new(users: Vec<User>) -> (r: UserRegistry)
        ensures
            r.table() == insert_all(no_users(), users@.map_values(|u: User| u@)),
            r.table().dom().finite(),
    {
        let mut reg = UserRegistry { users: user_map_new() };
        let ghost views = users@.map_values(|u: User| u@);
        let mut i: usize = 0;
        while i < users.len()
            invariant
                0 <= i <= users.len(),
                views == users@.map_values(|u: User| u@),
                reg.table() == insert_all(no_users(), views.take(i as int)),
            decreases users.len() - i,
        {
            reg.insert(users[i].clone());
            proof {
                assert(views.take(i + 1).drop_last() =~= views.take(i as int));
            }
            i = i + 1;
        }
        proof {
            assert(views.take(users.len() as int) =~= views);
        }
        proof {
            use_type_invariant(&reg);
        }
        reg
    }

    /// `DashMap::insert` on the registry's map: the key now maps to the value;
    /// other keys keep theirs.
    #[verifier::external_body]
    fn insert_entry(&mut self, key: String, value: User)
        ensures
            final(self).table() == old(self).table().insert(key@, value@),
    {
        self.users.insert(key, value);
    }

    /// Enters `user` under its name, replacing any user of that name.
    pub fn insert(&mut self, user: User)
        ensures
            final(self).table() == old(self).table().insert(user.username@, user@),
    {
        proof {
            use_type_invariant(&*self);
        }
        let key = user.username.clone();
        self.insert_entry(key, user);
    }

    /// The user of this name, if any.
    pub fn get_by_username(&self, username: &str) -> (r: Option<User>)
        ensures
            r is Some <==> self.table().dom().contains(username@),
            r matches Some(u) ==> u@ == self.table()[username@],
    {
        match user_map_get(&self.users, username) {
            Some((id, username, password)) => Some(User { id, username, password }),
            None => None,
        }
    }

    /// The number of registered users.
    pub fn count(&self) -> (r: usize)
        ensures
            self.table().dom().finite(),
            r == self.table().dom().len(),
    {
        proof {
            use_type_invariant(self);
        }
        user_map_len(&self.users)
    }

    /// Whether a user of this name is registered.
    pub fn contains(&self, username: &str) -> (r: bool)
        ensures
            r == self.table().dom().contains(username@),
    {
        user_map_contains(&self.users, username)
    }
}

/// A table of users: each user by name, as id, name and password.
pub type UserTable = Map<Seq<char>, (u64, Seq<char>, Seq<char>)>;

/// What registering `username` with `password` answers: the next id, one
/// more than the number of users, or a refusal where the name is taken.
pub open spec fn register_result(users: UserTable, username: Seq<char>) -> Result<u64, Seq<char>> {
    if users.dom().contains(username) {
        Err("User already exists"@)
    } else {
        Ok((users.dom().len() + 1) as u64)
    }
}

/// The table after registering `username` with `password`.
pub open spec fn register_table(users: UserTable, username: Seq<char>, password: Seq<char>) -> UserTable {
    match register_result(users, username) {
        Ok(id) => users.insert(username, (id, username, password)),
        Err(_) => users,
    }
}

/// What logging in as `username` with `password` answers.
pub open spec fn login_result(users: UserTable, username: Seq<char>, password: Seq<char>) -> Result<u64, Seq<char>> {
    if !users.dom().contains(username) {
        Err("User not found"@)
    } else if users[username].2 == password {
        Ok(users[username].0)
    } else {
        Err("Invalid password"@)
    }
}

/// What looking up `username` answers.
pub open spec fn lookup_result(users: UserTable, username: Seq<char>) -> Result<u64, Seq<char>> {
    if users.dom().contains(username) {
        Ok(users[username].0)
    } else {
        Err("User not found"@)
    }
}

/// A result with its error text taken by its characters.
pub open spec fn result_text(r: Result<u64, String>) -> Result<u64, Seq<char>> {
    match r {
        Ok(id) => Ok(id),
        Err(e) => Err(e@),
    }
}

/// The user that registering `username` with `password` adds, if any.
pub open spec fn register_added(users: UserTable, username: Seq<char>, password: Seq<char>) -> Seq<
    (u64, Seq<char>, Seq<char>),
> {
    match register_result(users, username) {
        Ok(id) => seq![(id, username, password)],
        Err(_) => Seq::empty(),
    }
}

/// The views of a list of users.
pub open spec fn user_views(users: Seq<User>) -> Seq<(u64, Seq<char>, Seq<char>)> {
    users.map_values(|u: User| u@)
}

/// The server's store of users: registration, login and lookup by name.
/// Each newly registered user also waits in a queue until the caller takes
/// it to be written to disk.
pub struct UserStore {
    registry: UserRegistry,
    unsaved: Vec<User>,
}

impl UserStore {
    /// The users by name.
    pub closed spec fn users(&self) -> UserTable {
        self.registry.table()
    }

    /// The registered users not yet taken to be written to disk, oldest first.
    pub closed spec fn unsaved(&self) -> Seq<(u64, Seq<char>, Seq<char>)> {
        user_views(self.unsaved@)
    }

    /// A store of `users` (as read from disk), entered in order.
    pub fn new(users: Vec<User>) -> (r: UserStore)
        ensures
            r.users() == insert_all(no_users(), users@.map_values(|u: User| u@)),
            r.users().dom().finite(),
            r.unsaved() == Seq::<(u64, Seq<char>, Seq<char>)>::empty(),
    {
        let r = UserStore { registry: UserRegistry::new(users), unsaved: Vec::new() };
        assert(r.unsaved() =~= Seq::<(u64, Seq<char>, Seq<char>)>::empty());
        r
    }

    /// The number of registered users.
    pub fn count(&self) -> (r: usize)
        ensures
            r == self.users().dom().len(),
            self.users().dom().finite(),
    {
        self.registry.count()
    }

    /// Takes the registered users that wait to be written to disk, oldest
    /// first; none wait afterwards.
    pub fn take_unsaved(&mut self) -> (r: Vec<User>)
        ensures
            user_views(r@) == old(self).unsaved(),
            final(self).unsaved() == Seq::<(u64, Seq<char>, Seq<char>)>::empty(),
            final(self).users() == old(self).users(),
    {
        let mut taken: Vec<User> = Vec::new();
        std::mem::swap(&mut taken, &mut self.unsaved);
        assert(self.unsaved() =~= Seq::<(u64, Seq<char>, Seq<char>)>::empty());
        taken
    }

    /// Registers a new user under the next id, one more than the number of
    /// users; a taken name is refused and the store left as it was.
    pub fn register(&mut self, username: String, password: String) -> (r: Result<u64, String>)
        requires
            !old(self).users().dom().contains(username@) ==> old(self).users().dom().len() < u64::MAX,
        ensures
            result_text(r) == register_result(old(self).users(), username@),
            final(self).users() == register_table(old(self).users(), username@, password@),
            final(self).unsaved() == old(self).unsaved() + register_added(old(self).users(), username@, password@),
            final(self).users().dom().finite(),
    {
        proof {
            use_type_invariant(&self.registry);
        }
        if self.registry.contains(username.as_str()) {
            assert(self.unsaved() =~= old(self).unsaved() + Seq::empty());
            return Err(String::from_str("User already exists"));
        }
        let id = (self.registry.count() as u64) + 1;
        let user = User { id, username, password };
        let saved = user.clone();
        self.registry.insert(user);
        self.unsaved.push(saved);
        assert(self.unsaved() =~= old(self).unsaved() + seq![saved@]);
        Ok(id)
    }

    /// The id of the user of this name, if `password` is theirs.
    pub fn login(&self, username: &str, password: &str) -> (r: Result<u64, String>)
        ensures
            result_text(r) == login_result(self.users(), username@, password@),
    {
        match self.registry.get_by_username(username) {
            Some(user) => {
                if str_eq(user.password.as_str(), password) {
                    Ok(user.id)
                } else {
                    Err(String::from_str("Invalid password"))
                }
            },
            None => Err(String::from_str("User not found")),
        }
    }

    /// The id of the user of this name.
    pub fn lookup(&self, username: &str) -> (r: Result<u64, String>)
        ensures
            result_text(r) == lookup_result(self.users(), username@),
    {
        match self.registry.get_by_username(username) {
            Some(user) => Ok(user.id),
            None => Err(String::from_str("User not found")),
        }
    }
}

/// Registering a free name gives the next id, one more than the number of
/// users, and queues that user to be written to disk; afterwards the table
/// has one more user, logging in with that name
/// and password gives the same id, and looking the name up gives it too.
pub proof fn lemma_register_then_login(users: UserTable, username: Seq<char>, password: Seq<char>)
    requires
        users.dom().finite(),
        !users.dom().contains(username),
        users.dom().len() < u64::MAX,
    ensures
        ({
            let id = (users.dom().len() + 1) as u64;
            let after = register_table(users, username, password);
            &&& register_result(users, username) == Ok::<u64, Seq<char>>(id)
            &&& register_added(users, username, password) == seq![(id, username, password)]
            &&& after.dom().len() == users.dom().len() + 1
            &&& login_result(after, username, password) == Ok::<u64, Seq<char>>(id)
            &&& lookup_result(after, username) == Ok::<u64, Seq<char>>(id)
        }),
{
}

/// Registering a name that is taken is refused and changes nothing; a
/// second registration of a name is therefore always refused.
pub proof fn lemma_register_taken_name(
    users: UserTable,
    username: Seq<char>,
    password: Seq<char>,
    other_password: Seq<char>,
)
    requires
        users.dom().finite(),
        users.dom().len() < u64::MAX,
    ensures
        users.dom().contains(username) ==> register_result(users, username) == Err::<u64, Seq<char>>(
            "User already exists"@,
        ) && register_table(users, username, password) == users,
        register_result(register_table(users, username, other_password), username) == Err::<
            u64,
            Seq<char>,
        >("User already exists"@),
{
}

/// Logging in with a password other than the registered one is refused as
/// an invalid password, and logging in as an unknown name as not found.
pub proof fn lemma_login_refusals(users: UserTable, username: Seq<char>, password: Seq<char>)
    ensures
        !users.dom().contains(username) ==> login_result(users, username, password) == Err::<
            u64,
            Seq<char>,
        >("User not found"@),
        users.dom().contains(username) && users[username].2 != password ==> login_result(
            users,
            username,
            password,
        ) == Err::<u64, Seq<char>>("Invalid password"@),
{
}

/// Whether the users' ids are exactly 1 to the number of users, each user
/// filed under its own name.
pub open spec fn ids_dense(users: UserTable) -> bool {
    &&& users.dom().finite()
    &&& forall|u: Seq<char>| #[trigger]
        users.dom().contains(u) ==> 1 <= users[u].0 <= users.dom().len() && users[u].1 == u
    &&& forall|u: Seq<char>, v: Seq<char>|
        #![trigger users.dom().contains(u), users.dom().contains(v)]
        users.dom().contains(u) && users.dom().contains(v) && u != v ==> users[u].0 != users[v].0
}

/// Registration keeps the ids exactly 1 to the number of users: where they
/// are 1..n, registering a free name gives it n + 1, leaves every other user
/// as it was, and the ids are then 1..n+1, all distinct.
pub proof fn lemma_register_keeps_ids_dense(users: UserTable, username: Seq<char>, password: Seq<char>)
    requires
        ids_dense(users),
        !users.dom().contains(username),
        users.dom().len() < u64::MAX,
    ensures
        register_result(users, username) == Ok::<u64, Seq<char>>((users.dom().len() + 1) as u64),
        ids_dense(register_table(users, username, password)),
        register_table(users, username, password).dom().len() == users.dom().len() + 1,
        forall|v: Seq<char>| #[trigger]
            users.dom().contains(v) ==> register_table(users, username, password)[v] == users[v],
{
    let after = register_table(users, username, password);
    let n = users.dom().len();
    assert(after.dom().len() == n + 1);
    assert forall|u: Seq<char>| #[trigger]
        after.dom().contains(u) implies 1 <= after[u].0 <= after.dom().len() && after[u].1 == u by {
        if u != username {
            assert(users.dom().contains(u));
        }
    }
    assert forall|u: Seq<char>, v: Seq<char>|
        after.dom().contains(u) && after.dom().contains(v) && u != v implies after[u].0 != after[v].0 by {
        if u != username && v != username {
            assert(users.dom().contains(u) && users.dom().contains(v));
        } else if u == username {
            assert(users.dom().contains(v));
        } else {
            assert(users.dom().contains(u));
        }
    }
}

/// The names in `users`.
pub open spec fn names_of(users: Seq<(u64, Seq<char>, Seq<char>)>) -> Set<Seq<char>> {
    Set::new(|name: Seq<char>| exists|k: int| 0 <= k < users.len() && users[k].1 == name)
}

/// Whether no later user in `users` has the name of the one at `k`.
pub open spec fn last_of_name(users: Seq<(u64, Seq<char>, Seq<char>)>, k: int) -> bool {
    forall|j: int| k < j < users.len() ==> #[trigger] users[j].1 != users[k].1
}

/// Loading users into an empty table files each under its name: the table
/// holds exactly their names, under each name the last user of that name,
/// and, where no two users share a name, as many users as were loaded.
pub proof fn lemma_loaded_table(users: Seq<(u64, Seq<char>, Seq<char>)>)
    ensures
        insert_all(no_users(), users).dom() == names_of(users),
        insert_all(no_users(), users).dom().finite(),
        forall|k: int| 0 <= k < users.len() && last_of_name(users, k) ==> #[trigger] insert_all(
            no_users(),
            users,
        )[users[k].1] == users[k],
        (forall|i: int, j: int| 0 <= i < j < users.len() ==> users[i].1 != users[j].1) ==> insert_all(
            no_users(),
            users,
        ).dom().len() == users.len(),
    decreases users.len(),
{
    let t = insert_all(no_users(), users);
    if users.len() == 0 {
        assert(t.dom() =~= names_of(users));
    } else {
        let prev = users.drop_last();
        lemma_loaded_table(prev);
        let last = users.last();
        assert forall|name: Seq<char>| t.dom().contains(name) <==> names_of(users).contains(name) by {
            if names_of(users).contains(name) {
                let k = choose|k: int| 0 <= k < users.len() && users[k].1 == name;
                if k < users.len() - 1 {
                    assert(prev[k].1 == name);
                    assert(names_of(prev).contains(name));
                }
            }
            if t.dom().contains(name) && name != last.1 {
                assert(names_of(prev).contains(name));
                let k = choose|k: int| 0 <= k < prev.len() && prev[k].1 == name;
                assert(users[k].1 == name);
            }
        }
        assert(t.dom() =~= names_of(users));
        assert forall|k: int| 0 <= k < users.len() && last_of_name(users, k) implies #[trigger] t[users[k].1]
            == users[k] by {
            if k < users.len() - 1 {
                assert(users[users.len() - 1].1 != users[k].1);
                assert(last_of_name(prev, k)) by {
                    assert forall|j: int| k < j < prev.len() implies #[trigger] prev[j].1 != prev[k].1 by {
                        assert(users[j].1 != users[k].1);
                    }
                }
                assert(prev[k] == users[k]);
            }
        }
        if forall|i: int, j: int| 0 <= i < j < users.len() ==> users[i].1 != users[j].1 {
            assert forall|i: int, j: int| 0 <= i < j < prev.len() implies prev[i].1 != prev[j].1 by {
                assert(users[i].1 != users[j].1);
            }
            assert(!insert_all(no_users(), prev).dom().contains(last.1)) by {
                if insert_all(no_users(), prev).dom().contains(last.1) {
                    let k = choose|k: int| 0 <= k < prev.len() && prev[k].1 == last.1;
                    assert(users[k].1 != users[users.len() - 1].1);
                }
            }
        }
    }
}

/// A store loaded from `users` with distinct names gives the next
/// registration of a new name the id one past the number of users loaded.
pub proof fn lemma_first_id_after_load(users: Seq<(u64, Seq<char>, Seq<char>)>, username: Seq<char>)
    requires
        forall|i: int, j: int| 0 <= i < j < users.len() ==> users[i].1 != users[j].1,
        !names_of(users).contains(username),
        users.len() < u64::MAX,
    ensures
        register_result(insert_all(no_users(), users), username) == Ok::<u64, Seq<char>>(
            (users.len() + 1) as u64,
        ),
{
    lemma_loaded_table(users);
}

} // verus!

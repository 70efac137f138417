use vstd::prelude::*;
use std::collections::HashMap;
use std::collections::HashSet;
use vstd::std_specs::iter::IteratorSpec;
use crate::connection::ConnectionType;

verus! {

broadcast use vstd::std_specs::hash::group_hash_axioms;

/// The environment a user's client runs in.
#[derive(Debug, Copy, Clone, PartialEq, Eq, Structural)]
pub enum EnvType {
    /// A non-WASM client.
    Native,
    /// A WASM client.
    Wasm,
}

/// What a connected user is currently doing.
#[derive(Debug, Copy, Clone, PartialEq, Eq, Structural)]
pub enum UserState {
    /// Not in a lobby or game.
    Idle,
    /// Member of a lobby.
    InLobby(u64),
    /// Member of a lobby that is waiting for acks before launching.
    InPendingLobby(u64),
    /// Playing a game.
    InGame(u64),
}

/// Information about one connected user.
#[derive(Debug, Copy, Clone, PartialEq, Eq, Structural)]
pub struct UserInfo {
    /// this user's environment type
    env_type: EnvType,
    /// this user's connection type
    connection: ConnectionType,
    /// this user's state
    user_state: UserState,
}

impl UserInfo {
    pub closed spec fn spec_env_type(self) -> EnvType {
        self.env_type
    }

    pub closed spec fn spec_connection(self) -> ConnectionType {
        self.connection
    }

    pub closed spec fn spec_user_state(self) -> UserState {
        self.user_state
    }

    /// The same info with another connection type.
    pub closed spec fn with_connection(self, connection: ConnectionType) -> UserInfo {
        UserInfo { connection, ..self }
    }

    /// The same info with another user state.
    pub closed spec fn with_state(self, user_state: UserState) -> UserInfo {
        UserInfo { user_state, ..self }
    }

    /// `with_connection` changes the connection type and nothing else.
    pub proof fn lemma_with_connection(self, connection: ConnectionType)
        ensures
            self.with_connection(connection).spec_connection() == connection,
            self.with_connection(connection).spec_env_type() == self.spec_env_type(),
            self.with_connection(connection).spec_user_state() == self.spec_user_state(),
    {
    }

    /// `with_state` changes the user state and nothing else.
    pub proof fn lemma_with_state(self, user_state: UserState)
        ensures
            self.with_state(user_state).spec_user_state() == user_state,
            self.with_state(user_state).spec_env_type() == self.spec_env_type(),
            self.with_state(user_state).spec_connection() == self.spec_connection(),
    {
    }

    /// A new user starts out idle.
    pub fn new(env_type: EnvType, connection: ConnectionType) -> (r: Self)
        ensures
            r.spec_env_type() == env_type,
            r.spec_connection() == connection,
            r.spec_user_state() == UserState::Idle,
    {
        UserInfo { env_type, connection, user_state: UserState::Idle }
    }

    pub fn env_type(&self) -> (r: EnvType)
        ensures
            r == self.spec_env_type(),
    {
        self.env_type
    }

    pub fn connection(&self) -> (r: ConnectionType)
        ensures
            r == self.spec_connection(),
    {
        self.connection
    }

    pub fn user_state(&self) -> (r: UserState)
        ensures
            r == self.spec_user_state(),
    {
        self.user_state
    }

    /// An idle native user, for tests.
    pub fn test() -> (r: Self)
        ensures
            r.spec_env_type() == EnvType::Native,
            r.spec_connection() == ConnectionType::Native,
            r.spec_user_state() == UserState::Idle,
    {
        UserInfo { env_type: EnvType::Native, connection: ConnectionType::Native, user_state: UserState::Idle }
    }
}

/// Tracks the state of connected users.
#[derive(Debug)]
pub struct UsersCache {
    users: HashMap<u128, UserInfo>,
}

/// The info stored for a new user: in-memory connections are served as native ones.
pub open spec fn admitted_info(info: UserInfo) -> UserInfo {
    if info.spec_connection() == ConnectionType::Memory {
        info.with_connection(ConnectionType::Native)
    } else {
        info
    }
}

/// `m` with every user of `ids` that it holds moved to state `st`.
pub open spec fn users_with_state(m: Map<u128, UserInfo>, ids: Set<u128>, st: UserState) -> Map<u128, UserInfo> {
    Map::new(
        |k: u128| m.contains_key(k),
        |k: u128| if ids.contains(k) { m[k].with_state(st) } else { m[k] },
    )
}

/// The ids of `ids` that `m` does not hold.
pub open spec fn unknown_users(m: Map<u128, UserInfo>, ids: Set<u128>) -> Set<u128> {
    ids.filter(|k: u128| !m.contains_key(k))
}

impl View for UsersCache {
    type V = Map<u128, UserInfo>;

    closed spec fn view(&self) -> Map<u128, UserInfo> {
        self.users@
    }
}

impl UsersCache {
    /// An empty cache.
    pub fn new() -> (r: Self)
        ensures
            r@ == Map::<u128, UserInfo>::empty(),
    {
        UsersCache { users: HashMap::new() }
    }

    /// Add a user.
    /// - Returns `Err(())` if the user already exists, and leaves the cache as it was.
    pub fn add_user(&mut self, user_id: u128, user_info: UserInfo) -> (r: Result<(), ()>)
        ensures
            old(self)@.contains_key(user_id) ==> r is Err && final(self)@ == old(self)@,
            !old(self)@.contains_key(user_id) ==> {
                &&& r is Ok
                &&& final(self)@ == old(self)@.insert(user_id, admitted_info(user_info))
                &&& final(self)@[user_id].spec_env_type() == user_info.spec_env_type()
                &&& final(self)@[user_id].spec_user_state() == user_info.spec_user_state()
                &&& final(self)@[user_id].spec_connection() == (if user_info.spec_connection() == ConnectionType::Memory {
                    ConnectionType::Native
                } else {
                    user_info.spec_connection()
                })
            },
    {
        if self.users.contains_key(&user_id) {
            return Err(());
        }
        let mut user_info = user_info;
        if user_info.connection == ConnectionType::Memory {
            user_info.connection = ConnectionType::Native;
        }
        self.users.insert(user_id, user_info);
        Ok(())
    }

    /// Remove a user.
    /// - Returns `Err(())` if the user does not exist.
    pub fn remove_user(&mut self, user_id: u128) -> (r: Result<(), ()>)
        ensures
            final(self)@ == old(self)@.remove(user_id),
            r is Err <==> !old(self)@.contains_key(user_id),
    {
        match self.users.remove(&user_id) {
            Some(_) => Ok(()),
            None => Err(()),
        }
    }

    /// Update a user to have a new state.
    /// - Returns `Err(())` if the user does not exist.
    pub fn update_user_state(&mut self, user_id: u128, new_state: UserState) -> (r: Result<(), ()>)
        ensures
            old(self)@.contains_key(user_id) ==> final(self)@ == old(self)@.insert(
                user_id,
                old(self)@[user_id].with_state(new_state),
            ),
            old(self)@.contains_key(user_id) ==> {
                &&& final(self)@[user_id].spec_user_state() == new_state
                &&& final(self)@[user_id].spec_env_type() == old(self)@[user_id].spec_env_type()
                &&& final(self)@[user_id].spec_connection() == old(self)@[user_id].spec_connection()
            },
            !old(self)@.contains_key(user_id) ==> final(self)@ == old(self)@,
            r is Err <==> !old(self)@.contains_key(user_id),
    {
        let info = match self.users.get(&user_id) {
            Some(info) => *info,
            None => { return Err(()); },
        };
        let mut updated = info;
        updated.user_state = new_state;
        self.users.insert(user_id, updated);
        Ok(())
    }

    /// Update a set of users to have a new state.
    /// - Returns `Err(num missed)` if any of the users do not exist.
    pub fn set_user_states(&mut self, user_ids: &HashSet<u128>, new_state: UserState) -> (r: Result<(), u16>)
        requires
            unknown_users(old(self)@, user_ids@).len() <= u16::MAX,
        ensures
            final(self)@ == users_with_state(old(self)@, user_ids@, new_state),
            match r {
                Ok(()) => unknown_users(old(self)@, user_ids@).len() == 0,
                Err(n) => n == unknown_users(old(self)@, user_ids@).len() && n > 0,
            },
    {
        let ghost m0 = self.users@;
        let mut found_nonexistent: u16 = 0;
        let ghost mut missing: Set<u128> = Set::empty();
        let ghost unknown = unknown_users(m0, user_ids@);
        let ghost mut done: Set<u128> = Set::empty();
        proof {
            assert(self.users@ =~= users_with_state(m0, Set::empty(), new_state));
            assert(unknown.finite()) by {
                assert(user_ids@.finite()) by {
                    vstd::seq_lib::seq_to_set_is_finite(
                        vstd::std_specs::hash::spec_hash_keys_iter(user_ids).remaining().unref(),
                    );
                }
                assert(unknown.subset_of(user_ids@));
                vstd::set_lib::lemma_len_subset(unknown, user_ids@);
            }
        }
        for user_id in it: user_ids.iter()
            invariant
                it.seq().no_duplicates(),
                it.seq().unref().to_set() == user_ids@,
                unknown == unknown_users(m0, user_ids@),
                unknown.finite(),
                unknown.len() <= u16::MAX,
                done == it.seq().take(it.index()).unref().to_set(),
                done.subset_of(user_ids@),
                missing.subset_of(unknown),
                it.index() == it.seq().len() ==> done == user_ids@,
                missing.finite(),
                missing.len() == found_nonexistent,
                missing == it.seq().take(it.index()).unref().to_set().filter(|k: u128| !m0.contains_key(k)),
                self.users@ == users_with_state(m0, it.seq().take(it.index()).unref().to_set(), new_state),
        {
            let id = *user_id;
            let ghost i = it.index();
            proof {
                assert(it.seq()[i] == user_id);
                assert(it.seq().take(i + 1).unref() =~= it.seq().take(i).unref().push(id));
                it.seq().take(i).unref().lemma_push_to_set_commute(id);
                assert(it.seq().take(i + 1).unref().to_set() =~= done.insert(id));
                assert(!done.contains(id)) by {
                    if done.contains(id) {
                        let j = choose|j: int| 0 <= j < i && it.seq().take(i).unref()[j] == id;
                        assert(it.seq()[j] == it.seq()[i]);
                    }
                }
                assert(it.seq().unref().contains(id)) by {
                    assert(it.seq().unref()[i] == id);
                }
                assert(user_ids@.contains(id));
                assert(self.users@.contains_key(id) == m0.contains_key(id));
            }
            let res = self.update_user_state(id, new_state);
            proof {
                assert(self.users@ =~= users_with_state(m0, done.insert(id), new_state));
            }
            if res.is_err() {
                proof {
                    assert(unknown.contains(id));
                    assert(missing.subset_of(unknown));
                    assert(!missing.contains(id));
                    assert(missing.insert(id).subset_of(unknown));
                    vstd::set_lib::lemma_len_subset(missing.insert(id), unknown);
                    missing = missing.insert(id);
                }
                found_nonexistent += 1;
            }
            proof {
                assert(missing =~= done.insert(id).filter(|k: u128| !m0.contains_key(k)));
                done = done.insert(id);
            }
            assert(i + 1 == it.seq().len() ==> it.seq().take(i + 1) =~= it.seq());
        }
        proof {
            assert(missing =~= unknown);
        }
        if found_nonexistent > 0 {
            return Err(found_nonexistent);
        }
        Ok(())
    }

    /// Get a user's info.
    /// - Returns `None` if the user doesn't exist.
    pub fn get_user_info(&self, user_id: u128) -> (r: Option<&UserInfo>)
        ensures
            match r {
                Some(info) => self@.contains_key(user_id) && *info == self@[user_id],
                None => !self@.contains_key(user_id),
            },
    {
        self.users.get(&user_id)
    }

    /// Get a user's current state.
    /// - Returns `None` if the user doesn't exist.
    pub fn get_user_state(&self, user_id: u128) -> (r: Option<UserState>)
        ensures
            match r {
                Some(st) => self@.contains_key(user_id) && st == self@[user_id].spec_user_state(),
                None => !self@.contains_key(user_id),
            },
    {
        match self.get_user_info(user_id) {
            Some(info) => Some(info.user_state),
            None => None,
        }
    }

    /// Returns true if a user exists.
    pub fn has_user(&self, user_id: u128) -> (r: bool)
        ensures
            r == self@.contains_key(user_id),
    {
        self.users.contains_key(&user_id)
    }
}

/// Adding a user the cache did not hold and then removing it leaves the cache as it was.
pub proof fn lemma_add_then_remove_user_restores(users: Map<u128, UserInfo>, user_id: u128, info: UserInfo)
    requires
        !users.contains_key(user_id),
    ensures
        users.insert(user_id, admitted_info(info)).remove(user_id) == users,
{
    assert(users.insert(user_id, admitted_info(info)).remove(user_id) =~= users);
}

/// A state update reaches exactly the listed users the cache holds: other users keep their info, and every
/// user keeps its environment and connection types.
pub proof fn lemma_set_states_touches_only_listed(
    users: Map<u128, UserInfo>,
    ids: Set<u128>,
    st: UserState,
    user_id: u128,
)
    requires
        users.contains_key(user_id),
    ensures
        users_with_state(users, ids, st).contains_key(user_id),
        !ids.contains(user_id) ==> users_with_state(users, ids, st)[user_id] == users[user_id],
        ids.contains(user_id) ==> users_with_state(users, ids, st)[user_id].spec_user_state() == st,
        users_with_state(users, ids, st)[user_id].spec_env_type() == users[user_id].spec_env_type(),
        users_with_state(users, ids, st)[user_id].spec_connection() == users[user_id].spec_connection(),
{
}

} // verus!

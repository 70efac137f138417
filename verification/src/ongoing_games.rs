use vstd::prelude::*;
use std::collections::HashMap;
use crate::clock::{elapsed_since, instant_now};
use crate::connect::{
    ConnectMetas, ServerConnectToken, MAX_TOKEN_ADDRESSES, source_config, token_from_source,
    source_expiry_fits, source_addresses, token_bytes_of, token_source, token_matches_source,
};
use crate::connection::ConnectionType;
use crate::users_cache::UserInfo;
use crate::clock::time_since_epoch;
use crate::game_instance::GameStartInfo;
use crate::span::Span;
use vstd::std_specs::iter::IteratorSpec;

verus! {

broadcast use vstd::std_specs::hash::group_hash_axioms;

/// A game that is running and waiting for its game-over report.
#[derive(Debug)]
pub struct OngoingGame {
    /// This game's id.
    pub game_id: u64,
    /// Id of game hub hosting this game.
    pub game_hub_id: u128,
    /// Metadata for generating connect tokens for the game.
    pub metas: ConnectMetas,
    /// Game startup information for users (cached in case of reconnections).
    pub start_infos: Vec<GameStartInfo>,
}

/// The ids of a game's users, in the order of its start infos.
pub open spec fn game_users(game: OngoingGame) -> Seq<u128> {
    game.start_infos@.map_values(|info: GameStartInfo| info.user_id)
}

/// Configuration of an ongoing-games cache.
#[derive(Debug, Clone, Copy)]
pub struct OngoingGamesCacheConfig {
    /// Amount of time a game may remain in the cache before it expires.
    pub expiry_duration: Span,
}

/// Tracks ongoing games that are waiting for game over reports.
pub struct OngoingGamesCache {
    /// cache config
    config: OngoingGamesCacheConfig,
    /// cache timer
    timer: std::time::Instant,
    /// the latest reading of the cache timer
    last_reading: Span,
    /// [ game id : (ongoing game, registration timestamp) ]
    games: HashMap<u64, (OngoingGame, Span)>,
    /// [ user id : game id ], for looking up a user's game when they reconnect
    users: HashMap<u128, u64>,
}

/// User `ids[i]` cannot join: it is already in a game, or it appeared earlier in `ids`.
pub open spec fn user_conflict(registered: Set<u128>, ids: Seq<u128>, i: int) -> bool {
    registered.contains(ids[i]) || ids.take(i).contains(ids[i])
}

/// No user of `ids` conflicts.
pub open spec fn users_can_join(registered: Set<u128>, ids: Seq<u128>) -> bool {
    forall|i: int| 0 <= i < ids.len() ==> !#[trigger] user_conflict(registered, ids, i)
}

/// Index `c` is the first conflicting user of `ids`.
pub open spec fn first_conflict_at(registered: Set<u128>, ids: Seq<u128>, c: int) -> bool {
    &&& 0 <= c < ids.len()
    &&& user_conflict(registered, ids, c)
    &&& forall|j: int| 0 <= j < c ==> !#[trigger] user_conflict(registered, ids, j)
}

/// `users` with every user of `ids` mapped to game `game_id`.
pub open spec fn users_joined(users: Map<u128, u64>, ids: Seq<u128>, game_id: u64) -> Map<u128, u64> {
    Map::new(
        |u: u128| users.contains_key(u) || ids.contains(u),
        |u: u128| if ids.contains(u) { game_id } else { users[u] },
    )
}

/// The games map and user map agree: every game is stored under its own id and lists each user once,
/// every user of a game maps to that game, and every mapped user belongs to the game it maps to.
pub open spec fn cache_consistent(games: Map<u64, (OngoingGame, Span)>, users: Map<u128, u64>) -> bool {
    &&& forall|gid: u64| #[trigger] games.contains_key(gid) ==> {
        &&& games[gid].0.game_id == gid
        &&& game_users(games[gid].0).no_duplicates()
    }
    &&& forall|gid: u64, i: int|
        #![trigger games[gid], game_users(games[gid].0)[i]]
        games.contains_key(gid) && 0 <= i < game_users(games[gid].0).len() ==> {
            &&& users.contains_key(game_users(games[gid].0)[i])
            &&& users[game_users(games[gid].0)[i]] == gid
        }
    &&& forall|u: u128| #[trigger] users.contains_key(u) ==> {
        &&& games.contains_key(users[u])
        &&& game_users(games[users[u]].0).contains(u)
    }
}

impl OngoingGamesCache {
    /// The games, keyed by id, with their registration times.
    pub closed spec fn games_view(&self) -> Map<u64, (OngoingGame, Span)> {
        self.games@
    }

    /// The users in games, mapped to their game ids.
    pub closed spec fn users_view(&self) -> Map<u128, u64> {
        self.users@
    }

    pub closed spec fn config_view(&self) -> OngoingGamesCacheConfig {
        self.config
    }

    /// The latest time read from the cache timer (zero before the first reading).
    pub closed spec fn latest_reading(&self) -> Span {
        self.last_reading
    }

    /// No game was registered later than the latest reading of the cache timer.
    pub open spec fn births_bounded(&self) -> bool {
        forall|gid: u64| #[trigger] self.games_view().contains_key(gid)
            ==> self.games_view()[gid].1.total() <= self.latest_reading().total()
    }

    /// Every game is stored under its own id. Unlike `consistent`, no operation can break this.
    pub open spec fn stored_under_own_ids(&self) -> bool {
        forall|gid: u64| #[trigger] self.games_view().contains_key(gid) ==> self.games_view()[gid].0.game_id == gid
    }

    /// The cache's games and users agree.
    pub open spec fn consistent(&self) -> bool {
        cache_consistent(self.games_view(), self.users_view())
    }

    /// Make a new cache.
    pub fn new(config: OngoingGamesCacheConfig) -> (r: OngoingGamesCache)
        ensures
            r.games_view() == Map::<u64, (OngoingGame, Span)>::empty(),
            r.users_view() == Map::<u128, u64>::empty(),
            r.config_view() == config,
            r.consistent(),
            r.stored_under_own_ids(),
            r.latest_reading().total() == 0,
            r.births_bounded(),
    {
        OngoingGamesCache {
            config,
            timer: instant_now(),
            last_reading: Span::zero(),
            games: HashMap::new(),
            users: HashMap::new(),
        }
    }

    /// Reads the cache timer and records the reading. The timer is monotonic, so a reading never comes out
    /// below the one recorded before; should the clock report less, the recorded reading stands.
    fn read_timer(&mut self) -> (r: Span)
        ensures
            r.total() >= old(self).last_reading.total(),
            final(self).last_reading == r,
            final(self).games@ == old(self).games@,
            final(self).users@ == old(self).users@,
            final(self).config == old(self).config,
    {
        let now = elapsed_since(&self.timer);
        let r = if now.at_least(&self.last_reading) { now } else { self.last_reading };
        self.last_reading = r;
        r
    }

    /// Add an ongoing game, registered at the time the cache timer reads now.
    /// - Returns `Err` if the game id is already registered, or if users are already playing a game (a user
    ///   listed twice in the game counts as already playing). A refused game leaves the cache as it was.
    /// - An added game's registration time is the new latest timer reading, which is never below an earlier
    ///   reading, so no game already in the cache was registered later.
    pub fn add_ongoing_game(&mut self, ongoing_game: OngoingGame) -> (r: Result<(), ()>)
        ensures
            ({
                let gid = ongoing_game.game_id;
                let ids = game_users(ongoing_game);
                let games0 = old(self).games_view();
                let users0 = old(self).users_view();
                &&& games0.contains_key(gid) ==> r is Err && final(self).games_view() == games0
                    && final(self).users_view() == users0
                &&& !games0.contains_key(gid) && !users_can_join(users0.dom(), ids) ==> {
                    &&& r is Err
                    &&& final(self).games_view() == games0
                    &&& final(self).users_view() == users0
                }
                &&& !games0.contains_key(gid) && users_can_join(users0.dom(), ids) ==> {
                    &&& r is Ok
                    &&& final(self).games_view().dom() == games0.dom().insert(gid)
                    &&& final(self).games_view().remove(gid) == games0
                    &&& final(self).games_view()[gid].0 == ongoing_game
                    &&& final(self).users_view() == users_joined(users0, ids, gid)
                    &&& final(self).games_view()[gid].1 == final(self).latest_reading()
                    &&& final(self).latest_reading().total() >= old(self).latest_reading().total()
                    &&& old(self).births_bounded() ==> forall|g: u64| #[trigger] games0.contains_key(g)
                        ==> games0[g].1.total() <= final(self).games_view()[gid].1.total()
                }
            }),
            r is Err ==> final(self).latest_reading() == old(self).latest_reading(),
            final(self).config_view() == old(self).config_view(),
            old(self).consistent() ==> final(self).consistent(),
            old(self).stored_under_own_ids() ==> final(self).stored_under_own_ids(),
            old(self).births_bounded() ==> final(self).births_bounded(),
    {
        let ghost games0 = self.games@;
        let ghost users0 = self.users@;
        let ghost ids = game_users(ongoing_game);
        let gid = ongoing_game.game_id;
        if self.games.contains_key(&gid) {
            return Err(());
        }
        let n = ongoing_game.start_infos.len();
        let mut idx: usize = 0;
        while idx < n
            invariant
                n == ongoing_game.start_infos.len(),
                ids == game_users(ongoing_game),
                gid == ongoing_game.game_id,
                idx <= n,
                self.games@ == games0,
                games0 == old(self).games@,
                users0 == old(self).users@,
                !games0.contains_key(gid),
                self.config == old(self).config,
                self.last_reading == old(self).last_reading,
                forall|j: int| 0 <= j < idx ==> !#[trigger] user_conflict(users0.dom(), ids, j),
                self.users@ == users_joined(users0, ids.take(idx as int), gid),
            decreases n - idx,
        {
            let user_id = ongoing_game.start_infos[idx].user_id;
            proof {
                assert(ids[idx as int] == user_id);
            }
            match self.users.insert(user_id, gid) {
                None => {
                    proof {
                        assert(!users0.contains_key(user_id));
                        assert(!ids.take(idx as int).contains(user_id));
                        assert(!user_conflict(users0.dom(), ids, idx as int));
                        assert(ids.take(idx + 1) =~= ids.take(idx as int).push(user_id));
                        let ghost t0 = ids.take(idx as int);
                        let ghost t1 = ids.take(idx + 1);
                        assert forall|u: u128| t1.contains(u) <==> (t0.contains(u) || u == user_id) by {
                            if t1.contains(u) {
                                let j = choose|j: int| 0 <= j < t1.len() && t1[j] == u;
                                if j < idx {
                                    assert(t0[j] == u);
                                }
                            }
                            if t0.contains(u) {
                                let j = choose|j: int| 0 <= j < t0.len() && t0[j] == u;
                                assert(t1[j] == u);
                            }
                            if u == user_id {
                                assert(t1[idx as int] == u);
                            }
                        }
                        assert(self.users@ =~= users_joined(users0, ids.take(idx + 1), gid));
                    }
                },
                Some(prev_game_id) => {
                    proof {
                        assert(user_conflict(users0.dom(), ids, idx as int));
                        assert(first_conflict_at(users0.dom(), ids, idx as int));
                    }
                    self.refuse_game_users(&ongoing_game, idx, prev_game_id, Ghost(users0));
                    proof {
                        assert forall|c: int| first_conflict_at(users0.dom(), ids, c) implies c == idx by {
                            if c < idx {
                            } else if c > idx {
                                assert(!user_conflict(users0.dom(), ids, idx as int));
                            }
                        }
                        assert(!users_can_join(users0.dom(), ids));
                    }
                    return Err(());
                },
            }
            idx = idx + 1;
        }
        proof {
            assert(ids.take(n as int) =~= ids);
            assert(users_can_join(users0.dom(), ids));
        }
        let birth = self.read_timer();
        self.games.insert(gid, (ongoing_game, birth));
        proof {
            assert forall|g: u64| #[trigger] self.games@.contains_key(g) && old(self).births_bounded()
                implies self.games@[g].1.total() <= birth.total() by {
                if g != gid {
                    assert(games0.contains_key(g));
                    assert(self.games@[g] == games0[g]);
                    assert(old(self).games_view().contains_key(g));
                }
            }
            assert(self.games@.remove(gid) =~= games0);
            assert(self.games@.dom() =~= games0.dom().insert(gid));
            assert(ids.no_duplicates()) by {
                assert forall|i: int, j: int| 0 <= i < ids.len() && 0 <= j < ids.len() && i != j implies ids[i] != ids[j] by {
                    if ids[i] == ids[j] {
                        let (lo, hi) = if i < j { (i, j) } else { (j, i) };
                        assert(ids.take(hi)[lo] == ids[lo]);
                        assert(user_conflict(users0.dom(), ids, hi));
                    }
                }
            }
            if cache_consistent(games0, users0) {
                self.lemma_join_consistent(games0, users0, gid);
            }
        }
        Ok(())
    }

    proof fn lemma_join_consistent(&self, games0: Map<u64, (OngoingGame, Span)>, users0: Map<u128, u64>, gid: u64)
        requires
            cache_consistent(games0, users0),
            !games0.contains_key(gid),
            self.games@.contains_key(gid),
            self.games@.remove(gid) == games0,
            self.games@[gid].0.game_id == gid,
            game_users(self.games@[gid].0).no_duplicates(),
            users_can_join(users0.dom(), game_users(self.games@[gid].0)),
            self.users@ == users_joined(users0, game_users(self.games@[gid].0), gid),
        ensures
            cache_consistent(self.games@, self.users@),
    {
        let games = self.games@;
        let users = self.users@;
        let ids = game_users(games[gid].0);
        assert forall|g: u64| #[trigger] games.contains_key(g) && g != gid implies games[g] == games0[g] by {
            assert(games.remove(gid)[g] == games[g]);
        }
        assert forall|u: u128| #[trigger] users.contains_key(u) implies games.contains_key(users[u])
            && game_users(games[users[u]].0).contains(u) by {
            if !ids.contains(u) {
                assert(users0.contains_key(u));
                assert(users[u] == users0[u]);
                assert(users0[u] != gid);
            }
        }
        assert forall|g: u64, i: int|
            #![trigger games[g], game_users(games[g].0)[i]]
            games.contains_key(g) && 0 <= i < game_users(games[g].0).len() implies
                users.contains_key(game_users(games[g].0)[i]) && users[game_users(games[g].0)[i]] == g by {
            if g == gid {
                assert(ids.contains(ids[i]));
            } else {
                let u = game_users(games[g].0)[i];
                assert(games0.contains_key(g));
                assert(games0[g] == games[g]);
                assert(users0.contains_key(u));
                if ids.contains(u) {
                    let k = choose|k: int| 0 <= k < ids.len() && ids[k] == u;
                    assert(!user_conflict(users0.dom(), ids, k));
                }
            }
        }
    }

    /// Undoes the user insertions of a refused game: removes users `0..=idx` of the game, then puts back the
    /// mapping user `idx` had before it was inserted, unless the game listed that user earlier (then the user
    /// had no mapping before the game).
    fn refuse_game_users(&mut self, ongoing_game: &OngoingGame, idx: usize, prev_game_id: u64, Ghost(users0): Ghost<Map<u128, u64>>)
        requires
            idx < ongoing_game.start_infos.len(),
            first_conflict_at(users0.dom(), game_users(*ongoing_game), idx as int),
            ({
                let ids = game_users(*ongoing_game);
                let before = users_joined(users0, ids.take(idx as int), ongoing_game.game_id);
                &&& old(self).users@ == before.insert(ids[idx as int], ongoing_game.game_id)
                &&& before.contains_key(ids[idx as int])
                &&& before[ids[idx as int]] == prev_game_id
            }),
        ensures
            final(self).users@ == users0,
            final(self).games@ == old(self).games@,
            final(self).config == old(self).config,
            final(self).last_reading == old(self).last_reading,
    {
        let ghost ids = game_users(*ongoing_game);
        let ghost gid = ongoing_game.game_id;
        let ghost u2 = self.users@;
        let mut re: usize = 0;
        while re <= idx
            invariant
                idx < ongoing_game.start_infos.len(),
                ids == game_users(*ongoing_game),
                re <= idx + 1,
                self.games@ == old(self).games@,
                self.config == old(self).config,
                self.last_reading == old(self).last_reading,
                self.users@ == u2.remove_keys(ids.take(re as int).to_set()),
            decreases idx + 1 - re,
        {
            let u = ongoing_game.start_infos[re].user_id;
            proof {
                assert(ids[re as int] == u);
                ids.take(re as int).lemma_push_to_set_commute(u);
                assert(ids.take(re + 1) =~= ids.take(re as int).push(u));
            }
            self.users.remove(&u);
            proof {
                assert(self.users@ =~= u2.remove_keys(ids.take(re + 1).to_set()));
            }
            re = re + 1;
        }
        let user_id = ongoing_game.start_infos[idx].user_id;
        let ghost u3 = self.users@;
        let mut repeated = false;
        let mut j: usize = 0;
        while j < idx
            invariant
                j <= idx < ongoing_game.start_infos.len(),
                ids == game_users(*ongoing_game),
                user_id == ids[idx as int],
                repeated == ids.take(j as int).contains(user_id),
                self.users@ == u3,
                self.games@ == old(self).games@,
                self.config == old(self).config,
                self.last_reading == old(self).last_reading,
            decreases idx - j,
        {
            proof {
                assert(ids[j as int] == ongoing_game.start_infos@[j as int].user_id);
                assert(ids.take(j + 1) =~= ids.take(j as int).push(ids[j as int]));
            }
            let ghost t0 = ids.take(j as int);
            let ghost t1 = ids.take(j + 1);
            if ongoing_game.start_infos[j].user_id == user_id {
                repeated = true;
                proof {
                    assert(t1[j as int] == user_id);
                }
            } else {
                proof {
                    if t1.contains(user_id) {
                        let k = choose|k: int| 0 <= k < t1.len() && t1[k] == user_id;
                        assert(k < j);
                        assert(t0[k] == user_id);
                    }
                }
            }
            proof {
                if t0.contains(user_id) {
                    let k = choose|k: int| 0 <= k < t0.len() && t0[k] == user_id;
                    assert(t1[k] == user_id);
                }
            }
            j = j + 1;
        }
        if !repeated {
            self.users.insert(user_id, prev_game_id);
        }
        proof {
            let c = idx as int;
            let t1 = ids.take(c + 1);
            let s = t1.to_set();
            assert(ids[c] == user_id);
            assert forall|j: int| 0 <= j < c implies !users0.contains_key(ids[j]) by {
                assert(!user_conflict(users0.dom(), ids, j));
            }
            assert forall|u: u128| #[trigger] users0.contains_key(u) && u != user_id implies !ids.take(c).contains(u) by {
                if ids.take(c).contains(u) {
                    let j = choose|j: int| 0 <= j < c && ids.take(c)[j] == u;
                    assert(ids.take(c)[j] == ids[j]);
                }
            }
            if users0.contains_key(user_id) {
                assert(!ids.take(c).contains(user_id)) by {
                    if ids.take(c).contains(user_id) {
                        let j = choose|j: int| 0 <= j < c && ids.take(c)[j] == user_id;
                        assert(ids.take(c)[j] == ids[j]);
                    }
                }
                assert(self.users@ =~= users0) by {
                    assert forall|u: u128| #[trigger] s.contains(u) && u != user_id implies !users0.contains_key(u) by {
                        let j = choose|j: int| 0 <= j < t1.len() && t1[j] == u;
                        assert(t1[j] == ids[j]);
                    }
                }
            } else {
                assert(user_conflict(users0.dom(), ids, c));
                assert(repeated);
                assert(self.users@ =~= users0) by {
                    assert forall|u: u128| #[trigger] s.contains(u) implies !users0.contains_key(u) by {
                        let j = choose|j: int| 0 <= j < t1.len() && t1[j] == u;
                        assert(t1[j] == ids[j]);
                    }
                }
            }
        }
    }
}

impl OngoingGamesCache {
    /// Removes the users of `game` from the user map, one by one.
    fn remove_game_users(&mut self, game: &OngoingGame)
        ensures
            final(self).users@ == old(self).users@.remove_keys(game_users(*game).to_set()),
            final(self).games@ == old(self).games@,
            final(self).config == old(self).config,
            final(self).last_reading == old(self).last_reading,
    {
        let ghost ids = game_users(*game);
        let n = game.start_infos.len();
        let mut i: usize = 0;
        while i < n
            invariant
                n == game.start_infos.len(),
                ids == game_users(*game),
                i <= n,
                self.games@ == old(self).games@,
                self.config == old(self).config,
                self.last_reading == old(self).last_reading,
                self.users@ == old(self).users@.remove_keys(ids.take(i as int).to_set()),
            decreases n - i,
        {
            let u = game.start_infos[i].user_id;
            proof {
                assert(ids[i as int] == u);
                ids.take(i as int).lemma_push_to_set_commute(u);
                assert(ids.take(i + 1) =~= ids.take(i as int).push(u));
            }
            self.users.remove(&u);
            proof {
                assert(self.users@ =~= old(self).users@.remove_keys(ids.take(i + 1).to_set()));
            }
            i = i + 1;
        }
        proof {
            assert(ids.take(n as int) =~= ids);
        }
    }

    /// Remove an ongoing game.
    /// - Returns `Err(())` if the game doesn't exist.
    /// - Returns `Ok(ongoing_game)` containing the removed game, and forgets the game's users.
    pub fn remove_ongoing_game(&mut self, game_id: u64) -> (r: Result<OngoingGame, ()>)
        ensures
            !old(self).games_view().contains_key(game_id) ==> r is Err && final(self).games_view()
                == old(self).games_view() && final(self).users_view() == old(self).users_view(),
            old(self).games_view().contains_key(game_id) ==> {
                &&& r matches Ok(g) && g == old(self).games_view()[game_id].0
                &&& final(self).games_view() == old(self).games_view().remove(game_id)
                &&& final(self).users_view() == old(self).users_view().remove_keys(
                    game_users(old(self).games_view()[game_id].0).to_set(),
                )
            },
            final(self).config_view() == old(self).config_view(),
            old(self).consistent() ==> final(self).consistent(),
            old(self).stored_under_own_ids() ==> final(self).stored_under_own_ids(),
            old(self).stored_under_own_ids() ==> (r matches Ok(g) ==> g.game_id == game_id),
            final(self).latest_reading() == old(self).latest_reading(),
            old(self).births_bounded() ==> final(self).births_bounded(),
    {
        let (ongoing_game, _) = match self.games.remove(&game_id) {
            Some(entry) => entry,
            None => { return Err(()); },
        };
        let ghost games1 = self.games@;
        self.remove_game_users(&ongoing_game);
        proof {
            if cache_consistent(old(self).games@, old(self).users@) {
                lemma_remove_consistent(old(self).games@, old(self).users@, game_id);
            }
        }
        Ok(ongoing_game)
    }

    /// Get start infos associated with a game.
    /// - Returns `None` if the game doesn't exist.
    pub fn get_start_infos(&self, game_id: u64) -> (r: Option<&Vec<GameStartInfo>>)
        ensures
            match r {
                Some(infos) => self.games_view().contains_key(game_id)
                    && infos@ == self.games_view()[game_id].0.start_infos@,
                None => !self.games_view().contains_key(game_id),
            },
    {
        match self.games.get(&game_id) {
            Some(entry) => Some(&entry.0.start_infos),
            None => None,
        }
    }
}

/// Index `i` holds the first start info of user `user_id`.
pub open spec fn first_info_of(infos: Seq<GameStartInfo>, user_id: u128, i: int) -> bool {
    &&& 0 <= i < infos.len()
    &&& infos[i].user_id == user_id
    &&& forall|j: int| 0 <= j < i ==> #[trigger] infos[j].user_id != user_id
}

/// The game a user is in, when the user maps to a stored game that lists the user.
pub open spec fn user_game(games: Map<u64, (OngoingGame, Span)>, users: Map<u128, u64>, user_id: u128) -> Option<u64> {
    if users.contains_key(user_id) && games.contains_key(users[user_id])
        && game_users(games[users[user_id]].0).contains(user_id) {
        Some(users[user_id])
    } else {
        None
    }
}

/// A start info with a connect token can be made for `user_id` at time `now`: the user is in a game that
/// lists it, a meta of that game serves `connection` with one to 32 server addresses, and that meta's
/// token expiry at `now` fits in a `u64`.
pub open spec fn start_info_available(
    games: Map<u64, (OngoingGame, Span)>,
    users: Map<u128, u64>,
    user_id: u128,
    connection: ConnectionType,
    now: Span,
) -> bool {
    &&& user_game(games, users, user_id) matches Some(gid)
    &&& token_source(games[gid].0.metas, connection) matches Some(src)
    &&& 1 <= source_addresses(games[gid].0.metas, src).len() <= MAX_TOKEN_ADDRESSES
    &&& source_expiry_fits(games[gid].0.metas, connection, now)
}

/// A start info with a connect token can be made for `user_id` at some time.
pub open spec fn start_info_available_some_time(
    games: Map<u64, (OngoingGame, Span)>,
    users: Map<u128, u64>,
    user_id: u128,
    connection: ConnectionType,
) -> bool {
    exists|now: Span| start_info_available(games, users, user_id, connection, now)
}

/// Checks that the meta serving `connection` (if any) can make a token at `now` without its expiry time
/// overflowing.
fn source_expiry_ok(metas: &ConnectMetas, connection: ConnectionType, now: &Span) -> (r: bool)
    ensures
        r == source_expiry_fits(*metas, connection, *now),
{
    let secs = now.secs();
    let config = match connection {
        ConnectionType::Memory | ConnectionType::Native => match &metas.native {
            Some(m) => &m.server_config,
            None => { return true; },
        },
        ConnectionType::WasmWt => match &metas.wasm_wt {
            Some(m) => &m.server_config,
            None => match &metas.wasm_ws {
                Some(m) => &m.server_config,
                None => { return true; },
            },
        },
        ConnectionType::WasmWs => match &metas.wasm_ws {
            Some(m) => &m.server_config,
            None => { return true; },
        },
    };
    secs <= u64::MAX - config.expire_secs
}

impl OngoingGamesCache {
    /// Finds the game a user is in and the user's start info in it (the first one listing the user).
    /// - Returns `None` if the user is unknown, its game is missing, or the game does not list the user.
    pub fn find_user_start_info(&self, user_id: u128) -> (r: Option<(u64, &GameStartInfo)>)
        ensures
            match r {
                Some((gid, info)) => {
                    &&& user_game(self.games_view(), self.users_view(), user_id) == Some(gid)
                    &&& exists|i: int| first_info_of(self.games_view()[gid].0.start_infos@, user_id, i)
                        && self.games_view()[gid].0.start_infos@[i] == *info
                },
                None => user_game(self.games_view(), self.users_view(), user_id) is None,
            },
    {
        let gid = match self.users.get(&user_id) {
            Some(g) => *g,
            None => { return None; },
        };
        let entry = match self.games.get(&gid) {
            Some(e) => e,
            None => { return None; },
        };
        let infos = &entry.0.start_infos;
        let ghost ids = game_users(entry.0);
        let mut i: usize = 0;
        while i < infos.len()
            invariant
                i <= infos.len(),
                ids == infos@.map_values(|info: GameStartInfo| info.user_id),
                forall|j: int| 0 <= j < i ==> #[trigger] infos@[j].user_id != user_id,
                self.users@.contains_key(user_id),
                self.users@[user_id] == gid,
                self.games@.contains_key(gid),
                *entry == self.games@[gid],
                *infos == entry.0.start_infos,
                ids == game_users(entry.0),
            decreases infos.len() - i,
        {
            if infos[i].user_id == user_id {
                proof {
                    assert(ids[i as int] == user_id);
                    assert(first_info_of(infos@, user_id, i as int));
                    assert(ids.contains(user_id));
                }
                return Some((gid, &infos[i]));
            }
            i = i + 1;
        }
        proof {
            assert(!ids.contains(user_id)) by {
                if ids.contains(user_id) {
                    let k = choose|k: int| 0 <= k < ids.len() && ids[k] == user_id;
                    assert(infos@[k].user_id == user_id);
                }
            }
        }
        None
    }

    /// Get game id, a fresh connect token made at `current_time` (time since the UNIX epoch) and the game start
    /// info for a specific user.
    /// - Returns `None` if the user's game or start info cannot be found, if no meta of the game serves the
    ///   user's connection type or that meta has no server address or more than 32, or if that meta's token
    ///   expiry time would overflow.
    pub fn get_user_start_info_at(&self, user_id: u128, user_info: &UserInfo, current_time: Span) -> (r: Option<
        (u64, ServerConnectToken, &GameStartInfo),
    >)
        ensures
            r is Some <==> start_info_available(self.games_view(), self.users_view(), user_id, user_info.spec_connection(), current_time),
            r matches Some((gid, token, info)) ==> {
                let game = self.games_view()[gid].0;
                &&& user_game(self.games_view(), self.users_view(), user_id) == Some(gid)
                &&& exists|i: int| first_info_of(game.start_infos@, user_id, i) && game.start_infos@[i] == *info
                &&& token_source(game.metas, user_info.spec_connection()) matches Some(src)
                    && token_matches_source(game.metas, src, token)
                    && token_from_source(game.metas, src, current_time, info.client_id, token_bytes_of(token))
            },
    {
        let (gid, start_info) = match self.find_user_start_info(user_id) {
            Some(found) => found,
            None => { return None; },
        };
        let entry = match self.games.get(&gid) {
            Some(e) => e,
            None => { return None; },
        };
        if !source_expiry_ok(&entry.0.metas, user_info.connection(), &current_time) {
            return None;
        }
        match entry.0.metas.new_connect_token(current_time, start_info.client_id, user_info.connection()) {
            Ok(token) => Some((gid, token, start_info)),
            Err(_) => None,
        }
    }

    /// Get game id, a fresh connect token and the game start info for a specific user (if possible), with
    /// the token made at the current time (see `get_user_start_info_at`).
    /// - Also returns `None` if the clock reads a time before the UNIX epoch.
    pub fn get_user_start_info(&self, user_id: u128, user_info: &UserInfo) -> (r: Option<(u64, ServerConnectToken, &GameStartInfo)>)
        ensures
            !start_info_available_some_time(self.games_view(), self.users_view(), user_id, user_info.spec_connection()) ==> r is None,
            r matches Some((gid, token, info)) ==> {
                let game = self.games_view()[gid].0;
                &&& user_game(self.games_view(), self.users_view(), user_id) == Some(gid)
                &&& exists|i: int| first_info_of(game.start_infos@, user_id, i) && game.start_infos@[i] == *info
                &&& token_source(game.metas, user_info.spec_connection()) matches Some(src)
                    && token_matches_source(game.metas, src, token)
                    && exists|t: Span| token_from_source(game.metas, src, t, info.client_id, token_bytes_of(token))
            },
    {
        match time_since_epoch() {
            Some(t) => self.get_user_start_info_at(user_id, user_info, t),
            None => None,
        }
    }

    /// Get game id and a game connect token made at `current_time` for a specific user; see
    /// `get_user_start_info_at`.
    pub fn get_user_connect_token_at(&self, user_id: u128, user_info: &UserInfo, current_time: Span) -> (r: Option<
        (u64, ServerConnectToken),
    >)
        ensures
            r is Some <==> start_info_available(self.games_view(), self.users_view(), user_id, user_info.spec_connection(), current_time),
            r matches Some((gid, token)) ==> {
                let game = self.games_view()[gid].0;
                &&& user_game(self.games_view(), self.users_view(), user_id) == Some(gid)
                &&& token_source(game.metas, user_info.spec_connection()) matches Some(src)
                    && token_matches_source(game.metas, src, token)
                    && exists|i: int| first_info_of(game.start_infos@, user_id, i)
                        && token_from_source(game.metas, src, current_time, game.start_infos@[i].client_id, token_bytes_of(token))
            },
    {
        match self.get_user_start_info_at(user_id, user_info, current_time) {
            Some((gid, token, _)) => Some((gid, token)),
            None => None,
        }
    }

    /// Get game id and game connect token for a specific user (if possible); see `get_user_start_info`.
    pub fn get_user_connect_token(&self, user_id: u128, user_info: &UserInfo) -> (r: Option<(u64, ServerConnectToken)>)
        ensures
            !start_info_available_some_time(self.games_view(), self.users_view(), user_id, user_info.spec_connection()) ==> r is None,
            r matches Some((gid, token)) ==> {
                let game = self.games_view()[gid].0;
                &&& user_game(self.games_view(), self.users_view(), user_id) == Some(gid)
                &&& token_source(game.metas, user_info.spec_connection()) matches Some(src)
                    && token_matches_source(game.metas, src, token)
                    && exists|i: int| first_info_of(game.start_infos@, user_id, i)
                        && exists|t: Span| token_from_source(game.metas, src, t, game.start_infos@[i].client_id, token_bytes_of(token))
            },
    {
        match self.get_user_start_info(user_id, user_info) {
            Some((gid, token, _)) => Some((gid, token)),
            None => None,
        }
    }
}

/// Game `gid` was registered before `lowest`, the earliest registration time that is still alive.
pub open spec fn game_expired(games: Map<u64, (OngoingGame, Span)>, lowest: int, gid: u64) -> bool {
    games.contains_key(gid) && games[gid].1.total() < lowest
}

/// The earliest registration time that is still alive when `elapsed` has passed on the cache timer:
/// `elapsed - expiry`, or zero.
pub open spec fn lowest_alive(elapsed: Span, expiry: Span) -> int {
    if elapsed.total() >= expiry.total() { elapsed.total() - expiry.total() } else { 0 }
}

/// The games that stay: those not expired.
pub open spec fn games_kept(games: Map<u64, (OngoingGame, Span)>, lowest: int) -> Map<u64, (OngoingGame, Span)> {
    Map::new(|gid: u64| games.contains_key(gid) && !game_expired(games, lowest, gid), |gid: u64| games[gid])
}

/// Users of the expired games among `gids`.
pub open spec fn expired_users(games: Map<u64, (OngoingGame, Span)>, lowest: int, gids: Set<u64>) -> Set<u128> {
    Set::new(|u: u128| exists|gid: u64| #[trigger] gids.contains(gid) && game_expired(games, lowest, gid)
        && game_users(games[gid].0).contains(u))
}

/// `games1`, `users1` and `out` are what draining the games that expired by time `elapsed` leaves and returns:
/// the unexpired games stay, the users of expired games are forgotten, and `out` lists each expired game once.
pub open spec fn drained(
    games0: Map<u64, (OngoingGame, Span)>,
    users0: Map<u128, u64>,
    expiry: Span,
    elapsed: Span,
    games1: Map<u64, (OngoingGame, Span)>,
    users1: Map<u128, u64>,
    out: Seq<OngoingGame>,
) -> bool {
    let lowest = lowest_alive(elapsed, expiry);
    &&& games1 == games_kept(games0, lowest)
    &&& users1 == users0.remove_keys(expired_users(games0, lowest, games0.dom()))
    &&& exists|gids: Seq<u64>| {
        &&& #[trigger] gids.len() == out.len()
        &&& gids.no_duplicates()
        &&& gids.to_set() == games0.dom().filter(|gid: u64| game_expired(games0, lowest, gid))
        &&& forall|i: int| 0 <= i < out.len() ==> out[i] == games0[gids[i]].0
    }
}

impl OngoingGamesCache {
    /// Drain expired games: those registered more than `expiry_duration` before now on the cache timer.
    /// The time now is read from the cache timer and becomes the latest reading.
    /// - Iterates over all ongoing games (may be inefficient).
    pub fn drain_expired(&mut self) -> (r: Vec<OngoingGame>)
        ensures
            drained(old(self).games_view(), old(self).users_view(), old(self).config_view().expiry_duration,
                final(self).latest_reading(), final(self).games_view(), final(self).users_view(), r@),
            final(self).latest_reading().total() >= old(self).latest_reading().total(),
            final(self).config_view() == old(self).config_view(),
            old(self).consistent() ==> final(self).consistent(),
            old(self).stored_under_own_ids() ==> final(self).stored_under_own_ids(),
            old(self).births_bounded() ==> final(self).births_bounded(),
    {
        let elapsed = self.read_timer();
        proof {
            assert forall|g: u64| #[trigger] self.games_view().contains_key(g) && old(self).births_bounded()
                implies self.games_view()[g].1.total() <= self.latest_reading().total() by {
                assert(old(self).games_view().contains_key(g));
            }
        }
        self.drain_expired_at(elapsed)
    }

    /// Drain the games that expired by time `elapsed` of the cache timer: those registered before
    /// `elapsed - expiry_duration` (or never, when that is negative). Their users are forgotten.
    /// Returns the drained games, each once, in the order the game map is walked.
    pub fn drain_expired_at(&mut self, elapsed: Span) -> (r: Vec<OngoingGame>)
        ensures
            drained(old(self).games_view(), old(self).users_view(), old(self).config_view().expiry_duration, elapsed,
                final(self).games_view(), final(self).users_view(), r@),
            final(self).config_view() == old(self).config_view(),
            old(self).consistent() ==> final(self).consistent(),
            old(self).stored_under_own_ids() ==> final(self).stored_under_own_ids(),
            final(self).latest_reading() == old(self).latest_reading(),
            old(self).births_bounded() ==> final(self).births_bounded(),
    {
        let lowest_span = elapsed.saturating_sub(&self.config.expiry_duration);
        let ghost lowest = lowest_span.total();
        let ghost games0 = self.games@;
        let ghost users0 = self.users@;
        let mut keys: Vec<u64> = Vec::new();
        for k in it: self.games.keys()
            invariant
                it.seq().no_duplicates(),
                it.seq().unref().to_set() == games0.dom(),
                keys@ == it.seq().take(it.index()).unref(),
                keys@.no_duplicates(),
                it.index() == it.seq().len() ==> keys@.to_set() == games0.dom(),
                games0 == self.games@,
        {
            let ghost idx = it.index();
            proof {
                assert(it.seq().take(idx + 1).unref() =~= keys@.push(*k));
                assert(!keys@.contains(*k)) by {
                    if keys@.contains(*k) {
                        let j = choose|j: int| 0 <= j < keys@.len() && keys@[j] == *k;
                        assert(it.seq()[j] == it.seq()[idx]);
                    }
                }
            }
            keys.push(*k);
            assert(idx + 1 == it.seq().len() ==> it.seq().take(idx + 1) =~= it.seq());
        }
        let mut extracted: Vec<OngoingGame> = Vec::new();
        let ghost mut gids: Seq<u64> = Seq::empty();
        let mut i: usize = 0;
        while i < keys.len()
            invariant
                i <= keys.len(),
                keys@.no_duplicates(),
                keys@.to_set() == games0.dom(),
                games0 == old(self).games@,
                users0 == old(self).users@,
                self.config == old(self).config,
                self.last_reading == old(self).last_reading,
                lowest == lowest_span.total(),
                lowest == lowest_alive(elapsed, self.config.expiry_duration),
                self.games@ == Map::new(
                    |gid: u64| games0.contains_key(gid) && !(keys@.take(i as int).to_set().contains(gid) && game_expired(games0, lowest, gid)),
                    |gid: u64| games0[gid],
                ),
                self.users@ == users0.remove_keys(expired_users(games0, lowest, keys@.take(i as int).to_set())),
                gids.len() == extracted@.len(),
                gids.no_duplicates(),
                gids.to_set() == keys@.take(i as int).to_set().filter(|gid: u64| game_expired(games0, lowest, gid)),
                forall|j: int| 0 <= j < extracted@.len() ==> extracted@[j] == games0[gids[j]].0,
                cache_consistent(games0, users0) ==> cache_consistent(self.games@, self.users@),
            decreases keys.len() - i,
        {
            let k = keys[i];
            let ghost d = keys@.take(i as int);
            let ghost d1 = keys@.take(i + 1);
            proof {
                assert(d1 =~= d.push(k));
                assert(!d.contains(k)) by {
                    if d.contains(k) {
                        let j = choose|j: int| 0 <= j < d.len() && d[j] == k;
                        assert(keys@[j] == keys@[i as int]);
                    }
                }
                assert(keys@.to_set().contains(k)) by {
                    assert(keys@[i as int] == k);
                }
                d.lemma_push_to_set_commute(k);
                assert(d1.to_set() == d.to_set().insert(k));
                assert(self.games@.contains_key(k) && self.games@[k] == games0[k]);
            }
            let ghost gids_before = gids;
            let expired = match self.games.get(&k) {
                Some(entry) => !entry.1.at_least(&lowest_span),
                None => false,
            };
            proof {
                assert(expired == game_expired(games0, lowest, k));
            }
            if expired {
                let ghost before_games = self.games@;
                let ghost before_users = self.users@;
                match self.games.remove(&k) {
                    Some((game, _)) => {
                        self.remove_game_users(&game);
                        proof {
                            if cache_consistent(games0, users0) {
                                lemma_remove_consistent(before_games, before_users, k);
                            }
                            gids = gids.push(k);
                        }
                        extracted.push(game);
                    },
                    None => {},
                }
            }
            proof {
                assert(self.games@ =~= Map::new(
                    |gid: u64| games0.contains_key(gid) && !(d1.to_set().contains(gid) && game_expired(games0, lowest, gid)),
                    |gid: u64| games0[gid],
                ));
                let e0 = expired_users(games0, lowest, d.to_set());
                let e1 = expired_users(games0, lowest, d1.to_set());
                if expired {
                    assert(e1 =~= e0 + game_users(games0[k].0).to_set()) by {
                        assert forall|u: u128| e1.contains(u) implies (e0 + game_users(games0[k].0).to_set()).contains(u) by {
                            let g = choose|g: u64| #[trigger] d1.to_set().contains(g) && game_expired(games0, lowest, g)
                                && game_users(games0[g].0).contains(u);
                            if g != k {
                                assert(d.to_set().contains(g));
                            }
                        }
                        assert forall|u: u128| (e0 + game_users(games0[k].0).to_set()).contains(u) implies e1.contains(u) by {
                            if e0.contains(u) {
                                let g = choose|g: u64| #[trigger] d.to_set().contains(g) && game_expired(games0, lowest, g)
                                    && game_users(games0[g].0).contains(u);
                                assert(d1.to_set().contains(g));
                            } else {
                                assert(d1.to_set().contains(k));
                            }
                        }
                    }
                    assert(self.users@ =~= users0.remove_keys(e1));
                    assert(gids == gids_before.push(k));
                    gids_before.lemma_push_to_set_commute(k);
                    assert(gids.to_set() =~= d1.to_set().filter(|gid: u64| game_expired(games0, lowest, gid)));
                    assert(!gids_before.contains(k)) by {
                        if gids_before.contains(k) {
                            let j = choose|j: int| 0 <= j < gids_before.len() && gids_before[j] == k;
                            assert(gids_before.to_set().contains(k));
                        }
                    }
                    assert(gids.no_duplicates());
                } else {
                    assert(e1 =~= e0) by {
                        assert forall|u: u128| e1.contains(u) implies e0.contains(u) by {
                            let g = choose|g: u64| #[trigger] d1.to_set().contains(g) && game_expired(games0, lowest, g)
                                && game_users(games0[g].0).contains(u);
                            assert(g != k);
                            assert(d.to_set().contains(g));
                        }
                        assert forall|u: u128| e0.contains(u) implies e1.contains(u) by {
                            let g = choose|g: u64| #[trigger] d.to_set().contains(g) && game_expired(games0, lowest, g)
                                && game_users(games0[g].0).contains(u);
                            assert(d1.to_set().contains(g));
                        }
                    }
                    assert(gids.to_set() =~= d1.to_set().filter(|gid: u64| game_expired(games0, lowest, gid)));
                }
            }
            i = i + 1;
        }
        proof {
            assert(keys@.take(keys@.len() as int) =~= keys@);
            assert(self.games@ =~= games_kept(games0, lowest));
            assert(games0.dom().filter(|gid: u64| game_expired(games0, lowest, gid))
                =~= keys@.to_set().filter(|gid: u64| game_expired(games0, lowest, gid)));
        }
        extracted
    }
}

/// Removing a game together with its users keeps the cache consistent.
pub proof fn lemma_remove_consistent(games: Map<u64, (OngoingGame, Span)>, users: Map<u128, u64>, gid: u64)
    requires
        cache_consistent(games, users),
        games.contains_key(gid),
    ensures
        cache_consistent(games.remove(gid), users.remove_keys(game_users(games[gid].0).to_set())),
{
    let ids = game_users(games[gid].0);
    let games2 = games.remove(gid);
    let users2 = users.remove_keys(ids.to_set());
    assert forall|u: u128| #[trigger] users2.contains_key(u) implies games2.contains_key(users2[u])
        && game_users(games2[users2[u]].0).contains(u) by {
        assert(users.contains_key(u));
        if users[u] == gid {
            assert(ids.contains(u));
        }
    }
    assert forall|g: u64, i: int|
        #![trigger games2[g], game_users(games2[g].0)[i]]
        games2.contains_key(g) && 0 <= i < game_users(games2[g].0).len() implies
            users2.contains_key(game_users(games2[g].0)[i]) && users2[game_users(games2[g].0)[i]] == g by {
        let u = game_users(games[g].0)[i];
        assert(games[g] == games2[g]);
        assert(users.contains_key(u) && users[u] == g);
        if ids.to_set().contains(u) {
            let k = choose|k: int| 0 <= k < ids.len() && ids[k] == u;
            assert(users[ids[k]] == gid);
        }
    }
}

/// Adding a game that the cache accepts and then removing it gives back what the cache held before: the
/// games map loses the game again, and every user the add mapped to it is forgotten, leaving the users map
/// as it was. `games1` is the games map the add leaves (as `add_ongoing_game` states it).
pub proof fn lemma_add_then_remove_restores(
    games0: Map<u64, (OngoingGame, Span)>,
    users0: Map<u128, u64>,
    game: OngoingGame,
    games1: Map<u64, (OngoingGame, Span)>,
)
    requires
        !games0.contains_key(game.game_id),
        users_can_join(users0.dom(), game_users(game)),
        games1.dom() == games0.dom().insert(game.game_id),
        games1.remove(game.game_id) == games0,
        games1[game.game_id].0 == game,
    ensures
        games1.contains_key(game.game_id),
        games1.remove(game.game_id) == games0,
        users_joined(users0, game_users(game), game.game_id).remove_keys(
            game_users(games1[game.game_id].0).to_set(),
        ) == users0,
{
    let ids = game_users(game);
    let gid = game.game_id;
    let joined = users_joined(users0, ids, gid);
    assert forall|u: u128| #[trigger] users0.contains_key(u) implies !ids.to_set().contains(u) by {
        if ids.to_set().contains(u) {
            let k = choose|k: int| 0 <= k < ids.len() && ids[k] == u;
            assert(user_conflict(users0.dom(), ids, k));
        }
    }
    assert(joined.remove_keys(ids.to_set()) =~= users0);
}

/// After the cache accepts a game, each of the game's users is found in that game. `games1` and `users1`
/// are the maps the add leaves (as `add_ongoing_game` states them).
pub proof fn lemma_added_users_find_game(
    users0: Map<u128, u64>,
    game: OngoingGame,
    games1: Map<u64, (OngoingGame, Span)>,
    users1: Map<u128, u64>,
    user_id: u128,
)
    requires
        games1.contains_key(game.game_id),
        games1[game.game_id].0 == game,
        users1 == users_joined(users0, game_users(game), game.game_id),
        game_users(game).contains(user_id),
    ensures
        user_game(games1, users1, user_id) == Some(game.game_id),
{
}

/// A game that the cache holds is kept by a drain whose timer reading comes less than the expiry duration
/// after the game's registration time: the game stays with its entry, it is not among the drained games,
/// and its users stay mapped to it. `add_ongoing_game` registers a game at the latest timer reading, and
/// `drain_expired` reads the timer anew, so a game is never drained sooner than the expiry duration after
/// it was added.
pub proof fn lemma_drain_keeps_fresh_game(
    games1: Map<u64, (OngoingGame, Span)>,
    users1: Map<u128, u64>,
    gid: u64,
    expiry: Span,
    elapsed: Span,
    games2: Map<u64, (OngoingGame, Span)>,
    users2: Map<u128, u64>,
    out: Seq<OngoingGame>,
)
    requires
        cache_consistent(games1, users1),
        games1.contains_key(gid),
        elapsed.total() < games1[gid].1.total() + expiry.total(),
        drained(games1, users1, expiry, elapsed, games2, users2, out),
    ensures
        games2.contains_key(gid),
        games2[gid] == games1[gid],
        forall|i: int| 0 <= i < out.len() ==> (#[trigger] out[i]).game_id != gid,
        forall|u: u128| #[trigger] users1.contains_key(u) && users1[u] == gid
            ==> users2.contains_key(u) && users2[u] == gid,
{
    let lowest = lowest_alive(elapsed, expiry);
    assert(!game_expired(games1, lowest, gid));
    let gids = choose|gids: Seq<u64>| {
        &&& #[trigger] gids.len() == out.len()
        &&& gids.no_duplicates()
        &&& gids.to_set() == games1.dom().filter(|g: u64| game_expired(games1, lowest, g))
        &&& forall|i: int| 0 <= i < out.len() ==> out[i] == games1[gids[i]].0
    };
    assert forall|i: int| 0 <= i < out.len() implies (#[trigger] out[i]).game_id != gid by {
        assert(gids.to_set().contains(gids[i]));
        assert(games1.contains_key(gids[i]) && game_expired(games1, lowest, gids[i]));
    }
    assert forall|u: u128| #[trigger] users1.contains_key(u) && users1[u] == gid
        implies users2.contains_key(u) && users2[u] == gid by {
        if expired_users(games1, lowest, games1.dom()).contains(u) {
            let g = choose|g: u64| #[trigger] games1.dom().contains(g) && game_expired(games1, lowest, g)
                && game_users(games1[g].0).contains(u);
            let k = choose|k: int| 0 <= k < game_users(games1[g].0).len() && game_users(games1[g].0)[k] == u;
            assert(users1[game_users(games1[g].0)[k]] == g);
        }
    }
}

} // verus!

use vstd::prelude::*;
use crate::cache::{CacheManager, MAX_TTL_DAYS, MILLIS_PER_DAY};
use crate::config::Settings;
use crate::game::{Build, Game, GameLoader, loader_name, loader_named};

verus! {

/// Game ids are distinct within a registry, and each game is well formed.
pub open spec fn games_wf(s: Seq<Game>) -> bool {
    &&& forall|i: int, j: int|
        0 <= i < s.len() && 0 <= j < s.len() && i != j ==> (#[trigger] s[i]).spec_id() != (#[trigger] s[j]).spec_id()
    &&& forall|i: int| 0 <= i < s.len() ==> (#[trigger] s[i]).wf()
}

/// The game registered under an id, if any.
pub open spec fn game_named(s: Seq<Game>, id: Seq<char>) -> Option<Game> {
    if exists|i: int| 0 <= i < s.len() && s[i].spec_id() == id {
        Some(s[choose|i: int| 0 <= i < s.len() && s[i].spec_id() == id])
    } else {
        None
    }
}

/// The loader that a (game, loader) pair resolves to.
pub open spec fn resolve(s: Seq<Game>, game_id: Seq<char>, loader_id: Seq<char>) -> Option<GameLoader> {
    match game_named(s, game_id) {
        Some(g) => loader_named(g.spec_loaders(), loader_id),
        None => None,
    }
}

/// A (game, loader) pair resolves to a loader of that name exactly when the
/// game is registered and has a loader of that name; an unknown game or an
/// unknown loader resolves to nothing.
pub proof fn lemma_provider_resolution(s: Seq<Game>, game_id: Seq<char>, loader_id: Seq<char>)
    requires
        games_wf(s),
    ensures
        (exists|i: int| 0 <= i < s.len() && s[i].spec_id() == game_id
            && #[trigger] loader_named(s[i].spec_loaders(), loader_id) is Some) ==>
            resolve(s, game_id, loader_id) is Some && loader_name(resolve(s, game_id, loader_id)->0) == loader_id,
        (forall|i: int| 0 <= i < s.len() ==> (#[trigger] s[i]).spec_id() != game_id) ==>
            resolve(s, game_id, loader_id) is None,
        (forall|i: int| 0 <= i < s.len() && (#[trigger] s[i]).spec_id() == game_id ==>
            forall|k: int| 0 <= k < s[i].spec_loaders().len() ==> loader_name(#[trigger] s[i].spec_loaders()[k]) != loader_id) ==>
            resolve(s, game_id, loader_id) is None,
{
    if exists|i: int| 0 <= i < s.len() && s[i].spec_id() == game_id
        && #[trigger] loader_named(s[i].spec_loaders(), loader_id) is Some {
        let i = choose|i: int| 0 <= i < s.len() && s[i].spec_id() == game_id
            && #[trigger] loader_named(s[i].spec_loaders(), loader_id) is Some;
        let c = choose|c: int| 0 <= c < s.len() && s[c].spec_id() == game_id;
        if c != i {
            assert(s[c].spec_id() != s[i].spec_id());
        }
        let ls = s[i].spec_loaders();
        let k = choose|k: int| 0 <= k < ls.len() && loader_name(ls[k]) == loader_id;
        assert(loader_name(ls[k]) == loader_id);
    }
    if exists|i: int| 0 <= i < s.len() && s[i].spec_id() == game_id {
        let c = choose|c: int| 0 <= c < s.len() && s[c].spec_id() == game_id;
        if forall|i: int| 0 <= i < s.len() && (#[trigger] s[i]).spec_id() == game_id ==>
            forall|k: int| 0 <= k < s[i].spec_loaders().len() ==> loader_name(#[trigger] s[i].spec_loaders()[k]) != loader_id {
            let ls = s[c].spec_loaders();
            assert(forall|k: int| 0 <= k < ls.len() ==> loader_name(#[trigger] ls[k]) != loader_id);
        }
    }
}

/// Why a request fails.
#[derive(Debug, Clone, Copy, PartialEq, Eq, Structural)]
pub enum WarehouseError {
    /// No game or no loader of that id.
    UnknownLoader,
    /// The version id is not in the upstream catalog.
    UnknownVersion,
    /// The requested build id is not among the version's builds.
    BuildNotFound,
    /// The version has no builds.
    NoBuilds,
    /// The build has no download address.
    NoDownloadUrl,
    /// The upstream could not be reached or answered malformed data.
    Upstream,
    /// The cache could not be read.
    Storage,
}

/// What to do next for a download once the cache has been consulted.
#[derive(Debug, Clone, PartialEq, Eq)]
pub enum DownloadStep {
    /// Serve the cached blob.
    ServeCached,
    /// Fetch this address, store the bytes in the cache, serve them.
    Fetch(String),
    /// Nothing cached and nowhere to fetch from.
    Fail(WarehouseError),
}

/// The build a download request selects: the one with the requested id, or
/// else the first.
pub open spec fn selected_build(builds: Seq<Build>, build_id: Option<Seq<char>>) -> Result<int, WarehouseError> {
    match build_id {
        Some(id) => if exists|i: int| 0 <= i < builds.len() && builds[i].spec_id() == id {
            Ok(choose|i: int| 0 <= i < builds.len() && builds[i].spec_id() == id
                && forall|k: int| 0 <= k < i ==> builds[k].spec_id() != id)
        } else {
            Err(WarehouseError::BuildNotFound)
        },
        None => if builds.len() > 0 { Ok(0) } else { Err(WarehouseError::NoBuilds) },
    }
}

/// Picks the build a download request asks for.
pub fn select_build(candidates: Vec<Build>, build_id: Option<&str>) -> (r: Result<Build, WarehouseError>)
    ensures
        match selected_build(candidates@, match build_id { Some(b) => Some(b@), None => None }) {
            Ok(i) => r is Ok && r->Ok_0 == candidates@[i],
            Err(e) => r == Err::<Build, WarehouseError>(e),
        },
{
    let ghost all = candidates@;
    let ghost wanted_id: Option<Seq<char>> = match build_id { Some(b) => Some(b@), None => None };
    let mut builds = candidates;
    match build_id {
        None => {
            if builds.len() == 0 {
                Err(WarehouseError::NoBuilds)
            } else {
                Ok(builds.remove(0))
            }
        },
        Some(id) => {
            let wanted = String::from_str(id);
            let mut i: usize = 0;
            while i < builds.len()
                invariant
                    builds@ == all,
                    all == candidates@,
                    build_id == Some(id),
                    wanted_id == Some(id@),
                    i <= all.len(),
                    wanted@ == id@,
                    forall|k: int| 0 <= k < i ==> (#[trigger] all[k]).spec_id() != id@,
                decreases all.len() - i,
            {
                if String::from_str(builds[i].id()) == wanted {
                    proof {
                        let j = i as int;
                        assert(all[j].spec_id() == id@);
                        assert(0 <= j < all.len() && all[j].spec_id() == id@);
                        assert(exists|x: int| 0 <= x < all.len() && all[x].spec_id() == id@);
                        let c = choose|c: int| 0 <= c < all.len() && all[c].spec_id() == id@
                            && forall|k: int| 0 <= k < c ==> all[k].spec_id() != id@;
                        assert(0 <= j < all.len() && all[j].spec_id() == id@
                            && forall|k: int| 0 <= k < j ==> all[k].spec_id() != id@);
                        if c < j {
                            assert(all[c].spec_id() != id@);
                        } else if c > j {
                            assert(all[j].spec_id() != id@);
                        }
                        assert(c == j);
                    }
                    let b = builds.remove(i);
                    return Ok(b);
                }
                i = i + 1;
            }
            Err(WarehouseError::BuildNotFound)
        },
    }
}

/// The next download step for a build, given whether its cache entry was served.
pub fn download_step(build: &Build, cache_hit: bool) -> (r: DownloadStep)
    ensures
        cache_hit ==> r == DownloadStep::ServeCached,
        !cache_hit ==> match build.spec_download_url() {
            Some(u) => r is Fetch && r->Fetch_0@ == u,
            None => r == DownloadStep::Fail(WarehouseError::NoDownloadUrl),
        },
{
    if cache_hit {
        DownloadStep::ServeCached
    } else {
        match build.download_url() {
            Some(u) => DownloadStep::Fetch(String::from_str(u)),
            None => DownloadStep::Fail(WarehouseError::NoDownloadUrl),
        }
    }
}

/// The registry of games, with the cache that downloads go through.
#[derive(Debug, Clone)]
pub struct GameProvider {
    games: Vec<Game>,
    pub cache: CacheManager,
}

impl GameProvider {
    pub closed spec fn spec_games(&self) -> Seq<Game> {
        self.games@
    }

    pub closed spec fn spec_cache(&self) -> CacheManager {
        self.cache
    }

    pub open spec fn wf(&self) -> bool {
        games_wf(self.spec_games())
    }

    /// An empty registry whose cache follows the settings.
    pub fn from_settings(settings: &Settings) -> (r: Self)
        requires
            settings.cache_ttl <= MAX_TTL_DAYS,
        ensures
            r.wf(),
            r.spec_games() == Seq::<Game>::empty(),
            r.spec_cache().spec_dir() == settings.storage_path@,
            r.spec_cache().spec_ttl() == settings.cache_ttl * MILLIS_PER_DAY,
    {
        GameProvider {
            games: Vec::new(),
            cache: CacheManager::new(settings.storage_path.clone(), settings.cache_ttl),
        }
    }

    /// Registers a game, replacing one with the same id.
    pub fn register_game(&mut self, game: Game)
        requires
            old(self).wf(),
            game.wf(),
        ensures
            final(self).wf(),
            final(self).spec_cache() == old(self).spec_cache(),
            forall|g: Game| #[trigger] final(self).spec_games().contains(g) <==>
                (g == game || (old(self).spec_games().contains(g) && g.spec_id() != game.spec_id())),
    {
        let mut i: usize = 0;
        while i < self.games.len()
            invariant
                i <= self.games@.len(),
                self.games@ == old(self).games@,
                self.cache == old(self).cache,
                games_wf(self.games@),
                game.wf(),
                forall|k: int| 0 <= k < i ==> (#[trigger] self.games@[k]).spec_id() != game.spec_id(),
            decreases self.games@.len() - i,
        {
            if String::from_str(self.games[i].id()) == String::from_str(game.id()) {
                let ghost before = self.games@;
                let ghost gid = game.spec_id();
                self.games.set(i, game);
                proof {
                    let after = self.games@;
                    assert forall|a: int, b: int|
                        0 <= a < after.len() && 0 <= b < after.len() && a != b implies
                        (#[trigger] after[a]).spec_id() != (#[trigger] after[b]).spec_id() by {
                        assert(after[a].spec_id() == before[a].spec_id());
                        assert(after[b].spec_id() == before[b].spec_id());
                    }
                    assert forall|a: int| 0 <= a < after.len() implies (#[trigger] after[a]).wf() by {
                        if a != i {
                            assert(after[a] == before[a]);
                        }
                    }
                    assert forall|g: Game| #[trigger] after.contains(g) <==>
                        (g == after[i as int] || (before.contains(g) && g.spec_id() != gid)) by {
                        if after.contains(g) {
                            let k = choose|k: int| 0 <= k < after.len() && after[k] == g;
                            if k != i {
                                assert(before[k] == g);
                            }
                        }
                        if g == after[i as int] {
                            assert(after.contains(g));
                        } else if before.contains(g) && g.spec_id() != gid {
                            let k = choose|k: int| 0 <= k < before.len() && before[k] == g;
                            assert(k != i);
                            assert(after[k] == g);
                        }
                    }
                }
                return;
            }
            i = i + 1;
        }
        let ghost before = self.games@;
        self.games.push(game);
        proof {
            let after = self.games@;
            assert forall|a: int, b: int|
                0 <= a < after.len() && 0 <= b < after.len() && a != b implies
                (#[trigger] after[a]).spec_id() != (#[trigger] after[b]).spec_id() by {
                if a < before.len() {
                    assert(after[a] == before[a]);
                }
                if b < before.len() {
                    assert(after[b] == before[b]);
                }
            }
            assert forall|a: int| 0 <= a < after.len() implies (#[trigger] after[a]).wf() by {
                if a < before.len() {
                    assert(after[a] == before[a]);
                }
            }
            assert forall|g: Game| #[trigger] after.contains(g) <==>
                (g == after[before.len() as int] || (before.contains(g) && g.spec_id() != after[before.len() as int].spec_id())) by {
                if after.contains(g) {
                    let k = choose|k: int| 0 <= k < after.len() && after[k] == g;
                    if k < before.len() {
                        assert(before[k] == g);
                    }
                }
                if g == after[before.len() as int] {
                    assert(after.contains(g));
                } else if before.contains(g) && g.spec_id() != after[before.len() as int].spec_id() {
                    let k = choose|k: int| 0 <= k < before.len() && before[k] == g;
                    assert(after[k] == g);
                }
            }
        }
    }

    /// Index of the game registered under `name`.
    fn find_game(&self, name: &str) -> (r: Option<usize>)
        requires
            self.wf(),
        ensures
            match r {
                Some(i) => i < self.spec_games().len() && game_named(self.spec_games(), name@) == Some(self.spec_games()[i as int]),
                None => game_named(self.spec_games(), name@) is None,
            },
    {
        let wanted = String::from_str(name);
        let mut i: usize = 0;
        while i < self.games.len()
            invariant
                i <= self.games@.len(),
                wanted@ == name@,
                self.wf(),
                forall|k: int| 0 <= k < i ==> (#[trigger] self.games@[k]).spec_id() != name@,
            decreases self.games@.len() - i,
        {
            if String::from_str(self.games[i].id()) == wanted {
                proof {
                    let s = self.games@;
                    let c = choose|c: int| 0 <= c < s.len() && s[c].spec_id() == name@;
                    assert(s[i as int].spec_id() == name@);
                    if c != i {
                        assert(s[c].spec_id() != s[i as int].spec_id());
                    }
                }
                return Some(i);
            }
            i = i + 1;
        }
        None
    }

    /// A copy of the game registered under `name`.
    pub fn get_game(&self, name: &str) -> (r: Option<Game>)
        requires
            self.wf(),
        ensures
            match game_named(self.spec_games(), name@) {
                Some(g) => r is Some && r->0.spec_id() == g.spec_id() && r->0.spec_loaders() == g.spec_loaders(),
                None => r is None,
            },
    {
        match self.find_game(name) {
            Some(i) => Some(self.games[i].duplicate()),
            None => None,
        }
    }

    /// The loader `loader_id` of the game `game_id`.
    pub fn get_loader(&self, game_id: &str, loader_id: &str) -> (r: Option<GameLoader>)
        requires
            self.wf(),
        ensures
            r == resolve(self.spec_games(), game_id@, loader_id@),
    {
        match self.find_game(game_id) {
            Some(i) => {
                proof {
                    assert(self.games@[i as int].wf());
                }
                self.games[i].get_loader(loader_id)
            },
            None => None,
        }
    }

    /// Copies of all registered games.
    pub fn list_games(&self) -> (r: Vec<Game>)
        ensures
            r@.len() == self.spec_games().len(),
            forall|i: int| 0 <= i < r@.len() ==> (#[trigger] r@[i]).spec_id() == self.spec_games()[i].spec_id()
                && r@[i].spec_loaders() == self.spec_games()[i].spec_loaders(),
    {
        let mut out: Vec<Game> = Vec::new();
        let mut i: usize = 0;
        while i < self.games.len()
            invariant
                i <= self.games@.len(),
                out@.len() == i,
                forall|k: int| 0 <= k < i ==> (#[trigger] out@[k]).spec_id() == self.games@[k].spec_id()
                    && out@[k].spec_loaders() == self.games@[k].spec_loaders(),
            decreases self.games@.len() - i,
        {
            out.push(self.games[i].duplicate());
            i = i + 1;
        }
        out
    }
}

} // verus!

use vstd::prelude::*;
use crate::vanilla::VanillaLoader;

verus! {

/// A release of a game as published by a provider.
#[derive(Debug, Clone)]
pub struct Version {
    pub id: String,
    pub version_type: String,
    pub is_stable: bool,
}

/// Whether a version classification counts as stable when it is not given explicitly.
pub open spec fn is_release_type(t: Seq<char>) -> bool {
    t == "release"@
}

/// Two versions with the same id, classification and stability.
pub open spec fn same_version(a: &Version, b: &Version) -> bool {
    a.id@ == b.id@ && a.version_type@ == b.version_type@ && a.is_stable == b.is_stable
}

impl Version {
    pub fn new(id: String, version_type: String, is_stable: bool) -> (r: Self)
        ensures
            r.id@ == id@,
            r.version_type@ == version_type@,
            r.is_stable == is_stable,
    {
        Version { id, version_type, is_stable }
    }

    /// A version whose stability is derived from its classification.
    pub fn new_standard(id: String, version_type: String) -> (r: Self)
        ensures
            r.id@ == id@,
            r.version_type@ == version_type@,
            r.is_stable == is_release_type(version_type@),
    {
        let release = String::from_str("release");
        let is_stable = version_type == release;
        Version { id, version_type, is_stable }
    }

    pub fn id(&self) -> (r: &str)
        ensures
            r@ == self.id@,
    {
        self.id.as_str()
    }

    pub fn version_type(&self) -> (r: &str)
        ensures
            r@ == self.version_type@,
    {
        self.version_type.as_str()
    }

    pub fn is_stable(&self) -> (r: bool)
        ensures
            r == self.is_stable,
    {
        self.is_stable
    }

    pub fn duplicate(&self) -> (r: Version)
        ensures
            same_version(&r, self),
    {
        Version { id: self.id.clone(), version_type: self.version_type.clone(), is_stable: self.is_stable }
    }
}


/// A downloadable artifact of one version.
#[derive(Debug, Clone)]
pub struct Build {
    id: String,
    version: Version,
    download_url: Option<String>,
}

/// The cache file name of a build: `"{version id}-{build id}.jar"`.
pub open spec fn build_filename(version_id: Seq<char>, build_id: Seq<char>) -> Seq<char> {
    version_id + "-"@ + build_id + ".jar"@
}

pub open spec fn opt_view(o: Option<String>) -> Option<Seq<char>> {
    match o {
        Some(s) => Some(s@),
        None => None,
    }
}

impl Build {
    pub closed spec fn spec_id(&self) -> Seq<char> {
        self.id@
    }

    pub closed spec fn spec_version(&self) -> Version {
        self.version
    }

    pub closed spec fn spec_download_url(&self) -> Option<Seq<char>> {
        opt_view(self.download_url)
    }

    pub fn new(id: String, version: Version, download_url: Option<String>) -> (r: Self)
        ensures
            r.spec_id() == id@,
            r.spec_version() == version,
            r.spec_download_url() == opt_view(download_url),
    {
        Build { id, version, download_url }
    }

    /// Same as `new`; kept for providers that build their artifacts uniformly.
    pub fn new_standard(id: String, version: Version, download_url: Option<String>) -> (r: Self)
        ensures
            r.spec_id() == id@,
            r.spec_version() == version,
            r.spec_download_url() == opt_view(download_url),
    {
        Build::new(id, version, download_url)
    }

    pub fn id(&self) -> (r: &str)
        ensures
            r@ == self.spec_id(),
    {
        self.id.as_str()
    }

    pub fn version(&self) -> (r: &Version)
        ensures
            *r == self.spec_version(),
    {
        &self.version
    }

    pub fn download_url(&self) -> (r: Option<&str>)
        ensures
            match r {
                Some(u) => self.spec_download_url() == Some(u@),
                None => self.spec_download_url() is None,
            },
    {
        match &self.download_url {
            Some(u) => Some(u.as_str()),
            None => None,
        }
    }

    pub fn filename(&self) -> (r: String)
        ensures
            r@ == build_filename(self.spec_version().id@, self.spec_id()),
    {
        let mut name = self.version.id.clone();
        name.append("-");
        name.append(self.id.as_str());
        name.append(".jar");
        name
    }

    pub fn duplicate(&self) -> (r: Build)
        ensures
            r.spec_id() == self.spec_id(),
            same_version(&r.spec_version(), &self.spec_version()),
            r.spec_download_url() == self.spec_download_url(),
    {
        let url = match &self.download_url {
            Some(u) => Some(u.clone()),
            None => None,
        };
        Build { id: self.id.clone(), version: self.version.duplicate(), download_url: url }
    }
}


/// The cache file name depends on the version id and build id alone.
pub proof fn lemma_filename_deterministic(a: Build, b: Build)
    requires
        a.spec_version().id@ == b.spec_version().id@,
        a.spec_id() == b.spec_id(),
    ensures
        build_filename(a.spec_version().id@, a.spec_id()) == build_filename(b.spec_version().id@, b.spec_id()),
{
}

/// The versions of a catalog that are stable, in catalog order.
pub open spec fn stable_of(s: Seq<Version>) -> Seq<Version> {
    s.filter(|v: Version| v.is_stable)
}

/// Keeps only the stable versions, preserving their order.
pub fn retain_stable(versions: Vec<Version>) -> (r: Vec<Version>)
    ensures
        r@ == stable_of(versions@),
{
    let mut out: Vec<Version> = Vec::new();
    let mut rest = versions;
    let ghost all = rest@;
    let ghost n = all.len();
    while rest.len() > 0
        invariant
            n == all.len(),
            rest@.len() <= n,
            rest@ == all.subrange(n - rest@.len(), n as int),
            out@ == stable_of(all.subrange(0, n - rest@.len())),
        decreases rest@.len(),
    {
        let ghost k = n - rest@.len();
        let v = rest.remove(0);
        proof {
            assert(all.subrange(0, k + 1).drop_last() =~= all.subrange(0, k));
            assert(all.subrange(0, k + 1).last() == v);
            assert(all.subrange(k + 1, n as int) =~= rest@);
            reveal(Seq::filter);
        }
        if v.is_stable {
            out.push(v);
        }
    }
    proof {
        assert(all.subrange(0, n as int) =~= all);
    }
    out
}

/// The first stable version of a catalog, if any.
pub open spec fn first_stable(s: Seq<Version>) -> Option<int> {
    if exists|i: int| 0 <= i < s.len() && s[i].is_stable {
        Some(choose|i: int| 0 <= i < s.len() && s[i].is_stable && forall|k: int| 0 <= k < i ==> !s[k].is_stable)
    } else {
        None
    }
}

/// A provider of builds for one game, told apart by its loader name.
#[derive(Debug, Clone, Copy, PartialEq, Eq, Structural)]
pub enum GameLoader {
    Vanilla(VanillaLoader),
}

/// The name under which a loader is requested.
pub open spec fn loader_name(l: GameLoader) -> Seq<char> {
    match l {
        GameLoader::Vanilla(_) => "vanilla"@,
    }
}

/// The display address of a loader's project, if it has one.
pub open spec fn loader_website(l: GameLoader) -> Option<Seq<char>> {
    match l {
        GameLoader::Vanilla(_) => Some("https://www.minecraft.net"@),
    }
}

impl GameLoader {
    pub fn name(&self) -> (r: String)
        ensures
            r@ == loader_name(*self),
    {
        match self {
            GameLoader::Vanilla(_) => String::from_str("vanilla"),
        }
    }

    pub fn website(&self) -> (r: Option<String>)
        ensures
            opt_view(r) == loader_website(*self),
    {
        match self {
            GameLoader::Vanilla(_) => Some(String::from_str("https://www.minecraft.net")),
        }
    }

    /// Every loader accepts every classification.
    pub fn supports_version_type(&self, version_type: &str) -> (r: bool)
        ensures
            r,
    {
        true
    }

    /// The newest stable version: the first stable entry of a fetched catalog.
    pub fn get_latest_stable(versions: &Vec<Version>) -> (r: Option<Version>)
        ensures
            match first_stable(versions@) {
                Some(i) => r is Some && same_version(&r->0, &versions@[i]),
                None => r is None,
            },
    {
        let mut i: usize = 0;
        while i < versions.len()
            invariant
                i <= versions@.len(),
                forall|k: int| 0 <= k < i ==> !(#[trigger] versions@[k]).is_stable,
            decreases versions@.len() - i,
        {
            if versions[i].is_stable {
                let ghost j = i as int;
                proof {
                    assert(exists|k: int| 0 <= k < versions@.len() && versions@[k].is_stable);
                    let c = first_stable(versions@)->0;
                    assert(0 <= c < versions@.len() && versions@[c].is_stable && forall|k: int| 0 <= k < c ==> !versions@[k].is_stable);
                    if c < j {
                    } else if c > j {
                        assert(!versions@[j].is_stable);
                    }
                }
                return Some(versions[i].duplicate());
            }
            i = i + 1;
        }
        None
    }
}


/// Loader names are distinct within a game.
pub open spec fn names_unique(s: Seq<GameLoader>) -> bool {
    forall|i: int, j: int|
        0 <= i < s.len() && 0 <= j < s.len() && i != j ==> loader_name(#[trigger] s[i]) != loader_name(#[trigger] s[j])
}

/// The loader of a game registered under a name, if any.
pub open spec fn loader_named(s: Seq<GameLoader>, n: Seq<char>) -> Option<GameLoader> {
    if exists|i: int| 0 <= i < s.len() && loader_name(s[i]) == n {
        Some(s[choose|i: int| 0 <= i < s.len() && loader_name(s[i]) == n])
    } else {
        None
    }
}

/// A game: its id and its loaders, at most one per loader name.
#[derive(Debug, Clone)]
pub struct Game {
    id: String,
    loaders: Vec<GameLoader>,
}

impl Game {
    pub closed spec fn spec_id(&self) -> Seq<char> {
        self.id@
    }

    pub closed spec fn spec_loaders(&self) -> Seq<GameLoader> {
        self.loaders@
    }

    pub open spec fn wf(&self) -> bool {
        names_unique(self.spec_loaders())
    }

    pub fn new(id: String) -> (r: Self)
        ensures
            r.wf(),
            r.spec_id() == id@,
            r.spec_loaders() == Seq::<GameLoader>::empty(),
    {
        Game { id, loaders: Vec::new() }
    }

    pub fn id(&self) -> (r: &str)
        ensures
            r@ == self.spec_id(),
    {
        self.id.as_str()
    }

    /// Registers a loader, replacing one of the same name.
    pub fn add_loader(&mut self, loader: GameLoader)
        requires
            old(self).wf(),
        ensures
            final(self).wf(),
            final(self).spec_id() == old(self).spec_id(),
            forall|l: GameLoader| #[trigger] final(self).spec_loaders().contains(l) <==>
                (l == loader || (old(self).spec_loaders().contains(l) && loader_name(l) != loader_name(loader))),
    {
        let mut i: usize = 0;
        while i < self.loaders.len()
            invariant
                i <= self.loaders@.len(),
                self.id == old(self).id,
                self.loaders@ == old(self).loaders@,
                names_unique(self.loaders@),
                forall|k: int| 0 <= k < i ==> loader_name(#[trigger] self.loaders@[k]) != loader_name(loader),
            decreases self.loaders@.len() - i,
        {
            if self.loaders[i].name() == loader.name() {
                let ghost before = self.loaders@;
                self.loaders.set(i, loader);
                proof {
                    assert forall|a: int, b: int|
                        0 <= a < self.loaders@.len() && 0 <= b < self.loaders@.len() && a != b implies
                        loader_name(#[trigger] self.loaders@[a]) != loader_name(#[trigger] self.loaders@[b]) by {
                        assert(loader_name(self.loaders@[a]) == loader_name(before[a]));
                        assert(loader_name(self.loaders@[b]) == loader_name(before[b]));
                    }
                    assert forall|l: GameLoader| #[trigger] self.loaders@.contains(l) <==>
                        (l == loader || (before.contains(l) && loader_name(l) != loader_name(loader))) by {
                        if self.loaders@.contains(l) {
                            let k = choose|k: int| 0 <= k < self.loaders@.len() && self.loaders@[k] == l;
                            if k != i {
                                assert(before[k] == l);
                            }
                        }
                        if l == loader {
                            assert(self.loaders@[i as int] == l);
                        } else if before.contains(l) && loader_name(l) != loader_name(loader) {
                            let k = choose|k: int| 0 <= k < before.len() && before[k] == l;
                            assert(k != i);
                            assert(self.loaders@[k] == l);
                        }
                    }
                }
                return;
            }
            i = i + 1;
        }
        let ghost before = self.loaders@;
        self.loaders.push(loader);
        proof {
            assert forall|a: int, b: int|
                0 <= a < self.loaders@.len() && 0 <= b < self.loaders@.len() && a != b implies
                loader_name(#[trigger] self.loaders@[a]) != loader_name(#[trigger] self.loaders@[b]) by {
                if a < before.len() && b < before.len() {
                    assert(self.loaders@[a] == before[a]);
                    assert(self.loaders@[b] == before[b]);
                } else if a < before.len() {
                    assert(self.loaders@[a] == before[a]);
                } else {
                    assert(self.loaders@[b] == before[b]);
                }
            }
            assert forall|l: GameLoader| #[trigger] self.loaders@.contains(l) <==>
                (l == loader || (before.contains(l) && loader_name(l) != loader_name(loader))) by {
                if self.loaders@.contains(l) {
                    let k = choose|k: int| 0 <= k < self.loaders@.len() && self.loaders@[k] == l;
                    if k < before.len() {
                        assert(before[k] == l);
                    }
                }
                if l == loader {
                    assert(self.loaders@[before.len() as int] == l);
                } else if before.contains(l) {
                    let k = choose|k: int| 0 <= k < before.len() && before[k] == l;
                    assert(self.loaders@[k] == l);
                }
            }
        }
    }

    /// The loader registered under `name`.
    pub fn get_loader(&self, name: &str) -> (r: Option<GameLoader>)
        requires
            self.wf(),
        ensures
            r == loader_named(self.spec_loaders(), name@),
    {
        let wanted = String::from_str(name);
        let mut i: usize = 0;
        while i < self.loaders.len()
            invariant
                i <= self.loaders@.len(),
                wanted@ == name@,
                self.wf(),
                forall|k: int| 0 <= k < i ==> loader_name(#[trigger] self.loaders@[k]) != name@,
            decreases self.loaders@.len() - i,
        {
            if self.loaders[i].name() == wanted {
                proof {
                    let s = self.loaders@;
                    assert(loader_name(s[i as int]) == name@);
                    let c = choose|c: int| 0 <= c < s.len() && loader_name(s[c]) == name@;
                    if c != i {
                        assert(loader_name(s[c]) != loader_name(s[i as int]));
                    }
                }
                return Some(self.loaders[i]);
            }
            i = i + 1;
        }
        None
    }

    /// All loaders of the game.
    pub fn list_loaders(&self) -> (r: Vec<GameLoader>)
        ensures
            r@ == self.spec_loaders(),
    {
        let mut out: Vec<GameLoader> = Vec::new();
        let mut i: usize = 0;
        while i < self.loaders.len()
            invariant
                i <= self.loaders@.len(),
                out@ == self.loaders@.subrange(0, i as int),
            decreases self.loaders@.len() - i,
        {
            out.push(self.loaders[i]);
            proof {
                assert(out@ =~= self.loaders@.subrange(0, i + 1));
            }
            i = i + 1;
        }
        proof {
            assert(out@ =~= self.loaders@);
        }
        out
    }

    pub fn duplicate(&self) -> (r: Game)
        ensures
            r.spec_id() == self.spec_id(),
            r.spec_loaders() == self.spec_loaders(),
    {
        Game { id: self.id.clone(), loaders: self.list_loaders() }
    }
}

} // verus!

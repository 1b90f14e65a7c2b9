use vstd::prelude::*;
use crate::game::{Build, Game, GameLoader, Version, is_release_type, loader_name, loader_website, opt_view, retain_stable, stable_of};

verus! {

/// The envelope of every answer: a payload on success, a message on failure.
#[derive(Debug)]
pub struct ApiResponse<T> {
    pub success: bool,
    pub data: Option<T>,
    pub error: Option<String>,
}

impl<T> ApiResponse<T> {
    pub fn success(data: T) -> (r: Self)
        ensures
            r.success,
            r.data == Some(data),
            r.error is None,
    {
        ApiResponse { success: true, data: Some(data), error: None }
    }

    pub fn error(msg: String) -> (r: Self)
        ensures
            !r.success,
            r.data is None,
            opt_view(r.error) == Some(msg@),
    {
        ApiResponse { success: false, data: None, error: Some(msg) }
    }
}

/// A loader as the catalog lists it.
#[derive(Debug, Clone)]
pub struct LoaderInfo {
    pub id: String,
    pub name: String,
    pub website: Option<String>,
}

impl LoaderInfo {
    pub fn from_loader(l: &GameLoader) -> (r: Self)
        ensures
            r.id@ == loader_name(*l),
            r.name@ == loader_name(*l),
            opt_view(r.website) == loader_website(*l),
    {
        LoaderInfo { id: l.name(), name: l.name(), website: l.website() }
    }
}

/// A version as the catalog lists it.
#[derive(Debug, Clone)]
pub struct VersionInfo {
    pub id: String,
    pub version_type: String,
    pub is_stable: bool,
}

impl VersionInfo {
    pub fn from_version(v: &Version) -> (r: Self)
        ensures
            r.id@ == v.id@,
            r.version_type@ == v.version_type@,
            r.is_stable == v.is_stable,
    {
        VersionInfo { id: v.id.clone(), version_type: v.version_type.clone(), is_stable: v.is_stable }
    }
}

/// A build as the catalog lists it.
#[derive(Debug, Clone)]
pub struct BuildInfo {
    pub id: String,
    pub version: VersionInfo,
    pub download_url: Option<String>,
}

impl BuildInfo {
    pub fn from_build(b: &Build) -> (r: Self)
        ensures
            r.id@ == b.spec_id(),
            r.version.id@ == b.spec_version().id@,
            r.version.version_type@ == b.spec_version().version_type@,
            r.version.is_stable == b.spec_version().is_stable,
            opt_view(r.download_url) == b.spec_download_url(),
    {
        let url = match b.download_url() {
            Some(u) => Some(String::from_str(u)),
            None => None,
        };
        BuildInfo {
            id: String::from_str(b.id()),
            version: VersionInfo::from_version(b.version()),
            download_url: url,
        }
    }
}

/// A request for a loader's versions.
#[derive(Debug, Clone)]
pub struct VersionQuery {
    pub game: String,
    pub loader: String,
    pub stable_only: bool,
}

impl VersionQuery {
    /// The versions to answer with: all of them, or only the stable ones.
    pub fn select(&self, versions: Vec<Version>) -> (r: Vec<Version>)
        ensures
            self.stable_only ==> r@ == stable_of(versions@),
            !self.stable_only ==> r@ == versions@,
    {
        if self.stable_only {
            retain_stable(versions)
        } else {
            versions
        }
    }
}

/// The version a request names, classified as a release.
pub fn requested_version(id: &String) -> (r: Version)
    ensures
        r.id@ == id@,
        r.version_type@ == "release"@,
        r.is_stable,
{
    let v = Version::new_standard(id.clone(), String::from_str("release"));
    proof {
        assert(is_release_type(v.version_type@));
    }
    v
}

/// A request for a build's bytes.
#[derive(Debug, Clone)]
pub struct DownloadQuery {
    pub game: String,
    pub loader: String,
    pub version: String,
    pub build_id: Option<String>,
}

/// A request for a version's builds.
#[derive(Debug, Clone)]
pub struct BuildQuery {
    pub game: String,
    pub loader: String,
    pub version: String,
}

/// The body of a failed answer.
#[derive(Debug, Clone)]
pub struct ErrorResponse {
    pub error: String,
}

/// A game as the catalog lists it.
#[derive(Debug, Clone)]
pub struct GameInfo {
    pub id: String,
    pub loaders: Vec<LoaderInfo>,
}

impl GameInfo {
    pub fn from_game(g: &Game) -> (r: Self)
        ensures
            r.id@ == g.spec_id(),
            r.loaders@.len() == g.spec_loaders().len(),
            forall|i: int| 0 <= i < r.loaders@.len() ==> (#[trigger] r.loaders@[i]).id@ == loader_name(g.spec_loaders()[i])
                && r.loaders@[i].name@ == loader_name(g.spec_loaders()[i])
                && opt_view(r.loaders@[i].website) == loader_website(g.spec_loaders()[i]),
    {
        let ls = g.list_loaders();
        let mut out: Vec<LoaderInfo> = Vec::new();
        let mut i: usize = 0;
        while i < ls.len()
            invariant
                i <= ls@.len(),
                ls@ == g.spec_loaders(),
                out@.len() == i,
                forall|k: int| 0 <= k < i ==> (#[trigger] out@[k]).id@ == loader_name(ls@[k])
                    && out@[k].name@ == loader_name(ls@[k])
                    && opt_view(out@[k].website) == loader_website(ls@[k]),
            decreases ls@.len() - i,
        {
            out.push(LoaderInfo::from_loader(&ls[i]));
            i = i + 1;
        }
        GameInfo { id: String::from_str(g.id()), loaders: out }
    }
}

} // verus!

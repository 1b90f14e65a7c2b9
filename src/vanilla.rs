use vstd::prelude::*;
use crate::game::{Build, Version, same_version, stable_of};
use crate::registry::WarehouseError;

verus! {

/// Classification of a vanilla Minecraft release in the upstream manifest.
#[derive(Debug, Clone, Copy, PartialEq, Eq, Hash, Structural)]
pub enum VersionType {
    Release,
    Snapshot,
    OldBeta,
    OldAlpha,
}

/// How the upstream manifest spells each classification.
pub open spec fn version_type_text(t: VersionType) -> Seq<char> {
    match t {
        VersionType::Release => "release"@,
        VersionType::Snapshot => "snapshot"@,
        VersionType::OldBeta => "old_beta"@,
        VersionType::OldAlpha => "old_alpha"@,
    }
}

/// Reading a manifest classification; anything unrecognised counts as a snapshot.
pub open spec fn parse_type_spec(s: Seq<char>) -> VersionType {
    if s == "release"@ {
        VersionType::Release
    } else if s == "snapshot"@ {
        VersionType::Snapshot
    } else if s == "old_beta"@ {
        VersionType::OldBeta
    } else if s == "old_alpha"@ {
        VersionType::OldAlpha
    } else {
        VersionType::Snapshot
    }
}

impl VersionType {
    /// The manifest spelling of this classification.
    pub fn to_text(&self) -> (r: String)
        ensures
            r@ == version_type_text(*self),
    {
        match self {
            VersionType::Release => String::from_str("release"),
            VersionType::Snapshot => String::from_str("snapshot"),
            VersionType::OldBeta => String::from_str("old_beta"),
            VersionType::OldAlpha => String::from_str("old_alpha"),
        }
    }
}

/// One line of the upstream version manifest: id, classification and the
/// address of the per-version detail document.
#[derive(Debug, Clone)]
pub struct ManifestEntry {
    pub id: String,
    pub version_type: String,
    pub url: String,
}

/// The version a manifest entry describes.
pub open spec fn entry_version_ok(e: ManifestEntry, v: Version) -> bool {
    let t = parse_type_spec(e.version_type@);
    &&& v.id@ == e.id@
    &&& v.version_type@ == version_type_text(t)
    &&& v.is_stable == (t == VersionType::Release)
}

/// For a catalog read from the manifest, keeping the stable versions keeps
/// exactly those classified as releases.
pub proof fn lemma_stable_are_releases(entries: Seq<ManifestEntry>, vs: Seq<Version>)
    requires
        vs.len() == entries.len(),
        forall|i: int| 0 <= i < vs.len() ==> entry_version_ok(#[trigger] entries[i], vs[i]),
    ensures
        forall|i: int| 0 <= i < vs.len() ==> (#[trigger] vs[i].is_stable <==> vs[i].version_type@ == "release"@),
        forall|i: int| 0 <= i < stable_of(vs).len() ==> (#[trigger] stable_of(vs)[i]).version_type@ == "release"@,
{
    reveal_strlit("release");
    reveal_strlit("snapshot");
    reveal_strlit("old_beta");
    reveal_strlit("old_alpha");
    assert forall|i: int| 0 <= i < vs.len() implies (#[trigger] vs[i].is_stable <==> vs[i].version_type@ == "release"@) by {
        let t = parse_type_spec(entries[i].version_type@);
        assert(entry_version_ok(entries[i], vs[i]));
        if t != VersionType::Release {
            assert(version_type_text(t)[0] != "release"@[0] || version_type_text(t).len() != "release"@.len()
                || version_type_text(t)[1] != "release"@[1]);
        }
    }
    let pred = |v: Version| v.is_stable;
    assert(stable_of(vs) == vs.filter(pred));
    assert forall|i: int| 0 <= i < stable_of(vs).len() implies (#[trigger] stable_of(vs)[i]).version_type@ == "release"@ by {
        let v = stable_of(vs)[i];
        vs.lemma_filter_pred(pred, i);
        assert(stable_of(vs).contains(v));
        vs.lemma_filter_contains_rev(pred, v);
        let k = choose|k: int| 0 <= k < vs.len() && vs[k] == v;
        assert(vs[k].is_stable);
    }
}

/// The provider of vanilla server jars, backed by the public version manifest.
#[derive(Debug, Clone, Copy, PartialEq, Eq, Structural, Default)]
pub struct VanillaLoader {}

impl VanillaLoader {
    pub fn new() -> (r: Self) {
        VanillaLoader {}
    }

    pub fn parse_version_type(type_str: &str) -> (r: VersionType)
        ensures
            r == parse_type_spec(type_str@),
    {
        let s = String::from_str(type_str);
        if s == String::from_str("release") {
            VersionType::Release
        } else if s == String::from_str("snapshot") {
            VersionType::Snapshot
        } else if s == String::from_str("old_beta") {
            VersionType::OldBeta
        } else if s == String::from_str("old_alpha") {
            VersionType::OldAlpha
        } else {
            VersionType::Snapshot
        }
    }

    /// The catalog described by a fetched manifest, in manifest order.
    pub fn versions_from_manifest(entries: &Vec<ManifestEntry>) -> (r: Vec<Version>)
        ensures
            r@.len() == entries@.len(),
            forall|i: int| 0 <= i < r@.len() ==> entry_version_ok(#[trigger] entries@[i], r@[i]),
    {
        let mut out: Vec<Version> = Vec::new();
        let mut i: usize = 0;
        while i < entries.len()
            invariant
                i <= entries@.len(),
                out@.len() == i,
                forall|k: int| 0 <= k < i ==> entry_version_ok(#[trigger] entries@[k], out@[k]),
            decreases entries@.len() - i,
        {
            let e = &entries[i];
            let t = VanillaLoader::parse_version_type(e.version_type.as_str());
            let v = Version::new(e.id.clone(), t.to_text(), t == VersionType::Release);
            out.push(v);
            i = i + 1;
        }
        out
    }

    /// Position of the first manifest entry with the given version id.
    pub fn find_entry(entries: &Vec<ManifestEntry>, version_id: &str) -> (r: Option<usize>)
        ensures
            match r {
                Some(i) => i < entries@.len() && entries@[i as int].id@ == version_id@
                    && forall|k: int| 0 <= k < i ==> (#[trigger] entries@[k]).id@ != version_id@,
                None => forall|k: int| 0 <= k < entries@.len() ==> (#[trigger] entries@[k]).id@ != version_id@,
            },
    {
        let wanted = String::from_str(version_id);
        let mut i: usize = 0;
        while i < entries.len()
            invariant
                i <= entries@.len(),
                wanted@ == version_id@,
                forall|k: int| 0 <= k < i ==> (#[trigger] entries@[k]).id@ != version_id@,
            decreases entries@.len() - i,
        {
            if entries[i].id == wanted {
                return Some(i);
            }
            i = i + 1;
        }
        None
    }

    /// The manifest entry of a version, or `UnknownVersion` when the
    /// manifest does not list its id.
    pub fn locate_version(entries: &Vec<ManifestEntry>, version: &Version) -> (r: Result<usize, WarehouseError>)
        ensures
            match r {
                Ok(i) => i < entries@.len() && entries@[i as int].id@ == version.id@
                    && forall|k: int| 0 <= k < i ==> (#[trigger] entries@[k]).id@ != version.id@,
                Err(e) => e == WarehouseError::UnknownVersion
                    && forall|k: int| 0 <= k < entries@.len() ==> (#[trigger] entries@[k]).id@ != version.id@,
            },
    {
        match VanillaLoader::find_entry(entries, version.id()) {
            Some(i) => Ok(i),
            None => Err(WarehouseError::UnknownVersion),
        }
    }

    /// The single build of a version, named after its manifest entry and
    /// pointing at the server artifact from the detail document.
    pub fn builds_for(entry: &ManifestEntry, version: &Version, server_url: String) -> (r: Vec<Build>)
        ensures
            r@.len() == 1,
            r@[0].spec_id() == entry.id@,
            same_version(&r@[0].spec_version(), version),
            r@[0].spec_download_url() == Some(server_url@),
    {
        let b = Build::new(entry.id.clone(), version.duplicate(), Some(server_url));
        let mut out: Vec<Build> = Vec::new();
        out.push(b);
        out
    }
}

} // verus!

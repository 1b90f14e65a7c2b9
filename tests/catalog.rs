use warehouse::config::{default_bind_address, default_cache_ttl, default_log_level, default_storage_path, Settings};
use warehouse::game::{retain_stable, Build, Game, GameLoader, Version};
use warehouse::minecraft::minecraft;
use warehouse::models::{requested_version, ApiResponse, BuildInfo, GameInfo, LoaderInfo, VersionInfo, VersionQuery};
use warehouse::registry::{download_step, select_build, DownloadStep, GameProvider, WarehouseError};
use warehouse::vanilla::{ManifestEntry, VanillaLoader, VersionType};

fn entry(id: &str, t: &str) -> ManifestEntry {
    ManifestEntry { id: id.to_string(), version_type: t.to_string(), url: format!("https://meta/{}.json", id) }
}

fn release(id: &str) -> Version {
    Version::new_standard(id.to_string(), "release".to_string())
}

#[test]
fn new_standard_derives_stability() {
    assert!(release("1.20").is_stable());
    let s = Version::new_standard("24w01a".to_string(), "snapshot".to_string());
    assert!(!s.is_stable());
    assert_eq!(s.version_type(), "snapshot");
    let explicit = Version::new("x".to_string(), "snapshot".to_string(), true);
    assert!(explicit.is_stable());
}

#[test]
fn build_filename_joins_version_and_build() {
    let b = Build::new("b7".to_string(), release("1.20.4"), None);
    assert_eq!(b.filename(), "1.20.4-b7.jar");
    assert_eq!(b.id(), "b7");
    assert_eq!(b.version().id(), "1.20.4");
    assert_eq!(b.download_url(), None);
}

#[test]
fn build_filename_is_deterministic() {
    let a = Build::new("1.20".to_string(), release("1.20"), Some("https://a".to_string()));
    let b = Build::new_standard("1.20".to_string(), Version::new("1.20".to_string(), "snapshot".to_string(), false), None);
    assert_eq!(a.filename(), b.filename());
    assert_eq!(a.filename(), a.filename());
    let c = Build::new("1.21".to_string(), release("1.20"), None);
    assert_ne!(a.filename(), c.filename());
}

#[test]
fn parse_version_type_defaults_to_snapshot() {
    assert_eq!(VanillaLoader::parse_version_type("release"), VersionType::Release);
    assert_eq!(VanillaLoader::parse_version_type("snapshot"), VersionType::Snapshot);
    assert_eq!(VanillaLoader::parse_version_type("old_beta"), VersionType::OldBeta);
    assert_eq!(VanillaLoader::parse_version_type("old_alpha"), VersionType::OldAlpha);
    assert_eq!(VanillaLoader::parse_version_type("experiment"), VersionType::Snapshot);
    assert_eq!(VersionType::OldAlpha.to_text(), "old_alpha");
}

#[test]
fn manifest_maps_to_versions() {
    let entries = vec![entry("1.21", "release"), entry("24w10a", "snapshot"), entry("b1.7", "old_beta"), entry("x", "weird")];
    let vs = VanillaLoader::versions_from_manifest(&entries);
    assert_eq!(vs.len(), 4);
    assert_eq!(vs[0].id(), "1.21");
    assert!(vs[0].is_stable());
    assert_eq!(vs[2].version_type(), "old_beta");
    assert!(!vs[2].is_stable());
    assert_eq!(vs[3].version_type(), "snapshot");
}

#[test]
fn stable_only_keeps_releases() {
    let entries = vec![entry("1.21", "release"), entry("24w10a", "snapshot"), entry("1.20", "release"), entry("a1.0", "old_alpha")];
    let vs = VanillaLoader::versions_from_manifest(&entries);
    let q = VersionQuery { game: "minecraft".to_string(), loader: "vanilla".to_string(), stable_only: true };
    let out = q.select(vs);
    let ids: Vec<&str> = out.iter().map(|v| v.id()).collect();
    assert_eq!(ids, vec!["1.21", "1.20"]);
    assert!(out.iter().all(|v| v.version_type() == "release"));
    let all = VersionQuery { game: "minecraft".to_string(), loader: "vanilla".to_string(), stable_only: false };
    assert_eq!(all.select(VanillaLoader::versions_from_manifest(&entries)).len(), 4);
}

#[test]
fn retain_stable_on_empty() {
    assert!(retain_stable(Vec::new()).is_empty());
}

#[test]
fn latest_stable_is_first_stable() {
    let vs = vec![
        Version::new("s".to_string(), "snapshot".to_string(), false),
        release("1.21"),
        release("1.20"),
    ];
    assert_eq!(GameLoader::get_latest_stable(&vs).unwrap().id(), "1.21");
    assert!(GameLoader::get_latest_stable(&vs[..1].to_vec()).is_none());
}

#[test]
fn unknown_version_is_not_found() {
    let entries = vec![entry("1.21", "release"), entry("1.20", "release")];
    assert_eq!(VanillaLoader::locate_version(&entries, &requested_version(&"9.9".to_string())), Err(WarehouseError::UnknownVersion));
    assert_eq!(VanillaLoader::locate_version(&entries, &requested_version(&"1.20".to_string())), Ok(1));
    assert_eq!(VanillaLoader::find_entry(&entries, "1.21"), Some(0));
}

#[test]
fn vanilla_builds_one_per_version() {
    let e = entry("1.20", "release");
    let bs = VanillaLoader::builds_for(&e, &release("1.20"), "https://example/server.jar".to_string());
    assert_eq!(bs.len(), 1);
    assert_eq!(bs[0].id(), "1.20");
    assert_eq!(bs[0].download_url(), Some("https://example/server.jar"));
}

#[test]
fn provider_resolution() {
    let mut reg = GameProvider::from_settings(&Settings::defaults());
    reg.register_game(minecraft());
    assert!(reg.get_loader("minecraft", "vanilla").is_some());
    assert!(reg.get_loader("unknown", "vanilla").is_none());
    assert!(reg.get_loader("minecraft", "unknown").is_none());
    assert_eq!(reg.get_loader("minecraft", "vanilla").unwrap().name(), "vanilla");
}

#[test]
fn register_game_replaces_same_id() {
    let mut reg = GameProvider::from_settings(&Settings::defaults());
    reg.register_game(minecraft());
    reg.register_game(Game::new("minecraft".to_string()));
    assert_eq!(reg.list_games().len(), 1);
    assert!(reg.get_loader("minecraft", "vanilla").is_none());
    reg.register_game(Game::new("other".to_string()));
    assert_eq!(reg.list_games().len(), 2);
    assert_eq!(reg.get_game("other").unwrap().id(), "other");
    assert!(reg.get_game("none").is_none());
}

#[test]
fn add_loader_replaces_same_name() {
    let mut g = minecraft();
    g.add_loader(GameLoader::Vanilla(VanillaLoader::new()));
    assert_eq!(g.list_loaders().len(), 1);
    assert_eq!(g.id(), "minecraft");
    assert!(g.get_loader("vanilla").is_some());
    assert!(g.get_loader("fabric").is_none());
}

#[test]
fn select_build_cases() {
    let mk = |id: &str| Build::new(id.to_string(), release("1.20"), None);
    assert_eq!(select_build(vec![mk("a"), mk("b")], None).unwrap().id(), "a");
    assert_eq!(select_build(vec![mk("a"), mk("b")], Some("b")).unwrap().id(), "b");
    assert_eq!(select_build(vec![mk("a")], Some("z")).err(), Some(WarehouseError::BuildNotFound));
    assert_eq!(select_build(Vec::new(), None).err(), Some(WarehouseError::NoBuilds));
}

#[test]
fn download_step_cases() {
    let with_url = Build::new("1".to_string(), release("1"), Some("https://example/server.jar".to_string()));
    let without = Build::new("1".to_string(), release("1"), None);
    assert_eq!(download_step(&with_url, true), DownloadStep::ServeCached);
    assert_eq!(download_step(&with_url, false), DownloadStep::Fetch("https://example/server.jar".to_string()));
    assert_eq!(download_step(&without, false), DownloadStep::Fail(WarehouseError::NoDownloadUrl));
}

#[test]
fn settings_defaults() {
    assert_eq!(default_bind_address(), "127.0.0.1:8080");
    assert_eq!(default_storage_path(), "./storage");
    assert_eq!(default_log_level(), "info");
    assert_eq!(default_cache_ttl(), 3600);
    let s = Settings::defaults();
    assert_eq!(s.cache_ttl, 3600);
}

#[test]
fn api_models() {
    let ok = ApiResponse::success(5u32);
    assert!(ok.success);
    assert_eq!(ok.data, Some(5));
    let err: ApiResponse<u32> = ApiResponse::error("boom".to_string());
    assert!(!err.success);
    assert_eq!(err.error.as_deref(), Some("boom"));
    let gi = GameInfo::from_game(&minecraft());
    assert_eq!(gi.id, "minecraft");
    assert_eq!(gi.loaders.len(), 1);
    assert_eq!(gi.loaders[0].website.as_deref(), Some("https://www.minecraft.net"));
    let li = LoaderInfo::from_loader(&GameLoader::Vanilla(VanillaLoader::new()));
    assert_eq!(li.name, "vanilla");
    let b = Build::new("b".to_string(), release("1.2"), Some("u".to_string()));
    let bi = BuildInfo::from_build(&b);
    assert_eq!(bi.version.id, "1.2");
    assert_eq!(bi.download_url.as_deref(), Some("u"));
    let vi = VersionInfo::from_version(&release("1.3"));
    assert!(vi.is_stable);
}

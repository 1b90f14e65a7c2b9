use std::collections::HashMap;
use warehouse::cache::{decode_record, encode_record, is_meta_file, meta_filename, CacheManager, CacheStatus, MAX_TTL_DAYS};
use warehouse::game::Build;
use warehouse::game::Version;
use warehouse::registry::{download_step, DownloadStep};

const DAY: i64 = 86_400_000;

fn cache() -> CacheManager {
    CacheManager::new("./storage".to_string(), 1)
}

#[test]
fn record_is_little_endian_millis() {
    assert_eq!(encode_record(1), vec![1, 0, 0, 0, 0, 0, 0, 0]);
    assert_eq!(encode_record(0x0102), vec![2, 1, 0, 0, 0, 0, 0, 0]);
    assert_eq!(encode_record(-1), vec![255; 8]);
}

#[test]
fn record_round_trips() {
    for t in [0i64, 1, -5, 1_700_000_000_123, i64::MAX, i64::MIN] {
        assert_eq!(decode_record(&encode_record(t)), Some(t));
    }
    assert_eq!(decode_record(&[1, 2, 3]), None);
    let mut long = encode_record(42);
    long.push(9);
    assert_eq!(decode_record(&long), Some(42));
}

#[test]
fn ttl_in_millis() {
    assert_eq!(cache().ttl_millis(), DAY);
    assert_eq!(CacheManager::new("d".to_string(), 0).ttl_millis(), 0);
    assert_eq!(CacheManager::new("d".to_string(), MAX_TTL_DAYS).ttl_millis(), MAX_TTL_DAYS as i64 * DAY);
    assert_eq!(cache().cache_dir(), "./storage");
}

#[test]
fn get_right_after_put_serves() {
    let c = cache();
    let t = 1_700_000_000_000;
    let rec = encode_record(t);
    assert_eq!(c.status_at(true, Some(&rec), t), CacheStatus::Fresh);
}

#[test]
fn get_after_ttl_is_absent() {
    let c = cache();
    let t = 1_700_000_000_000;
    let rec = encode_record(t);
    assert_eq!(c.status_at(true, Some(&rec), t + DAY - 1), CacheStatus::Fresh);
    assert_eq!(c.status_at(true, Some(&rec), t + DAY), CacheStatus::Expired);
    assert_eq!(c.status_at(true, Some(&rec), t + DAY + 1), CacheStatus::Expired);
}

#[test]
fn sliding_expiry_keeps_entry_alive() {
    let c = cache();
    let mut t = 0i64;
    let mut rec = encode_record(t);
    for _ in 0..10 {
        t += DAY - 1;
        assert_eq!(c.status_at(true, Some(&rec), t), CacheStatus::Fresh);
        rec = encode_record(t);
    }
    assert_eq!(c.status_at(true, Some(&rec), t + DAY + 5), CacheStatus::Expired);
}

#[test]
fn torn_pair_is_absent() {
    let c = cache();
    let rec = encode_record(10);
    assert_eq!(c.status_at(false, Some(&rec), 10), CacheStatus::Torn);
    assert_eq!(c.status_at(true, None, 10), CacheStatus::Torn);
    assert_eq!(c.status_at(true, Some(&[1, 2]), 10), CacheStatus::Torn);
    assert_eq!(c.status_at(false, None, 10), CacheStatus::Missing);
}

#[test]
fn lookup_reads_the_clock() {
    let c = cache();
    let (rec, at) = c.fresh_record();
    assert_eq!(decode_record(&rec), Some(at));
    let (status, now) = c.lookup(true, Some(&rec));
    assert!(now >= at);
    assert_eq!(status, CacheStatus::Fresh);
}

#[test]
fn meta_names() {
    assert_eq!(meta_filename("1.20.4-1.20.4.jar"), "1.20.4-1.20.4.meta.bin");
    assert_eq!(meta_filename("plain"), "plain.meta.bin");
    assert_eq!(meta_filename(".hidden"), ".hidden.meta.bin");
    assert!(is_meta_file("a.meta.bin"));
    assert!(!is_meta_file("a.jar"));
    assert!(!is_meta_file("meta.bin"));
}

#[test]
fn sweep_removes_exactly_expired() {
    let c = cache();
    let now = 10 * DAY;
    let names = vec![
        "old.jar".to_string(),
        "old.meta.bin".to_string(),
        "new.jar".to_string(),
        "new.meta.bin".to_string(),
        "edge.jar".to_string(),
        "edge.meta.bin".to_string(),
        "bad.meta.bin".to_string(),
        "orphan.jar".to_string(),
    ];
    let records = vec![
        None,
        Some(encode_record(now - DAY - 1)),
        None,
        Some(encode_record(now - 5)),
        None,
        Some(encode_record(now - DAY)),
        Some(vec![1, 2, 3]),
        None,
    ];
    let plan = c.sweep_plan(&names, &records, now);
    assert_eq!(plan, vec![true, true, false, false, false, false, false, false]);
}

#[test]
fn sweep_of_empty_namespace() {
    assert!(cache().sweep_plan(&Vec::new(), &Vec::new(), 0).is_empty());
}

/// An in-memory stand-in for the disk and the upstream, counting fetches.
struct Double {
    files: HashMap<String, Vec<u8>>,
    fetches: usize,
}

impl Double {
    fn download(&mut self, c: &CacheManager, build: &Build, now: i64) -> Vec<u8> {
        let name = build.filename();
        let meta = meta_filename(&name);
        let blob_present = self.files.contains_key(&name);
        let record = self.files.get(&meta).cloned();
        let status = c.status_at(blob_present, record.as_deref(), now);
        if status == CacheStatus::Fresh {
            self.files.insert(meta.clone(), encode_record(now));
        }
        match download_step(build, status == CacheStatus::Fresh) {
            DownloadStep::ServeCached => self.files[&name].clone(),
            DownloadStep::Fetch(url) => {
                assert_eq!(url, "https://example/server.jar");
                self.fetches += 1;
                let bytes = b"server-jar-bytes".to_vec();
                self.files.insert(name, bytes.clone());
                self.files.insert(meta, encode_record(now));
                bytes
            }
            DownloadStep::Fail(e) => panic!("{:?}", e),
        }
    }
}

#[test]
fn second_download_is_served_from_cache() {
    let c = cache();
    let v = Version::new_standard("1.20".to_string(), "release".to_string());
    let build = Build::new("1.20".to_string(), v, Some("https://example/server.jar".to_string()));
    let mut d = Double { files: HashMap::new(), fetches: 0 };
    let first = d.download(&c, &build, 1000);
    assert_eq!(d.fetches, 1);
    assert_eq!(d.files.len(), 2);
    let second = d.download(&c, &build, 2000);
    assert_eq!(d.fetches, 1);
    assert_eq!(first, second);
    let third = d.download(&c, &build, 2000 + DAY);
    assert_eq!(d.fetches, 2);
    assert_eq!(third, first);
}

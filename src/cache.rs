use vstd::prelude::*;

verus! {

/// Milliseconds in a day.
pub const MILLIS_PER_DAY: i64 = 86_400_000;

/// The longest time-to-live in days, so that it fits in signed milliseconds.
pub const MAX_TTL_DAYS: u64 = 106_751_991_167;

/// Suffix of the metadata file that accompanies each cached blob.
pub open spec fn meta_suffix() -> Seq<char> {
    ".meta.bin"@
}

/// The metadata record of an entry last accessed at `t` (milliseconds since
/// the epoch): the eight little-endian bytes of `t`.
pub open spec fn record_bytes(t: i64) -> Seq<u8> {
    let x = t as u64;
    seq![
        x as u8,
        (x >> 8u64) as u8,
        (x >> 16u64) as u8,
        (x >> 24u64) as u8,
        (x >> 32u64) as u8,
        (x >> 40u64) as u8,
        (x >> 48u64) as u8,
        (x >> 56u64) as u8,
    ]
}

/// The access time held by a metadata file's contents, if they hold one.
pub open spec fn record_time(m: Seq<u8>) -> Option<i64> {
    if m.len() >= 8 {
        Some(choose|t: i64| record_bytes(t) == m.subrange(0, 8))
    } else {
        None
    }
}

/// Distinct access times have distinct records.
pub proof fn lemma_record_bytes_injective(a: i64, b: i64)
    requires
        record_bytes(a) == record_bytes(b),
    ensures
        a == b,
{
    let x = a as u64;
    let y = b as u64;
    assert(record_bytes(a)[0] == record_bytes(b)[0]);
    assert(record_bytes(a)[1] == record_bytes(b)[1]);
    assert(record_bytes(a)[2] == record_bytes(b)[2]);
    assert(record_bytes(a)[3] == record_bytes(b)[3]);
    assert(record_bytes(a)[4] == record_bytes(b)[4]);
    assert(record_bytes(a)[5] == record_bytes(b)[5]);
    assert(record_bytes(a)[6] == record_bytes(b)[6]);
    assert(record_bytes(a)[7] == record_bytes(b)[7]);
    assert(x == y) by (bit_vector)
        requires
            x as u8 == y as u8,
            (x >> 8u64) as u8 == (y >> 8u64) as u8,
            (x >> 16u64) as u8 == (y >> 16u64) as u8,
            (x >> 24u64) as u8 == (y >> 24u64) as u8,
            (x >> 32u64) as u8 == (y >> 32u64) as u8,
            (x >> 40u64) as u8 == (y >> 40u64) as u8,
            (x >> 48u64) as u8 == (y >> 48u64) as u8,
            (x >> 56u64) as u8 == (y >> 56u64) as u8,
    ;
    assert(a == b) by (bit_vector)
        requires
            a as u64 == b as u64,
    ;
}

/// A written record reads back as the time it was written with.
pub proof fn lemma_record_round_trip(t: i64)
    ensures
        record_time(record_bytes(t)) == Some(t),
{
    let m = record_bytes(t);
    assert(m.subrange(0, 8) =~= m);
    let c = choose|c: i64| record_bytes(c) == m.subrange(0, 8);
    assert(record_bytes(t) == m.subrange(0, 8));
    lemma_record_bytes_injective(c, t);
}

/// Relies on bincode::serialize with its default options (fixed-width
/// little-endian integers, no size limit): an `i64` becomes its eight
/// little-endian bytes, and writing into a `Vec` cannot fail.
#[verifier::external_body]
fn serialize_time(t: i64) -> (r: Vec<u8>)
    ensures
        r@ == record_bytes(t),
{
    bincode::serialize(&t).unwrap_or_default()
}

/// Relies on bincode::deserialize with its default options: an `i64` is read
/// from the first eight bytes, little-endian, trailing bytes allowed; fewer
/// than eight bytes is an error.
#[verifier::external_body]
fn deserialize_time(b: &[u8]) -> (r: Option<i64>)
    ensures
        r is Some <==> b@.len() >= 8,
        r matches Some(t) ==> record_bytes(t) == b@.subrange(0, 8),
{
    bincode::deserialize::<i64>(b).ok()
}

/// Relies on chrono::Utc::now, read as milliseconds since the Unix epoch.
#[verifier::external_body]
fn clock_millis() -> (r: i64) {
    chrono::Utc::now().timestamp_millis()
}

/// The metadata record for an access at `accessed`.
pub fn encode_record(accessed: i64) -> (r: Vec<u8>)
    ensures
        r@ == record_bytes(accessed),
{
    serialize_time(accessed)
}

/// The access time stored in a metadata file's contents.
pub fn decode_record(bytes: &[u8]) -> (r: Option<i64>)
    ensures
        r == record_time(bytes@),
{
    let r = deserialize_time(bytes);
    proof {
        if let Some(t) = r {
            let c = choose|c: i64| record_bytes(c) == bytes@.subrange(0, 8);
            lemma_record_bytes_injective(c, t);
        }
    }
    r
}

/// What a lookup finds on disk for a key.
#[derive(Debug, Clone, Copy, PartialEq, Eq, Structural)]
pub enum CacheStatus {
    /// Blob and record present, accessed less than the time-to-live ago:
    /// refresh the record and serve the blob.
    Fresh,
    /// Blob and record present but too old: delete both, report absent.
    Expired,
    /// Only one of the two files, or an unreadable record: delete what is
    /// there, report absent.
    Torn,
    /// Neither file: report absent.
    Missing,
}

/// The lookup verdict for a key, from whether its blob exists, the contents
/// of its metadata file if that exists, the time now and the time-to-live.
pub open spec fn status_of(blob: bool, meta: Option<Seq<u8>>, now: int, ttl: int) -> CacheStatus {
    match meta {
        None => if blob { CacheStatus::Torn } else { CacheStatus::Missing },
        Some(m) => if !blob {
            CacheStatus::Torn
        } else {
            match record_time(m) {
                None => CacheStatus::Torn,
                Some(a) => if now - a < ttl { CacheStatus::Fresh } else { CacheStatus::Expired },
            }
        },
    }
}

/// Whether a lookup serves a blob.
pub open spec fn serves(s: CacheStatus) -> bool {
    s == CacheStatus::Fresh
}

pub open spec fn bytes_view(o: Option<&[u8]>) -> Option<Seq<u8>> {
    match o {
        Some(b) => Some(b@),
        None => None,
    }
}

pub open spec fn record_view(o: Option<Vec<u8>>) -> Option<Seq<u8>> {
    match o {
        Some(b) => Some(b@),
        None => None,
    }
}

/// Whether a sweep at `now` reclaims an entry with these metadata contents:
/// only a readable record older than the time-to-live.
pub open spec fn record_expired(rec: Option<Seq<u8>>, now: int, ttl: int) -> bool {
    match rec {
        Some(m) => match record_time(m) {
            Some(a) => now - a > ttl,
            None => false,
        },
        None => false,
    }
}

/// Position of the last `.` of a file name, or -1.
pub open spec fn last_dot(s: Seq<char>) -> int
    decreases s.len(),
{
    if s.len() == 0 {
        -1
    } else if s.last() == '.' {
        s.len() - 1
    } else {
        last_dot(s.drop_last())
    }
}

/// A file name without its extension; a leading dot starts no extension.
pub open spec fn file_stem(s: Seq<char>) -> Seq<char> {
    if last_dot(s) > 0 {
        s.subrange(0, last_dot(s))
    } else {
        s
    }
}

/// The name of the metadata file that belongs to a blob.
pub open spec fn meta_name_of(blob: Seq<char>) -> Seq<char> {
    file_stem(blob) + meta_suffix()
}

/// Whether a file name is that of a metadata file.
pub open spec fn is_meta_name(s: Seq<char>) -> bool {
    s.len() >= meta_suffix().len() && s.subrange(s.len() - meta_suffix().len(), s.len() as int) == meta_suffix()
}

/// The name of the metadata file that belongs to the blob `filename`.
pub fn meta_filename(filename: &str) -> (r: String)
    ensures
        r@ == meta_name_of(filename@),
{
    let n = filename.unicode_len();
    let mut i: usize = n;
    let mut found = false;
    proof {
        assert(filename@.subrange(0, n as int) =~= filename@);
    }
    while i > 0 && !found
        invariant
            i <= n,
            n == filename@.len(),
            !found ==> last_dot(filename@) == last_dot(filename@.subrange(0, i as int)),
            found ==> i >= 1 && last_dot(filename@) == i - 1,
        decreases i + (if found { 0int } else { 1int }),
    {
        let ghost p = filename@.subrange(0, i as int);
        if filename.get_char(i - 1) == '.' {
            proof {
                assert(p.last() == '.');
                assert(last_dot(p) == i - 1);
            }
            found = true;
        } else {
            proof {
                assert(p.drop_last() =~= filename@.subrange(0, i - 1));
            }
            i = i - 1;
        }
    }
    proof {
        if !found {
            assert(filename@.subrange(0, 0) =~= Seq::<char>::empty());
            assert(last_dot(Seq::<char>::empty()) == -1);
        }
        assert(filename@.subrange(0, filename@.len() as int) =~= filename@);
    }
    let mut out = if found && i > 1 {
        String::from_str(filename.substring_char(0, i - 1))
    } else {
        String::from_str(filename)
    };
    out.append(".meta.bin");
    out
}

/// Whether `name` is the name of a metadata file.
pub fn is_meta_file(name: &str) -> (r: bool)
    ensures
        r == is_meta_name(name@),
{
    proof {
        reveal_strlit(".meta.bin");
    }
    let n = name.unicode_len();
    if n < 9 {
        return false;
    }
    let tail = String::from_str(name.substring_char(n - 9, n));
    tail == String::from_str(".meta.bin")
}


/// Whether the sweep of a namespace listing reclaims the file at `i`: a
/// metadata file with an expired record, or a blob whose metadata file in the
/// same listing has one.
pub open spec fn sweep_removes(names: Seq<Seq<char>>, recs: Seq<Option<Seq<u8>>>, i: int, now: int, ttl: int) -> bool {
    if is_meta_name(names[i]) {
        record_expired(recs[i], now, ttl)
    } else {
        exists|j: int|
            0 <= j < names.len() && #[trigger] names[j] == meta_name_of(names[i])
                && record_expired(recs[j], now, ttl)
    }
}

pub open spec fn names_view(names: Seq<String>) -> Seq<Seq<char>> {
    names.map_values(|s: String| s@)
}

pub open spec fn records_view(recs: Seq<Option<Vec<u8>>>) -> Seq<Option<Seq<u8>>> {
    recs.map_values(|o: Option<Vec<u8>>| record_view(o))
}

/// The disk cache's settings: where it lives and how long an unaccessed
/// entry stays, in milliseconds.
#[derive(Debug, Clone)]
pub struct CacheManager {
    cache_dir: String,
    ttl: i64,
}

impl CacheManager {
    pub closed spec fn spec_dir(&self) -> Seq<char> {
        self.cache_dir@
    }

    pub closed spec fn spec_ttl(&self) -> int {
        self.ttl as int
    }

    /// A cache under `cache_dir` whose entries live `ttl_days` days past their
    /// last access.
    pub fn new(cache_dir: String, ttl_days: u64) -> (r: Self)
        requires
            ttl_days <= MAX_TTL_DAYS,
        ensures
            r.spec_dir() == cache_dir@,
            r.spec_ttl() == ttl_days * MILLIS_PER_DAY,
    {
        let ttl = (ttl_days as i64) * MILLIS_PER_DAY;
        CacheManager { cache_dir, ttl }
    }

    pub fn cache_dir(&self) -> (r: &str)
        ensures
            r@ == self.spec_dir(),
    {
        self.cache_dir.as_str()
    }

    /// The time-to-live in milliseconds.
    pub fn ttl_millis(&self) -> (r: i64)
        ensures
            r == self.spec_ttl(),
    {
        self.ttl
    }

    /// The lookup verdict at time `now` for a key whose blob does or does not
    /// exist and whose metadata file holds `meta`, if it exists.
    pub fn status_at(&self, blob_present: bool, meta: Option<&[u8]>, now: i64) -> (r: CacheStatus)
        ensures
            r == status_of(blob_present, bytes_view(meta), now as int, self.spec_ttl()),
    {
        match meta {
            None => if blob_present { CacheStatus::Torn } else { CacheStatus::Missing },
            Some(m) => {
                if !blob_present {
                    CacheStatus::Torn
                } else {
                    match decode_record(m) {
                        None => CacheStatus::Torn,
                        Some(a) => {
                            if (now as i128) - (a as i128) < (self.ttl as i128) {
                                CacheStatus::Fresh
                            } else {
                                CacheStatus::Expired
                            }
                        },
                    }
                }
            },
        }
    }

    /// The lookup verdict now, with the instant it was taken (to stamp the
    /// refreshed record on a hit).
    pub fn lookup(&self, blob_present: bool, meta: Option<&[u8]>) -> (r: (CacheStatus, i64))
        ensures
            r.0 == status_of(blob_present, bytes_view(meta), r.1 as int, self.spec_ttl()),
    {
        let now = clock_millis();
        (self.status_at(blob_present, meta, now), now)
    }

    /// The record to write when an entry is stored or served now, with the
    /// instant it holds.
    pub fn fresh_record(&self) -> (r: (Vec<u8>, i64))
        ensures
            r.0@ == record_bytes(r.1),
    {
        let now = clock_millis();
        (encode_record(now), now)
    }

    /// Whether a sweep at `now` reclaims an entry whose metadata file holds `rec`.
    pub fn is_expired_record(&self, rec: &Option<Vec<u8>>, now: i64) -> (r: bool)
        ensures
            r == record_expired(record_view(*rec), now as int, self.spec_ttl()),
    {
        match rec {
            None => false,
            Some(m) => match decode_record(m.as_slice()) {
                None => false,
                Some(a) => (now as i128) - (a as i128) > (self.ttl as i128),
            },
        }
    }

    /// Which files of one namespace a sweep at `now` deletes. `names` lists the
    /// namespace's files; `records[i]` holds the contents of `names[i]` where it
    /// is a metadata file that could be read. An entry is reclaimed, blob and
    /// metadata together, exactly when its record is older than the
    /// time-to-live; an unreadable record is left alone.
    pub fn sweep_plan(&self, names: &Vec<String>, records: &Vec<Option<Vec<u8>>>, now: i64) -> (r: Vec<bool>)
        requires
            names@.len() == records@.len(),
        ensures
            r@.len() == names@.len(),
            forall|i: int| 0 <= i < r@.len() ==> #[trigger] r@[i] == sweep_removes(
                names_view(names@), records_view(records@), i, now as int, self.spec_ttl()),
    {
        let ghost nv = names_view(names@);
        let ghost rv = records_view(records@);
        let mut out: Vec<bool> = Vec::new();
        let mut i: usize = 0;
        while i < names.len()
            invariant
                i <= names@.len(),
                names@.len() == records@.len(),
                nv == names_view(names@),
                rv == records_view(records@),
                out@.len() == i,
                forall|k: int| 0 <= k < i ==> #[trigger] out@[k] == sweep_removes(nv, rv, k, now as int, self.spec_ttl()),
            decreases names@.len() - i,
        {
            let name = names[i].as_str();
            let remove = if is_meta_file(name) {
                self.is_expired_record(&records[i], now)
            } else {
                let wanted = meta_filename(name);
                let mut hit = false;
                let mut j: usize = 0;
                while j < names.len()
                    invariant
                        i < names@.len(),
                        j <= names@.len(),
                        names@.len() == records@.len(),
                        nv == names_view(names@),
                        rv == records_view(records@),
                        wanted@ == meta_name_of(nv[i as int]),
                        hit == exists|k: int| 0 <= k < j && #[trigger] nv[k] == meta_name_of(nv[i as int])
                            && record_expired(rv[k], now as int, self.spec_ttl()),
                    decreases names@.len() - j,
                {
                    proof {
                        assert(nv[j as int] == names@[j as int]@);
                        assert(rv[j as int] == record_view(records@[j as int]));
                    }
                    let ghost old_hit = hit;
                    if names[j] == wanted && self.is_expired_record(&records[j], now) {
                        hit = true;
                    }
                    proof {
                        if hit && !old_hit {
                            assert(nv[j as int] == meta_name_of(nv[i as int]));
                        }
                        if !hit {
                            assert forall|k: int| 0 <= k < j + 1 implies !(#[trigger] nv[k] == meta_name_of(nv[i as int])
                                && record_expired(rv[k], now as int, self.spec_ttl())) by {
                            }
                        }
                    }
                    j = j + 1;
                }
                hit
            };
            proof {
                assert(nv[i as int] == names@[i as int]@);
                assert(rv[i as int] == record_view(records@[i as int]));
            }
            out.push(remove);
            i = i + 1;
        }
        out
    }
}

/// Storing an entry and reading it back at once serves it (given a positive
/// time-to-live); read back once the time-to-live has passed without an
/// access, it is gone.
pub proof fn lemma_get_after_put(t: i64, later: int, ttl: int)
    ensures
        ttl > 0 ==> status_of(true, Some(record_bytes(t)), t as int, ttl) == CacheStatus::Fresh,
        later - t >= ttl ==> status_of(true, Some(record_bytes(t)), later, ttl) == CacheStatus::Expired,
{
    lemma_record_round_trip(t);
}

/// Accesses spaced less than the time-to-live apart, each rewriting the record
/// with its own instant, all find the entry fresh; an entry last accessed at
/// `times[0]` is expired at any instant past `times[0] + ttl`.
pub proof fn lemma_sliding_expiry(times: Seq<i64>, ttl: int, query: int)
    requires
        times.len() > 0,
        forall|i: int| 0 < i < times.len() ==> #[trigger] times[i] - times[i - 1] < ttl,
    ensures
        forall|i: int| 0 < i < times.len() ==>
            status_of(true, Some(record_bytes(#[trigger] times[i - 1])), times[i] as int, ttl) == CacheStatus::Fresh,
        query > times[0] + ttl ==> status_of(true, Some(record_bytes(times[0])), query, ttl) == CacheStatus::Expired,
{
    assert forall|i: int| 0 < i < times.len() implies
        status_of(true, Some(record_bytes(#[trigger] times[i - 1])), times[i] as int, ttl) == CacheStatus::Fresh by {
        lemma_record_round_trip(times[i - 1]);
    }
    lemma_record_round_trip(times[0]);
}

/// A sweep reclaims an entry exactly when its last access lies more than the
/// time-to-live in the past: the metadata file at `m` holding access time `a`
/// is removed iff `now - a > ttl`, and so is the blob at `b` that it belongs to
/// (file names in a listing being distinct).
pub proof fn lemma_sweep_completeness(
    names: Seq<Seq<char>>,
    recs: Seq<Option<Seq<u8>>>,
    b: int,
    m: int,
    a: i64,
    now: int,
    ttl: int,
)
    requires
        names.len() == recs.len(),
        forall|i: int, j: int| 0 <= i < names.len() && 0 <= j < names.len() && i != j ==> names[i] != names[j],
        0 <= b < names.len(),
        0 <= m < names.len(),
        !is_meta_name(names[b]),
        names[m] == meta_name_of(names[b]),
        recs[m] matches Some(r) && record_time(r) == Some(a),
    ensures
        sweep_removes(names, recs, m, now, ttl) <==> now - a > ttl,
        sweep_removes(names, recs, b, now, ttl) <==> now - a > ttl,
{
    let suffix = meta_suffix();
    let mn = names[m];
    assert(mn == file_stem(names[b]) + suffix);
    assert(mn.subrange(mn.len() - suffix.len(), mn.len() as int) =~= suffix);
    assert(is_meta_name(mn));
    if sweep_removes(names, recs, b, now, ttl) {
        let j = choose|j: int| 0 <= j < names.len() && #[trigger] names[j] == meta_name_of(names[b])
            && record_expired(recs[j], now, ttl);
        assert(j == m);
    }
    if now - a > ttl {
        assert(names[m] == meta_name_of(names[b]) && record_expired(recs[m], now, ttl));
    }
}

/// A key with only one of its two files is reported absent, never as an
/// error, and marked for cleanup.
pub proof fn lemma_torn_pair_absent(meta: Seq<u8>, now: int, ttl: int)
    ensures
        status_of(true, None, now, ttl) == CacheStatus::Torn,
        status_of(false, Some(meta), now, ttl) == CacheStatus::Torn,
        !serves(status_of(true, None, now, ttl)),
        !serves(status_of(false, Some(meta), now, ttl)),
{
}

} // verus!
